[package]
name = "bigint_benchmark"
version = "0.1.0"
edition = "2021"
publish = false

[dependencies]
clap = { version = "=4.6.7", features = ["cargo"] }
dashu = "=0.6.2"
gmp-mpfr-sys = { version = "1", default-features = false, features = ["use-system-libs"] }
ibig = "=0.3.6"
malachite = "=0.14.0"
num-bigint = "=0.5.1"
rug = { version = "=1.19.2", default-features = false, features = ["integer"] }
