//! Two numeric kernels for comparing arbitrary-precision integer libraries:
//! the decimal expansion of Euler's number by binary splitting, and Fibonacci
//! numbers by fast doubling. Both are written once, against the
//! [`number::Number`] capability set, and proved to return the same digit
//! string whichever library does the arithmetic.
//!
//! - [`number`]: the capability set, and `ibig`, `num-bigint`, `rug`,
//!   `malachite` and `dashu` as suppliers of it.
//! - [`radix`]: what the digit string of a number is.
//! - [`digits_of_e`] and [`term_count`]: the digits of e.
//! - [`fib`]: Fibonacci numbers.
//! - [`task`]: running a kernel by name.
//! - [`benchmark`]: the decisions of a benchmark run.

pub mod benchmark;
pub mod digits_of_e;
pub mod fib;
pub mod number;
pub mod radix;
pub mod task;
pub mod term_count;
