//! `num_bigint::BigUint` as a [`Number`].
//!
//! The type is declared to the verifier, its value is given a name, and each
//! operation that the kernels use is called in a function of its own whose
//! contract is taken on trust.

use crate::number::Number;
use crate::radix::{decimal_digits, hex_digits};
use vstd::arithmetic::power::pow;
use vstd::prelude::*;

verus! {

/// `num_bigint::BigUint`, of which the verifier sees nothing but the name.
#[verifier::external_type_specification]
#[verifier::external_body]
pub struct ExBigUint(num_bigint::BigUint);

/// The natural number that a `num_bigint::BigUint` holds.
pub uninterp spec fn biguint_value(x: num_bigint::BigUint) -> nat;

/// `impl From<u32> for BigUint`: the number equal to `u`.
#[verifier::external_body]
fn biguint_from_u32(u: u32) -> (r: num_bigint::BigUint)
    ensures
        biguint_value(r) == u,
{
    num_bigint::BigUint::from(u)
}

/// `impl Add<BigUint> for BigUint`: the sum.
#[verifier::external_body]
fn biguint_add(x: num_bigint::BigUint, y: num_bigint::BigUint) -> (r: num_bigint::BigUint)
    ensures
        biguint_value(r) == biguint_value(x) + biguint_value(y),
{
    x + y
}

/// `impl Add<&BigUint> for BigUint`: the sum.
#[verifier::external_body]
fn biguint_add_ref(x: num_bigint::BigUint, y: &num_bigint::BigUint) -> (r: num_bigint::BigUint)
    ensures
        biguint_value(r) == biguint_value(x) + biguint_value(*y),
{
    x + y
}

/// `impl Sub<&BigUint> for BigUint`: the difference. It panics where that
/// would be negative.
#[verifier::external_body]
fn biguint_sub_ref(x: num_bigint::BigUint, y: &num_bigint::BigUint) -> (r: num_bigint::BigUint)
    requires
        biguint_value(x) >= biguint_value(*y),
    ensures
        biguint_value(r) == biguint_value(x) - biguint_value(*y),
{
    x - y
}

/// `impl Mul<BigUint> for BigUint`: the product.
#[verifier::external_body]
fn biguint_mul(x: num_bigint::BigUint, y: num_bigint::BigUint) -> (r: num_bigint::BigUint)
    ensures
        biguint_value(r) == biguint_value(x) * biguint_value(y),
{
    x * y
}

/// `impl Mul<&BigUint> for BigUint`: the product.
#[verifier::external_body]
fn biguint_mul_by_ref(x: num_bigint::BigUint, y: &num_bigint::BigUint) -> (r: num_bigint::BigUint)
    ensures
        biguint_value(r) == biguint_value(x) * biguint_value(*y),
{
    x * y
}

/// `impl Mul<&BigUint> for &BigUint`: the product.
#[verifier::external_body]
fn biguint_mul_ref(x: &num_bigint::BigUint, y: &num_bigint::BigUint) -> (r: num_bigint::BigUint)
    ensures
        biguint_value(r) == biguint_value(*x) * biguint_value(*y),
{
    x * y
}

/// `impl Div<BigUint> for BigUint`: the quotient, rounded down. It panics on
/// a zero divisor.
#[verifier::external_body]
fn biguint_div(x: num_bigint::BigUint, y: num_bigint::BigUint) -> (r: num_bigint::BigUint)
    requires
        biguint_value(y) > 0,
    ensures
        biguint_value(r) == biguint_value(x) / biguint_value(y),
{
    x / y
}

/// `BigUint::pow`: the power.
#[verifier::external_body]
fn biguint_pow(x: &num_bigint::BigUint, exp: u32) -> (r: num_bigint::BigUint)
    ensures
        biguint_value(r) == pow(biguint_value(*x) as int, exp as nat),
{
    x.pow(exp)
}

/// `to_string` by `impl Display for BigUint`: the decimal digits and nothing else.
#[verifier::external_body]
fn biguint_to_decimal(x: &num_bigint::BigUint) -> (r: String)
    ensures
        r@ == decimal_digits(biguint_value(*x)),
{
    x.to_string()
}

/// `impl LowerHex for BigUint`, without flags: the lowercase
/// hexadecimal digits and nothing else.
#[verifier::external_body]
fn biguint_to_hex(x: &num_bigint::BigUint) -> (r: String)
    ensures
        r@ == hex_digits(biguint_value(*x)),
{
    format!("{:x}", x)
}

impl Number for num_bigint::BigUint {
    open spec fn value(&self) -> int {
        biguint_value(*self) as int
    }

    fn from_small(u: u32) -> (r: Self) {
        biguint_from_u32(u)
    }

    fn add(self, rhs: Self) -> (r: Self) {
        biguint_add(self, rhs)
    }

    fn add_ref(self, rhs: &Self) -> (r: Self) {
        biguint_add_ref(self, rhs)
    }

    fn sub_ref(self, rhs: &Self) -> (r: Self) {
        biguint_sub_ref(self, rhs)
    }

    fn mul(self, rhs: Self) -> (r: Self) {
        biguint_mul(self, rhs)
    }

    fn mul_by_ref(self, rhs: &Self) -> (r: Self) {
        biguint_mul_by_ref(self, rhs)
    }

    fn mul_ref(&self, rhs: &Self) -> (r: Self) {
        biguint_mul_ref(self, rhs)
    }

    fn div(self, rhs: Self) -> (r: Self) {
        biguint_div(self, rhs)
    }

    fn pow(&self, exp: u32) -> (r: Self) {
        biguint_pow(self, exp)
    }

    fn to_decimal(&self) -> (r: String) {
        biguint_to_decimal(self)
    }

    fn to_hex(&self) -> (r: String) {
        biguint_to_hex(self)
    }
}

} // verus!
