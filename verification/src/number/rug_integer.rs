//! `rug::Integer` as a [`Number`].
//!
//! The type is declared to the verifier, its value is given a name, and each
//! operation that the kernels use is called in a function of its own whose
//! contract is taken on trust.

use crate::number::Number;
use crate::radix::{decimal_digits, hex_digits};
use vstd::arithmetic::power::pow;
use vstd::prelude::*;

verus! {

/// `rug::Integer`, of which the verifier sees nothing but the name.
#[verifier::external_type_specification]
#[verifier::external_body]
pub struct ExInteger(rug::Integer);

/// The integer that a `rug::Integer` holds.
pub uninterp spec fn integer_value(x: rug::Integer) -> int;

/// `impl From<u32> for Integer`: the number equal to `u`.
#[verifier::external_body]
fn integer_from_u32(u: u32) -> (r: rug::Integer)
    ensures
        integer_value(r) == u,
{
    rug::Integer::from(u)
}

/// `impl Add<Integer> for Integer`: the sum.
#[verifier::external_body]
fn integer_add(x: rug::Integer, y: rug::Integer) -> (r: rug::Integer)
    ensures
        integer_value(r) == integer_value(x) + integer_value(y),
{
    x + y
}

/// `impl Add<&Integer> for Integer`: the sum.
#[verifier::external_body]
fn integer_add_ref(x: rug::Integer, y: &rug::Integer) -> (r: rug::Integer)
    ensures
        integer_value(r) == integer_value(x) + integer_value(*y),
{
    x + y
}

/// `impl Sub<&Integer> for Integer`: the difference.
#[verifier::external_body]
fn integer_sub_ref(x: rug::Integer, y: &rug::Integer) -> (r: rug::Integer)
    ensures
        integer_value(r) == integer_value(x) - integer_value(*y),
{
    x - y
}

/// `impl Mul<Integer> for Integer`: the product.
#[verifier::external_body]
fn integer_mul(x: rug::Integer, y: rug::Integer) -> (r: rug::Integer)
    ensures
        integer_value(r) == integer_value(x) * integer_value(y),
{
    x * y
}

/// `impl Mul<&Integer> for Integer`: the product.
#[verifier::external_body]
fn integer_mul_by_ref(x: rug::Integer, y: &rug::Integer) -> (r: rug::Integer)
    ensures
        integer_value(r) == integer_value(x) * integer_value(*y),
{
    x * y
}

/// `impl Mul<&Integer> for &Integer`, completed by `Integer::from`: the product.
#[verifier::external_body]
fn integer_mul_ref(x: &rug::Integer, y: &rug::Integer) -> (r: rug::Integer)
    ensures
        integer_value(r) == integer_value(*x) * integer_value(*y),
{
    rug::Integer::from(x * y)
}

/// `impl Div<Integer> for Integer`: the quotient, rounded towards
/// zero; with a dividend that is not negative and a positive divisor, that is
/// rounded down. It panics on a zero divisor.
#[verifier::external_body]
fn integer_div(x: rug::Integer, y: rug::Integer) -> (r: rug::Integer)
    requires
        integer_value(x) >= 0,
        integer_value(y) > 0,
    ensures
        integer_value(r) == integer_value(x) / integer_value(y),
{
    x / y
}

/// `impl Pow<u32> for &Integer`, completed by `Integer::from`: the power.
#[verifier::external_body]
fn integer_pow(x: &rug::Integer, exp: u32) -> (r: rug::Integer)
    ensures
        integer_value(r) == pow(integer_value(*x), exp as nat),
{
    rug::Integer::from(rug::ops::Pow::pow(x, exp))
}

/// `to_string` by `impl Display for Integer`: for a number that is not
/// negative, the decimal digits and nothing else.
#[verifier::external_body]
fn integer_to_decimal(x: &rug::Integer) -> (r: String)
    requires
        integer_value(*x) >= 0,
    ensures
        r@ == decimal_digits(integer_value(*x) as nat),
{
    x.to_string()
}

/// `impl LowerHex for Integer`, without flags: for a number that is
/// not negative, the lowercase hexadecimal digits and nothing else.
#[verifier::external_body]
fn integer_to_hex(x: &rug::Integer) -> (r: String)
    requires
        integer_value(*x) >= 0,
    ensures
        r@ == hex_digits(integer_value(*x) as nat),
{
    format!("{:x}", x)
}

impl Number for rug::Integer {
    open spec fn value(&self) -> int {
        integer_value(*self)
    }

    fn from_small(u: u32) -> (r: Self) {
        integer_from_u32(u)
    }

    fn add(self, rhs: Self) -> (r: Self) {
        integer_add(self, rhs)
    }

    fn add_ref(self, rhs: &Self) -> (r: Self) {
        integer_add_ref(self, rhs)
    }

    fn sub_ref(self, rhs: &Self) -> (r: Self) {
        integer_sub_ref(self, rhs)
    }

    fn mul(self, rhs: Self) -> (r: Self) {
        integer_mul(self, rhs)
    }

    fn mul_by_ref(self, rhs: &Self) -> (r: Self) {
        integer_mul_by_ref(self, rhs)
    }

    fn mul_ref(&self, rhs: &Self) -> (r: Self) {
        integer_mul_ref(self, rhs)
    }

    fn div(self, rhs: Self) -> (r: Self) {
        integer_div(self, rhs)
    }

    fn pow(&self, exp: u32) -> (r: Self) {
        integer_pow(self, exp)
    }

    fn to_decimal(&self) -> (r: String) {
        integer_to_decimal(self)
    }

    fn to_hex(&self) -> (r: String) {
        integer_to_hex(self)
    }
}

} // verus!
