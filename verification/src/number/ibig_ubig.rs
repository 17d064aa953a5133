//! `ibig::UBig` as a [`Number`].
//!
//! The type is declared to the verifier, its value is given a name, and each
//! operation that the kernels use is called in a function of its own whose
//! contract is taken on trust.

use crate::number::Number;
use crate::radix::{decimal_digits, hex_digits};
use vstd::arithmetic::power::pow;
use vstd::prelude::*;

verus! {

/// `ibig::UBig`, of which the verifier sees nothing but the name.
#[verifier::external_type_specification]
#[verifier::external_body]
pub struct ExIbigUBig(ibig::UBig);

/// The natural number that an `ibig::UBig` holds.
pub uninterp spec fn ubig_value(x: ibig::UBig) -> nat;

/// `impl From<u32> for UBig`: the number equal to `u`.
#[verifier::external_body]
fn ubig_from_u32(u: u32) -> (r: ibig::UBig)
    ensures
        ubig_value(r) == u,
{
    ibig::UBig::from(u)
}

/// `impl Add<UBig> for UBig`: the sum.
#[verifier::external_body]
fn ubig_add(x: ibig::UBig, y: ibig::UBig) -> (r: ibig::UBig)
    ensures
        ubig_value(r) == ubig_value(x) + ubig_value(y),
{
    x + y
}

/// `impl Add<&UBig> for UBig`: the sum.
#[verifier::external_body]
fn ubig_add_ref(x: ibig::UBig, y: &ibig::UBig) -> (r: ibig::UBig)
    ensures
        ubig_value(r) == ubig_value(x) + ubig_value(*y),
{
    x + y
}

/// `impl Sub<&UBig> for UBig`: the difference. It panics where that
/// would be negative.
#[verifier::external_body]
fn ubig_sub_ref(x: ibig::UBig, y: &ibig::UBig) -> (r: ibig::UBig)
    requires
        ubig_value(x) >= ubig_value(*y),
    ensures
        ubig_value(r) == ubig_value(x) - ubig_value(*y),
{
    x - y
}

/// `impl Mul<UBig> for UBig`: the product.
#[verifier::external_body]
fn ubig_mul(x: ibig::UBig, y: ibig::UBig) -> (r: ibig::UBig)
    ensures
        ubig_value(r) == ubig_value(x) * ubig_value(y),
{
    x * y
}

/// `impl Mul<&UBig> for UBig`: the product.
#[verifier::external_body]
fn ubig_mul_by_ref(x: ibig::UBig, y: &ibig::UBig) -> (r: ibig::UBig)
    ensures
        ubig_value(r) == ubig_value(x) * ubig_value(*y),
{
    x * y
}

/// `impl Mul<&UBig> for &UBig`: the product.
#[verifier::external_body]
fn ubig_mul_ref(x: &ibig::UBig, y: &ibig::UBig) -> (r: ibig::UBig)
    ensures
        ubig_value(r) == ubig_value(*x) * ubig_value(*y),
{
    x * y
}

/// `impl Div<UBig> for UBig`: the quotient, rounded down. It panics on
/// a zero divisor.
#[verifier::external_body]
fn ubig_div(x: ibig::UBig, y: ibig::UBig) -> (r: ibig::UBig)
    requires
        ubig_value(y) > 0,
    ensures
        ubig_value(r) == ubig_value(x) / ubig_value(y),
{
    x / y
}

/// `UBig::pow`, whose exponent is a `usize`: the power.
#[verifier::external_body]
fn ubig_pow(x: &ibig::UBig, exp: u32) -> (r: ibig::UBig)
    ensures
        ubig_value(r) == pow(ubig_value(*x) as int, exp as nat),
{
    x.pow(exp as usize)
}

/// `to_string` by `impl Display for UBig`: the decimal digits and nothing else.
#[verifier::external_body]
fn ubig_to_decimal(x: &ibig::UBig) -> (r: String)
    ensures
        r@ == decimal_digits(ubig_value(*x)),
{
    x.to_string()
}

/// `impl LowerHex for UBig`, without flags: the lowercase
/// hexadecimal digits and nothing else.
#[verifier::external_body]
fn ubig_to_hex(x: &ibig::UBig) -> (r: String)
    ensures
        r@ == hex_digits(ubig_value(*x)),
{
    format!("{:x}", x)
}

impl Number for ibig::UBig {
    open spec fn value(&self) -> int {
        ubig_value(*self) as int
    }

    fn from_small(u: u32) -> (r: Self) {
        ubig_from_u32(u)
    }

    fn add(self, rhs: Self) -> (r: Self) {
        ubig_add(self, rhs)
    }

    fn add_ref(self, rhs: &Self) -> (r: Self) {
        ubig_add_ref(self, rhs)
    }

    fn sub_ref(self, rhs: &Self) -> (r: Self) {
        ubig_sub_ref(self, rhs)
    }

    fn mul(self, rhs: Self) -> (r: Self) {
        ubig_mul(self, rhs)
    }

    fn mul_by_ref(self, rhs: &Self) -> (r: Self) {
        ubig_mul_by_ref(self, rhs)
    }

    fn mul_ref(&self, rhs: &Self) -> (r: Self) {
        ubig_mul_ref(self, rhs)
    }

    fn div(self, rhs: Self) -> (r: Self) {
        ubig_div(self, rhs)
    }

    fn pow(&self, exp: u32) -> (r: Self) {
        ubig_pow(self, exp)
    }

    fn to_decimal(&self) -> (r: String) {
        ubig_to_decimal(self)
    }

    fn to_hex(&self) -> (r: String) {
        ubig_to_hex(self)
    }
}

} // verus!
