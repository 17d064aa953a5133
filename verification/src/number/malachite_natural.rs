//! `malachite::natural::Natural` as a [`Number`].
//!
//! The type is declared to the verifier, its value is given a name, and each
//! operation that the kernels use is called in a function of its own whose
//! contract is taken on trust.

use crate::number::Number;
use crate::radix::{decimal_digits, hex_digits};
use vstd::arithmetic::power::pow;
use vstd::prelude::*;

verus! {

/// `malachite::natural::Natural`, of which the verifier sees nothing but the name.
#[verifier::external_type_specification]
#[verifier::external_body]
pub struct ExNatural(malachite::natural::Natural);

/// The natural number that a `malachite::natural::Natural` holds.
pub uninterp spec fn natural_value(x: malachite::natural::Natural) -> nat;

/// `impl From<u32> for Natural`: the number equal to `u`.
#[verifier::external_body]
fn natural_from_u32(u: u32) -> (r: malachite::natural::Natural)
    ensures
        natural_value(r) == u,
{
    malachite::natural::Natural::from(u)
}

/// `impl Add<Natural> for Natural`: the sum.
#[verifier::external_body]
fn natural_add(
    x: malachite::natural::Natural,
    y: malachite::natural::Natural,
) -> (r: malachite::natural::Natural)
    ensures
        natural_value(r) == natural_value(x) + natural_value(y),
{
    x + y
}

/// `impl Add<&Natural> for Natural`: the sum.
#[verifier::external_body]
fn natural_add_ref(
    x: malachite::natural::Natural,
    y: &malachite::natural::Natural,
) -> (r: malachite::natural::Natural)
    ensures
        natural_value(r) == natural_value(x) + natural_value(*y),
{
    x + y
}

/// `impl Sub<&Natural> for Natural`: the difference. It panics where that
/// would be negative.
#[verifier::external_body]
fn natural_sub_ref(
    x: malachite::natural::Natural,
    y: &malachite::natural::Natural,
) -> (r: malachite::natural::Natural)
    requires
        natural_value(x) >= natural_value(*y),
    ensures
        natural_value(r) == natural_value(x) - natural_value(*y),
{
    x - y
}

/// `impl Mul<Natural> for Natural`: the product.
#[verifier::external_body]
fn natural_mul(
    x: malachite::natural::Natural,
    y: malachite::natural::Natural,
) -> (r: malachite::natural::Natural)
    ensures
        natural_value(r) == natural_value(x) * natural_value(y),
{
    x * y
}

/// `impl Mul<&Natural> for Natural`: the product.
#[verifier::external_body]
fn natural_mul_by_ref(
    x: malachite::natural::Natural,
    y: &malachite::natural::Natural,
) -> (r: malachite::natural::Natural)
    ensures
        natural_value(r) == natural_value(x) * natural_value(*y),
{
    x * y
}

/// `impl Mul<&Natural> for &Natural`: the product.
#[verifier::external_body]
fn natural_mul_ref(
    x: &malachite::natural::Natural,
    y: &malachite::natural::Natural,
) -> (r: malachite::natural::Natural)
    ensures
        natural_value(r) == natural_value(*x) * natural_value(*y),
{
    x * y
}

/// `impl Div<Natural> for Natural`: the quotient, rounded down. It panics on
/// a zero divisor.
#[verifier::external_body]
fn natural_div(
    x: malachite::natural::Natural,
    y: malachite::natural::Natural,
) -> (r: malachite::natural::Natural)
    requires
        natural_value(y) > 0,
    ensures
        natural_value(r) == natural_value(x) / natural_value(y),
{
    x / y
}

/// `impl Pow<u64> for &Natural`: the power.
#[verifier::external_body]
fn natural_pow(x: &malachite::natural::Natural, exp: u32) -> (r: malachite::natural::Natural)
    ensures
        natural_value(r) == pow(natural_value(*x) as int, exp as nat),
{
    malachite::base::num::arithmetic::traits::Pow::pow(x, u64::from(exp))
}

/// `to_string` by `impl Display for Natural`: the decimal digits and nothing else.
#[verifier::external_body]
fn natural_to_decimal(x: &malachite::natural::Natural) -> (r: String)
    ensures
        r@ == decimal_digits(natural_value(*x)),
{
    x.to_string()
}

/// `ToLowerHexString::to_lower_hex_string`, which formats by
/// `impl LowerHex for Natural` without flags: the lowercase hexadecimal digits
/// and nothing else.
#[verifier::external_body]
fn natural_to_hex(x: &malachite::natural::Natural) -> (r: String)
    ensures
        r@ == hex_digits(natural_value(*x)),
{
    malachite::base::strings::ToLowerHexString::to_lower_hex_string(x)
}

impl Number for malachite::natural::Natural {
    open spec fn value(&self) -> int {
        natural_value(*self) as int
    }

    fn from_small(u: u32) -> (r: Self) {
        natural_from_u32(u)
    }

    fn add(self, rhs: Self) -> (r: Self) {
        natural_add(self, rhs)
    }

    fn add_ref(self, rhs: &Self) -> (r: Self) {
        natural_add_ref(self, rhs)
    }

    fn sub_ref(self, rhs: &Self) -> (r: Self) {
        natural_sub_ref(self, rhs)
    }

    fn mul(self, rhs: Self) -> (r: Self) {
        natural_mul(self, rhs)
    }

    fn mul_by_ref(self, rhs: &Self) -> (r: Self) {
        natural_mul_by_ref(self, rhs)
    }

    fn mul_ref(&self, rhs: &Self) -> (r: Self) {
        natural_mul_ref(self, rhs)
    }

    fn div(self, rhs: Self) -> (r: Self) {
        natural_div(self, rhs)
    }

    fn pow(&self, exp: u32) -> (r: Self) {
        natural_pow(self, exp)
    }

    fn to_decimal(&self) -> (r: String) {
        natural_to_decimal(self)
    }

    fn to_hex(&self) -> (r: String) {
        natural_to_hex(self)
    }
}

} // verus!
