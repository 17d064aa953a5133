//! `dashu::Natural`, which is `dashu_int::UBig`, as a [`Number`].
//!
//! The type is declared to the verifier, its value is given a name, and each
//! operation that the kernels use is called in a function of its own whose
//! contract is taken on trust.

use crate::number::Number;
use crate::radix::{decimal_digits, hex_digits};
use vstd::arithmetic::power::pow;
use vstd::prelude::*;

verus! {

/// `dashu::Natural`, of which the verifier sees nothing but the name.
#[verifier::external_type_specification]
#[verifier::external_body]
pub struct ExDashuNatural(dashu::Natural);

/// The natural number that a `dashu::Natural` holds.
pub uninterp spec fn dashu_value(x: dashu::Natural) -> nat;

/// `impl From<u32> for UBig`: the number equal to `u`.
#[verifier::external_body]
fn dashu_from_u32(u: u32) -> (r: dashu::Natural)
    ensures
        dashu_value(r) == u,
{
    dashu::Natural::from(u)
}

/// `impl Add<UBig> for UBig`: the sum.
#[verifier::external_body]
fn dashu_add(x: dashu::Natural, y: dashu::Natural) -> (r: dashu::Natural)
    ensures
        dashu_value(r) == dashu_value(x) + dashu_value(y),
{
    x + y
}

/// `impl Add<&UBig> for UBig`: the sum.
#[verifier::external_body]
fn dashu_add_ref(x: dashu::Natural, y: &dashu::Natural) -> (r: dashu::Natural)
    ensures
        dashu_value(r) == dashu_value(x) + dashu_value(*y),
{
    x + y
}

/// `impl Sub<&UBig> for UBig`: the difference. It panics where that
/// would be negative.
#[verifier::external_body]
fn dashu_sub_ref(x: dashu::Natural, y: &dashu::Natural) -> (r: dashu::Natural)
    requires
        dashu_value(x) >= dashu_value(*y),
    ensures
        dashu_value(r) == dashu_value(x) - dashu_value(*y),
{
    x - y
}

/// `impl Mul<UBig> for UBig`: the product.
#[verifier::external_body]
fn dashu_mul(x: dashu::Natural, y: dashu::Natural) -> (r: dashu::Natural)
    ensures
        dashu_value(r) == dashu_value(x) * dashu_value(y),
{
    x * y
}

/// `impl Mul<&UBig> for UBig`: the product.
#[verifier::external_body]
fn dashu_mul_by_ref(x: dashu::Natural, y: &dashu::Natural) -> (r: dashu::Natural)
    ensures
        dashu_value(r) == dashu_value(x) * dashu_value(*y),
{
    x * y
}

/// `impl Mul<&UBig> for &UBig`: the product.
#[verifier::external_body]
fn dashu_mul_ref(x: &dashu::Natural, y: &dashu::Natural) -> (r: dashu::Natural)
    ensures
        dashu_value(r) == dashu_value(*x) * dashu_value(*y),
{
    x * y
}

/// `impl Div<UBig> for UBig`: the quotient, rounded down. It panics on
/// a zero divisor.
#[verifier::external_body]
fn dashu_div(x: dashu::Natural, y: dashu::Natural) -> (r: dashu::Natural)
    requires
        dashu_value(y) > 0,
    ensures
        dashu_value(r) == dashu_value(x) / dashu_value(y),
{
    x / y
}

/// `UBig::pow`, whose exponent is a `usize`: the power.
#[verifier::external_body]
fn dashu_pow(x: &dashu::Natural, exp: u32) -> (r: dashu::Natural)
    ensures
        dashu_value(r) == pow(dashu_value(*x) as int, exp as nat),
{
    x.pow(exp as usize)
}

/// `to_string` by `impl Display for UBig`: the decimal digits and nothing else.
#[verifier::external_body]
fn dashu_to_decimal(x: &dashu::Natural) -> (r: String)
    ensures
        r@ == decimal_digits(dashu_value(*x)),
{
    x.to_string()
}

/// `impl LowerHex for UBig`, without flags: the lowercase
/// hexadecimal digits and nothing else.
#[verifier::external_body]
fn dashu_to_hex(x: &dashu::Natural) -> (r: String)
    ensures
        r@ == hex_digits(dashu_value(*x)),
{
    format!("{:x}", x)
}

impl Number for dashu::Natural {
    open spec fn value(&self) -> int {
        dashu_value(*self) as int
    }

    fn from_small(u: u32) -> (r: Self) {
        dashu_from_u32(u)
    }

    fn add(self, rhs: Self) -> (r: Self) {
        dashu_add(self, rhs)
    }

    fn add_ref(self, rhs: &Self) -> (r: Self) {
        dashu_add_ref(self, rhs)
    }

    fn sub_ref(self, rhs: &Self) -> (r: Self) {
        dashu_sub_ref(self, rhs)
    }

    fn mul(self, rhs: Self) -> (r: Self) {
        dashu_mul(self, rhs)
    }

    fn mul_by_ref(self, rhs: &Self) -> (r: Self) {
        dashu_mul_by_ref(self, rhs)
    }

    fn mul_ref(&self, rhs: &Self) -> (r: Self) {
        dashu_mul_ref(self, rhs)
    }

    fn div(self, rhs: Self) -> (r: Self) {
        dashu_div(self, rhs)
    }

    fn pow(&self, exp: u32) -> (r: Self) {
        dashu_pow(self, exp)
    }

    fn to_decimal(&self) -> (r: String) {
        dashu_to_decimal(self)
    }

    fn to_hex(&self) -> (r: String) {
        dashu_to_hex(self)
    }
}

} // verus!
