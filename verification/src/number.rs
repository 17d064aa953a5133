//! The capability set that the kernels need from a big-integer library.

use crate::radix::{decimal_digits, hex_digits};
use vstd::arithmetic::power::pow;
use vstd::prelude::*;

pub mod dashu_natural;
pub mod ibig_ubig;
pub mod malachite_natural;
pub mod num_biguint;
pub mod rug_integer;

verus! {

/// An integer type of unbounded magnitude with exact arithmetic.
///
/// The kernels only ever form natural numbers. `value` is an `int` so that a
/// signed type can supply the arithmetic too; subtraction, division and
/// rendering are asked for only where the result is natural.
///
/// Operands that a kernel is done with are taken by value, so that a library
/// may reuse their storage; operands that it still needs are borrowed.
/// The contracts speak of the calls that return: a number too large for the
/// memory at hand ends the computation, as any failed allocation does.
pub trait Number: Sized {
    /// The integer that `self` holds.
    spec fn value(&self) -> int;

    /// The number equal to `u`.
    fn from_small(u: u32) -> (r: Self)
        ensures
            r.value() == u,
    ;

    /// `self + rhs`, consuming both.
    fn add(self, rhs: Self) -> (r: Self)
        ensures
            r.value() == self.value() + rhs.value(),
    ;

    /// `self + rhs`, leaving `rhs` to the caller.
    fn add_ref(self, rhs: &Self) -> (r: Self)
        ensures
            r.value() == self.value() + rhs.value(),
    ;

    /// `self - rhs` where that is not negative.
    fn sub_ref(self, rhs: &Self) -> (r: Self)
        requires
            rhs.value() <= self.value(),
        ensures
            r.value() == self.value() - rhs.value(),
    ;

    /// `self * rhs`, consuming both.
    fn mul(self, rhs: Self) -> (r: Self)
        ensures
            r.value() == self.value() * rhs.value(),
    ;

    /// `self * rhs`, leaving `rhs` to the caller.
    fn mul_by_ref(self, rhs: &Self) -> (r: Self)
        ensures
            r.value() == self.value() * rhs.value(),
    ;

    /// `self * rhs`, leaving both to the caller.
    fn mul_ref(&self, rhs: &Self) -> (r: Self)
        ensures
            r.value() == self.value() * rhs.value(),
    ;

    /// The quotient of `self` by `rhs`, rounded down.
    fn div(self, rhs: Self) -> (r: Self)
        requires
            0 <= self.value(),
            0 < rhs.value(),
        ensures
            r.value() == self.value() / rhs.value(),
    ;

    /// `self` raised to the power `exp`.
    fn pow(&self, exp: u32) -> (r: Self)
        ensures
            r.value() == pow(self.value(), exp as nat),
    ;

    /// The decimal expansion of a natural number.
    fn to_decimal(&self) -> (r: String)
        requires
            0 <= self.value(),
        ensures
            r@ == decimal_digits(self.value() as nat),
    ;

    /// The lowercase hexadecimal expansion of a natural number.
    fn to_hex(&self) -> (r: String)
        requires
            0 <= self.value(),
        ensures
            r@ == hex_digits(self.value() as nat),
    ;
}

} // verus!
