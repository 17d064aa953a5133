//! Fibonacci numbers by fast doubling.

use crate::number::Number;
use crate::radix::{decimal_digits, digits_value, hex_digits, lemma_digits_value};
use vstd::prelude::*;

verus! {

/// The Fibonacci numbers: `F(0) = 0`, `F(1) = 1`, `F(n) = F(n-1) + F(n-2)`.
pub open spec fn fib(n: nat) -> nat
    decreases n,
{
    if n == 0 {
        0
    } else if n == 1 {
        1
    } else {
        fib((n - 1) as nat) + fib((n - 2) as nat)
    }
}

/// `F(m + n + 1) = F(m + 1) * F(n + 1) + F(m) * F(n)`.
pub proof fn lemma_fib_addition(m: nat, n: nat)
    ensures
        fib(m + n + 1) == fib(m + 1) * fib(n + 1) + fib(m) * fib(n),
    decreases n,
{
    if n == 0 {
        assert(fib(m + 1) * 1 + fib(m) * 0 == fib(m + 1)) by (nonlinear_arith);
    } else if n == 1 {
        assert(fib(m + 1) * 1 + fib(m) * 1 == fib(m + 1) + fib(m)) by (nonlinear_arith);
        assert(fib(2) == 1) by {
            reveal_with_fuel(fib, 3);
        }
    } else {
        lemma_fib_addition(m, (n - 1) as nat);
        lemma_fib_addition(m, (n - 2) as nat);
        let a = fib(m + 1);
        let b = fib(m);
        let x = fib(n);
        let y = fib((n - 1) as nat);
        let z = fib((n - 2) as nat);
        assert(fib(n + 1) == x + y);
        assert(x == y + z);
        assert(fib(m + n + 1) == fib(m + n) + fib((m + n - 1) as nat));
        assert((a * x + b * y) + (a * y + b * z) == a * (x + y) + b * (y + z))
            by (nonlinear_arith);
    }
}

/// The doubling rules: `F(2k) = F(k) * (2 * F(k+1) - F(k))` and
/// `F(2k+1) = F(k)^2 + F(k+1)^2`.
pub proof fn lemma_fib_doubling(k: nat)
    ensures
        fib(k) <= 2 * fib(k + 1),
        fib(2 * k) == fib(k) * (2 * fib(k + 1) - fib(k)),
        fib(2 * k + 1) == fib(k) * fib(k) + fib(k + 1) * fib(k + 1),
{
    lemma_fib_addition(k, k);
    assert(fib(k + 1) * fib(k + 1) + fib(k) * fib(k) == fib(k) * fib(k) + fib(k + 1) * fib(k + 1));
    if k == 0 {
        assert(fib(0) * (2 * fib(1) - fib(0)) == 0) by (nonlinear_arith)
            requires
                fib(0) == 0,
        ;
    } else {
        let j = (k - 1) as nat;
        lemma_fib_addition(j, k);
        let a = fib(k);
        let b = fib(k + 1);
        let c = fib(j);
        assert(b == a + c);
        assert(fib(2 * k) == fib(j + k + 1));
        assert(a * b + c * a == a * (2 * b - a)) by (nonlinear_arith)
            requires
                b == a + c,
        ;
    }
}

/// `F(n)`.
///
/// The bits of `n` are read from the most significant down. The pair
/// `(F(k), F(k+1))` starts at `k = 0`; each bit doubles `k`, and a set bit
/// adds one.
pub fn fibonacci<T: Number>(n: u32) -> (r: T)
    ensures
        r.value() == fib(n as nat),
{
    let wide: u64 = n as u64;
    let two = T::from_small(2);
    let mut low = T::from_small(0);
    let mut high = T::from_small(1);
    let mut bits: u32 = 32;
    assert(wide >> 32 == 0) by (bit_vector)
        requires
            wide < 0x1_0000_0000,
    ;
    while bits > 0
        invariant
            bits <= 32,
            wide == n,
            two.value() == 2,
            low.value() == fib((wide >> bits) as nat),
            high.value() == fib(((wide >> bits) + 1) as nat),
        decreases bits,
    {
        let ghost k = (wide >> bits) as nat;
        bits = bits - 1;
        let odd = (wide >> bits) & 1 == 1;
        proof {
            let above = wide >> ((bits + 1) as u32);
            let here = wide >> bits;
            assert(here == 2 * above + (here & 1) && (here & 1) <= 1) by (bit_vector)
                requires
                    bits < 32,
                    wide < 0x1_0000_0000,
                    above == wide >> ((bits + 1) as u32),
                    here == wide >> bits,
            ;
            lemma_fib_doubling(k);
        }
        let low_squared = low.mul_ref(&low);
        let high_squared = high.mul_ref(&high);
        let difference = two.mul_ref(&high).sub_ref(&low);
        let even_term = low.mul(difference);
        let odd_term = low_squared.add(high_squared);
        if odd {
            high = even_term.add_ref(&odd_term);
            low = odd_term;
        } else {
            low = even_term;
            high = odd_term;
        }
    }
    assert(wide >> 0 == wide) by (bit_vector);
    low
}

/// The decimal expansion of `F(n)`.
pub open spec fn fib_decimal(n: nat) -> Seq<char> {
    decimal_digits(fib(n))
}

/// The lowercase hexadecimal expansion of `F(n)`.
pub open spec fn fib_hex(n: nat) -> Seq<char> {
    hex_digits(fib(n))
}

/// `F(n)` in decimal.
pub fn calculate_decimal<T: Number>(n: u32) -> (r: String)
    ensures
        r@ == fib_decimal(n as nat),
{
    fibonacci::<T>(n).to_decimal()
}

/// `F(n)` in lowercase hexadecimal.
pub fn calculate_hex<T: Number>(n: u32) -> (r: String)
    ensures
        r@ == fib_hex(n as nat),
{
    fibonacci::<T>(n).to_hex()
}

/// Cassini's identity: `F(n+1) * F(n-1) - F(n)^2` is `1` for even `n` and `-1`
/// for odd `n`.
pub proof fn lemma_cassini(n: nat)
    requires
        n >= 1,
    ensures
        fib(n + 1) * fib((n - 1) as nat) - fib(n) * fib(n) == (if n % 2 == 0 {
            1int
        } else {
            -1int
        }),
    decreases n,
{
    if n == 1 {
        reveal_with_fuel(fib, 3);
        assert(fib(2) * fib(0) - fib(1) * fib(1) == -1) by (nonlinear_arith)
            requires
                fib(0) == 0,
                fib(1) == 1,
        ;
    } else {
        lemma_cassini((n - 1) as nat);
        let a = fib((n - 2) as nat);
        let b = fib((n - 1) as nat);
        let c = fib(n);
        let d = fib(n + 1);
        assert(c == b + a);
        assert(d == c + b);
        assert(d * b - c * c == -(c * a - b * b)) by (nonlinear_arith)
            requires
                c == b + a,
                d == c + b,
        ;
    }
}

/// The decimal strings obey the recurrence: read as numbers and added, the
/// strings of `F(n-1)` and `F(n-2)` give the string of `F(n)`.
pub proof fn lemma_fib_decimal_recurrence(n: nat)
    requires
        n >= 2,
    ensures
        fib_decimal(n) == decimal_digits(
            digits_value(fib_decimal((n - 1) as nat), 10) + digits_value(
                fib_decimal((n - 2) as nat),
                10,
            ),
        ),
{
    lemma_digits_value(fib((n - 1) as nat), 10);
    lemma_digits_value(fib((n - 2) as nat), 10);
}

/// The hexadecimal string of `F(n)` is that of the number read from its
/// decimal string.
pub proof fn lemma_fib_hex_of_decimal(n: nat)
    ensures
        fib_hex(n) == hex_digits(digits_value(fib_decimal(n), 10)),
{
    lemma_digits_value(fib(n), 10);
}

} // verus!
