//! Positional notation: what the digit string of a natural number is.

use vstd::arithmetic::power::{lemma_pow_positive, pow};
use vstd::prelude::*;

verus! {

/// The character that stands for the digit `d`: `0`-`9`, then `a`-`f`.
pub open spec fn digit_char(d: nat) -> char
    recommends
        d < 16,
{
    if d < 10 {
        ((d + 48) as u8) as char
    } else {
        ((d + 87) as u8) as char
    }
}

/// The digits of `n` in the given radix, most significant first, without
/// leading zeros; zero is the single digit `0`.
pub open spec fn digits(n: nat, radix: nat) -> Seq<char>
    recommends
        2 <= radix <= 16,
    decreases n,
{
    if n < radix || radix < 2 {
        seq![digit_char(n)]
    } else {
        proof {
            assert(n / radix < n) by (nonlinear_arith)
                requires
                    2 <= radix <= n,
            ;
        }
        digits(n / radix, radix).push(digit_char(n % radix))
    }
}

/// The decimal expansion of `n`.
pub open spec fn decimal_digits(n: nat) -> Seq<char> {
    digits(n, 10)
}

/// The lowercase hexadecimal expansion of `n`.
pub open spec fn hex_digits(n: nat) -> Seq<char> {
    digits(n, 16)
}


/// Whether `c` is a digit of the given radix: `0`-`9`, then `a`-`f`.
pub open spec fn is_digit(c: char, radix: nat) -> bool {
    let code = c as int;
    (48 <= code < 58 && code < 48 + radix) || (97 <= code < 87 + radix)
}

/// Every character of a digit string is a digit of its radix.
pub proof fn lemma_digits_are_digits(n: nat, radix: nat)
    requires
        2 <= radix <= 16,
    ensures
        digits(n, radix).len() >= 1,
        forall|i: int|
            0 <= i < digits(n, radix).len() ==> is_digit(#[trigger] digits(n, radix)[i], radix),
    decreases n,
{
    if n >= radix {
        assert(n / radix < n) by (nonlinear_arith)
            requires
                2 <= radix <= n,
        ;
        assert(n % radix < radix) by (nonlinear_arith)
            requires
                2 <= radix,
        ;
        lemma_digits_are_digits(n / radix, radix);
    }
}

/// A number between `lead * radix^k` and the next multiple of `radix^k` has
/// `k + 1` digits, the first of which is `lead`.
pub proof fn lemma_digits_leading(n: nat, radix: nat, k: nat, lead: nat)
    requires
        2 <= radix <= 16,
        1 <= lead < radix,
        lead * pow(radix as int, k) <= n < (lead + 1) * pow(radix as int, k),
    ensures
        digits(n, radix).len() == k + 1,
        digits(n, radix)[0] == digit_char(lead),
    decreases k,
{
    reveal(pow);
    if k == 0 {
        assert(pow(radix as int, 0) == 1);
        assert(n == lead);
    } else {
        let below = pow(radix as int, (k - 1) as nat);
        assert(pow(radix as int, k) == radix * below);
        lemma_pow_positive(radix as int, (k - 1) as nat);
        assert(n >= radix) by (nonlinear_arith)
            requires
                lead * (radix * below) <= n,
                lead >= 1,
                below >= 1,
        ;
        assert(lead * below <= n / radix < (lead + 1) * below) by (nonlinear_arith)
            requires
                lead * (radix * below) <= n < (lead + 1) * (radix * below),
                radix >= 2,
        ;
        lemma_digits_leading(n / radix, radix, (k - 1) as nat, lead);
    }
}


/// But for zero itself, a digit string does not begin with `0`.
pub proof fn lemma_digits_no_leading_zero(n: nat, radix: nat)
    requires
        2 <= radix <= 16,
        n >= 1,
    ensures
        digits(n, radix)[0] != '0',
    decreases n,
{
    if n >= radix {
        assert(1 <= n / radix < n) by (nonlinear_arith)
            requires
                2 <= radix <= n,
        ;
        lemma_digits_no_leading_zero(n / radix, radix);
        lemma_digits_are_digits(n / radix, radix);
    }
}

/// Only zero has the digit string `0`.
pub proof fn lemma_decimal_zero(n: nat)
    ensures
        (decimal_digits(n).len() == 1 && decimal_digits(n)[0] == '0') <==> n == 0,
{
    if n >= 10 {
        lemma_digits_are_digits(n / 10, 10);
    }
}


/// The digit that `c` stands for; zero where it is no digit.
pub open spec fn digit_value(c: char) -> nat {
    let code = c as int;
    if 48 <= code < 58 {
        (code - 48) as nat
    } else if 97 <= code < 103 {
        (code - 87) as nat
    } else {
        0
    }
}

/// The number that a digit string stands for in the given radix.
pub open spec fn digits_value(s: Seq<char>, radix: nat) -> nat
    decreases s.len(),
{
    if s.len() == 0 {
        0
    } else {
        digits_value(s.drop_last(), radix) * radix + digit_value(s.last())
    }
}

/// Reading the digit string of a number gives the number back.
pub proof fn lemma_digits_value(n: nat, radix: nat)
    requires
        2 <= radix <= 16,
    ensures
        digits_value(digits(n, radix), radix) == n,
    decreases n,
{
    if n < radix {
        let s = seq![digit_char(n)];
        assert(s.drop_last() =~= Seq::<char>::empty());
        assert(digits_value(s.drop_last(), radix) == 0);
        assert(digits_value(s.drop_last(), radix) * radix == 0);
    } else {
        assert(n / radix < n) by (nonlinear_arith)
            requires
                2 <= radix <= n,
        ;
        assert(n % radix < radix && (n / radix) * radix + n % radix == n) by (nonlinear_arith)
            requires
                2 <= radix,
        ;
        lemma_digits_value(n / radix, radix);
        let head = digits(n / radix, radix);
        let s = head.push(digit_char(n % radix));
        assert(s.drop_last() =~= head);
        assert(s.last() == digit_char(n % radix));
    }
}

} // verus!
