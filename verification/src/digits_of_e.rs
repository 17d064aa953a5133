//! Decimal digits of Euler's number, by binary splitting of its Taylor series.

use crate::number::Number;
use crate::radix::{
    decimal_digits, digits_value, is_digit, lemma_digits_are_digits, lemma_digits_leading,
    lemma_digits_value,
};
use crate::term_count::{
    lemma_factorial_increases, lemma_term_count_exists, term_count, term_count_for, MARGIN,
};
use vstd::arithmetic::power::{lemma_pow_adds, lemma_pow_positive, pow};
use vstd::prelude::*;

verus! {

/// `n!`.
pub open spec fn factorial(n: nat) -> nat
    decreases n,
{
    if n == 0 {
        1
    } else {
        n * factorial((n - 1) as nat)
    }
}

/// `t! * (1/0! + 1/1! + ... + 1/t!)`: the numerator of the Taylor partial sum
/// of e through the term `1/t!`, over the denominator `t!`.
pub open spec fn partial_sum_numerator(t: nat) -> nat
    decreases t,
{
    if t == 0 {
        1
    } else {
        t * partial_sum_numerator((t - 1) as nat) + 1
    }
}

/// The partial sum of the first `terms` terms, `1/0! + ... + 1/(terms-1)!`,
/// scaled by `10^(digits-1)` and rounded down.
pub open spec fn truncated_sum(terms: nat, digits: nat) -> nat
    recommends
        terms >= 1,
        digits >= 1,
{
    let last = (terms - 1) as nat;
    (partial_sum_numerator(last) * pow(10, (digits - 1) as nat) / (factorial(last) as int)) as nat
}

/// The digit string of `truncated_sum`, with the radix point after its first
/// character.
pub open spec fn expansion(terms: nat, digits: nat) -> Seq<char> {
    decimal_digits(truncated_sum(terms, digits)).insert(1, '.')
}

/// The first `digits` decimal digits of e as the kernel gives them: the
/// expansion of as many terms of the series as `digits` digits need.
pub open spec fn euler_digits(digits: nat) -> Seq<char> {
    expansion(term_count_for(digits), digits)
}

/// `(a+1) * (a+2) * ... * b`: the quotient `b! / a!`.
pub open spec fn split_denominator(a: nat, b: nat) -> nat
    decreases b,
{
    if b <= a {
        1
    } else {
        b * split_denominator(a, (b - 1) as nat)
    }
}

/// The sum over `k` in `a+1 ..= b` of `b! / k!`: the numerator that, over
/// `split_denominator(a, b)`, equals `a! * (1/(a+1)! + ... + 1/b!)`.
pub open spec fn split_numerator(a: nat, b: nat) -> nat
    decreases b,
{
    if b <= a {
        0
    } else {
        b * split_numerator(a, (b - 1) as nat) + 1
    }
}

/// Splitting the range `a ..= b` at `m` multiplies the denominators.
pub proof fn lemma_split_denominator(a: nat, m: nat, b: nat)
    requires
        a <= m <= b,
    ensures
        split_denominator(a, b) == split_denominator(a, m) * split_denominator(m, b),
    decreases b,
{
    if b > m {
        lemma_split_denominator(a, m, (b - 1) as nat);
        let x = split_denominator(a, m);
        let y = split_denominator(m, (b - 1) as nat);
        assert(b * (x * y) == x * (b * y)) by (nonlinear_arith);
    } else {
        assert(split_denominator(a, m) * 1 == split_denominator(a, m));
    }
}

/// Splitting the range `a ..= b` at `m` scales the left numerator by the right
/// denominator and adds the right numerator.
pub proof fn lemma_split_numerator(a: nat, m: nat, b: nat)
    requires
        a <= m <= b,
    ensures
        split_numerator(a, b) == split_numerator(a, m) * split_denominator(m, b)
            + split_numerator(m, b),
    decreases b,
{
    if b > m {
        lemma_split_numerator(a, m, (b - 1) as nat);
        let x = split_numerator(a, m);
        let y = split_denominator(m, (b - 1) as nat);
        let z = split_numerator(m, (b - 1) as nat);
        assert(b * (x * y + z) + 1 == x * (b * y) + (b * z + 1)) by (nonlinear_arith);
    } else {
        assert(split_numerator(a, m) * 1 == split_numerator(a, m));
    }
}

/// The denominator of a partial sum is positive.
pub proof fn lemma_split_denominator_positive(a: nat, b: nat)
    ensures
        split_denominator(a, b) >= 1,
    decreases b,
{
    if b > a {
        lemma_split_denominator_positive(a, (b - 1) as nat);
        assert(b * split_denominator(a, (b - 1) as nat) >= 1) by (nonlinear_arith)
            requires
                b >= 1,
                split_denominator(a, (b - 1) as nat) >= 1,
        ;
    }
}

/// The partial sum `a! * (1/(a+1)! + 1/(a+2)! + ... + 1/b!)` as a fraction
/// `(p, q)`, not reduced, with `q = (a+1) * ... * b`.
///
/// The range is halved and the halves are combined, so that the operands of
/// each multiplication are of like size.
pub fn sum_terms<T: Number>(a: u32, b: u32) -> (r: (T, T))
    requires
        a < b,
    ensures
        r.0.value() == split_numerator(a as nat, b as nat),
        r.1.value() == split_denominator(a as nat, b as nat),
        r.1.value() >= 1,
    decreases b - a,
{
    proof {
        lemma_split_denominator_positive(a as nat, b as nat);
    }
    if b - a == 1 {
        proof {
            reveal_with_fuel(split_numerator, 2);
            reveal_with_fuel(split_denominator, 2);
        }
        (T::from_small(1), T::from_small(b))
    } else {
        let mid = a + (b - a) / 2;
        let (p_left, q_left) = sum_terms::<T>(a, mid);
        let (p_right, q_right) = sum_terms::<T>(mid, b);
        proof {
            lemma_split_numerator(a as nat, mid as nat, b as nat);
            lemma_split_denominator(a as nat, mid as nat, b as nat);
        }
        (p_left.mul_by_ref(&q_right).add(p_right), q_left.mul(q_right))
    }
}

/// Over the whole range from zero, the denominator is the factorial and the
/// numerator lacks only the term `1/0!`.
pub proof fn lemma_split_from_zero(t: nat)
    ensures
        split_denominator(0, t) == factorial(t),
        split_numerator(0, t) + split_denominator(0, t) == partial_sum_numerator(t),
    decreases t,
{
    if t > 0 {
        lemma_split_from_zero((t - 1) as nat);
        let n = split_numerator(0, (t - 1) as nat);
        let d = split_denominator(0, (t - 1) as nat);
        assert(t * n + 1 + t * d == t * (n + d) + 1) by (nonlinear_arith);
    }
}

/// A factorial is positive.
pub proof fn lemma_factorial_positive(n: nat)
    ensures
        factorial(n) >= 1,
    decreases n,
{
    if n > 0 {
        lemma_factorial_positive((n - 1) as nat);
        assert(n * factorial((n - 1) as nat) >= 1) by (nonlinear_arith)
            requires
                n >= 1,
                factorial((n - 1) as nat) >= 1,
        ;
    }
}

/// From the term `1/1!` on, every partial sum lies between 2 and 3: it is at
/// least `2`, and short of `3` by at least `1/(t * t!)`.
pub proof fn lemma_partial_sum_bounds(t: nat)
    requires
        t >= 1,
    ensures
        2 * factorial(t) <= partial_sum_numerator(t),
        t * partial_sum_numerator(t) + 1 <= 3 * t * factorial(t),
    decreases t,
{
    reveal_with_fuel(factorial, 2);
    reveal_with_fuel(partial_sum_numerator, 2);
    if t > 1 {
        let s = (t - 1) as nat;
        lemma_partial_sum_bounds(s);
        lemma_factorial_positive(s);
        let n = partial_sum_numerator(s);
        let f = factorial(s);
        assert(2 * (t * f) <= t * n + 1) by (nonlinear_arith)
            requires
                2 * f <= n,
                t >= 1,
        ;
        assert(t * (t * n + 1) + 1 <= 3 * t * (t * f)) by (nonlinear_arith)
            requires
                s * n + 1 <= 3 * s * f,
                t == s + 1,
                s >= 1,
                n >= 0,
                f >= 1,
        ;
    }
}

/// With at least the terms `1/0!` and `1/1!`, the scaled sum has exactly
/// `digits` decimal digits, the first of them `2`; so the expansion is `2.`
/// followed by `digits - 1` decimal digits.
pub proof fn lemma_expansion_format(terms: nat, digits: nat)
    requires
        terms >= 2,
        digits >= 1,
    ensures
        2 * pow(10, (digits - 1) as nat) <= truncated_sum(terms, digits) < 3 * pow(
            10,
            (digits - 1) as nat,
        ),
        decimal_digits(truncated_sum(terms, digits)).len() == digits,
        expansion(terms, digits).len() == digits + 1,
        expansion(terms, digits)[0] == '2',
        expansion(terms, digits)[1] == '.',
        forall|i: int| 2 <= i <= digits ==> is_digit(#[trigger] expansion(terms, digits)[i], 10),
{
    let last = (terms - 1) as nat;
    let n = partial_sum_numerator(last);
    let f = factorial(last);
    let scale = pow(10, (digits - 1) as nat);
    let value = truncated_sum(terms, digits);
    lemma_partial_sum_bounds(last);
    lemma_factorial_positive(last);
    lemma_pow_positive(10, (digits - 1) as nat);
    assert(n < 3 * f) by (nonlinear_arith)
        requires
            last * n + 1 <= 3 * last * f,
            last >= 1,
    ;
    assert(2 * scale <= (n * scale) / (f as int) < 3 * scale) by (nonlinear_arith)
        requires
            2 * f <= n < 3 * f,
            f >= 1,
            scale >= 1,
    ;
    lemma_digits_leading(value, 10, (digits - 1) as nat, 2);
    lemma_digits_are_digits(value, 10);
    let plain = decimal_digits(value);
    assert forall|i: int| 2 <= i <= digits implies is_digit(
        #[trigger] expansion(terms, digits)[i],
        10,
    ) by {
        assert(expansion(terms, digits)[i] == plain[i - 1]);
    }
}

/// `String::insert`: puts `ch` in front of the character at `idx`. The index
/// counts bytes, which in an ASCII string are the characters; the method
/// panics on an index beyond the end.
#[verifier::external_body]
fn string_insert(s: &mut String, idx: usize, ch: char)
    requires
        old(s).is_ascii(),
        idx <= old(s)@.len(),
    ensures
        final(s)@ == old(s)@.insert(idx as int, ch),
{
    s.insert(idx, ch)
}

/// The first `digits` decimal digits of the partial sum of `terms` terms of
/// the series for e, as `2.` followed by the fraction.
///
/// The sum `1/1! + ... + 1/(terms-1)!` is formed as one fraction by
/// `sum_terms`, the term `1/0!` is added, and the fraction is scaled by
/// `10^(digits-1)` and divided out, rounding down.
pub fn calculate_with_terms<T: Number>(digits: u32, terms: u32) -> (r: String)
    requires
        digits >= 1,
        terms >= 2,
    ensures
        r@ == expansion(terms as nat, digits as nat),
        r@.len() == digits + 1,
        r@[0] == '2',
        r@[1] == '.',
        forall|i: int| 2 <= i <= digits ==> is_digit(#[trigger] r@[i], 10),
{
    let (p, q) = sum_terms::<T>(0, terms - 1);
    let p = p.add_ref(&q);
    proof {
        lemma_split_from_zero((terms - 1) as nat);
        lemma_factorial_positive((terms - 1) as nat);
        lemma_pow_positive(10, (digits - 1) as nat);
        lemma_expansion_format(terms as nat, digits as nat);
        assert(p.value() * pow(10, (digits - 1) as nat) >= 0) by (nonlinear_arith)
            requires
                p.value() >= 0,
                pow(10, (digits - 1) as nat) >= 0,
        ;
    }
    let scale = T::from_small(10).pow(digits - 1);
    let answer_int = p.mul(scale).div(q);
    let mut answer = answer_int.to_decimal();
    proof {
        lemma_digits_are_digits(answer_int.value() as nat, 10);
    }
    string_insert(&mut answer, 1, '.');
    answer
}

/// The first `n` decimal digits of e, the leading `2` among them, as `2.`
/// followed by the `n - 1` digits of the fraction, rounded down.
pub fn calculate<T: Number>(n: u32) -> (r: String)
    requires
        n >= 1,
    ensures
        r@ == euler_digits(n as nat),
        r@.len() == n + 1,
        r@[0] == '2',
        r@[1] == '.',
        forall|i: int| 2 <= i <= n ==> is_digit(#[trigger] r@[i], 10),
{
    let terms = term_count::<T>(n);
    calculate_with_terms::<T>(n, terms)
}

/// The number that a digit string with a radix point after its first
/// character stands for, in units of its last place.
pub open spec fn fixed_point_value(s: Seq<char>) -> nat {
    digits_value(s.remove(1), 10)
}

/// The digits of e are `2.` followed by decimal digits, as many in all as
/// were asked for.
pub proof fn lemma_euler_digits_format(digits: nat)
    requires
        digits >= 1,
    ensures
        euler_digits(digits).len() == digits + 1,
        euler_digits(digits)[0] == '2',
        euler_digits(digits)[1] == '.',
        forall|i: int| 2 <= i <= digits ==> is_digit(#[trigger] euler_digits(digits)[i], 10),
{
    lemma_term_count_exists(digits);
    lemma_expansion_format(term_count_for(digits), digits);
}

/// Reading the digits of e as a number with a radix point, and writing that
/// number with as many places again, gives the same string.
pub proof fn lemma_euler_digits_round_trip(digits: nat)
    requires
        digits >= 1,
    ensures
        decimal_digits(fixed_point_value(euler_digits(digits))).insert(1, '.') == euler_digits(
            digits,
        ),
{
    let terms = term_count_for(digits);
    let value = truncated_sum(terms, digits);
    lemma_term_count_exists(digits);
    lemma_expansion_format(terms, digits);
    lemma_digits_value(value, 10);
    assert(decimal_digits(value).insert(1, '.').remove(1) =~= decimal_digits(value));
}

/// Later partial sums are larger, but never by as much as `1/(t * t!)`: for
/// `t <= u`, the difference of the sums through `1/u!` and through `1/t!`,
/// taken over the common denominator `t! * u!`, is at most
/// `1/(t * t!) - 1/(u * u!)`.
pub proof fn lemma_partial_sum_tail(t: nat, u: nat)
    requires
        1 <= t <= u,
    ensures
        partial_sum_numerator(u) * factorial(t) >= partial_sum_numerator(t) * factorial(u),
        (partial_sum_numerator(u) * factorial(t) - partial_sum_numerator(t) * factorial(u)) * t * u
            + t * factorial(t) <= u * factorial(u),
    decreases u,
{
    let a = partial_sum_numerator(t) as int;
    let f = factorial(t) as int;
    if u == t {
        assert((a * f - a * f) * t * u == 0) by (nonlinear_arith);
    } else {
        let v = (u - 1) as nat;
        lemma_partial_sum_tail(t, v);
        lemma_factorial_positive(v);
        lemma_factorial_positive(t);
        let b = partial_sum_numerator(v) as int;
        let g = factorial(v) as int;
        let gain = b * f - a * g;
        assert(partial_sum_numerator(u) == u * b + 1);
        assert(factorial(u) == u * g);
        let next = (u * b + 1) * f - a * (u * g);
        assert(next == u * gain + f) by (nonlinear_arith)
            requires
                next == (u * b + 1) * f - a * (u * g),
                gain == b * f - a * g,
        ;
        assert(next >= 0) by (nonlinear_arith)
            requires
                next == u * gain + f,
                gain >= 0,
                f >= 0,
                u >= 0,
        ;
        assert(next * t * u + t * f <= u * (u * g)) by (nonlinear_arith)
            requires
                next == u * gain + f,
                gain * t * v + t * f <= v * g,
                u == v + 1,
                v >= 1,
                t >= 1,
                gain >= 0,
                f >= 1,
                g >= 1,
        ;
    }
}

/// Once the factorial of the number of terms exceeds `10^(digits + MARGIN)`,
/// as it does from the term count on, further terms raise the scaled sum by at
/// most one unit in its last place.
pub proof fn lemma_more_terms_change_little(terms: nat, more: nat, digits: nat)
    requires
        digits >= 1,
        2 <= terms <= more,
        factorial(terms) > pow(10, digits + MARGIN as nat),
    ensures
        truncated_sum(terms, digits) <= truncated_sum(more, digits) <= truncated_sum(
            terms,
            digits,
        ) + 1,
{
    let t = (terms - 1) as nat;
    let u = (more - 1) as nat;
    let a = partial_sum_numerator(t) as int;
    let f = factorial(t) as int;
    let b = partial_sum_numerator(u) as int;
    let g = factorial(u) as int;
    let scale = pow(10, (digits - 1) as nat);
    lemma_partial_sum_tail(t, u);
    lemma_factorial_positive(t);
    lemma_factorial_positive(u);
    lemma_pow_positive(10, (digits - 1) as nat);
    lemma_pow_adds(10, 41, (digits - 1) as nat);
    let gain = b * f - a * g;
    let margin = pow(10, 41);
    assert(margin >= 2) by {
        reveal_with_fuel(pow, 2);
        lemma_pow_positive(10, 40);
    }
    assert(scale <= f * t) by (nonlinear_arith)
        requires
            (t + 1) * f > margin * scale,
            margin >= 2,
            scale >= 1,
            t >= 1,
            f >= 1,
    ;
    assert(gain * scale < f * g) by (nonlinear_arith)
        requires
            gain * t * u + t * f <= u * g,
            scale <= f * t,
            gain >= 0,
            1 <= t <= u,
            f >= 1,
            g >= 1,
            scale >= 1,
    ;
    let low = (a * scale) / f;
    let high = (b * scale) / g;
    assert(low <= high <= low + 1) by (nonlinear_arith)
        requires
            low == (a * scale) / f,
            high == (b * scale) / g,
            gain == b * f - a * g,
            gain >= 0,
            gain * scale < f * g,
            f >= 1,
            g >= 1,
            scale >= 1,
            a >= 0,
            b >= 0,
    ;
}

/// Whether the scaled sums are all `v` from `from` terms on.
pub open spec fn settles_at(digits: nat, from: nat, v: nat) -> bool {
    forall|terms: nat| terms >= from ==> #[trigger] truncated_sum(terms, digits) == v
}

/// Whether the scaled sums are all `v` from some number of terms on.
pub open spec fn settles(digits: nat, v: nat) -> bool {
    exists|from: nat| settles_at(digits, from, v)
}

/// The value at which the scaled sums settle as terms are added. The sums
/// rise towards e, which is no fraction, so this is `e * 10^(digits-1)`
/// rounded down.
pub open spec fn truncated_e(digits: nat) -> nat {
    choose|v: nat| settles(digits, v)
}

/// The scaled sums do settle, and the sum of as many terms as the term count
/// asks for has settled or is one unit in the last place short of it: the
/// digits that the kernel gives are those of e rounded down, or are those of
/// a number one unit in the last place below.
pub proof fn lemma_euler_digits_near_e(digits: nat)
    requires
        digits >= 1,
    ensures
        settles(digits, truncated_e(digits)),
        truncated_sum(term_count_for(digits), digits) <= truncated_e(digits) <= truncated_sum(
            term_count_for(digits),
            digits,
        ) + 1,
{
    let first = term_count_for(digits);
    let own = truncated_sum(first, digits);
    lemma_term_count_exists(digits);
    assert forall|terms: nat| terms >= first implies own <= #[trigger] truncated_sum(
        terms,
        digits,
    ) <= own + 1 by {
        lemma_more_terms_change_little(first, terms, digits);
    }
    if exists|risen: nat| risen >= first && truncated_sum(risen, digits) == own + 1 {
        let risen = choose|risen: nat| risen >= first && truncated_sum(risen, digits) == own + 1;
        assert forall|terms: nat| terms >= risen implies #[trigger] truncated_sum(terms, digits)
            == own + 1 by {
            lemma_factorial_increases(first, risen);
            lemma_more_terms_change_little(risen, terms, digits);
        }
        assert(settles_at(digits, risen, (own + 1) as nat));
        assert(settles(digits, (own + 1) as nat));
    } else {
        assert forall|terms: nat| terms >= first implies #[trigger] truncated_sum(terms, digits)
            == own by {
            if truncated_sum(terms, digits) != own {
                assert(terms >= first && truncated_sum(terms, digits) == own + 1);
            }
        }
        assert(settles_at(digits, first, own));
        assert(settles(digits, own));
    }
    let limit = truncated_e(digits);
    assert(settles(digits, limit));
    let from = choose|from: nat| settles_at(digits, from, limit);
    assert(settles_at(digits, from, limit));
    let late = if from >= first {
        from
    } else {
        first
    };
    assert(truncated_sum(late, digits) == limit);
    assert(own <= truncated_sum(late, digits) <= own + 1);
}

} // verus!
