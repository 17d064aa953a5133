//! How many terms of the series for e a given number of digits needs.
//!
//! The count is the least `t` whose factorial exceeds `10^(digits + MARGIN)`:
//! the first term left out, `1/t!`, then lies `MARGIN` decimal places below the
//! last digit asked for. Factorials are followed in a fixed-width bracket
//! `lo * 10^exp <= k! <= hi * 10^exp`; in the rare case where the bracket
//! straddles the power of ten, the factorial is formed exactly.

use crate::digits_of_e::{factorial, lemma_factorial_positive, lemma_split_from_zero, sum_terms};
use crate::number::Number;
use crate::radix::lemma_decimal_zero;
use vstd::arithmetic::power::{
    lemma_pow_adds, lemma_pow_increases, lemma_pow_positive, lemma_pow_strictly_increases, pow,
};
use vstd::prelude::*;
use vstd::string::StrSliceExecFns;

verus! {

/// The number of decimal places kept between the last digit asked for and the
/// first term of the series that is left out.
pub const MARGIN: u32 = 40;

/// Brackets are kept below this bound, `10^28`.
const LIMIT: u128 = 10_000_000_000_000_000_000_000_000_000;

/// A bracket that has reached `LIMIT` is divided by this, `10^10`.
const CHUNK: u128 = 10_000_000_000;

/// Whether `t` is the least number whose factorial exceeds
/// `10^(digits + MARGIN)`.
pub open spec fn is_term_count(digits: nat, t: nat) -> bool {
    &&& t >= 1
    &&& factorial((t - 1) as nat) <= pow(10, digits + MARGIN as nat)
    &&& pow(10, digits + MARGIN as nat) < factorial(t)
}

/// The number of terms for `digits` digits.
pub open spec fn term_count_for(digits: nat) -> nat {
    choose|t: nat| is_term_count(digits, t)
}

/// Factorials do not decrease.
pub proof fn lemma_factorial_increases(a: nat, b: nat)
    requires
        a <= b,
    ensures
        factorial(a) <= factorial(b),
    decreases b,
{
    if a < b {
        lemma_factorial_increases(a, (b - 1) as nat);
        lemma_factorial_positive((b - 1) as nat);
        assert(factorial((b - 1) as nat) <= b * factorial((b - 1) as nat)) by (nonlinear_arith)
            requires
                b >= 1,
        ;
    }
}

/// There is only one term count for a number of digits.
pub proof fn lemma_term_count_unique(digits: nat, t: nat)
    requires
        is_term_count(digits, t),
    ensures
        term_count_for(digits) == t,
{
    let u = term_count_for(digits);
    assert(is_term_count(digits, u));
    if u < t {
        lemma_factorial_increases(u, (t - 1) as nat);
    } else if t < u {
        lemma_factorial_increases(t, (u - 1) as nat);
    }
}

/// From 1000 on, each step multiplies the factorial by at least `10^3`.
proof fn lemma_factorial_outgrows(k: nat)
    requires
        k >= 1000,
    ensures
        factorial(k) >= pow(10, (3 * (k - 1000)) as nat),
    decreases k,
{
    if k == 1000 {
        lemma_factorial_positive(k);
        reveal(pow);
    } else {
        let below = pow(10, (3 * (k - 1001)) as nat);
        lemma_factorial_outgrows((k - 1) as nat);
        lemma_pow_adds(10, 3, (3 * (k - 1001)) as nat);
        assert(pow(10, 3) == 1000) by {
            reveal_with_fuel(pow, 4);
        }
        lemma_pow_positive(10, (3 * (k - 1001)) as nat);
        assert(k * factorial((k - 1) as nat) >= 1000 * below) by (nonlinear_arith)
            requires
                k >= 1000,
                factorial((k - 1) as nat) >= below,
                below >= 0,
        ;
    }
}

/// Below any number whose factorial exceeds `10^x` lies the least such number.
proof fn lemma_least_factorial_above(x: nat, k: nat)
    requires
        factorial(k) > pow(10, x),
    ensures
        exists|t: nat|
            1 <= t <= k && factorial((t - 1) as nat) <= pow(10, x) < #[trigger] factorial(t),
    decreases k,
{
    lemma_pow_positive(10, x);
    assert(k >= 1);
    if factorial((k - 1) as nat) > pow(10, x) {
        lemma_least_factorial_above(x, (k - 1) as nat);
    }
}

/// Every number of digits has its term count, and it is at least 2: the
/// terms `1/0!` and `1/1!` are always among those summed.
pub proof fn lemma_term_count_exists(digits: nat)
    ensures
        is_term_count(digits, term_count_for(digits)),
        term_count_for(digits) >= 2,
{
    let x = digits + MARGIN as nat;
    let k = x + 1001;
    lemma_factorial_outgrows(k);
    lemma_pow_strictly_increases(10, x, (3 * (k - 1000)) as nat);
    lemma_least_factorial_above(x, k);
    let t = choose|t: nat|
        1 <= t <= k && factorial((t - 1) as nat) <= pow(10, x) < #[trigger] factorial(t);
    assert(is_term_count(digits, t));
    lemma_term_count_unique(digits, t);
    lemma_pow_positive(10, x);
    assert(factorial(1) == 1) by {
        reveal_with_fuel(factorial, 2);
    }
}

/// Whether `lo * 10^exp <= f <= hi * 10^exp`.
spec fn brackets(lo: u128, hi: u128, exp: u64, f: nat) -> bool {
    lo * pow(10, exp as nat) <= f <= hi * pow(10, exp as nat)
}

/// `10^g` in a machine word.
fn power_of_ten(g: u32) -> (r: u128)
    requires
        g <= 38,
    ensures
        r == pow(10, g as nat),
{
    let mut r: u128 = 1;
    let mut i: u32 = 0;
    proof {
        reveal(pow);
    }
    while i < g
        invariant
            i <= g <= 38,
            r == pow(10, i as nat),
        decreases g - i,
    {
        proof {
            reveal(pow);
            lemma_pow_increases(10, (i + 1) as nat, 38);
            assert(pow(10, 38) == 100_000_000_000_000_000_000_000_000_000_000_000_000int) by {
                reveal_with_fuel(pow, 39);
            }
        }
        r = r * 10;
        i = i + 1;
    }
    r
}

/// Takes a bracket of `(k-1)!` to one of `k!`.
fn advance(lo: u128, hi: u128, exp: u64, k: u32) -> (r: (u128, u128, u64))
    requires
        k >= 1,
        lo <= hi < LIMIT,
        exp <= 10 * (k - 1),
        brackets(lo, hi, exp, factorial((k - 1) as nat)),
    ensures
        r.0 <= r.1 < LIMIT,
        r.2 <= 10 * k,
        brackets(r.0, r.1, r.2, factorial(k as nat)),
{
    let ghost scale = pow(10, exp as nat);
    let ghost before = factorial((k - 1) as nat);
    proof {
        lemma_pow_positive(10, exp as nat);
        assert(hi * k < LIMIT * 0x1_0000_0000) by (nonlinear_arith)
            requires
                hi < LIMIT,
                k < 0x1_0000_0000,
        ;
        assert(lo * k <= hi * k) by (nonlinear_arith)
            requires
                lo <= hi,
        ;
        assert((lo * k) * scale <= k * before <= (hi * k) * scale) by (nonlinear_arith)
            requires
                lo * scale <= before <= hi * scale,
        ;
    }
    let lo = lo * (k as u128);
    let hi = hi * (k as u128);
    if hi >= LIMIT {
        proof {
            lemma_pow_adds(10, 10, exp as nat);
            assert(pow(10, 10) == CHUNK) by {
                reveal_with_fuel(pow, 11);
            }
            let wide = pow(10, (exp + 10) as nat);
            assert(wide == CHUNK * scale);
            assert((lo / CHUNK) * (CHUNK * scale) <= lo * scale) by (nonlinear_arith)
                requires
                    scale > 0,
            ;
            assert((hi / CHUNK + 1) * (CHUNK * scale) >= hi * scale) by (nonlinear_arith)
                requires
                    scale > 0,
            ;
        }
        (lo / CHUNK, hi / CHUNK + 1, exp + 10)
    } else {
        (lo, hi, exp)
    }
}

/// Places a bracketed number against `10^target`. The answer is `Some(true)`
/// exactly where the lower end of the bracket is above the power, so that
/// the number is too; `Some(false)` exactly where the upper end is not above
/// it, so that the number is not either; and `None` where the power lies
/// between the two ends and the bracket cannot tell.
fn compare(lo: u128, hi: u128, exp: u64, target: u64, Ghost(f): Ghost<nat>) -> (r: Option<bool>)
    requires
        lo <= hi < LIMIT,
        brackets(lo, hi, exp, f),
    ensures
        r == Some(true) <==> lo * pow(10, exp as nat) > pow(10, target as nat),
        r == Some(false) <==> hi * pow(10, exp as nat) <= pow(10, target as nat),
        r == Some(true) ==> f > pow(10, target as nat),
        r == Some(false) ==> f <= pow(10, target as nat),
{
    let ghost scale = pow(10, exp as nat);
    let ghost goal = pow(10, target as nat);
    proof {
        lemma_pow_positive(10, exp as nat);
        lemma_pow_positive(10, target as nat);
        assert(lo * scale <= hi * scale) by (nonlinear_arith)
            requires
                lo <= hi,
                scale > 0,
        ;
    }
    if exp > target {
        proof {
            lemma_pow_strictly_increases(10, target as nat, exp as nat);
        }
        if lo >= 1 {
            proof {
                assert(lo * scale >= scale) by (nonlinear_arith)
                    requires
                        lo >= 1,
                        scale >= 0,
                ;
            }
            Some(true)
        } else if hi == 0 {
            proof {
                assert(hi * scale == 0) by (nonlinear_arith)
                    requires
                        hi == 0,
                ;
            }
            Some(false)
        } else {
            proof {
                assert(lo * scale == 0) by (nonlinear_arith)
                    requires
                        lo == 0,
                ;
                assert(hi * scale >= scale) by (nonlinear_arith)
                    requires
                        hi >= 1,
                        scale >= 0,
                ;
            }
            None
        }
    } else if target - exp >= 28 {
        proof {
            lemma_pow_adds(10, 28, exp as nat);
            lemma_pow_increases(10, (28 + exp) as nat, target as nat);
            assert(pow(10, 28) == LIMIT) by {
                reveal_with_fuel(pow, 29);
            }
            assert(hi * scale < LIMIT * scale) by (nonlinear_arith)
                requires
                    hi < LIMIT,
                    scale > 0,
            ;
        }
        Some(false)
    } else {
        let gap: u32 = (target - exp) as u32;
        let mark = power_of_ten(gap);
        proof {
            lemma_pow_adds(10, gap as nat, exp as nat);
            assert(goal == mark * scale);
        }
        if lo > mark {
            proof {
                assert(lo * scale > mark * scale) by (nonlinear_arith)
                    requires
                        lo > mark,
                        scale > 0,
                ;
            }
            Some(true)
        } else if hi <= mark {
            proof {
                assert(hi * scale <= mark * scale) by (nonlinear_arith)
                    requires
                        hi <= mark,
                        scale > 0,
                ;
            }
            Some(false)
        } else {
            proof {
                assert(lo * scale <= mark * scale) by (nonlinear_arith)
                    requires
                        lo <= mark,
                        scale > 0,
                ;
                assert(hi * scale > mark * scale) by (nonlinear_arith)
                    requires
                        hi > mark,
                        scale > 0,
                ;
            }
            None
        }
    }
}

/// `10^target` as a `Number`.
fn big_power_of_ten<T: Number>(target: u64) -> (r: T)
    requires
        target <= u32::MAX + MARGIN,
    ensures
        r.value() == pow(10, target as nat),
{
    let ten = T::from_small(10);
    if target <= u32::MAX as u64 {
        ten.pow(target as u32)
    } else {
        let rest: u32 = (target - u32::MAX as u64) as u32;
        proof {
            lemma_pow_adds(10, u32::MAX as nat, rest as nat);
        }
        ten.pow(u32::MAX).mul(ten.pow(rest))
    }
}

/// Whether `k!` exceeds `10^target`, by exact arithmetic: the power of ten is
/// divided by the factorial, and the quotient is zero where the factorial is
/// the larger.
pub fn factorial_exceeds<T: Number>(k: u32, target: u64) -> (r: bool)
    requires
        k >= 1,
        target <= u32::MAX + MARGIN,
    ensures
        r == (factorial(k as nat) > pow(10, target as nat)),
{
    let (_, product) = sum_terms::<T>(0, k);
    let power = big_power_of_ten::<T>(target);
    proof {
        lemma_split_from_zero(k as nat);
        lemma_factorial_positive(k as nat);
        lemma_pow_positive(10, target as nat);
        let p = pow(10, target as nat);
        let f = factorial(k as nat) as int;
        assert((p / f == 0) == (f > p)) by (nonlinear_arith)
            requires
                p > 0,
                f > 0,
        ;
        lemma_decimal_zero((p / f) as nat);
    }
    let quotient = power.div(product).to_decimal();
    let text = quotient.as_str();
    text.unicode_len() == 1 && text.get_char(0) == '0'
}

/// The number of terms of the series for e that `digits` digits need: the
/// least `t` with `t! > 10^(digits + MARGIN)`.
pub fn term_count<T: Number>(digits: u32) -> (t: u32)
    ensures
        is_term_count(digits as nat, t as nat),
        t as nat == term_count_for(digits as nat),
        t >= 2,
{
    let target: u64 = digits as u64 + MARGIN as u64;
    let mut k: u32 = 1;
    let mut lo: u128 = 1;
    let mut hi: u128 = 1;
    let mut exp: u64 = 0;
    proof {
        reveal(pow);
        reveal_with_fuel(factorial, 2);
        lemma_pow_positive(10, target as nat);
    }
    loop
        invariant
            target == digits + MARGIN,
            1 <= k < 0x7fff_ffff,
            lo <= hi < LIMIT,
            exp <= 10 * k,
            brackets(lo, hi, exp, factorial(k as nat)),
            factorial(k as nat) <= pow(10, target as nat),
        decreases 0x7fff_ffff - k,
    {
        k = k + 1;
        let (l, h, e) = advance(lo, hi, exp, k);
        lo = l;
        hi = h;
        exp = e;
        let above = match compare(lo, hi, exp, target, Ghost(factorial(k as nat))) {
            Some(verdict) => verdict,
            None => factorial_exceeds::<T>(k, target),
        };
        if above {
            proof {
                lemma_term_count_unique(digits as nat, k as nat);
            }
            return k;
        }
        proof {
            if k >= 0x7fff_ffff {
                lemma_factorial_outgrows(k as nat);
                lemma_pow_strictly_increases(10, target as nat, (3 * (k - 1000)) as nat);
            }
        }
    }
}

} // verus!
