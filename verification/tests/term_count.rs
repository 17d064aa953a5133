use bigint_benchmark::term_count::{factorial_exceeds, term_count, MARGIN};

#[test]
fn margin_is_forty_places() {
    assert_eq!(MARGIN, 40);
}

#[test]
fn term_counts_of_small_digit_counts() {
    // The least t with t! > 10^(digits + 40).
    // 35! = 1.03e40, 36! = 3.72e41, 37! = 1.38e43, 38! = 5.23e44, 39! = 2.04e46
    assert_eq!(term_count::<ibig::UBig>(1), 36);
    assert_eq!(term_count::<ibig::UBig>(2), 37);
    assert_eq!(term_count::<ibig::UBig>(3), 37);
    assert_eq!(term_count::<ibig::UBig>(4), 38);
    assert_eq!(term_count::<ibig::UBig>(5), 39);
    assert_eq!(term_count::<ibig::UBig>(0), 35);
}

#[test]
fn term_count_is_the_least_with_every_library() {
    for digits in [1u32, 7, 60, 500, 3000] {
        let t = term_count::<rug::Integer>(digits);
        let target = digits as u64 + 40;
        assert!(factorial_exceeds::<rug::Integer>(t, target));
        assert!(!factorial_exceeds::<rug::Integer>(t - 1, target));
        assert!(factorial_exceeds::<ibig::UBig>(t, target));
        assert!(!factorial_exceeds::<ibig::UBig>(t - 1, target));
        assert!(factorial_exceeds::<num_bigint::BigUint>(t, target));
        assert!(!factorial_exceeds::<num_bigint::BigUint>(t - 1, target));
        assert!(factorial_exceeds::<malachite::natural::Natural>(t, target));
        assert!(!factorial_exceeds::<malachite::natural::Natural>(t - 1, target));
        assert!(factorial_exceeds::<dashu::Natural>(t, target));
        assert!(!factorial_exceeds::<dashu::Natural>(t - 1, target));
    }
}

#[test]
fn factorial_against_small_powers_of_ten() {
    // 1! = 1 = 10^0
    assert!(!factorial_exceeds::<ibig::UBig>(1, 0));
    assert!(factorial_exceeds::<ibig::UBig>(2, 0));
    // 3! = 6 < 10 < 24 = 4!
    assert!(!factorial_exceeds::<ibig::UBig>(3, 1));
    assert!(factorial_exceeds::<ibig::UBig>(4, 1));
    // 5! = 120 > 100, 4! = 24 < 100
    assert!(!factorial_exceeds::<dashu::Natural>(4, 2));
    assert!(factorial_exceeds::<dashu::Natural>(5, 2));
    // 10! = 3628800
    assert!(factorial_exceeds::<malachite::natural::Natural>(10, 6));
    assert!(!factorial_exceeds::<malachite::natural::Natural>(10, 7));
    // 25! = 1.55e25
    assert!(factorial_exceeds::<num_bigint::BigUint>(25, 25));
    assert!(!factorial_exceeds::<num_bigint::BigUint>(25, 26));
    // 24! = 6.2e23
    assert!(!factorial_exceeds::<rug::Integer>(24, 24));
}

#[test]
fn term_count_of_many_digits() {
    // log10(t!) crosses 100040 between these two.
    let t = term_count::<rug::Integer>(100_000);
    assert!(factorial_exceeds::<rug::Integer>(t, 100_040));
    assert!(!factorial_exceeds::<rug::Integer>(t - 1, 100_040));
}
