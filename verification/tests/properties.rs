use bigint_benchmark::digits_of_e::{calculate, calculate_with_terms};
use bigint_benchmark::fib::{calculate_decimal, calculate_hex, fibonacci};
use bigint_benchmark::number::Number;
use bigint_benchmark::task::compare_libraries;
use bigint_benchmark::term_count::term_count;
use std::str::FromStr;

const DIGIT_COUNTS: [u32; 5] = [1, 2, 10, 100, 1000];

const FIB_INDICES: [u32; 12] = [0, 1, 2, 3, 10, 16, 93, 94, 100, 1000, 4095, 4096];

const E_100: &str = "2.718281828459045235360287471352662497757247093699959574966967627724076630353547594571382178525166427";

fn check_e_format<T: Number>() {
    for d in DIGIT_COUNTS {
        let answer = calculate::<T>(d);
        assert_eq!(answer.len(), d as usize + 1);
        for (i, c) in answer.chars().enumerate() {
            match i {
                0 => assert_eq!(c, '2'),
                1 => assert_eq!(c, '.'),
                _ => assert!(c.is_ascii_digit()),
            }
        }
    }
}

#[test]
fn e_has_the_digits_asked_for_with_ibig() {
    check_e_format::<ibig::UBig>();
}

#[test]
fn e_has_the_digits_asked_for_with_num_bigint() {
    check_e_format::<num_bigint::BigUint>();
}

#[test]
fn e_has_the_digits_asked_for_with_rug() {
    check_e_format::<rug::Integer>();
}

#[test]
fn e_has_the_digits_asked_for_with_malachite() {
    check_e_format::<malachite::natural::Natural>();
}

#[test]
fn e_has_the_digits_asked_for_with_dashu() {
    check_e_format::<dashu::Natural>();
}

#[test]
fn e_of_100_digits() {
    assert_eq!(calculate::<ibig::UBig>(100), E_100);
}

#[test]
fn e_of_1000_digits_begins_and_ends_right() {
    let answer = calculate::<malachite::natural::Natural>(1000);
    assert!(answer.starts_with(E_100));
    assert!(answer.ends_with("4171898610687396965521267154688957035035"));
}

#[test]
fn shorter_expansions_are_prefixes_of_longer_ones() {
    let long = calculate::<dashu::Natural>(1000);
    for d in 1..=120usize {
        assert_eq!(calculate::<dashu::Natural>(d as u32), long[..d + 1]);
    }
}

#[test]
fn libraries_agree_on_e() {
    for d in DIGIT_COUNTS {
        let answer = calculate::<ibig::UBig>(d);
        assert_eq!(calculate::<num_bigint::BigUint>(d), answer);
        assert_eq!(calculate::<rug::Integer>(d), answer);
        assert_eq!(calculate::<malachite::natural::Natural>(d), answer);
        assert_eq!(calculate::<dashu::Natural>(d), answer);
    }
}

#[test]
fn libraries_agree_on_many_digits_of_e() {
    let answer = calculate::<rug::Integer>(20000);
    assert_eq!(answer.len(), 20001);
    assert_eq!(calculate::<ibig::UBig>(20000), answer);
    assert_eq!(calculate::<num_bigint::BigUint>(20000), answer);
    assert_eq!(calculate::<malachite::natural::Natural>(20000), answer);
    assert_eq!(calculate::<dashu::Natural>(20000), answer);
}

#[test]
fn libraries_agree_on_a_large_fib() {
    let answer = calculate_hex::<rug::Integer>(1_000_000);
    assert_eq!(calculate_hex::<ibig::UBig>(1_000_000), answer);
    assert_eq!(calculate_hex::<num_bigint::BigUint>(1_000_000), answer);
    assert_eq!(calculate_hex::<malachite::natural::Natural>(1_000_000), answer);
    assert_eq!(calculate_hex::<dashu::Natural>(1_000_000), answer);
}

#[test]
fn libraries_agree_on_fib() {
    for n in FIB_INDICES {
        let answer = calculate_decimal::<ibig::UBig>(n);
        assert_eq!(calculate_decimal::<num_bigint::BigUint>(n), answer);
        assert_eq!(calculate_decimal::<rug::Integer>(n), answer);
        assert_eq!(calculate_decimal::<malachite::natural::Natural>(n), answer);
        assert_eq!(calculate_decimal::<dashu::Natural>(n), answer);
    }
}

#[test]
fn libraries_agree_on_fib_hex() {
    for n in FIB_INDICES {
        let answer = calculate_hex::<ibig::UBig>(n);
        assert_eq!(calculate_hex::<num_bigint::BigUint>(n), answer);
        assert_eq!(calculate_hex::<rug::Integer>(n), answer);
        assert_eq!(calculate_hex::<malachite::natural::Natural>(n), answer);
        assert_eq!(calculate_hex::<dashu::Natural>(n), answer);
    }
}

#[test]
fn compare_libraries_finds_them_in_agreement() {
    let libs = vec!["ibig", "num-bigint", "rug", "malachite", "dashu"];
    let (answer, agrees) = compare_libraries(&libs, "fib", 100);
    assert_eq!(answer, Some("354224848179261915075".to_string()));
    assert_eq!(agrees, vec![true; 5]);
    let (answer, agrees) = compare_libraries(&libs, "e", 10);
    assert_eq!(answer, Some("2.718281828".to_string()));
    assert_eq!(agrees, vec![true; 5]);
    let (answer, agrees) = compare_libraries(&libs, "fib_hex", 16);
    assert_eq!(answer, Some("3db".to_string()));
    assert_eq!(agrees, vec![true; 5]);
}

#[test]
fn compare_libraries_of_none() {
    let libs: Vec<&str> = Vec::new();
    let (answer, agrees) = compare_libraries(&libs, "fib", 100);
    assert_eq!(answer, None);
    assert!(agrees.is_empty());
}

#[test]
fn fib_decimal_obeys_the_recurrence_with_ibig() {
    for n in 2..=300u32 {
        let a = ibig::UBig::from_str(&calculate_decimal::<ibig::UBig>(n - 1)).unwrap();
        let b = ibig::UBig::from_str(&calculate_decimal::<ibig::UBig>(n - 2)).unwrap();
        assert_eq!(calculate_decimal::<ibig::UBig>(n), (a + b).to_string());
    }
}

#[test]
fn fib_decimal_obeys_the_recurrence_with_num_bigint() {
    for n in 2..=300u32 {
        let a = num_bigint::BigUint::from_str(&calculate_decimal::<num_bigint::BigUint>(n - 1))
            .unwrap();
        let b = num_bigint::BigUint::from_str(&calculate_decimal::<num_bigint::BigUint>(n - 2))
            .unwrap();
        assert_eq!(calculate_decimal::<num_bigint::BigUint>(n), (a + b).to_string());
    }
}

fn check_recurrence<T: Number>() {
    for n in [2u32, 3, 64, 65, 1000, 1001, 65535, 65536] {
        let sum = fibonacci::<T>(n - 1).add(fibonacci::<T>(n - 2));
        assert_eq!(fibonacci::<T>(n).to_decimal(), sum.to_decimal());
    }
}

#[test]
fn fib_obeys_the_recurrence_with_every_library() {
    check_recurrence::<ibig::UBig>();
    check_recurrence::<num_bigint::BigUint>();
    check_recurrence::<rug::Integer>();
    check_recurrence::<malachite::natural::Natural>();
    check_recurrence::<dashu::Natural>();
}

#[test]
fn fib_hex_is_the_hex_of_fib_decimal() {
    for n in FIB_INDICES {
        let parsed = ibig::UBig::from_str(&calculate_decimal::<ibig::UBig>(n)).unwrap();
        assert_eq!(calculate_hex::<ibig::UBig>(n), format!("{:x}", parsed));
        let parsed =
            num_bigint::BigUint::from_str(&calculate_decimal::<num_bigint::BigUint>(n)).unwrap();
        assert_eq!(calculate_hex::<num_bigint::BigUint>(n), format!("{:x}", parsed));
    }
}

#[test]
fn fib_1000_in_both_radices() {
    assert_eq!(
        calculate_decimal::<rug::Integer>(1000),
        "43466557686937456435688527675040625802564660517371780402481729089536555417949051890403879840079255169295922593080322634775209689623239873322471161642996440906533187938298969649928516003704476137795166849228875"
    );
    assert_eq!(
        calculate_hex::<rug::Integer>(1000),
        "21d8cb07b572c25732bb116f2c33bab0e83d0c699bad1a727a736a7e42ca93b697ad224d55398373062f18ff62b99c28068131a3fab0c12e3510283c1d60b00930b7e8803c312b4c8e6d5286805fc70b594dc75cc0604b"
    );
}

fn check_cassini<T: Number>() {
    for n in 1..=200u32 {
        let product = fibonacci::<T>(n + 1).mul(fibonacci::<T>(n - 1));
        let f = fibonacci::<T>(n);
        let square = f.mul_ref(&f);
        let one = T::from_small(1);
        if n % 2 == 0 {
            // F(n+1) * F(n-1) - F(n)^2 = 1
            assert_eq!(product.sub_ref(&square).to_decimal(), "1");
        } else {
            // F(n+1) * F(n-1) - F(n)^2 = -1
            assert_eq!(square.sub_ref(&product).to_decimal(), "1");
        }
        assert_eq!(one.to_decimal(), "1");
    }
}

#[test]
fn cassini_holds_with_every_library() {
    check_cassini::<ibig::UBig>();
    check_cassini::<num_bigint::BigUint>();
    check_cassini::<rug::Integer>();
    check_cassini::<malachite::natural::Natural>();
    check_cassini::<dashu::Natural>();
}

#[test]
fn e_survives_parsing_and_printing() {
    for d in DIGIT_COUNTS {
        let answer = calculate::<ibig::UBig>(d);
        let (whole, fraction) = answer.split_at(1);
        let fraction = &fraction[1..];
        assert_eq!(fraction.len(), d as usize - 1);
        let scaled = ibig::UBig::from_str(&format!("{}{}", whole, fraction)).unwrap();
        let mut printed = scaled.to_string();
        printed.insert(1, '.');
        assert_eq!(printed, answer);
    }
}

#[test]
fn kernels_are_deterministic() {
    for d in DIGIT_COUNTS {
        assert_eq!(
            calculate::<malachite::natural::Natural>(d),
            calculate::<malachite::natural::Natural>(d)
        );
    }
    for n in FIB_INDICES {
        assert_eq!(calculate_decimal::<dashu::Natural>(n), calculate_decimal::<dashu::Natural>(n));
        assert_eq!(calculate_hex::<rug::Integer>(n), calculate_hex::<rug::Integer>(n));
    }
}

#[test]
fn term_count_does_not_depend_on_the_library() {
    for d in [1u32, 2, 10, 100, 1000, 12345] {
        let t = term_count::<ibig::UBig>(d);
        assert_eq!(term_count::<num_bigint::BigUint>(d), t);
        assert_eq!(term_count::<rug::Integer>(d), t);
        assert_eq!(term_count::<malachite::natural::Natural>(d), t);
        assert_eq!(term_count::<dashu::Natural>(d), t);
    }
}

#[test]
fn more_terms_than_needed_change_nothing_here() {
    for d in [1u32, 10, 100, 1000] {
        let t = term_count::<ibig::UBig>(d);
        assert_eq!(
            calculate_with_terms::<ibig::UBig>(d, t + 50),
            calculate_with_terms::<ibig::UBig>(d, t)
        );
    }
}
