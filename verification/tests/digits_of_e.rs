use bigint_benchmark::digits_of_e::{calculate, calculate_with_terms, sum_terms};
use bigint_benchmark::term_count::term_count;

#[test]
fn e_to_ten_digits() {
    assert_eq!(calculate::<ibig::UBig>(10), "2.718281828");
}

#[test]
fn e_to_one_digit() {
    assert_eq!(calculate::<ibig::UBig>(1), "2.");
}

#[test]
fn sum_terms_base_case() {
    let (p, q) = sum_terms::<ibig::UBig>(4, 5);
    assert_eq!(p, ibig::UBig::from(1u32));
    assert_eq!(q, ibig::UBig::from(5u32));
}

#[test]
fn sum_terms_first_four() {
    // 1/1! + 1/2! + 1/3! + 1/4! = 41/24
    let (p, q) = sum_terms::<ibig::UBig>(0, 4);
    assert_eq!(p, ibig::UBig::from(41u32));
    assert_eq!(q, ibig::UBig::from(24u32));
}

#[test]
fn few_terms_give_few_right_digits() {
    // 1 + 1 + 1/2 + 1/6 = 2.6666...
    assert_eq!(calculate_with_terms::<ibig::UBig>(5, 4), "2.6666");
}

#[test]
fn term_count_of_the_reference_configuration() {
    assert_eq!(term_count::<ibig::UBig>(1_000_000), 205030);
}

#[test]
fn term_count_for_one_digit() {
    // 35! < 10^41 < 36!
    assert_eq!(term_count::<ibig::UBig>(1), 36);
}
