use bigint_benchmark::number::Number;

fn small<T: Number>(u: u32) -> T {
    T::from_small(u)
}

fn check_capabilities<T: Number>() {
    // from_small and to_decimal
    assert_eq!(small::<T>(0).to_decimal(), "0");
    assert_eq!(small::<T>(7).to_decimal(), "7");
    assert_eq!(small::<T>(4294967295).to_decimal(), "4294967295");

    // to_hex
    assert_eq!(small::<T>(0).to_hex(), "0");
    assert_eq!(small::<T>(255).to_hex(), "ff");
    assert_eq!(small::<T>(48879).to_hex(), "beef");
    assert_eq!(small::<T>(4294967295).to_hex(), "ffffffff");

    // add, add_ref
    assert_eq!(small::<T>(2).add(small::<T>(3)).to_decimal(), "5");
    assert_eq!(
        small::<T>(4294967295).add(small::<T>(4294967295)).to_decimal(),
        "8589934590"
    );
    let three = small::<T>(3);
    assert_eq!(small::<T>(2).add_ref(&three).to_decimal(), "5");
    assert_eq!(three.to_decimal(), "3");

    // sub_ref
    let five = small::<T>(5);
    assert_eq!(small::<T>(17).sub_ref(&five).to_decimal(), "12");
    assert_eq!(small::<T>(5).sub_ref(&five).to_decimal(), "0");
    assert_eq!(five.to_decimal(), "5");

    // mul, mul_by_ref, mul_ref
    assert_eq!(small::<T>(6).mul(small::<T>(7)).to_decimal(), "42");
    let seven = small::<T>(7);
    assert_eq!(small::<T>(6).mul_by_ref(&seven).to_decimal(), "42");
    let six = small::<T>(6);
    assert_eq!(six.mul_ref(&seven).to_decimal(), "42");
    assert_eq!(six.to_decimal(), "6");
    assert_eq!(seven.to_decimal(), "7");
    let max = small::<T>(4294967295);
    let cube = max.mul_ref(&max).mul_by_ref(&max);
    assert_eq!(cube.to_decimal(), "79228162458924105385300197375");

    // div
    assert_eq!(small::<T>(17).div(small::<T>(5)).to_decimal(), "3");
    assert_eq!(small::<T>(4).div(small::<T>(5)).to_decimal(), "0");
    assert_eq!(small::<T>(15).div(small::<T>(5)).to_decimal(), "3");

    // pow
    assert_eq!(small::<T>(3).pow(5).to_decimal(), "243");
    assert_eq!(small::<T>(3).pow(0).to_decimal(), "1");
    assert_eq!(small::<T>(0).pow(0).to_decimal(), "1");
    assert_eq!(small::<T>(0).pow(3).to_decimal(), "0");
    assert_eq!(
        small::<T>(7).pow(77).to_decimal(),
        "118181386580595879976868414312001964434038548836769923458287039207"
    );
    let power = small::<T>(10).pow(30);
    assert_eq!(power.to_decimal(), "1000000000000000000000000000000");
    assert_eq!(power.to_hex(), "c9f2c9cd04674edea40000000");

    // beyond one machine word
    assert_eq!(
        small::<T>(10).pow(30).div(small::<T>(4294967295)).to_decimal(),
        "232830643708079737543"
    );
    assert_eq!(
        small::<T>(10).pow(30).sub_ref(&cube).to_decimal(),
        "920771837541075894614699802625"
    );
    assert_eq!(
        small::<T>(10).pow(30).add(cube).to_decimal(),
        "1079228162458924105385300197375"
    );
}

#[test]
fn ibig_capabilities() {
    check_capabilities::<ibig::UBig>();
}

#[test]
fn num_bigint_capabilities() {
    check_capabilities::<num_bigint::BigUint>();
}

#[test]
fn rug_capabilities() {
    check_capabilities::<rug::Integer>();
}

#[test]
fn malachite_capabilities() {
    check_capabilities::<malachite::natural::Natural>();
}

#[test]
fn dashu_capabilities() {
    check_capabilities::<dashu::Natural>();
}

#[test]
fn from_small_agrees_with_the_library() {
    assert_eq!(<ibig::UBig as Number>::from_small(12345), ibig::UBig::from(12345u32));
    assert_eq!(
        <num_bigint::BigUint as Number>::from_small(12345),
        num_bigint::BigUint::from(12345u32)
    );
    assert_eq!(<rug::Integer as Number>::from_small(12345), rug::Integer::from(12345u32));
    assert_eq!(
        <malachite::natural::Natural as Number>::from_small(12345),
        malachite::natural::Natural::from(12345u32)
    );
    assert_eq!(<dashu::Natural as Number>::from_small(12345), dashu::Natural::from(12345u32));
}
