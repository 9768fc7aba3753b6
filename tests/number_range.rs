use clap_num::number_range;

#[test]
fn number_range_simple() {
    assert_eq!(number_range("123", 12u8, 200u8), Ok(123u8));
}

#[test]
fn number_range_zero() {
    assert_eq!(number_range("0", 0u8, 0u8), Ok(0u8));
}

#[test]
fn number_range_neg() {
    assert_eq!(number_range("-1", -10i8, 10i8), Ok(-1));
}

#[test]
fn number_range_min_limit() {
    assert_eq!(number_range("-5", -5i8, -5i8), Ok(-5i8));
}

#[test]
fn number_range_max_limit() {
    assert_eq!(number_range("65535", 0, u16::MAX), Ok(u16::MAX));
}

#[test]
fn number_range_decimal() {
    assert_eq!(
        number_range("1.1", -10i8, 10i8),
        Err(String::from("invalid digit found in string"))
    );
}

#[test]
fn number_range_min() {
    assert_eq!(
        number_range("-1", 0i8, 0i8),
        Err(String::from("less than minimum of 0"))
    );
}

#[test]
fn number_range_max() {
    assert_eq!(
        number_range("1", 0i8, 0i8),
        Err(String::from("exceeds maximum of 0"))
    );
}

#[test]
fn number_range_overflow() {
    assert_eq!(
        number_range("256", 0, u8::MAX),
        Err(String::from("number too large to fit in target type"))
    );
}

#[test]
fn number_range_nan() {
    assert_eq!(
        number_range::<u8>("nan", 0, 0),
        Err(String::from("invalid digit found in string"))
    );
}

#[test]
fn number_range_empty() {
    assert_eq!(
        number_range::<u8>("", 0, 9),
        Err(String::from("cannot parse integer from empty string"))
    );
}

#[test]
fn number_range_too_small_for_type() {
    assert_eq!(
        number_range::<i8>("-129", -128, 127),
        Err(String::from("number too small to fit in target type"))
    );
}

#[test]
fn number_range_plus_sign() {
    assert_eq!(number_range("+7", 0u32, 9u32), Ok(7u32));
}

#[test]
fn number_range_lone_sign() {
    assert_eq!(
        number_range::<i32>("-", -5, 5),
        Err(String::from("invalid digit found in string"))
    );
}

#[test]
fn number_range_minus_on_unsigned() {
    assert_eq!(
        number_range::<u32>("-0", 0, 5),
        Err(String::from("invalid digit found in string"))
    );
}

#[test]
fn number_range_type_limits() {
    assert_eq!(number_range("-128", i8::MIN, i8::MAX), Ok(i8::MIN));
    assert_eq!(
        number_range("-170141183460469231731687303715884105728", i128::MIN, i128::MAX),
        Ok(i128::MIN)
    );
    assert_eq!(
        number_range("340282366920938463463374607431768211455", 0, u128::MAX),
        Ok(u128::MAX)
    );
    assert_eq!(number_range("18446744073709551615", 0, u64::MAX), Ok(u64::MAX));
}

#[test]
fn number_range_cents() {
    assert_eq!(number_range("99", 0u8, 99u8), Ok(99u8));
    assert_eq!(
        number_range("100", 0u8, 99u8),
        Err(String::from("exceeds maximum of 99"))
    );
}

#[test]
fn number_range_temperature() {
    let t = |s: &str| number_range::<i8>(s, -40, 60);
    assert_eq!(t("50"), Ok(50));
    assert_eq!(t("0"), Ok(0));
    assert_eq!(t("-30"), Ok(-30));
    assert_eq!(t("60"), Ok(60));
    assert_eq!(t("-40"), Ok(-40));
    assert_eq!(t("-41"), Err(String::from("less than minimum of -40")));
    assert_eq!(t("61"), Err(String::from("exceeds maximum of 60")));
}

#[test]
fn number_range_bounds_in_messages() {
    assert_eq!(
        number_range::<i64>("-9223372036854775808", -9223372036854775807, 0),
        Err(String::from("less than minimum of -9223372036854775807"))
    );
    assert_eq!(
        number_range::<u128>("1000", 0, 999),
        Err(String::from("exceeds maximum of 999"))
    );
}

#[test]
fn number_range_round_trip() {
    for n in [-128i16, -1, 0, 7, 10, 255, 32767, -32768] {
        assert_eq!(number_range(&n.to_string(), i16::MIN, i16::MAX), Ok(n));
    }
}

#[test]
fn number_range_malformed_beyond_range() {
    assert_eq!(
        number_range::<u8>("999x", 0, 255),
        Err(String::from("invalid digit found in string"))
    );
    assert_eq!(
        number_range::<i8>("-999x", -128, 127),
        Err(String::from("invalid digit found in string"))
    );
}
