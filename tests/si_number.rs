use clap_num::{si_number, si_number_range};

#[test]
fn utf8_byte_index_not_char_boundry() {
    let _ = si_number::<u64>("˲TP");
}

#[test]
fn utf8_byte_index_not_char_boundry_with_decimal() {
    let _ = si_number::<u64>("˲.E");
}

fn check<T: clap_num::Integer + std::fmt::Debug + PartialEq>(s: &str, expected: Result<T, &str>) {
    assert_eq!(si_number::<T>(s), expected.map_err(String::from));
}

#[test]
fn si_plain() {
    check("0", Ok(0u8));
    check("1", Ok(1u8));
    check("-1", Ok(-1i8));
    check("255", Ok(255u8));
}

#[test]
fn si_each_prefix() {
    check("1k", Ok(1_000u16));
    check("1M", Ok(1_000_000u32));
    check("1G", Ok(1_000_000_000u64));
    check("1T", Ok(1_000_000_000_000u64));
    check("1P", Ok(1_000_000_000_000_000u64));
    check("1E", Ok(1_000_000_000_000_000_000u64));
    check("1Z", Ok(1_000_000_000_000_000_000_000u128));
    check("1Y", Ok(1_000_000_000_000_000_000_000_000u128));
}

#[test]
fn si_upper_case_k_is_no_prefix() {
    check::<u16>("1K", Err("invalid digit found in string"));
    check::<u16>("1K23.45", Err("invalid digit found in string"));
}

#[test]
fn si_trailing() {
    check("1k2", Ok(1_200u16));
    check("1k23", Ok(1_230u16));
    check("1k234", Ok(1_234u16));
    check::<u16>("1k2345", Err("not an integer"));
    check("1k000", Ok(1_000u16));
    check("-1k234", Ok(-1_234i16));
}

#[test]
fn si_leading() {
    check("12k123", Ok(12_123u16));
    check("123k123", Ok(123_123u32));
    check("1234k123", Ok(1_234_123i32));
    check("-123k123", Ok(-123_123i32));
}

#[test]
fn si_decimal() {
    check("1.2k", Ok(1_200u16));
    check("1.23k", Ok(1_230u16));
    check("1.234k", Ok(1_234u16));
    check::<u16>("1.2345k", Err("not an integer"));
    check("1.000k", Ok(1_000u16));
    check("1.k", Ok(1_000u16));
}

#[test]
fn si_mixed() {
    check::<u16>("1.23k45", Err("invalid digit found in string"));
    check::<u8>("1.", Err("invalid digit found in string"));
    check::<u16>("1kk", Err("invalid digit found in string"));
}

#[test]
fn si_big() {
    check("1Y123456789987654321", Ok(1_123_456_789_987_654_321_000_000u128));
}

#[test]
fn si_missing_value() {
    check::<u16>("k1", Err("no value found before SI symbol"));
    check::<u8>("k1", Err("no value found before SI symbol"));
    check::<u128>("k123", Err("no value found before SI symbol"));
}

#[test]
fn si_overflow() {
    check::<u8>("1k", Err("number too large to fit in target type"));
    check::<u8>("0k", Err("number too large to fit in target type"));
    check::<u8>("300", Err("number too large to fit in target type"));
    check::<u128>("999999999999999999999Y", Err("number too large to fit in target type"));
    check::<i16>("-32k769", Err("number too large to fit in target type"));
    check::<i16>("-32k768", Ok(-32_768i16));
    check::<u16>("65k536", Err("number too large to fit in target type"));
    check::<u16>("65k535", Ok(65_535u16));
}

#[test]
fn si_resistance() {
    check("1k123", Ok(1123u128));
    check("456789k123", Ok(456789123u128));
    check("1M1", Ok(1_100_000u128));
    check::<u128>("1k1k", Err("invalid digit found in string"));
    check::<u128>("1k1111", Err("not an integer"));
}

#[test]
fn si_width_boundary() {
    check("1M123456", Ok(1_123_456u32));
    check::<u32>("1M1234567", Err("not an integer"));
    check("1.123456M", Ok(1_123_456u32));
    check::<u32>("1.1234567M", Err("not an integer"));
}

#[test]
fn si_fraction_equivalence() {
    assert_eq!(si_number::<u32>("1k2"), si_number::<u32>("1.2k"));
    assert_eq!(si_number::<u32>("1k2"), Ok(1200));
    assert_eq!(si_number::<u64>("3k3"), si_number::<u64>("3.3k"));
}

#[test]
fn si_empty() {
    check::<u32>("", Err("cannot parse integer from empty string"));
}

#[test]
fn si_signed_fraction_group() {
    check("1k-5", Ok(950i16));
    check("1k+5", Ok(1_050i16));
}

#[test]
fn si_round_trip() {
    for s in ["1k5", "2.5M", "-7k", "12G3"] {
        let v = si_number::<i64>(s).unwrap();
        assert_eq!(si_number::<i64>(&v.to_string()), Ok(v));
    }
}

#[test]
fn si_range_kilo() {
    let kilo = |s: &str| si_number_range::<u32>(s, 1_000, 999_999);
    assert_eq!(kilo("999k999"), Ok(999_999));
    assert_eq!(kilo("1k"), Ok(1_000));
    assert_eq!(kilo("999"), Err(String::from("less than minimum of 1000")));
    assert_eq!(kilo("1M"), Err(String::from("exceeds maximum of 999999")));
    assert_eq!(kilo("1k2345"), Err(String::from("not an integer")));
}

#[test]
fn si_underscores() {
    check::<u32>("1_000_000", Err("invalid digit found in string"));
}

#[test]
fn si_malformed_beyond_range() {
    check::<u8>("999x", Err("invalid digit found in string"));
    check::<u8>("1Y999x", Err("invalid digit found in string"));
    check::<u16>("99999x.5k", Err("invalid digit found in string"));
}

#[test]
fn si_short_fraction_padded() {
    check("1M12", Ok(1_120_000u32));
    check("2G5", Ok(2_500_000_000u64));
}

#[test]
fn si_integer_part_too_large() {
    check::<u8>("256k1", Err("number too large to fit in target type"));
}
