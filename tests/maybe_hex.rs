use clap_num::{maybe_hex, maybe_hex_range};

#[test]
fn hex_simple() {
    assert_eq!(maybe_hex("123"), Ok(123u8));
}

#[test]
fn hex_zero() {
    assert_eq!(maybe_hex("0"), Ok(0u16));
    assert_eq!(maybe_hex("0x0"), Ok(0u16));
}

#[test]
fn hex_one() {
    assert_eq!(maybe_hex("1"), Ok(1u64));
    assert_eq!(maybe_hex("0x1"), Ok(1u64));
}

#[test]
fn hex_leading_zero() {
    assert_eq!(maybe_hex("001"), Ok(1u64));
}

#[test]
fn hex_case() {
    assert_eq!(maybe_hex("0XABcDE"), Ok(703710u32));
    assert_eq!(maybe_hex("0XAB"), Ok(171u32));
}

#[test]
fn hex_selects_radix() {
    assert_eq!(maybe_hex::<u32>("0x10"), Ok(16));
    assert_eq!(maybe_hex::<u32>("10"), Ok(10));
}

#[test]
fn hex_missing_digits() {
    let v: Result<u64, String> = maybe_hex("0x");
    assert_eq!(v, Err(String::from("cannot parse integer from empty string")));
}

#[test]
fn hex_dec_with_hex_digit() {
    let v: Result<u64, String> = maybe_hex("1A");
    assert_eq!(v, Err(String::from("invalid digit found in string")));
}

#[test]
fn hex_non_hex_digit() {
    let v: Result<u64, String> = maybe_hex("0x12G");
    assert_eq!(v, Err(String::from("invalid digit found in string")));
}

#[test]
fn hex_overflow() {
    let v: Result<u8, String> = maybe_hex("0x100");
    assert_eq!(v, Err(String::from("number too large to fit in target type")));
    let v: Result<u8, String> = maybe_hex("256");
    assert_eq!(v, Err(String::from("number too large to fit in target type")));
    assert_eq!(maybe_hex::<u8>("0xff"), Ok(255));
    assert_eq!(maybe_hex::<u128>("0xffffffffffffffffffffffffffffffff"), Ok(u128::MAX));
    assert_eq!(maybe_hex::<usize>("0x20"), Ok(32));
}

#[test]
fn hex_range() {
    assert_eq!(maybe_hex_range::<u32>("300", 0x100, 0x200), Ok(300));
    assert_eq!(maybe_hex_range::<u32>("0x100", 0x100, 0x200), Ok(256));
    assert_eq!(
        maybe_hex_range::<u32>("0x201", 0x100, 0x200),
        Err(String::from("exceeds maximum of 512"))
    );
    assert_eq!(
        maybe_hex_range::<u32>("255", 0x100, 0x200),
        Err(String::from("less than minimum of 256"))
    );
    assert_eq!(
        maybe_hex_range::<u32>("0xZ", 0x100, 0x200),
        Err(String::from("invalid digit found in string"))
    );
}

#[test]
fn hex_malformed_beyond_range() {
    let v: Result<u8, String> = maybe_hex("999x");
    assert_eq!(v, Err(String::from("invalid digit found in string")));
    let v: Result<u8, String> = maybe_hex("0x1FFG");
    assert_eq!(v, Err(String::from("invalid digit found in string")));
    assert_eq!(
        maybe_hex_range::<u8>("0x1FFG", 1, 2),
        Err(String::from("invalid digit found in string"))
    );
    assert_eq!(
        maybe_hex_range::<u8>("0x100", 1, 2),
        Err(String::from("number too large to fit in target type"))
    );
    assert_eq!(
        maybe_hex::<u8>("+"),
        Err(String::from("invalid digit found in string"))
    );
    assert_eq!(maybe_hex::<u8>("+0x1"), Err(String::from("invalid digit found in string")));
}
