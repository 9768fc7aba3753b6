use clap_num::{maybe_bin, maybe_bin_range};

#[test]
fn bin_simple() {
    assert_eq!(maybe_bin("123"), Ok(123u8));
}

#[test]
fn bin_zero() {
    assert_eq!(maybe_bin("0"), Ok(0u16));
    assert_eq!(maybe_bin("0b0"), Ok(0u16));
}

#[test]
fn bin_one() {
    assert_eq!(maybe_bin("1"), Ok(1u64));
    assert_eq!(maybe_bin("0b1"), Ok(1u64));
}

#[test]
fn bin_aa() {
    assert_eq!(maybe_bin("0b10101010"), Ok(0xaau64));
    assert_eq!(maybe_bin("0B11"), Ok(3u32));
}

#[test]
fn bin_leading_zero() {
    assert_eq!(maybe_bin("001"), Ok(1u64));
}

#[test]
fn bin_missing_digits() {
    let v: Result<u64, String> = maybe_bin("0b");
    assert_eq!(v, Err(String::from("cannot parse integer from empty string")));
}

#[test]
fn bin_non_bin_digit() {
    let v: Result<u64, String> = maybe_bin("0b12G");
    assert_eq!(v, Err(String::from("invalid digit found in string")));
}

#[test]
fn bin_range() {
    assert_eq!(maybe_bin_range::<u16>("0b101", 1, 10), Ok(5));
    assert_eq!(
        maybe_bin_range::<u16>("0b1011", 1, 10),
        Err(String::from("exceeds maximum of 10"))
    );
}
