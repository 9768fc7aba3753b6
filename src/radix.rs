use vstd::prelude::*;
use vstd::string::StrSliceExecFns;

use crate::error::ErrorKind;
use crate::integer::Integer;
use crate::literal::{
    all_digits, chars_of, digit_group, digits_from, lemma_accumulate_up, literal, zeros,
};
use crate::range::{check_range, reports, then_within, type_bounds};
use crate::text::describe;

verus! {

/// An unsigned integer type, which can also be read in base 2 and base 16.
pub trait Unsigned: Integer {
    proof fn lemma_unsigned()
        ensures
            Self::min_int() == 0,
    ;

    /// Parses `s` as an optional `+` followed by digits of base `radix`.
    ///
    /// The value is exact. An empty text fails with `Empty`, a digit group of
    /// digits only fails with `PosOverflow`.
    fn from_str_radix(s: &str, radix: u32) -> (r: Result<Self, ErrorKind>)
        requires
            2 <= radix <= 36,
        ensures
            match r {
                Ok(v) => literal(s@, radix as nat, 0, Self::max_int()) == Ok::<int, ErrorKind>(
                    v.int_value(),
                ),
                Err(k) => literal(s@, radix as nat, 0, Self::max_int()) is Err && (k
                    == ErrorKind::Empty <==> s@.len() == 0) && (digit_group(s@, 0).len() > 0
                    && all_digits(digit_group(s@, 0), radix as nat) ==> k == ErrorKind::PosOverflow),
            },
    ;
}

/// Relies on `num_traits::Num::from_str_radix` for `u8`, which hands the
/// text to the standard library's parser: an optional `+`, then digits of
/// the base, within the range of `u8`. An empty text is the `Empty` error,
/// and a digit group that holds only digits can fail only by overflow. The
/// standard parser's other kinds are `InvalidDigit` and `Zero`, which only
/// non-zero types give.
#[verifier::external_body]
fn u8_from_str_radix(s: &str, radix: u32) -> (r: Result<u8, ErrorKind>)
    requires
        2 <= radix <= 36,
    ensures
        match r {
            Ok(v) => literal(s@, radix as nat, 0, u8::MAX as int) == Ok::<int, ErrorKind>(v as int),
            Err(k) => literal(s@, radix as nat, 0, u8::MAX as int) is Err && (k == ErrorKind::Empty
                <==> s@.len() == 0) && (digit_group(s@, 0).len() > 0 && all_digits(
                digit_group(s@, 0),
                radix as nat,
            ) ==> k == ErrorKind::PosOverflow),
        },
{
    match <u8 as num_traits::Num>::from_str_radix(s, radix) {
        Ok(v) => Ok(v),
        Err(e) => Err(match e.kind() {
            core::num::IntErrorKind::Empty => ErrorKind::Empty,
            core::num::IntErrorKind::PosOverflow => ErrorKind::PosOverflow,
            core::num::IntErrorKind::NegOverflow => ErrorKind::NegOverflow,
            _ => ErrorKind::InvalidDigit,
        }),
    }
}

impl Unsigned for u8 {
    proof fn lemma_unsigned() {
    }

    fn from_str_radix(s: &str, radix: u32) -> (r: Result<Self, ErrorKind>) {
        u8_from_str_radix(s, radix)
    }
}

/// Relies on `num_traits::Num::from_str_radix` for `u16`, which hands the
/// text to the standard library's parser: an optional `+`, then digits of
/// the base, within the range of `u16`. An empty text is the `Empty` error,
/// and a digit group that holds only digits can fail only by overflow. The
/// standard parser's other kinds are `InvalidDigit` and `Zero`, which only
/// non-zero types give.
#[verifier::external_body]
fn u16_from_str_radix(s: &str, radix: u32) -> (r: Result<u16, ErrorKind>)
    requires
        2 <= radix <= 36,
    ensures
        match r {
            Ok(v) => literal(s@, radix as nat, 0, u16::MAX as int) == Ok::<int, ErrorKind>(v as int),
            Err(k) => literal(s@, radix as nat, 0, u16::MAX as int) is Err && (k == ErrorKind::Empty
                <==> s@.len() == 0) && (digit_group(s@, 0).len() > 0 && all_digits(
                digit_group(s@, 0),
                radix as nat,
            ) ==> k == ErrorKind::PosOverflow),
        },
{
    match <u16 as num_traits::Num>::from_str_radix(s, radix) {
        Ok(v) => Ok(v),
        Err(e) => Err(match e.kind() {
            core::num::IntErrorKind::Empty => ErrorKind::Empty,
            core::num::IntErrorKind::PosOverflow => ErrorKind::PosOverflow,
            core::num::IntErrorKind::NegOverflow => ErrorKind::NegOverflow,
            _ => ErrorKind::InvalidDigit,
        }),
    }
}

impl Unsigned for u16 {
    proof fn lemma_unsigned() {
    }

    fn from_str_radix(s: &str, radix: u32) -> (r: Result<Self, ErrorKind>) {
        u16_from_str_radix(s, radix)
    }
}

/// Relies on `num_traits::Num::from_str_radix` for `u32`, which hands the
/// text to the standard library's parser: an optional `+`, then digits of
/// the base, within the range of `u32`. An empty text is the `Empty` error,
/// and a digit group that holds only digits can fail only by overflow. The
/// standard parser's other kinds are `InvalidDigit` and `Zero`, which only
/// non-zero types give.
#[verifier::external_body]
fn u32_from_str_radix(s: &str, radix: u32) -> (r: Result<u32, ErrorKind>)
    requires
        2 <= radix <= 36,
    ensures
        match r {
            Ok(v) => literal(s@, radix as nat, 0, u32::MAX as int) == Ok::<int, ErrorKind>(v as int),
            Err(k) => literal(s@, radix as nat, 0, u32::MAX as int) is Err && (k == ErrorKind::Empty
                <==> s@.len() == 0) && (digit_group(s@, 0).len() > 0 && all_digits(
                digit_group(s@, 0),
                radix as nat,
            ) ==> k == ErrorKind::PosOverflow),
        },
{
    match <u32 as num_traits::Num>::from_str_radix(s, radix) {
        Ok(v) => Ok(v),
        Err(e) => Err(match e.kind() {
            core::num::IntErrorKind::Empty => ErrorKind::Empty,
            core::num::IntErrorKind::PosOverflow => ErrorKind::PosOverflow,
            core::num::IntErrorKind::NegOverflow => ErrorKind::NegOverflow,
            _ => ErrorKind::InvalidDigit,
        }),
    }
}

impl Unsigned for u32 {
    proof fn lemma_unsigned() {
    }

    fn from_str_radix(s: &str, radix: u32) -> (r: Result<Self, ErrorKind>) {
        u32_from_str_radix(s, radix)
    }
}

/// Relies on `num_traits::Num::from_str_radix` for `u64`, which hands the
/// text to the standard library's parser: an optional `+`, then digits of
/// the base, within the range of `u64`. An empty text is the `Empty` error,
/// and a digit group that holds only digits can fail only by overflow. The
/// standard parser's other kinds are `InvalidDigit` and `Zero`, which only
/// non-zero types give.
#[verifier::external_body]
fn u64_from_str_radix(s: &str, radix: u32) -> (r: Result<u64, ErrorKind>)
    requires
        2 <= radix <= 36,
    ensures
        match r {
            Ok(v) => literal(s@, radix as nat, 0, u64::MAX as int) == Ok::<int, ErrorKind>(v as int),
            Err(k) => literal(s@, radix as nat, 0, u64::MAX as int) is Err && (k == ErrorKind::Empty
                <==> s@.len() == 0) && (digit_group(s@, 0).len() > 0 && all_digits(
                digit_group(s@, 0),
                radix as nat,
            ) ==> k == ErrorKind::PosOverflow),
        },
{
    match <u64 as num_traits::Num>::from_str_radix(s, radix) {
        Ok(v) => Ok(v),
        Err(e) => Err(match e.kind() {
            core::num::IntErrorKind::Empty => ErrorKind::Empty,
            core::num::IntErrorKind::PosOverflow => ErrorKind::PosOverflow,
            core::num::IntErrorKind::NegOverflow => ErrorKind::NegOverflow,
            _ => ErrorKind::InvalidDigit,
        }),
    }
}

impl Unsigned for u64 {
    proof fn lemma_unsigned() {
    }

    fn from_str_radix(s: &str, radix: u32) -> (r: Result<Self, ErrorKind>) {
        u64_from_str_radix(s, radix)
    }
}

/// Relies on `num_traits::Num::from_str_radix` for `u128`, which hands the
/// text to the standard library's parser: an optional `+`, then digits of
/// the base, within the range of `u128`. An empty text is the `Empty` error,
/// and a digit group that holds only digits can fail only by overflow. The
/// standard parser's other kinds are `InvalidDigit` and `Zero`, which only
/// non-zero types give.
#[verifier::external_body]
fn u128_from_str_radix(s: &str, radix: u32) -> (r: Result<u128, ErrorKind>)
    requires
        2 <= radix <= 36,
    ensures
        match r {
            Ok(v) => literal(s@, radix as nat, 0, u128::MAX as int) == Ok::<int, ErrorKind>(v as int),
            Err(k) => literal(s@, radix as nat, 0, u128::MAX as int) is Err && (k == ErrorKind::Empty
                <==> s@.len() == 0) && (digit_group(s@, 0).len() > 0 && all_digits(
                digit_group(s@, 0),
                radix as nat,
            ) ==> k == ErrorKind::PosOverflow),
        },
{
    match <u128 as num_traits::Num>::from_str_radix(s, radix) {
        Ok(v) => Ok(v),
        Err(e) => Err(match e.kind() {
            core::num::IntErrorKind::Empty => ErrorKind::Empty,
            core::num::IntErrorKind::PosOverflow => ErrorKind::PosOverflow,
            core::num::IntErrorKind::NegOverflow => ErrorKind::NegOverflow,
            _ => ErrorKind::InvalidDigit,
        }),
    }
}

impl Unsigned for u128 {
    proof fn lemma_unsigned() {
    }

    fn from_str_radix(s: &str, radix: u32) -> (r: Result<Self, ErrorKind>) {
        u128_from_str_radix(s, radix)
    }
}

/// Relies on `num_traits::Num::from_str_radix` for `usize`, which hands the
/// text to the standard library's parser: an optional `+`, then digits of
/// the base, within the range of `usize`. An empty text is the `Empty` error,
/// and a digit group that holds only digits can fail only by overflow. The
/// standard parser's other kinds are `InvalidDigit` and `Zero`, which only
/// non-zero types give.
#[verifier::external_body]
fn usize_from_str_radix(s: &str, radix: u32) -> (r: Result<usize, ErrorKind>)
    requires
        2 <= radix <= 36,
    ensures
        match r {
            Ok(v) => literal(s@, radix as nat, 0, usize::MAX as int) == Ok::<int, ErrorKind>(v as int),
            Err(k) => literal(s@, radix as nat, 0, usize::MAX as int) is Err && (k == ErrorKind::Empty
                <==> s@.len() == 0) && (digit_group(s@, 0).len() > 0 && all_digits(
                digit_group(s@, 0),
                radix as nat,
            ) ==> k == ErrorKind::PosOverflow),
        },
{
    match <usize as num_traits::Num>::from_str_radix(s, radix) {
        Ok(v) => Ok(v),
        Err(e) => Err(match e.kind() {
            core::num::IntErrorKind::Empty => ErrorKind::Empty,
            core::num::IntErrorKind::PosOverflow => ErrorKind::PosOverflow,
            core::num::IntErrorKind::NegOverflow => ErrorKind::NegOverflow,
            _ => ErrorKind::InvalidDigit,
        }),
    }
}

impl Unsigned for usize {
    proof fn lemma_unsigned() {
    }

    fn from_str_radix(s: &str, radix: u32) -> (r: Result<Self, ErrorKind>) {
        usize_from_str_radix(s, radix)
    }
}

/// The digits that `maybe_hex` (`lower == 'x'`) or `maybe_bin`
/// (`lower == 'b'`) reads from `s`: what follows a leading `0x` or `0b`, in
/// either case, else all of `s`.
pub open spec fn radix_digits(s: Seq<char>, lower: char, upper: char) -> Seq<char> {
    if s.len() >= 2 && s[0] == '0' && (s[1] == lower || s[1] == upper) {
        s.subrange(2, s.len() as int)
    } else {
        s
    }
}

/// The base in which `radix_digits` are read.
pub open spec fn radix_base(s: Seq<char>, lower: char, upper: char, radix: nat) -> nat {
    if s.len() >= 2 && s[0] == '0' && (s[1] == lower || s[1] == upper) {
        radix
    } else {
        10
    }
}

/// The value that `s` writes under an optional radix marker, for an unsigned
/// type whose largest value is `hi`.
pub open spec fn radix_outcome(s: Seq<char>, lower: char, upper: char, radix: nat, hi: int) -> Result<
    int,
    ErrorKind,
> {
    literal(radix_digits(s, lower, upper), radix_base(s, lower, upper, radix), 0, hi)
}

/// Parses `digits` in base `radix` through `T::from_str_radix`, and names a
/// failure by the literal's own error kind: a group with a character that is
/// no digit of the base is `InvalidDigit`, whatever its digits are worth.
fn parse_digits<T: Unsigned>(digits: &str, radix: u32) -> (r: Result<T, ErrorKind>)
    requires
        2 <= radix <= 36,
    ensures
        match r {
            Ok(v) => literal(digits@, radix as nat, 0, T::max_int()) == Ok::<int, ErrorKind>(
                v.int_value(),
            ),
            Err(k) => literal(digits@, radix as nat, 0, T::max_int()) == Err::<int, ErrorKind>(k),
        },
{
    proof {
        T::lemma_unsigned();
        if all_digits(digit_group(digits@, 0), radix as nat) {
            lemma_accumulate_up(digit_group(digits@, 0), radix as nat, 0, T::max_int(), 0);
        }
    }
    match T::from_str_radix(digits, radix) {
        Ok(v) => Ok(v),
        Err(k) => {
            if k == ErrorKind::Empty {
                return Err(k);
            }
            let chars = chars_of(digits);
            let n = chars.len();
            let from: usize = if n > 0 && chars[0] == '+' {
                1
            } else {
                0
            };
            assert(chars@.subrange(0, n as int) + zeros(0) =~= digits@);
            assert(digit_group(digits@, 0) =~= digits@.subrange(from as int, n as int));
            if n > from && digits_from(&chars, 0, n, 0, from, radix) {
                Err(k)
            } else {
                Err(ErrorKind::InvalidDigit)
            }
        },
    }
}

fn parse_radix<T: Unsigned>(s: &str, lower: char, upper: char, radix: u32) -> (r: Result<
    T,
    ErrorKind,
>)
    requires
        2 <= radix <= 36,
    ensures
        match r {
            Ok(v) => radix_outcome(s@, lower, upper, radix as nat, T::max_int()) == Ok::<
                int,
                ErrorKind,
            >(v.int_value()),
            Err(k) => radix_outcome(s@, lower, upper, radix as nat, T::max_int()) == Err::<
                int,
                ErrorKind,
            >(k),
        },
{
    let n = s.unicode_len();
    if n >= 2 && s.get_char(0) == '0' {
        let c = s.get_char(1);
        if c == lower || c == upper {
            let digits = s.substring_char(2, n);
            return parse_digits(digits, radix);
        }
    }
    parse_digits(s, 10)
}

fn maybe_radix<T: Unsigned>(s: &str, lower: char, upper: char, radix: u32) -> (r: Result<T, String>)
    requires
        2 <= radix <= 36,
    ensures
        reports(
            r,
            radix_outcome(s@, lower, upper, radix as nat, T::max_int()),
            T::min_int(),
            T::max_int(),
        ),
{
    let (lo, hi) = type_bounds::<T>();
    match parse_radix::<T>(s, lower, upper, radix) {
        Ok(v) => Ok(v),
        Err(k) => Err(describe(k, lo, hi)),
    }
}

fn maybe_radix_range<T: Unsigned>(s: &str, lower: char, upper: char, radix: u32, min: T, max: T) -> (r:
    Result<T, String>)
    requires
        2 <= radix <= 36,
        min.int_value() <= max.int_value(),
    ensures
        reports(
            r,
            then_within(
                radix_outcome(s@, lower, upper, radix as nat, T::max_int()),
                min.int_value(),
                max.int_value(),
            ),
            min.int_value(),
            max.int_value(),
        ),
{
    let minw = min.to_wide();
    let maxw = max.to_wide();
    match parse_radix::<T>(s, lower, upper, radix) {
        Ok(v) => match check_range(v.to_wide(), minw, maxw) {
            Ok(_) => Ok(v),
            Err(k) => Err(describe(k, minw, maxw)),
        },
        Err(k) => Err(describe(k, minw, maxw)),
    }
}

/// Parses `s` as an unsigned integer of type `T`: base 16 after a leading
/// `0x` or `0X`, else base 10.
pub fn maybe_hex<T: Unsigned>(s: &str) -> (r: Result<T, String>)
    ensures
        reports(r, radix_outcome(s@, 'x', 'X', 16, T::max_int()), T::min_int(), T::max_int()),
{
    maybe_radix(s, 'x', 'X', 16)
}

/// Parses `s` as `maybe_hex` does, within the inclusive bounds `min ..= max`.
pub fn maybe_hex_range<T: Unsigned>(s: &str, min: T, max: T) -> (r: Result<T, String>)
    requires
        min.int_value() <= max.int_value(),
    ensures
        reports(
            r,
            then_within(
                radix_outcome(s@, 'x', 'X', 16, T::max_int()),
                min.int_value(),
                max.int_value(),
            ),
            min.int_value(),
            max.int_value(),
        ),
{
    maybe_radix_range(s, 'x', 'X', 16, min, max)
}

/// Parses `s` as an unsigned integer of type `T`: base 2 after a leading
/// `0b` or `0B`, else base 10.
pub fn maybe_bin<T: Unsigned>(s: &str) -> (r: Result<T, String>)
    ensures
        reports(r, radix_outcome(s@, 'b', 'B', 2, T::max_int()), T::min_int(), T::max_int()),
{
    maybe_radix(s, 'b', 'B', 2)
}

/// Parses `s` as `maybe_bin` does, within the inclusive bounds `min ..= max`.
pub fn maybe_bin_range<T: Unsigned>(s: &str, min: T, max: T) -> (r: Result<T, String>)
    requires
        min.int_value() <= max.int_value(),
    ensures
        reports(
            r,
            then_within(
                radix_outcome(s@, 'b', 'B', 2, T::max_int()),
                min.int_value(),
                max.int_value(),
            ),
            min.int_value(),
            max.int_value(),
        ),
{
    maybe_radix_range(s, 'b', 'B', 2, min, max)
}

} // verus!
