use vstd::prelude::*;

use crate::error::ErrorKind;
use crate::integer::{Integer, Wide};
use crate::literal::{chars_of, literal, parse_literal, wide_outcome, zeros};
use crate::range::{check_range, finish, reports, then_within, type_bounds};

verus! {

/// A metric prefix: a power of 1000 written as one letter.
#[derive(Clone, Copy, Debug, PartialEq, Eq, Structural)]
pub enum SiPrefix {
    Yotta,
    Zetta,
    Exa,
    Peta,
    Tera,
    Giga,
    Mega,
    Kilo,
}

/// The prefix that the letter `c` writes, if any (case sensitive).
pub open spec fn prefix_of(c: char) -> Option<SiPrefix> {
    if c == 'Y' {
        Some(SiPrefix::Yotta)
    } else if c == 'Z' {
        Some(SiPrefix::Zetta)
    } else if c == 'E' {
        Some(SiPrefix::Exa)
    } else if c == 'P' {
        Some(SiPrefix::Peta)
    } else if c == 'T' {
        Some(SiPrefix::Tera)
    } else if c == 'G' {
        Some(SiPrefix::Giga)
    } else if c == 'M' {
        Some(SiPrefix::Mega)
    } else if c == 'k' {
        Some(SiPrefix::Kilo)
    } else {
        None
    }
}

impl SiPrefix {
    /// The letter of the prefix.
    pub open spec fn spec_symbol(self) -> char {
        match self {
            SiPrefix::Yotta => 'Y',
            SiPrefix::Zetta => 'Z',
            SiPrefix::Exa => 'E',
            SiPrefix::Peta => 'P',
            SiPrefix::Tera => 'T',
            SiPrefix::Giga => 'G',
            SiPrefix::Mega => 'M',
            SiPrefix::Kilo => 'k',
        }
    }

    /// The number of decimal digits of a fraction under the prefix: the
    /// exponent of ten of its multiplier.
    pub open spec fn spec_digits(self) -> nat {
        match self {
            SiPrefix::Yotta => 24,
            SiPrefix::Zetta => 21,
            SiPrefix::Exa => 18,
            SiPrefix::Peta => 15,
            SiPrefix::Tera => 12,
            SiPrefix::Giga => 9,
            SiPrefix::Mega => 6,
            SiPrefix::Kilo => 3,
        }
    }

    /// The multiplier of the prefix.
    pub open spec fn spec_multiplier(self) -> nat {
        match self {
            SiPrefix::Yotta => 1_000_000_000_000_000_000_000_000,
            SiPrefix::Zetta => 1_000_000_000_000_000_000_000,
            SiPrefix::Exa => 1_000_000_000_000_000_000,
            SiPrefix::Peta => 1_000_000_000_000_000,
            SiPrefix::Tera => 1_000_000_000_000,
            SiPrefix::Giga => 1_000_000_000,
            SiPrefix::Mega => 1_000_000,
            SiPrefix::Kilo => 1_000,
        }
    }

    pub fn from_char(symbol: char) -> (r: Option<SiPrefix>)
        ensures
            r == prefix_of(symbol),
    {
        match symbol {
            'Y' => Some(SiPrefix::Yotta),
            'Z' => Some(SiPrefix::Zetta),
            'E' => Some(SiPrefix::Exa),
            'P' => Some(SiPrefix::Peta),
            'T' => Some(SiPrefix::Tera),
            'G' => Some(SiPrefix::Giga),
            'M' => Some(SiPrefix::Mega),
            'k' => Some(SiPrefix::Kilo),
            _ => None,
        }
    }

    pub fn symbol(&self) -> (r: char)
        ensures
            r == self.spec_symbol(),
    {
        match self {
            SiPrefix::Yotta => 'Y',
            SiPrefix::Zetta => 'Z',
            SiPrefix::Exa => 'E',
            SiPrefix::Peta => 'P',
            SiPrefix::Tera => 'T',
            SiPrefix::Giga => 'G',
            SiPrefix::Mega => 'M',
            SiPrefix::Kilo => 'k',
        }
    }

    pub fn multiplier(&self) -> (r: u128)
        ensures
            r == self.spec_multiplier(),
    {
        match self {
            SiPrefix::Yotta => 1_000_000_000_000_000_000_000_000,
            SiPrefix::Zetta => 1_000_000_000_000_000_000_000,
            SiPrefix::Exa => 1_000_000_000_000_000_000,
            SiPrefix::Peta => 1_000_000_000_000_000,
            SiPrefix::Tera => 1_000_000_000_000,
            SiPrefix::Giga => 1_000_000_000,
            SiPrefix::Mega => 1_000_000,
            SiPrefix::Kilo => 1_000,
        }
    }

    pub fn digits(&self) -> (r: usize)
        ensures
            r == self.spec_digits(),
    {
        match self {
            SiPrefix::Yotta => 24,
            SiPrefix::Zetta => 21,
            SiPrefix::Exa => 18,
            SiPrefix::Peta => 15,
            SiPrefix::Tera => 12,
            SiPrefix::Giga => 9,
            SiPrefix::Mega => 6,
            SiPrefix::Kilo => 3,
        }
    }
}

/// The index of the first prefix letter in `s` at or after `i`.
pub open spec fn prefix_from(s: Seq<char>, i: int) -> Option<int>
    decreases s.len() - i,
{
    if i < 0 || i >= s.len() {
        None
    } else if prefix_of(s[i]) is Some {
        Some(i)
    } else {
        prefix_from(s, i + 1)
    }
}

/// The index of the first `c` in `s` at or after `i`.
pub open spec fn char_from(s: Seq<char>, c: char, i: int) -> Option<int>
    decreases s.len() - i,
{
    if i < 0 || i >= s.len() {
        None
    } else if s[i] == c {
        Some(i)
    } else {
        char_from(s, c, i + 1)
    }
}

/// A fraction group `post` under a prefix of `width` digits: its digits are
/// the leading digits of the fraction, so it is padded on the right with
/// zeros to `width` digits and read as a literal. A longer group is refused.
pub open spec fn fraction(post: Seq<char>, width: nat, lo: int, hi: int) -> Result<int, ErrorKind> {
    if post.len() > width {
        Err(ErrorKind::NotAnInteger)
    } else {
        literal(post + zeros((width - post.len()) as nat), 10, lo, hi)
    }
}

/// The integer part and the fraction part of `s`, whose first prefix letter
/// stands at `i > 0`. Letters after the prefix are the fraction (`1k5`);
/// else a `.` splits the text before the prefix (`1.5k`); else the fraction
/// is zero (`1k`). The parts are read in that order, integer part first but
/// in the `.` form.
pub open spec fn si_parts(s: Seq<char>, i: int, width: nat, lo: int, hi: int) -> Result<
    (int, int),
    ErrorKind,
> {
    if i + 1 < s.len() {
        match literal(s.subrange(0, i), 10, lo, hi) {
            Err(k) => Err(k),
            Ok(a) => match fraction(s.subrange(i + 1, s.len() as int), width, lo, hi) {
                Err(k) => Err(k),
                Ok(b) => Ok((a, b)),
            },
        }
    } else {
        match char_from(s, '.', 0) {
            Some(j) => match fraction(s.subrange(j + 1, s.len() - 1), width, lo, hi) {
                Err(k) => Err(k),
                Ok(b) => match literal(s.subrange(0, j), 10, lo, hi) {
                    Err(k) => Err(k),
                    Ok(a) => Ok((a, b)),
                },
            },
            None => match literal(s.subrange(0, i), 10, lo, hi) {
                Err(k) => Err(k),
                Ok(a) => Ok((a, 0)),
            },
        }
    }
}

/// The integer part `a` scaled by the multiplier `m`, with the fraction `b`
/// added to its magnitude, all within `lo ..= hi`. A multiplier beyond `hi`
/// is an overflow by itself.
pub open spec fn scale(a: int, b: int, m: nat, lo: int, hi: int) -> Result<int, ErrorKind> {
    let p = a * m;
    let r = if p >= 0 {
        p + b
    } else {
        p - b
    };
    if m > hi || p < lo || p > hi || r < lo || r > hi {
        Err(ErrorKind::Overflow)
    } else {
        Ok(r)
    }
}

/// What `si_number` gives for the text `s` and a type of range `lo ..= hi`.
pub open spec fn si_outcome(s: Seq<char>, lo: int, hi: int) -> Result<int, ErrorKind> {
    match prefix_from(s, 0) {
        None => literal(s, 10, lo, hi),
        Some(i) => {
            if i == 0 {
                Err(ErrorKind::MissingValue)
            } else {
                match prefix_of(s[i]) {
                    None => Err(ErrorKind::MissingValue),
                    Some(p) => match si_parts(s, i, p.spec_digits(), lo, hi) {
                        Err(k) => Err(k),
                        Ok((a, b)) => scale(a, b, p.spec_multiplier(), lo, hi),
                    },
                }
            }
        }
    }
}

fn find_prefix(chars: &Vec<char>) -> (r: Option<(usize, SiPrefix)>)
    ensures
        match r {
            None => prefix_from(chars@, 0) is None,
            Some((i, p)) => prefix_from(chars@, 0) == Some(i as int) && i < chars.len()
                && prefix_of(chars@[i as int]) == Some(p),
        },
{
    let mut i: usize = 0;
    while i < chars.len()
        invariant
            i <= chars.len(),
            prefix_from(chars@, 0) == prefix_from(chars@, i as int),
        decreases chars.len() - i,
    {
        match SiPrefix::from_char(chars[i]) {
            Some(p) => {
                return Some((i, p));
            },
            None => {},
        }
        i = i + 1;
    }
    None
}

fn find_char(chars: &Vec<char>, c: char) -> (r: Option<usize>)
    ensures
        match r {
            None => char_from(chars@, c, 0) is None,
            Some(j) => char_from(chars@, c, 0) == Some(j as int) && j < chars.len() && chars@[j as int]
                == c,
        },
{
    let mut j: usize = 0;
    while j < chars.len()
        invariant
            j <= chars.len(),
            char_from(chars@, c, 0) == char_from(chars@, c, j as int),
        decreases chars.len() - j,
    {
        if chars[j] == c {
            return Some(j);
        }
        j = j + 1;
    }
    None
}

/// Reads the fraction group `chars[start..end]` under a prefix of `digits`
/// digits.
fn parse_post(chars: &Vec<char>, start: usize, end: usize, digits: usize, lo_mag: u128, hi: u128) -> (r:
    Result<Wide, ErrorKind>)
    requires
        start <= end <= chars.len(),
        digits <= 24,
    ensures
        wide_outcome(r) == fraction(
            chars@.subrange(start as int, end as int),
            digits as nat,
            -(lo_mag as int),
            hi as int,
        ),
        r matches Ok(w) ==> -(lo_mag as int) <= w.value() <= hi,
{
    if end - start > digits {
        Err(ErrorKind::NotAnInteger)
    } else {
        parse_literal(chars, start, end, digits - (end - start), 10, lo_mag, hi)
    }
}

/// Whether `w` lies in `-lo_mag ..= hi`.
fn fits(w: Wide, lo_mag: u128, hi: u128) -> (r: bool)
    ensures
        r == (-(lo_mag as int) <= w.value() <= hi),
{
    if w.neg {
        w.mag <= lo_mag
    } else {
        w.mag <= hi
    }
}

/// `x + y` when it lies in `-lo_mag ..= hi`.
fn add_within(x: Wide, y: Wide, lo_mag: u128, hi: u128) -> (r: Option<Wide>)
    ensures
        match r {
            Some(w) => w.value() == x.value() + y.value() && -(lo_mag as int) <= w.value() <= hi,
            None => !(-(lo_mag as int) <= x.value() + y.value() <= hi),
        },
{
    let sum = if x.neg == y.neg {
        match x.mag.checked_add(y.mag) {
            Some(m) => Wide { neg: x.neg, mag: m },
            None => {
                return None;
            },
        }
    } else if x.mag >= y.mag {
        Wide { neg: x.neg, mag: x.mag - y.mag }
    } else {
        Wide { neg: y.neg, mag: y.mag - x.mag }
    };
    if fits(sum, lo_mag, hi) {
        Some(sum)
    } else {
        None
    }
}

/// Scales the integer part `a` by `m` and adds the fraction `b` to its
/// magnitude, within `-lo_mag ..= hi`.
fn scale_wide(a: Wide, b: Wide, m: u128, lo_mag: u128, hi: u128) -> (r: Result<Wide, ErrorKind>)
    ensures
        wide_outcome(r) == scale(a.value(), b.value(), m as nat, -(lo_mag as int), hi as int),
        r matches Ok(w) ==> -(lo_mag as int) <= w.value() <= hi,
{
    if m > hi {
        return Err(ErrorKind::Overflow);
    }
    let ghost p = a.value() * m;
    let mag = match a.mag.checked_mul(m) {
        Some(v) => v,
        None => {
            proof {
                assert(p == a.mag * m || p == -(a.mag * m)) by (nonlinear_arith)
                    requires
                        p == a.value() * m,
                        a.value() == a.mag || a.value() == -(a.mag as int),
                ;
            }
            return Err(ErrorKind::Overflow);
        },
    };
    let scaled = Wide { neg: a.neg, mag };
    assert(scaled.value() == p) by (nonlinear_arith)
        requires
            p == a.value() * m,
            mag == a.mag * m,
            a.neg ==> a.value() == -(a.mag as int),
            !a.neg ==> a.value() == a.mag as int,
            scaled.neg == a.neg,
            scaled.mag == mag,
            scaled.neg ==> scaled.value() == -(scaled.mag as int),
            !scaled.neg ==> scaled.value() == scaled.mag as int,
    ;
    if !fits(scaled, lo_mag, hi) {
        return Err(ErrorKind::Overflow);
    }
    let addend = if scaled.neg && scaled.mag > 0 {
        Wide { neg: !b.neg, mag: b.mag }
    } else {
        b
    };
    match add_within(scaled, addend, lo_mag, hi) {
        Some(w) => Ok(w),
        None => Err(ErrorKind::Overflow),
    }
}

/// Parses `chars` as an integer with an optional metric prefix for the range
/// `-lo_mag ..= hi`.
fn si_wide(chars: &Vec<char>, lo_mag: u128, hi: u128) -> (r: Result<Wide, ErrorKind>)
    ensures
        wide_outcome(r) == si_outcome(chars@, -(lo_mag as int), hi as int),
        r matches Ok(w) ==> -(lo_mag as int) <= w.value() <= hi,
{
    let ghost s = chars@;
    let ghost lo = -(lo_mag as int);
    let n = chars.len();
    match find_prefix(chars) {
        None => {
            assert(chars@.subrange(0, n as int) + zeros(0) =~= s);
            parse_literal(chars, 0, n, 0, 10, lo_mag, hi)
        },
        Some((i, p)) => {
            if i == 0 {
                return Err(ErrorKind::MissingValue);
            }
            let width = p.digits();
            let parts: Result<(Wide, Wide), ErrorKind> = if i + 1 < n {
                assert(chars@.subrange(0, i as int) + zeros(0) =~= s.subrange(0, i as int));
                match parse_literal(chars, 0, i, 0, 10, lo_mag, hi) {
                    Err(k) => Err(k),
                    Ok(a) => match parse_post(chars, i + 1, n, width, lo_mag, hi) {
                        Err(k) => Err(k),
                        Ok(b) => Ok((a, b)),
                    },
                }
            } else {
                match find_char(chars, '.') {
                    Some(j) => {
                        assert(j != i);
                        assert(chars@.subrange(0, j as int) + zeros(0) =~= s.subrange(0, j as int));
                        match parse_post(chars, j + 1, n - 1, width, lo_mag, hi) {
                            Err(k) => Err(k),
                            Ok(b) => match parse_literal(chars, 0, j, 0, 10, lo_mag, hi) {
                                Err(k) => Err(k),
                                Ok(a) => Ok((a, b)),
                            },
                        }
                    },
                    None => {
                        assert(chars@.subrange(0, i as int) + zeros(0) =~= s.subrange(0, i as int));
                        match parse_literal(chars, 0, i, 0, 10, lo_mag, hi) {
                            Err(k) => Err(k),
                            Ok(a) => Ok((a, Wide { neg: false, mag: 0 })),
                        }
                    },
                }
            };
            match parts {
                Err(k) => Err(k),
                Ok((a, b)) => scale_wide(a, b, p.multiplier(), lo_mag, hi),
            }
        },
    }
}

/// Parses `s` as an integer of type `T` with an optional metric prefix.
///
/// The first prefix letter (`k`, `M`, `G`, `T`, `P`, `E`, `Z`, `Y`) scales
/// the digits before it by its power of 1000. A fraction may follow the
/// letter (`1k5` is 1500) or stand after a `.` before it (`1.5k`); it holds
/// at most as many digits as the power of ten of the prefix. Text without a
/// prefix letter is a plain base-10 integer.
pub fn si_number<T: Integer>(s: &str) -> (r: Result<T, String>)
    ensures
        reports(r, si_outcome(s@, T::min_int(), T::max_int()), T::min_int(), T::max_int()),
{
    let chars = chars_of(s);
    let (lo, hi) = type_bounds::<T>();
    finish(si_wide(&chars, lo.mag, hi.mag), lo, hi)
}

/// What `si_number_range` gives for the text `s` and the bounds `min ..= max`.
pub open spec fn si_range_outcome(s: Seq<char>, lo: int, hi: int, min: int, max: int) -> Result<
    int,
    ErrorKind,
> {
    then_within(si_outcome(s, lo, hi), min, max)
}

/// Parses `s` as `si_number` does, within the inclusive bounds `min ..= max`.
pub fn si_number_range<T: Integer>(s: &str, min: T, max: T) -> (r: Result<T, String>)
    requires
        min.int_value() <= max.int_value(),
    ensures
        reports(
            r,
            si_range_outcome(s@, T::min_int(), T::max_int(), min.int_value(), max.int_value()),
            min.int_value(),
            max.int_value(),
        ),
{
    let chars = chars_of(s);
    let (lo, hi) = type_bounds::<T>();
    let minw = min.to_wide();
    let maxw = max.to_wide();
    proof {
        min.lemma_in_range();
        max.lemma_in_range();
    }
    let checked = match si_wide(&chars, lo.mag, hi.mag) {
        Ok(v) => check_range(v, minw, maxw),
        Err(k) => Err(k),
    };
    finish(checked, minw, maxw)
}

} // verus!
