use vstd::prelude::*;

use crate::error::ErrorKind;
use crate::integer::{Integer, Wide};
use crate::literal::{chars_of, literal, parse_literal, wide_outcome, zeros};
use crate::text::{describe, kind_text};

verus! {

/// `v` held against the inclusive bounds `min ..= max`: above `max` is
/// reported first, then below `min`.
pub open spec fn within(v: int, min: int, max: int) -> Result<int, ErrorKind> {
    if v > max {
        Err(ErrorKind::AboveMaximum)
    } else if v < min {
        Err(ErrorKind::BelowMinimum)
    } else {
        Ok(v)
    }
}

/// An outcome held against `min ..= max` when it is a value.
pub open spec fn then_within(o: Result<int, ErrorKind>, min: int, max: int) -> Result<
    int,
    ErrorKind,
> {
    match o {
        Ok(v) => within(v, min, max),
        Err(k) => Err(k),
    }
}

/// `r` reports the outcome `o`: the same value, or the message of the same
/// error under the bounds `min` and `max`.
pub open spec fn reports<T: Integer>(
    r: Result<T, String>,
    o: Result<int, ErrorKind>,
    min: int,
    max: int,
) -> bool {
    match r {
        Ok(v) => o == Ok::<int, ErrorKind>(v.int_value()),
        Err(e) => match o {
            Ok(_) => false,
            Err(k) => e@ == kind_text(k, min, max),
        },
    }
}

/// What `number_range` gives for the text `s` and the bounds `min ..= max`.
pub open spec fn number_range_outcome(s: Seq<char>, lo: int, hi: int, min: int, max: int) -> Result<
    int,
    ErrorKind,
> {
    then_within(literal(s, 10, lo, hi), min, max)
}

pub fn wide_lt(a: Wide, b: Wide) -> (r: bool)
    ensures
        r == (a.value() < b.value()),
{
    if a.neg && a.mag > 0 {
        if b.neg && b.mag > 0 {
            a.mag > b.mag
        } else {
            true
        }
    } else {
        if b.neg && b.mag > 0 {
            false
        } else {
            a.mag < b.mag
        }
    }
}

/// Holds `val` against the inclusive bounds `min ..= max`.
pub fn check_range(val: Wide, min: Wide, max: Wide) -> (r: Result<Wide, ErrorKind>)
    ensures
        wide_outcome(r) == within(val.value(), min.value(), max.value()),
{
    if wide_lt(max, val) {
        Err(ErrorKind::AboveMaximum)
    } else if wide_lt(val, min) {
        Err(ErrorKind::BelowMinimum)
    } else {
        Ok(val)
    }
}

/// Turns an outcome on `Wide` values into the value of `T` or the message.
pub fn finish<T: Integer>(r: Result<Wide, ErrorKind>, min: Wide, max: Wide) -> (out: Result<
    T,
    String,
>)
    requires
        r matches Ok(w) ==> T::min_int() <= w.value() <= T::max_int(),
    ensures
        reports(out, wide_outcome(r), min.value(), max.value()),
{
    match r {
        Ok(w) => Ok(T::from_wide(w)),
        Err(k) => Err(describe(k, min, max)),
    }
}

/// The bounds of `T` as `Wide` values.
pub fn type_bounds<T: Integer>() -> (r: (Wide, Wide))
    ensures
        r.0.value() == T::min_int(),
        r.1.value() == T::max_int(),
        -(r.0.mag as int) == T::min_int(),
        r.1.mag as int == T::max_int(),
{
    (Wide { neg: true, mag: T::min_magnitude() }, Wide { neg: false, mag: T::max_magnitude() })
}

/// Parses `s` as a base-10 integer of type `T` within the inclusive bounds
/// `min ..= max`.
///
/// Fails with the literal's error when `s` is no base-10 integer of `T`, then
/// with "exceeds maximum of `max`" or "less than minimum of `min`".
pub fn number_range<T: Integer>(s: &str, min: T, max: T) -> (r: Result<T, String>)
    requires
        min.int_value() <= max.int_value(),
    ensures
        reports(
            r,
            number_range_outcome(s@, T::min_int(), T::max_int(), min.int_value(), max.int_value()),
            min.int_value(),
            max.int_value(),
        ),
{
    let chars = chars_of(s);
    let (lo, hi) = type_bounds::<T>();
    let minw = min.to_wide();
    let maxw = max.to_wide();
    let parsed = parse_literal(&chars, 0, chars.len(), 0, 10, lo.mag, hi.mag);
    assert(chars@.subrange(0, chars@.len() as int) + zeros(0) =~= s@);
    proof {
        min.lemma_in_range();
        max.lemma_in_range();
    }
    let checked = match parsed {
        Ok(v) => check_range(v, minw, maxw),
        Err(k) => Err(k),
    };
    assert(wide_outcome(checked) == number_range_outcome(
        s@,
        T::min_int(),
        T::max_int(),
        min.int_value(),
        max.int_value(),
    ));
    finish(checked, minw, maxw)
}

} // verus!
