use vstd::prelude::*;

verus! {

/// Why a text was refused.
#[derive(Clone, Copy, Debug, PartialEq, Eq, Structural)]
pub enum ErrorKind {
    /// The digit group is empty.
    Empty,
    /// A character is not a digit of the base, or a sign stands alone or out
    /// of place.
    InvalidDigit,
    /// The literal is above the largest value of the type.
    PosOverflow,
    /// The literal is below the smallest value of the type.
    NegOverflow,
    /// More fraction digits than the metric prefix can scale to an integer.
    NotAnInteger,
    /// A metric prefix with nothing in front of it.
    MissingValue,
    /// Scaling by a metric prefix leaves the range of the type.
    Overflow,
    /// The value is above the caller's maximum.
    AboveMaximum,
    /// The value is below the caller's minimum.
    BelowMinimum,
}

} // verus!
