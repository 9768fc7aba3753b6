use vstd::prelude::*;

verus! {

/// A sign and a magnitude: the value `-mag` when `neg` holds, else `mag`.
///
/// Every fixed-width integer type of Rust fits in it, from `i128::MIN` up to
/// `u128::MAX`.
#[derive(Clone, Copy)]
pub struct Wide {
    pub neg: bool,
    pub mag: u128,
}

impl Wide {
    pub open spec fn value(self) -> int {
        if self.neg {
            -(self.mag as int)
        } else {
            self.mag as int
        }
    }
}

/// A fixed-width integer type that the parsers can produce.
///
/// Its range is `-min_magnitude() ..= max_magnitude()`, and its values convert
/// to and from `Wide` exactly.
pub trait Integer: Sized + Copy {
    /// The mathematical value.
    spec fn int_value(&self) -> int;

    /// The smallest value of the type.
    spec fn min_int() -> int;

    /// The largest value of the type.
    spec fn max_int() -> int;

    proof fn lemma_in_range(&self)
        ensures
            Self::min_int() <= self.int_value() <= Self::max_int(),
    ;

    /// Zero lies in the range, and so does 127.
    proof fn lemma_bounds()
        ensures
            Self::min_int() <= 0,
            127 <= Self::max_int(),
    ;

    /// The magnitude of the smallest value.
    fn min_magnitude() -> (r: u128)
        ensures
            r as int == -Self::min_int(),
    ;

    /// The largest value.
    fn max_magnitude() -> (r: u128)
        ensures
            r as int == Self::max_int(),
    ;

    fn from_wide(w: Wide) -> (r: Self)
        requires
            Self::min_int() <= w.value() <= Self::max_int(),
        ensures
            r.int_value() == w.value(),
    ;

    fn to_wide(&self) -> (r: Wide)
        ensures
            r.value() == self.int_value(),
    ;
}

impl Integer for u8 {
    open spec fn int_value(&self) -> int {
        *self as int
    }

    open spec fn min_int() -> int {
        0
    }

    open spec fn max_int() -> int {
        u8::MAX as int
    }

    proof fn lemma_in_range(&self) {
    }

    proof fn lemma_bounds() {
    }

    fn min_magnitude() -> (r: u128) {
        0
    }

    fn max_magnitude() -> (r: u128) {
        u8::MAX as u128
    }

    fn from_wide(w: Wide) -> (r: Self) {
        w.mag as u8
    }

    fn to_wide(&self) -> (r: Wide) {
        Wide { neg: false, mag: *self as u128 }
    }
}

impl Integer for u16 {
    open spec fn int_value(&self) -> int {
        *self as int
    }

    open spec fn min_int() -> int {
        0
    }

    open spec fn max_int() -> int {
        u16::MAX as int
    }

    proof fn lemma_in_range(&self) {
    }

    proof fn lemma_bounds() {
    }

    fn min_magnitude() -> (r: u128) {
        0
    }

    fn max_magnitude() -> (r: u128) {
        u16::MAX as u128
    }

    fn from_wide(w: Wide) -> (r: Self) {
        w.mag as u16
    }

    fn to_wide(&self) -> (r: Wide) {
        Wide { neg: false, mag: *self as u128 }
    }
}

impl Integer for u32 {
    open spec fn int_value(&self) -> int {
        *self as int
    }

    open spec fn min_int() -> int {
        0
    }

    open spec fn max_int() -> int {
        u32::MAX as int
    }

    proof fn lemma_in_range(&self) {
    }

    proof fn lemma_bounds() {
    }

    fn min_magnitude() -> (r: u128) {
        0
    }

    fn max_magnitude() -> (r: u128) {
        u32::MAX as u128
    }

    fn from_wide(w: Wide) -> (r: Self) {
        w.mag as u32
    }

    fn to_wide(&self) -> (r: Wide) {
        Wide { neg: false, mag: *self as u128 }
    }
}

impl Integer for u64 {
    open spec fn int_value(&self) -> int {
        *self as int
    }

    open spec fn min_int() -> int {
        0
    }

    open spec fn max_int() -> int {
        u64::MAX as int
    }

    proof fn lemma_in_range(&self) {
    }

    proof fn lemma_bounds() {
    }

    fn min_magnitude() -> (r: u128) {
        0
    }

    fn max_magnitude() -> (r: u128) {
        u64::MAX as u128
    }

    fn from_wide(w: Wide) -> (r: Self) {
        w.mag as u64
    }

    fn to_wide(&self) -> (r: Wide) {
        Wide { neg: false, mag: *self as u128 }
    }
}

impl Integer for u128 {
    open spec fn int_value(&self) -> int {
        *self as int
    }

    open spec fn min_int() -> int {
        0
    }

    open spec fn max_int() -> int {
        u128::MAX as int
    }

    proof fn lemma_in_range(&self) {
    }

    proof fn lemma_bounds() {
    }

    fn min_magnitude() -> (r: u128) {
        0
    }

    fn max_magnitude() -> (r: u128) {
        u128::MAX as u128
    }

    fn from_wide(w: Wide) -> (r: Self) {
        w.mag as u128
    }

    fn to_wide(&self) -> (r: Wide) {
        Wide { neg: false, mag: *self as u128 }
    }
}

impl Integer for usize {
    open spec fn int_value(&self) -> int {
        *self as int
    }

    open spec fn min_int() -> int {
        0
    }

    open spec fn max_int() -> int {
        usize::MAX as int
    }

    proof fn lemma_in_range(&self) {
    }

    proof fn lemma_bounds() {
    }

    fn min_magnitude() -> (r: u128) {
        0
    }

    fn max_magnitude() -> (r: u128) {
        usize::MAX as u128
    }

    fn from_wide(w: Wide) -> (r: Self) {
        w.mag as usize
    }

    fn to_wide(&self) -> (r: Wide) {
        Wide { neg: false, mag: *self as u128 }
    }
}

impl Integer for i8 {
    open spec fn int_value(&self) -> int {
        *self as int
    }

    open spec fn min_int() -> int {
        i8::MIN as int
    }

    open spec fn max_int() -> int {
        i8::MAX as int
    }

    proof fn lemma_in_range(&self) {
    }

    proof fn lemma_bounds() {
    }

    fn min_magnitude() -> (r: u128) {
        (0i128 - i8::MIN as i128) as u128
    }

    fn max_magnitude() -> (r: u128) {
        i8::MAX as u128
    }

    fn from_wide(w: Wide) -> (r: Self) {
        if w.neg {
            (0i128 - w.mag as i128) as i8
        } else {
            w.mag as i8
        }
    }

    fn to_wide(&self) -> (r: Wide) {
        if *self < 0 {
            Wide { neg: true, mag: (0i128 - *self as i128) as u128 }
        } else {
            Wide { neg: false, mag: *self as u128 }
        }
    }
}

impl Integer for i16 {
    open spec fn int_value(&self) -> int {
        *self as int
    }

    open spec fn min_int() -> int {
        i16::MIN as int
    }

    open spec fn max_int() -> int {
        i16::MAX as int
    }

    proof fn lemma_in_range(&self) {
    }

    proof fn lemma_bounds() {
    }

    fn min_magnitude() -> (r: u128) {
        (0i128 - i16::MIN as i128) as u128
    }

    fn max_magnitude() -> (r: u128) {
        i16::MAX as u128
    }

    fn from_wide(w: Wide) -> (r: Self) {
        if w.neg {
            (0i128 - w.mag as i128) as i16
        } else {
            w.mag as i16
        }
    }

    fn to_wide(&self) -> (r: Wide) {
        if *self < 0 {
            Wide { neg: true, mag: (0i128 - *self as i128) as u128 }
        } else {
            Wide { neg: false, mag: *self as u128 }
        }
    }
}

impl Integer for i32 {
    open spec fn int_value(&self) -> int {
        *self as int
    }

    open spec fn min_int() -> int {
        i32::MIN as int
    }

    open spec fn max_int() -> int {
        i32::MAX as int
    }

    proof fn lemma_in_range(&self) {
    }

    proof fn lemma_bounds() {
    }

    fn min_magnitude() -> (r: u128) {
        (0i128 - i32::MIN as i128) as u128
    }

    fn max_magnitude() -> (r: u128) {
        i32::MAX as u128
    }

    fn from_wide(w: Wide) -> (r: Self) {
        if w.neg {
            (0i128 - w.mag as i128) as i32
        } else {
            w.mag as i32
        }
    }

    fn to_wide(&self) -> (r: Wide) {
        if *self < 0 {
            Wide { neg: true, mag: (0i128 - *self as i128) as u128 }
        } else {
            Wide { neg: false, mag: *self as u128 }
        }
    }
}

impl Integer for i64 {
    open spec fn int_value(&self) -> int {
        *self as int
    }

    open spec fn min_int() -> int {
        i64::MIN as int
    }

    open spec fn max_int() -> int {
        i64::MAX as int
    }

    proof fn lemma_in_range(&self) {
    }

    proof fn lemma_bounds() {
    }

    fn min_magnitude() -> (r: u128) {
        (0i128 - i64::MIN as i128) as u128
    }

    fn max_magnitude() -> (r: u128) {
        i64::MAX as u128
    }

    fn from_wide(w: Wide) -> (r: Self) {
        if w.neg {
            (0i128 - w.mag as i128) as i64
        } else {
            w.mag as i64
        }
    }

    fn to_wide(&self) -> (r: Wide) {
        if *self < 0 {
            Wide { neg: true, mag: (0i128 - *self as i128) as u128 }
        } else {
            Wide { neg: false, mag: *self as u128 }
        }
    }
}

impl Integer for isize {
    open spec fn int_value(&self) -> int {
        *self as int
    }

    open spec fn min_int() -> int {
        isize::MIN as int
    }

    open spec fn max_int() -> int {
        isize::MAX as int
    }

    proof fn lemma_in_range(&self) {
    }

    proof fn lemma_bounds() {
    }

    fn min_magnitude() -> (r: u128) {
        (0i128 - isize::MIN as i128) as u128
    }

    fn max_magnitude() -> (r: u128) {
        isize::MAX as u128
    }

    fn from_wide(w: Wide) -> (r: Self) {
        if w.neg {
            (0i128 - w.mag as i128) as isize
        } else {
            w.mag as isize
        }
    }

    fn to_wide(&self) -> (r: Wide) {
        if *self < 0 {
            Wide { neg: true, mag: (0i128 - *self as i128) as u128 }
        } else {
            Wide { neg: false, mag: *self as u128 }
        }
    }
}

/// The magnitude of `i128::MIN`, which `i128` itself cannot hold.
const I128_MIN_MAGNITUDE: u128 = 170141183460469231731687303715884105728;

impl Integer for i128 {
    open spec fn int_value(&self) -> int {
        *self as int
    }

    open spec fn min_int() -> int {
        i128::MIN as int
    }

    open spec fn max_int() -> int {
        i128::MAX as int
    }

    proof fn lemma_in_range(&self) {
    }

    proof fn lemma_bounds() {
    }

    fn min_magnitude() -> (r: u128) {
        I128_MIN_MAGNITUDE
    }

    fn max_magnitude() -> (r: u128) {
        i128::MAX as u128
    }

    fn from_wide(w: Wide) -> (r: Self) {
        if w.neg {
            if w.mag == I128_MIN_MAGNITUDE {
                i128::MIN
            } else {
                0i128 - w.mag as i128
            }
        } else {
            w.mag as i128
        }
    }

    fn to_wide(&self) -> (r: Wide) {
        if *self == i128::MIN {
            Wide { neg: true, mag: I128_MIN_MAGNITUDE }
        } else if *self < 0 {
            Wide { neg: true, mag: (0i128 - *self) as u128 }
        } else {
            Wide { neg: false, mag: *self as u128 }
        }
    }
}

} // verus!
