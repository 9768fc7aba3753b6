use vstd::prelude::*;

use crate::decimal::{
    is_decimal_char, lemma_decimal_text_chars, lemma_literal_decimal, lemma_literal_range,
};
use crate::error::ErrorKind;
use crate::integer::Integer;
use crate::literal::{accumulate, literal, zeros};
use crate::radix::{radix_digits, radix_outcome};
use crate::range::number_range_outcome;
use crate::si::{char_from, fraction, prefix_from, prefix_of, scale, si_outcome, si_range_outcome, SiPrefix};
use crate::text::decimal_text;

verus! {

proof fn lemma_prefix_from_at(s: Seq<char>, k: int, at: int)
    requires
        0 <= k <= at < s.len(),
        prefix_of(s[at]) is Some,
        forall|j: int| k <= j < at ==> prefix_of(#[trigger] s[j]) is None,
    ensures
        prefix_from(s, k) == Some(at),
    decreases at - k,
{
    if k < at {
        lemma_prefix_from_at(s, k + 1, at);
    }
}

proof fn lemma_prefix_from_none(s: Seq<char>, k: int)
    requires
        0 <= k <= s.len(),
        forall|j: int| k <= j < s.len() ==> prefix_of(#[trigger] s[j]) is None,
    ensures
        prefix_from(s, k) is None,
    decreases s.len() - k,
{
    if k < s.len() {
        lemma_prefix_from_none(s, k + 1);
    }
}

proof fn lemma_char_from_at(s: Seq<char>, c: char, k: int, at: int)
    requires
        0 <= k <= at < s.len(),
        s[at] == c,
        forall|j: int| k <= j < at ==> #[trigger] s[j] != c,
    ensures
        char_from(s, c, k) == Some(at),
    decreases at - k,
{
    if k < at {
        lemma_char_from_at(s, c, k + 1, at);
    }
}

proof fn lemma_char_from_none(s: Seq<char>, c: char, k: int)
    requires
        0 <= k <= s.len(),
        forall|j: int| k <= j < s.len() ==> #[trigger] s[j] != c,
    ensures
        char_from(s, c, k) is None,
    decreases s.len() - k,
{
    if k < s.len() {
        lemma_char_from_none(s, c, k + 1);
    }
}

proof fn lemma_accumulate_zeros(n: nat, lo: int, hi: int)
    requires
        0 <= hi,
    ensures
        accumulate(zeros(n), 10, lo, hi, 0, false) == Ok::<int, ErrorKind>(0),
    decreases n,
{
    if n > 0 {
        assert(zeros(n).drop_first() =~= zeros((n - 1) as nat));
        lemma_accumulate_zeros((n - 1) as nat, lo, hi);
    }
}

/// No character of `decimal_text(v)` is a metric prefix or a `.`.
proof fn lemma_decimal_text_plain(v: int)
    ensures
        decimal_text(v).len() >= 1,
        forall|k: int|
            0 <= k < decimal_text(v).len() ==> prefix_of(#[trigger] decimal_text(v)[k]) is None
                && decimal_text(v)[k] != '.',
{
    lemma_decimal_text_chars(v);
}

/// Every value of `T`, written in base 10, is read back by `number_range`
/// over the whole range of `T`.
pub proof fn number_range_reads_every_value<T: Integer>(n: T)
    ensures
        number_range_outcome(
            decimal_text(n.int_value()),
            T::min_int(),
            T::max_int(),
            T::min_int(),
            T::max_int(),
        ) == Ok::<int, ErrorKind>(n.int_value()),
{
    T::lemma_bounds();
    n.lemma_in_range();
    lemma_literal_decimal(n.int_value(), T::min_int(), T::max_int());
}

/// A value written in base 10 is accepted by `number_range` exactly within
/// `min ..= max`; below it fails as below the minimum, above it as above the
/// maximum.
pub proof fn number_range_bounds<T: Integer>(n: T, min: T, max: T)
    requires
        min.int_value() <= max.int_value(),
    ensures
        min.int_value() <= n.int_value() <= max.int_value() ==> number_range_outcome(
            decimal_text(n.int_value()),
            T::min_int(),
            T::max_int(),
            min.int_value(),
            max.int_value(),
        ) == Ok::<int, ErrorKind>(n.int_value()),
        n.int_value() < min.int_value() ==> number_range_outcome(
            decimal_text(n.int_value()),
            T::min_int(),
            T::max_int(),
            min.int_value(),
            max.int_value(),
        ) == Err::<int, ErrorKind>(ErrorKind::BelowMinimum),
        n.int_value() > max.int_value() ==> number_range_outcome(
            decimal_text(n.int_value()),
            T::min_int(),
            T::max_int(),
            min.int_value(),
            max.int_value(),
        ) == Err::<int, ErrorKind>(ErrorKind::AboveMaximum),
{
    number_range_reads_every_value(n);
}

/// An integer `i` written in base 10 and followed by the letter of a prefix
/// is read as `i` times the prefix's multiplier, where neither the multiplier
/// nor the product leaves the range of `T`.
pub proof fn si_prefix_scales<T: Integer>(i: int, p: SiPrefix)
    requires
        p.spec_multiplier() <= T::max_int(),
        T::min_int() <= i * p.spec_multiplier() <= T::max_int(),
    ensures
        si_outcome(decimal_text(i) + seq![p.spec_symbol()], T::min_int(), T::max_int()) == Ok::<
            int,
            ErrorKind,
        >(i * p.spec_multiplier()),
{
    let m = p.spec_multiplier();
    let lo = T::min_int();
    let hi = T::max_int();
    T::lemma_bounds();
    assert(lo <= i <= hi) by (nonlinear_arith)
        requires
            lo <= i * m <= hi,
            m >= 1,
            lo <= 0 <= hi,
    ;
    si_prefix_parts::<T>(i, p);
    assert(scale(i, 0, m, lo, hi) == Ok::<int, ErrorKind>(i * m));
}

/// The parts of `decimal_text(i)` followed by the letter of `p`: `i` and no
/// fraction.
proof fn si_prefix_parts<T: Integer>(i: int, p: SiPrefix)
    requires
        T::min_int() <= i <= T::max_int(),
    ensures
        si_outcome(decimal_text(i) + seq![p.spec_symbol()], T::min_int(), T::max_int()) == scale(
            i,
            0,
            p.spec_multiplier(),
            T::min_int(),
            T::max_int(),
        ),
{
    let lo = T::min_int();
    let hi = T::max_int();
    let d = decimal_text(i);
    let s = d + seq![p.spec_symbol()];
    T::lemma_bounds();
    lemma_decimal_text_plain(i);
    lemma_prefix_from_at(s, 0, d.len() as int);
    assert(prefix_of(s[d.len() as int]) == Some(p));
    lemma_char_from_none(s, '.', 0);
    assert(s.subrange(0, d.len() as int) =~= d);
    lemma_literal_decimal(i, lo, hi);
}

/// An integer that overflows `T` once scaled by a prefix fails with
/// `Overflow`, as does a prefix whose multiplier alone leaves the range.
pub proof fn si_scaling_overflows<T: Integer>(i: int, p: SiPrefix)
    requires
        T::min_int() <= i <= T::max_int(),
        p.spec_multiplier() > T::max_int() || i * p.spec_multiplier() > T::max_int() || i
            * p.spec_multiplier() < T::min_int(),
    ensures
        si_outcome(decimal_text(i) + seq![p.spec_symbol()], T::min_int(), T::max_int()) == Err::<
            int,
            ErrorKind,
        >(ErrorKind::Overflow),
{
    si_prefix_parts::<T>(i, p);
}

/// A literal above the largest value of `T` fails with `PosOverflow`, in
/// `number_range` and in `si_number`.
pub proof fn literal_overflows<T: Integer>(n: int, min: int, max: int)
    requires
        n > T::max_int(),
    ensures
        number_range_outcome(decimal_text(n), T::min_int(), T::max_int(), min, max) == Err::<
            int,
            ErrorKind,
        >(ErrorKind::PosOverflow),
        si_outcome(decimal_text(n), T::min_int(), T::max_int()) == Err::<int, ErrorKind>(
            ErrorKind::PosOverflow,
        ),
{
    T::lemma_bounds();
    lemma_literal_decimal(n, T::min_int(), T::max_int());
    lemma_decimal_text_plain(n);
    lemma_prefix_from_none(decimal_text(n), 0);
}

/// A prefix letter with nothing in front of it fails with `MissingValue`.
pub proof fn si_prefix_needs_value<T: Integer>(s: Seq<char>)
    requires
        s.len() > 0,
        prefix_of(s[0]) is Some,
    ensures
        si_outcome(s, T::min_int(), T::max_int()) == Err::<int, ErrorKind>(ErrorKind::MissingValue),
{
}

/// A fraction written after the prefix letter (`1k2`) reads as the same
/// fraction written after a `.` in front of the letter (`1.2k`).
///
/// The integer part `h` is not empty and holds no prefix letter and no `.`;
/// the fraction `f` holds no prefix letter. The two forms read their parts
/// in opposite order, so where both parts fail, they fail alike.
pub proof fn si_fraction_forms_agree<T: Integer>(h: Seq<char>, p: SiPrefix, f: Seq<char>)
    requires
        h.len() > 0,
        forall|j: int| 0 <= j < h.len() ==> prefix_of(#[trigger] h[j]) is None && h[j] != '.',
        forall|j: int| 0 <= j < f.len() ==> prefix_of(#[trigger] f[j]) is None,
        literal(h, 10, T::min_int(), T::max_int()) is Ok || fraction(
            f,
            p.spec_digits(),
            T::min_int(),
            T::max_int(),
        ) is Ok || literal(h, 10, T::min_int(), T::max_int()) == fraction(
            f,
            p.spec_digits(),
            T::min_int(),
            T::max_int(),
        ),
    ensures
        si_outcome(h + seq![p.spec_symbol()] + f, T::min_int(), T::max_int()) == si_outcome(
            h + seq!['.'] + f + seq![p.spec_symbol()],
            T::min_int(),
            T::max_int(),
        ),
{
    let lo = T::min_int();
    let hi = T::max_int();
    let w = p.spec_digits();
    let sym = p.spec_symbol();
    T::lemma_bounds();
    let s1 = h + seq![sym] + f;
    let s2 = h + seq!['.'] + f + seq![sym];
    let n = h.len() as int;
    assert(prefix_of(sym) == Some(p));
    assert forall|j: int| 0 <= j < n implies prefix_of(#[trigger] s1[j]) is None by {
        assert(s1[j] == h[j]);
    }
    lemma_prefix_from_at(s1, 0, n);
    assert forall|j: int| 0 <= j < s2.len() - 1 implies prefix_of(#[trigger] s2[j]) is None by {
        if j < n {
            assert(s2[j] == h[j]);
        } else if j > n {
            assert(s2[j] == f[j - n - 1]);
        }
    }
    lemma_prefix_from_at(s2, 0, s2.len() - 1);
    assert(prefix_of(s2[s2.len() - 1]) == Some(p));
    assert forall|j: int| 0 <= j < n implies #[trigger] s2[j] != '.' by {
        assert(s2[j] == h[j]);
    }
    lemma_char_from_at(s2, '.', 0, n);
    assert(s2.subrange(n + 1, s2.len() - 1) =~= f);
    assert(s2.subrange(0, n) =~= h);
    assert(s1.subrange(0, n) =~= h);
    if f.len() > 0 {
        assert(s1.subrange(n + 1, s1.len() as int) =~= f);
    } else {
        assert forall|j: int| 0 <= j < s1.len() implies #[trigger] s1[j] != '.' by {
            if j < n {
                assert(s1[j] == h[j]);
            }
        }
        lemma_char_from_none(s1, '.', 0);
        assert(f + zeros(w) =~= zeros(w));
        lemma_accumulate_zeros(w, lo, hi);
        assert(zeros(w)[0] == '0');
    }
}

/// A fraction after the prefix letter may hold as many digits as the
/// prefix's power of ten: with fewer it is padded on the right with zeros to
/// that many and read, with exactly that many it is read as it stands, with
/// more it fails with `NotAnInteger`.
///
/// The integer part `h` is not empty, holds no prefix letter, and reads as
/// an integer of `T`.
pub proof fn si_fraction_width<T: Integer>(h: Seq<char>, p: SiPrefix, f: Seq<char>)
    requires
        h.len() > 0,
        forall|j: int| 0 <= j < h.len() ==> prefix_of(#[trigger] h[j]) is None,
        literal(h, 10, T::min_int(), T::max_int()) is Ok,
    ensures
        f.len() > p.spec_digits() ==> si_outcome(
            h + seq![p.spec_symbol()] + f,
            T::min_int(),
            T::max_int(),
        ) == Err::<int, ErrorKind>(ErrorKind::NotAnInteger),
        0 < f.len() <= p.spec_digits() ==> si_outcome(
            h + seq![p.spec_symbol()] + f,
            T::min_int(),
            T::max_int(),
        ) == match literal(
            f + zeros((p.spec_digits() - f.len()) as nat),
            10,
            T::min_int(),
            T::max_int(),
        ) {
            Ok(b) => scale(
                literal(h, 10, T::min_int(), T::max_int())->Ok_0,
                b,
                p.spec_multiplier(),
                T::min_int(),
                T::max_int(),
            ),
            Err(k) => Err(k),
        },
{
    let s1 = h + seq![p.spec_symbol()] + f;
    let n = h.len() as int;
    assert(prefix_of(p.spec_symbol()) == Some(p));
    assert forall|j: int| 0 <= j < n implies prefix_of(#[trigger] s1[j]) is None by {
        assert(s1[j] == h[j]);
    }
    lemma_prefix_from_at(s1, 0, n);
    assert(s1.subrange(0, n) =~= h);
    assert(s1.subrange(n + 1, s1.len() as int) =~= f);
}

/// An integer part above the largest value of `T` fails with `PosOverflow`
/// before a prefix letter, whatever follows the letter.
pub proof fn si_integer_part_overflows<T: Integer>(i: int, p: SiPrefix, f: Seq<char>)
    requires
        i > T::max_int(),
    ensures
        si_outcome(decimal_text(i) + seq![p.spec_symbol()] + f, T::min_int(), T::max_int())
            == Err::<int, ErrorKind>(ErrorKind::PosOverflow),
{
    let lo = T::min_int();
    let hi = T::max_int();
    let d = decimal_text(i);
    let s = d + seq![p.spec_symbol()] + f;
    let n = d.len() as int;
    T::lemma_bounds();
    lemma_decimal_text_plain(i);
    lemma_literal_decimal(i, lo, hi);
    assert(prefix_of(p.spec_symbol()) == Some(p));
    assert forall|j: int| 0 <= j < n implies prefix_of(#[trigger] s[j]) is None by {
        assert(s[j] == d[j]);
    }
    lemma_prefix_from_at(s, 0, n);
    assert(s.subrange(0, n) =~= d);
    if f.len() == 0 {
        assert forall|j: int| 0 <= j < s.len() implies #[trigger] s[j] != '.' by {
            if j < n {
                assert(s[j] == d[j]);
            }
        }
        lemma_char_from_none(s, '.', 0);
    }
}

proof fn lemma_si_range(s: Seq<char>, lo: int, hi: int)
    requires
        lo <= 0 <= hi,
    ensures
        si_outcome(s, lo, hi) matches Ok(v) ==> lo <= v <= hi,
{
    lemma_literal_range(s, 10, lo, hi);
}

/// A value that a parser gave, written in base 10 and parsed again by the
/// same parser, gives that value again.
pub proof fn reparse_gives_same_value<T: Integer>(s: Seq<char>, min: int, max: int)
    ensures
        number_range_outcome(s, T::min_int(), T::max_int(), min, max) matches Ok(v)
            ==> number_range_outcome(decimal_text(v), T::min_int(), T::max_int(), min, max) == Ok::<
            int,
            ErrorKind,
        >(v),
        si_outcome(s, T::min_int(), T::max_int()) matches Ok(v) ==> si_outcome(
            decimal_text(v),
            T::min_int(),
            T::max_int(),
        ) == Ok::<int, ErrorKind>(v),
        si_range_outcome(s, T::min_int(), T::max_int(), min, max) matches Ok(v)
            ==> si_range_outcome(decimal_text(v), T::min_int(), T::max_int(), min, max) == Ok::<
            int,
            ErrorKind,
        >(v),
        radix_outcome(s, 'x', 'X', 16, T::max_int()) matches Ok(v) ==> radix_outcome(
            decimal_text(v),
            'x',
            'X',
            16,
            T::max_int(),
        ) == Ok::<int, ErrorKind>(v),
        radix_outcome(s, 'b', 'B', 2, T::max_int()) matches Ok(v) ==> radix_outcome(
            decimal_text(v),
            'b',
            'B',
            2,
            T::max_int(),
        ) == Ok::<int, ErrorKind>(v),
{
    let lo = T::min_int();
    let hi = T::max_int();
    T::lemma_bounds();
    lemma_literal_range(s, 10, lo, hi);
    if let Ok(v) = literal(s, 10, lo, hi) {
        lemma_literal_decimal(v, lo, hi);
    }
    lemma_si_range(s, lo, hi);
    if let Ok(v) = si_outcome(s, lo, hi) {
        lemma_literal_decimal(v, lo, hi);
        lemma_decimal_text_plain(v);
        lemma_prefix_from_none(decimal_text(v), 0);
    }
    reparse_radix(s, 'x', 'X', 16, hi);
    reparse_radix(s, 'b', 'B', 2, hi);
}

proof fn reparse_radix(s: Seq<char>, lower: char, upper: char, radix: nat, hi: int)
    requires
        0 <= hi,
        !is_decimal_char(lower),
        !is_decimal_char(upper),
    ensures
        radix_outcome(s, lower, upper, radix, hi) matches Ok(v) ==> radix_outcome(
            decimal_text(v),
            lower,
            upper,
            radix,
            hi,
        ) == Ok::<int, ErrorKind>(v),
{
    let d = radix_digits(s, lower, upper);
    let base = if s.len() >= 2 && s[0] == '0' && (s[1] == lower || s[1] == upper) {
        radix
    } else {
        10
    };
    lemma_literal_range(d, base, 0, hi);
    if let Ok(v) = radix_outcome(s, lower, upper, radix, hi) {
        lemma_literal_decimal(v, 0, hi);
        lemma_decimal_text_chars(v);
        let t = decimal_text(v);
        if t.len() >= 2 {
            assert(is_decimal_char(t[1]));
        }
    }
}

} // verus!
