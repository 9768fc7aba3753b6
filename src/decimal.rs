use vstd::prelude::*;

use crate::error::ErrorKind;
use crate::literal::{accumulate, digit_value, literal};
use crate::text::{decimal_text, digit_char, digits_text};

verus! {

/// A character of `0`-`9`.
pub open spec fn is_decimal_char(c: char) -> bool {
    '0' <= c && c <= '9'
}

proof fn lemma_digit_char(d: nat)
    requires
        d < 10,
    ensures
        digit_value(digit_char(d), 10) == Some(d),
        is_decimal_char(digit_char(d)),
{
}

/// The decimal digits of `n` are one or more characters of `0`-`9`.
pub proof fn lemma_digits_text_chars(n: nat)
    ensures
        digits_text(n).len() >= 1,
        forall|k: int| 0 <= k < digits_text(n).len() ==> is_decimal_char(#[trigger] digits_text(n)[k]),
    decreases n,
{
    lemma_digit_char(n % 10);
    if n >= 10 {
        lemma_digits_text_chars(n / 10);
    } else {
        lemma_digit_char(n);
    }
}

/// `decimal_text(v)` holds no character but `-` and `0`-`9`, and `-` only in
/// front.
pub proof fn lemma_decimal_text_chars(v: int)
    ensures
        decimal_text(v).len() >= 1,
        forall|k: int|
            0 <= k < decimal_text(v).len() ==> is_decimal_char(#[trigger] decimal_text(v)[k]) || (k
                == 0 && decimal_text(v)[k] == '-' && v < 0),
{
    if v < 0 {
        lemma_digits_text_chars((-v) as nat);
        let d = digits_text((-v) as nat);
        assert forall|k: int| 1 <= k < decimal_text(v).len() implies decimal_text(v)[k] == d[k
            - 1] by {}
    } else {
        lemma_digits_text_chars(v as nat);
    }
}

/// Reading `a + b` reads `a`, then `b` from the value that `a` gave.
pub proof fn lemma_accumulate_append(
    a: Seq<char>,
    b: Seq<char>,
    radix: nat,
    lo: int,
    hi: int,
    acc: int,
    neg: bool,
)
    ensures
        accumulate(a + b, radix, lo, hi, acc, neg) == match accumulate(a, radix, lo, hi, acc, neg) {
            Ok(x) => accumulate(b, radix, lo, hi, x, neg),
            Err(k) => Err(k),
        },
    decreases a.len(),
{
    if a.len() == 0 {
        assert(a + b =~= b);
    } else {
        assert((a + b).drop_first() =~= a.drop_first() + b);
        assert((a + b)[0] == a[0]);
        match digit_value(a[0], radix) {
            None => {},
            Some(x) => {
                let n = if neg {
                    acc * radix - x
                } else {
                    acc * radix + x
                };
                lemma_accumulate_append(a.drop_first(), b, radix, lo, hi, n, neg);
            },
        }
    }
}

/// Reading the decimal digits of `n` gives `n` (or `-n` under a minus sign),
/// or the overflow of that direction where it leaves `lo ..= hi`.
pub proof fn lemma_accumulate_digits(n: nat, lo: int, hi: int, neg: bool)
    requires
        lo <= 0 <= hi,
    ensures
        accumulate(digits_text(n), 10, lo, hi, 0, neg) == if neg {
            if -n >= lo {
                Ok::<int, ErrorKind>(-n)
            } else {
                Err(ErrorKind::NegOverflow)
            }
        } else {
            if n <= hi {
                Ok::<int, ErrorKind>(n as int)
            } else {
                Err(ErrorKind::PosOverflow)
            }
        },
    decreases n,
{
    let c = digit_char(n % 10);
    lemma_digit_char(n % 10);
    let last = seq![c];
    assert(last.drop_first() =~= Seq::<char>::empty());
    reveal_with_fuel(accumulate, 2);
    if n < 10 {
        assert(n % 10 == n);
        assert(digits_text(n) == last);
    } else {
        let head = digits_text(n / 10);
        assert(digits_text(n) =~= head + last);
        lemma_accumulate_digits(n / 10, lo, hi, neg);
        lemma_accumulate_append(head, last, 10, lo, hi, 0, neg);
        assert((n / 10) * 10 + n % 10 == n);
    }
}

/// Reading `decimal_text(v)` gives `v`, or the overflow of its direction
/// where `v` leaves `lo ..= hi`.
pub proof fn lemma_literal_decimal(v: int, lo: int, hi: int)
    requires
        lo <= 0 <= hi,
        v < 0 ==> lo < 0,
    ensures
        literal(decimal_text(v), 10, lo, hi) == if v > hi {
            Err(ErrorKind::PosOverflow)
        } else if v < lo {
            Err(ErrorKind::NegOverflow)
        } else {
            Ok::<int, ErrorKind>(v)
        },
{
    let s = decimal_text(v);
    if v < 0 {
        let d = digits_text((-v) as nat);
        lemma_digits_text_chars((-v) as nat);
        assert(s.drop_first() =~= d);
        assert(s.len() >= 2);
        lemma_accumulate_digits((-v) as nat, lo, hi, true);
    } else {
        lemma_digits_text_chars(v as nat);
        assert(is_decimal_char(s[0]));
        lemma_accumulate_digits(v as nat, lo, hi, false);
    }
}

proof fn lemma_accumulate_range(d: Seq<char>, radix: nat, lo: int, hi: int, acc: int, neg: bool)
    requires
        lo <= 0 <= hi,
        neg ==> lo <= acc <= 0,
        !neg ==> 0 <= acc <= hi,
    ensures
        accumulate(d, radix, lo, hi, acc, neg) matches Ok(v) ==> lo <= v <= hi,
    decreases d.len(),
{
    if d.len() > 0 {
        match digit_value(d[0], radix) {
            None => {},
            Some(x) => {
                if neg {
                    assert(acc * radix <= 0) by (nonlinear_arith)
                        requires
                            acc <= 0,
                    ;
                    if acc * radix - x >= lo {
                        lemma_accumulate_range(d.drop_first(), radix, lo, hi, acc * radix - x, neg);
                    }
                } else {
                    assert(acc * radix >= 0) by (nonlinear_arith)
                        requires
                            acc >= 0,
                    ;
                    if acc * radix + x <= hi {
                        lemma_accumulate_range(d.drop_first(), radix, lo, hi, acc * radix + x, neg);
                    }
                }
            },
        }
    }
}

/// The value of a literal lies in the range it was read for.
pub proof fn lemma_literal_range(s: Seq<char>, radix: nat, lo: int, hi: int)
    requires
        lo <= 0 <= hi,
    ensures
        literal(s, radix, lo, hi) matches Ok(v) ==> lo <= v <= hi,
{
    if s.len() > 0 {
        lemma_accumulate_range(s.drop_first(), radix, lo, hi, 0, false);
        lemma_accumulate_range(s.drop_first(), radix, lo, hi, 0, true);
        lemma_accumulate_range(s, radix, lo, hi, 0, false);
    }
}

} // verus!
