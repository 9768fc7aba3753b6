use vstd::prelude::*;

use crate::error::ErrorKind;
use crate::integer::Wide;
use vstd::string::StrSliceExecFns;

verus! {

/// The value of `c` as a digit of base `radix`: `0`-`9`, then `a`-`z` or
/// `A`-`Z` for 10 to 35.
pub open spec fn digit_value(c: char, radix: nat) -> Option<nat> {
    let d: int = if '0' <= c && c <= '9' {
        c as int - '0' as int
    } else if 'a' <= c && c <= 'z' {
        c as int - 'a' as int + 10
    } else if 'A' <= c && c <= 'Z' {
        c as int - 'A' as int + 10
    } else {
        radix as int
    };
    if d < radix {
        Some(d as nat)
    } else {
        None
    }
}

/// Reads the digits `d` after the value `acc` read so far, left to right.
///
/// Each digit moves the value to `acc * radix + digit` (or `- digit` under a
/// minus sign). The first character that is no digit fails with
/// `InvalidDigit`; the first step that leaves `lo ..= hi` fails with the
/// overflow of its direction.
pub open spec fn accumulate(d: Seq<char>, radix: nat, lo: int, hi: int, acc: int, neg: bool) -> Result<
    int,
    ErrorKind,
>
    decreases d.len(),
{
    if d.len() == 0 {
        Ok(acc)
    } else {
        match digit_value(d[0], radix) {
            None => Err(ErrorKind::InvalidDigit),
            Some(x) => {
                if neg {
                    let n = acc * radix - x;
                    if n < lo {
                        Err(ErrorKind::NegOverflow)
                    } else {
                        accumulate(d.drop_first(), radix, lo, hi, n, neg)
                    }
                } else {
                    let n = acc * radix + x;
                    if n > hi {
                        Err(ErrorKind::PosOverflow)
                    } else {
                        accumulate(d.drop_first(), radix, lo, hi, n, neg)
                    }
                }
            }
        }
    }
}

/// Whether `s` starts with a minus sign that a type of range `lo ..= hi`
/// accepts (only a signed type does).
pub open spec fn negative_sign(s: Seq<char>, lo: int) -> bool {
    s.len() > 0 && s[0] == '-' && lo < 0
}

/// The digit group of `s`: what follows an optional sign (`-` only where
/// `lo < 0`).
pub open spec fn digit_group(s: Seq<char>, lo: int) -> Seq<char> {
    if s.len() > 0 && (s[0] == '+' || negative_sign(s, lo)) {
        s.drop_first()
    } else {
        s
    }
}

/// Every character of `d` is a digit of base `radix`.
pub open spec fn all_digits(d: Seq<char>, radix: nat) -> bool {
    forall|i: int| 0 <= i < d.len() ==> (#[trigger] digit_value(d[i], radix)) is Some
}

/// The integer that `s` writes in base `radix` for a type whose range is
/// `lo ..= hi`: an optional sign (`-` only where `lo < 0`), then at least one
/// digit and nothing else.
///
/// Text that is no such literal fails with `Empty` (no character at all) or
/// `InvalidDigit`, whatever its digits would be worth; only a well-formed
/// literal can fail with the overflow of its direction.
pub open spec fn literal(s: Seq<char>, radix: nat, lo: int, hi: int) -> Result<int, ErrorKind> {
    if s.len() == 0 {
        Err(ErrorKind::Empty)
    } else if digit_group(s, lo).len() == 0 || !all_digits(digit_group(s, lo), radix) {
        Err(ErrorKind::InvalidDigit)
    } else {
        accumulate(digit_group(s, lo), radix, lo, hi, 0, negative_sign(s, lo))
    }
}

/// Digits read upward fail only by going above `hi`.
pub proof fn lemma_accumulate_up(d: Seq<char>, radix: nat, lo: int, hi: int, acc: int)
    requires
        all_digits(d, radix),
    ensures
        accumulate(d, radix, lo, hi, acc, false) matches Err(k) ==> k == ErrorKind::PosOverflow,
    decreases d.len(),
{
    if d.len() > 0 {
        assert(digit_value(d[0], radix) is Some);
        let x = digit_value(d[0], radix)->Some_0;
        assert forall|i: int| 0 <= i < d.drop_first().len() implies (#[trigger] digit_value(
            d.drop_first()[i],
            radix,
        )) is Some by {
            assert(d.drop_first()[i] == d[i + 1]);
        }
        lemma_accumulate_up(d.drop_first(), radix, lo, hi, acc * radix + x);
    }
}

/// `n` characters `0`.
pub open spec fn zeros(n: nat) -> Seq<char> {
    Seq::new(n, |i: int| '0')
}

/// What a parse on `Wide` values stands for.
pub open spec fn wide_outcome(r: Result<Wide, ErrorKind>) -> Result<int, ErrorKind> {
    match r {
        Ok(w) => Ok(w.value()),
        Err(k) => Err(k),
    }
}

fn digit_of(c: char, radix: u32) -> (r: Option<u32>)
    requires
        2 <= radix <= 36,
    ensures
        match r {
            Some(d) => digit_value(c, radix as nat) == Some(d as nat),
            None => digit_value(c, radix as nat) is None,
        },
{
    let d: u32 = if '0' <= c && c <= '9' {
        c as u32 - '0' as u32
    } else if 'a' <= c && c <= 'z' {
        c as u32 - 'a' as u32 + 10
    } else if 'A' <= c && c <= 'Z' {
        c as u32 - 'A' as u32 + 10
    } else {
        radix
    };
    if d < radix {
        Some(d)
    } else {
        None
    }
}

/// Whether the characters `chars[start..end]` followed by `pad` zeros are
/// all digits of base `radix` from position `from` on.
pub fn digits_from(chars: &Vec<char>, start: usize, end: usize, pad: usize, from: usize, radix: u32) -> (r:
    bool)
    requires
        start <= end <= chars.len(),
        end - start + pad <= usize::MAX,
        from <= end - start + pad,
        2 <= radix <= 36,
    ensures
        r == all_digits(
            (chars@.subrange(start as int, end as int) + zeros(pad as nat)).subrange(
                from as int,
                (end - start + pad) as int,
            ),
            radix as nat,
        ),
{
    let ghost s = chars@.subrange(start as int, end as int) + zeros(pad as nat);
    let len = end - start;
    let total = len + pad;
    let mut j: usize = from;
    while j < total
        invariant
            s == chars@.subrange(start as int, end as int) + zeros(pad as nat),
            s.len() == total,
            total == len + pad,
            len == end - start,
            start <= end <= chars.len(),
            2 <= radix <= 36,
            from <= j <= total,
            forall|i: int| from <= i < j ==> (#[trigger] digit_value(s[i], radix as nat)) is Some,
        decreases total - j,
    {
        let c = if j < len {
            chars[start + j]
        } else {
            '0'
        };
        assert(c == s[j as int]);
        if digit_of(c, radix).is_none() {
            let ghost g = s.subrange(from as int, total as int);
            assert(g[j - from] == c);
            return false;
        }
        j = j + 1;
    }
    let ghost g = s.subrange(from as int, total as int);
    assert forall|i: int| 0 <= i < g.len() implies (#[trigger] digit_value(g[i], radix as nat)) is Some by {
        assert(g[i] == s[i + from]);
    }
    true
}

/// Parses the characters `chars[start..end]` followed by `pad` zeros as a
/// literal of base `radix` for the range `-lo_mag ..= hi`.
pub fn parse_literal(
    chars: &Vec<char>,
    start: usize,
    end: usize,
    pad: usize,
    radix: u32,
    lo_mag: u128,
    hi: u128,
) -> (r: Result<Wide, ErrorKind>)
    requires
        start <= end <= chars.len(),
        end - start + pad <= usize::MAX,
        2 <= radix <= 36,
    ensures
        wide_outcome(r) == literal(
            chars@.subrange(start as int, end as int) + zeros(pad as nat),
            radix as nat,
            -(lo_mag as int),
            hi as int,
        ),
        r matches Ok(w) ==> -(lo_mag as int) <= w.value() <= hi,
{
    let ghost s = chars@.subrange(start as int, end as int) + zeros(pad as nat);
    let ghost lo = -(lo_mag as int);
    let len = end - start;
    let total = len + pad;
    assert(s.len() == total);
    if total == 0 {
        return Err(ErrorKind::Empty);
    }
    let c0 = if len > 0 {
        chars[start]
    } else {
        '0'
    };
    assert(c0 == s[0]);
    if (c0 == '+' || c0 == '-') && total == 1 {
        return Err(ErrorKind::InvalidDigit);
    }
    let neg = c0 == '-' && lo_mag > 0;
    let mut k: usize = if c0 == '+' || neg {
        1
    } else {
        0
    };
    assert(s.subrange(1, total as int) =~= s.drop_first());
    assert(s.subrange(0, total as int) =~= s);
    assert(digit_group(s, lo) == s.subrange(k as int, total as int));
    if !digits_from(chars, start, end, pad, k, radix) {
        return Err(ErrorKind::InvalidDigit);
    }
    let ghost first = k as int;
    let mut mag: u128 = 0;
    while k < total
        invariant
            s == chars@.subrange(start as int, end as int) + zeros(pad as nat),
            s.len() == total,
            total == len + pad,
            len == end - start,
            start <= end <= chars.len(),
            2 <= radix <= 36,
            k <= total,
            lo == -(lo_mag as int),
            neg ==> mag <= lo_mag,
            !neg ==> mag <= hi,
            first <= k,
            all_digits(s.subrange(first, total as int), radix as nat),
            literal(s, radix as nat, lo, hi as int) == accumulate(
                s.subrange(k as int, total as int),
                radix as nat,
                lo,
                hi as int,
                (Wide { neg, mag }).value(),
                neg,
            ),
        decreases total - k,
    {
        let c = if k < len {
            chars[start + k]
        } else {
            '0'
        };
        assert(c == s[k as int]);
        let ghost rest = s.subrange(k as int, total as int);
        assert(rest.drop_first() =~= s.subrange(k + 1, total as int));
        assert(rest[0] == c);
        let ghost acc = (Wide { neg, mag }).value();
        match digit_of(c, radix) {
            None => {
                return Err(ErrorKind::InvalidDigit);
            },
            Some(d) => {
                let fail = if neg {
                    ErrorKind::NegOverflow
                } else {
                    ErrorKind::PosOverflow
                };
                let limit = if neg {
                    lo_mag
                } else {
                    hi
                };
                proof {
                    if neg {
                        assert(acc * radix - d == -(mag * radix + d)) by (nonlinear_arith)
                            requires
                                acc == -(mag as int),
                        ;
                    } else {
                        assert(acc * radix + d == mag * radix + d) by (nonlinear_arith)
                            requires
                                acc == mag as int,
                        ;
                    }
                }
                match mag.checked_mul(radix as u128) {
                    None => {
                        return Err(fail);
                    },
                    Some(m) => match m.checked_add(d as u128) {
                        None => {
                            return Err(fail);
                        },
                        Some(n) => {
                            if n > limit {
                                return Err(fail);
                            }
                            mag = n;
                        },
                    },
                }
            },
        }
        k = k + 1;
    }
    assert(s.subrange(k as int, total as int).len() == 0);
    Ok(Wide { neg, mag })
}

} // verus!

verus! {

/// The characters of `s`, one by one.
pub fn chars_of(s: &str) -> (r: Vec<char>)
    ensures
        r@ == s@,
{
    let n = s.unicode_len();
    let mut v: Vec<char> = Vec::new();
    let mut i: usize = 0;
    while i < n
        invariant
            n == s@.len(),
            i <= n,
            v@ == s@.subrange(0, i as int),
        decreases n - i,
    {
        v.push(s.get_char(i));
        i = i + 1;
        assert(v@ =~= s@.subrange(0, i as int));
    }
    assert(v@ =~= s@);
    v
}

} // verus!
