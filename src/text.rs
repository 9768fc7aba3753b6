use vstd::prelude::*;
use vstd::string::StringExecFns;

use crate::error::ErrorKind;
use crate::integer::Wide;

verus! {

/// The character of the decimal digit `d`.
pub open spec fn digit_char(d: nat) -> char {
    if d == 0 {
        '0'
    } else if d == 1 {
        '1'
    } else if d == 2 {
        '2'
    } else if d == 3 {
        '3'
    } else if d == 4 {
        '4'
    } else if d == 5 {
        '5'
    } else if d == 6 {
        '6'
    } else if d == 7 {
        '7'
    } else if d == 8 {
        '8'
    } else {
        '9'
    }
}

/// The decimal digits of `n`, most significant first, without leading zeros.
pub open spec fn digits_text(n: nat) -> Seq<char>
    decreases n,
{
    if n < 10 {
        seq![digit_char(n)]
    } else {
        digits_text(n / 10).push(digit_char(n % 10))
    }
}

/// How `v` is written in base 10: a `-` in front of a negative value.
pub open spec fn decimal_text(v: int) -> Seq<char> {
    if v < 0 {
        seq!['-'] + digits_text((-v) as nat)
    } else {
        digits_text(v as nat)
    }
}

/// The message for an error of kind `k`, where the caller's bounds were
/// `min` and `max`.
pub open spec fn kind_text(k: ErrorKind, min: int, max: int) -> Seq<char> {
    match k {
        ErrorKind::Empty => "cannot parse integer from empty string"@,
        ErrorKind::InvalidDigit => "invalid digit found in string"@,
        ErrorKind::PosOverflow => "number too large to fit in target type"@,
        ErrorKind::NegOverflow => "number too small to fit in target type"@,
        ErrorKind::NotAnInteger => "not an integer"@,
        ErrorKind::MissingValue => "no value found before SI symbol"@,
        ErrorKind::Overflow => "number too large to fit in target type"@,
        ErrorKind::AboveMaximum => "exceeds maximum of "@ + decimal_text(max),
        ErrorKind::BelowMinimum => "less than minimum of "@ + decimal_text(min),
    }
}

fn digit_str(d: u128) -> (r: &'static str)
    requires
        d < 10,
    ensures
        r@ == seq![digit_char(d as nat)],
{
    proof {
        reveal_strlit("0");
        reveal_strlit("1");
        reveal_strlit("2");
        reveal_strlit("3");
        reveal_strlit("4");
        reveal_strlit("5");
        reveal_strlit("6");
        reveal_strlit("7");
        reveal_strlit("8");
        reveal_strlit("9");
    }
    if d == 0 {
        "0"
    } else if d == 1 {
        "1"
    } else if d == 2 {
        "2"
    } else if d == 3 {
        "3"
    } else if d == 4 {
        "4"
    } else if d == 5 {
        "5"
    } else if d == 6 {
        "6"
    } else if d == 7 {
        "7"
    } else if d == 8 {
        "8"
    } else {
        "9"
    }
}

fn push_digits(out: &mut String, n: u128)
    ensures
        final(out)@ == old(out)@ + digits_text(n as nat),
    decreases n,
{
    if n >= 10 {
        push_digits(out, n / 10);
    }
    out.append(digit_str(n % 10));
    proof {
        if n >= 10 {
            assert(old(out)@ + digits_text((n / 10) as nat) + seq![digit_char((n % 10) as nat)]
                =~= old(out)@ + digits_text(n as nat));
        } else {
            assert(n % 10 == n);
        }
    }
}

/// Appends `w` written in base 10.
pub fn push_decimal(out: &mut String, w: Wide)
    ensures
        final(out)@ == old(out)@ + decimal_text(w.value()),
{
    if w.neg && w.mag > 0 {
        out.append("-");
        proof {
            reveal_strlit("-");
        }
        push_digits(out, w.mag);
        assert(old(out)@ + seq!['-'] + digits_text(w.mag as nat) =~= old(out)@ + decimal_text(
            w.value(),
        ));
    } else {
        push_digits(out, w.mag);
    }
}

/// The message for an error of kind `k` under the bounds `min` and `max`.
pub fn describe(k: ErrorKind, min: Wide, max: Wide) -> (r: String)
    ensures
        r@ == kind_text(k, min.value(), max.value()),
{
    match k {
        ErrorKind::Empty => String::from_str("cannot parse integer from empty string"),
        ErrorKind::InvalidDigit => String::from_str("invalid digit found in string"),
        ErrorKind::PosOverflow => String::from_str("number too large to fit in target type"),
        ErrorKind::NegOverflow => String::from_str("number too small to fit in target type"),
        ErrorKind::NotAnInteger => String::from_str("not an integer"),
        ErrorKind::MissingValue => String::from_str("no value found before SI symbol"),
        ErrorKind::Overflow => String::from_str("number too large to fit in target type"),
        ErrorKind::AboveMaximum => {
            let mut r = String::from_str("exceeds maximum of ");
            push_decimal(&mut r, max);
            r
        },
        ErrorKind::BelowMinimum => {
            let mut r = String::from_str("less than minimum of ");
            push_decimal(&mut r, min);
            r
        },
    }
}

} // verus!
