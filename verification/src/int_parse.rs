use vstd::prelude::*;

use crate::numfmt::push_str;
use crate::text::{chars_of, string_from_chars};

verus! {

/// Why a decimal integer could not be read.
#[derive(Clone, Copy, Debug, PartialEq, Eq, Structural)]
pub enum IntErrorKind {
    /// There was no text.
    Empty,
    /// A character is not a digit (a lone sign counts as one).
    InvalidDigit,
    /// The number is above the largest value of the type.
    PosOverflow,
    /// The number is below the smallest value of the type.
    NegOverflow,
}

/// The message each error kind is shown with.
pub open spec fn int_error_message(kind: IntErrorKind) -> Seq<char> {
    match kind {
        IntErrorKind::Empty => "cannot parse integer from empty string"@,
        IntErrorKind::InvalidDigit => "invalid digit found in string"@,
        IntErrorKind::PosOverflow => "number too large to fit in target type"@,
        IntErrorKind::NegOverflow => "number too small to fit in target type"@,
    }
}

impl IntErrorKind {
    /// The message this error is shown with.
    pub fn message(self) -> (message: &'static str)
        ensures
            message@ == int_error_message(self),
    {
        match self {
            IntErrorKind::Empty => "cannot parse integer from empty string",
            IntErrorKind::InvalidDigit => "invalid digit found in string",
            IntErrorKind::PosOverflow => "number too large to fit in target type",
            IntErrorKind::NegOverflow => "number too small to fit in target type",
        }
    }
}

/// The value of a decimal digit.
pub open spec fn decimal_digit(c: char) -> Option<int> {
    if '0' <= c && c <= '9' {
        Some(c as int - '0' as int)
    } else {
        None
    }
}

/// Reads `digits` after the value `acc` so far, counting up, failing when a
/// character is not a digit or the value passes `max`; a non-digit is noticed
/// before an overflow at the same character.
pub open spec fn scan_up(digits: Seq<char>, acc: int, max: int) -> Result<int, IntErrorKind>
    decreases digits.len(),
{
    if digits.len() == 0 {
        Ok(acc)
    } else {
        match decimal_digit(digits[0]) {
            None => Err(IntErrorKind::InvalidDigit),
            Some(d) => if acc * 10 + d > max {
                Err(IntErrorKind::PosOverflow)
            } else {
                scan_up(digits.drop_first(), acc * 10 + d, max)
            },
        }
    }
}

/// Reads `digits` of a negative number after the value `acc` so far,
/// failing when a character is not a digit or the value passes `min`.
pub open spec fn scan_down(digits: Seq<char>, acc: int, min: int) -> Result<int, IntErrorKind>
    decreases digits.len(),
{
    if digits.len() == 0 {
        Ok(acc)
    } else {
        match decimal_digit(digits[0]) {
            None => Err(IntErrorKind::InvalidDigit),
            Some(d) => if acc * 10 - d < min {
                Err(IntErrorKind::NegOverflow)
            } else {
                scan_down(digits.drop_first(), acc * 10 - d, min)
            },
        }
    }
}

/// `str::parse::<u64>`: an optional `+`, then decimal digits.
pub open spec fn parse_u64_spec(s: Seq<char>) -> Result<int, IntErrorKind> {
    if s.len() == 0 {
        Err(IntErrorKind::Empty)
    } else if s.len() == 1 && (s[0] == '+' || s[0] == '-') {
        Err(IntErrorKind::InvalidDigit)
    } else if s[0] == '+' {
        scan_up(s.drop_first(), 0, u64::MAX as int)
    } else {
        scan_up(s, 0, u64::MAX as int)
    }
}

/// `str::parse::<i64>`: an optional sign, then decimal digits.
pub open spec fn parse_i64_spec(s: Seq<char>) -> Result<int, IntErrorKind> {
    if s.len() == 0 {
        Err(IntErrorKind::Empty)
    } else if s.len() == 1 && (s[0] == '+' || s[0] == '-') {
        Err(IntErrorKind::InvalidDigit)
    } else if s[0] == '+' {
        scan_up(s.drop_first(), 0, i64::MAX as int)
    } else if s[0] == '-' {
        scan_down(s.drop_first(), 0, i64::MIN as int)
    } else {
        scan_up(s, 0, i64::MAX as int)
    }
}

fn digit_value(c: char) -> (d: Option<u64>)
    ensures
        match decimal_digit(c) {
            Some(v) => d == Some(v as u64),
            None => d is None,
        },
{
    if '0' <= c && c <= '9' {
        Some((c as u32 - '0' as u32) as u64)
    } else {
        None
    }
}

proof fn lemma_scan_up_prefix(digits: Seq<char>, i: int, acc: int, max: int)
    requires
        0 <= i < digits.len(),
        decimal_digit(digits[i]) is Some,
        acc * 10 + decimal_digit(digits[i])->0 <= max,
    ensures
        scan_up(digits.subrange(i, digits.len() as int), acc, max) == scan_up(
            digits.subrange(i + 1, digits.len() as int),
            acc * 10 + decimal_digit(digits[i])->0,
            max,
        ),
{
    assert(digits.subrange(i, digits.len() as int).drop_first() =~= digits.subrange(
        i + 1,
        digits.len() as int,
    ));
}

proof fn lemma_scan_down_prefix(digits: Seq<char>, i: int, acc: int, min: int)
    requires
        0 <= i < digits.len(),
        decimal_digit(digits[i]) is Some,
        acc * 10 - decimal_digit(digits[i])->0 >= min,
    ensures
        scan_down(digits.subrange(i, digits.len() as int), acc, min) == scan_down(
            digits.subrange(i + 1, digits.len() as int),
            acc * 10 - decimal_digit(digits[i])->0,
            min,
        ),
{
    assert(digits.subrange(i, digits.len() as int).drop_first() =~= digits.subrange(
        i + 1,
        digits.len() as int,
    ));
}

/// Reads the digits `chars[start..]` counting up from zero, up to `max`.
fn scan_digits_up(chars: &Vec<char>, start: usize, max: u64) -> (r: Result<u64, IntErrorKind>)
    requires
        start <= chars@.len(),
        max >= 9,
    ensures
        r matches Ok(v) ==> v <= max,
        match r {
            Ok(v) => scan_up(chars@.subrange(start as int, chars@.len() as int), 0, max as int)
                == Ok::<int, IntErrorKind>(v as int),
            Err(k) => scan_up(chars@.subrange(start as int, chars@.len() as int), 0, max as int)
                == Err::<int, IntErrorKind>(k),
        },
{
    let ghost all = chars@.subrange(start as int, chars@.len() as int);
    let mut acc: u64 = 0;
    let mut i = start;
    while i < chars.len()
        invariant
            start <= i <= chars@.len(),
            acc <= max,
            max >= 9,
            all == chars@.subrange(start as int, chars@.len() as int),
            scan_up(all, 0, max as int) == scan_up(
                chars@.subrange(i as int, chars@.len() as int),
                acc as int,
                max as int,
            ),
        decreases chars@.len() - i,
    {
        let d = match digit_value(chars[i]) {
            Some(d) => d,
            None => {
                return Err(IntErrorKind::InvalidDigit);
            },
        };
        if acc > (max - d) / 10 {
            proof {
                assert(acc * 10 + d > max) by (nonlinear_arith)
                    requires
                        acc > (max - d) / 10,
                        d <= max,
                ;
            }
            return Err(IntErrorKind::PosOverflow);
        }
        proof {
            assert(acc * 10 + d <= max) by (nonlinear_arith)
                requires
                    acc <= (max - d) / 10,
                    d <= max,
            ;
            lemma_scan_up_prefix(chars@, i as int, acc as int, max as int);
        }
        acc = acc * 10 + d;
        i = i + 1;
    }
    Ok(acc)
}

/// `str::parse::<u64>`.
pub fn parse_u64(s: &str) -> (r: Result<u64, IntErrorKind>)
    ensures
        match r {
            Ok(v) => parse_u64_spec(s@) == Ok::<int, IntErrorKind>(v as int),
            Err(k) => parse_u64_spec(s@) == Err::<int, IntErrorKind>(k),
        },
{
    let chars = chars_of(s);
    if chars.len() == 0 {
        return Err(IntErrorKind::Empty);
    }
    if chars.len() == 1 && (chars[0] == '+' || chars[0] == '-') {
        return Err(IntErrorKind::InvalidDigit);
    }
    let start: usize = if chars[0] == '+' {
        1
    } else {
        0
    };
    proof {
        assert(chars@.subrange(0, chars@.len() as int) =~= s@);
        assert(chars@.subrange(1, chars@.len() as int) =~= s@.drop_first());
    }
    scan_digits_up(&chars, start, u64::MAX)
}

/// `str::parse::<i64>`.
pub fn parse_i64(s: &str) -> (r: Result<i64, IntErrorKind>)
    ensures
        match r {
            Ok(v) => parse_i64_spec(s@) == Ok::<int, IntErrorKind>(v as int),
            Err(k) => parse_i64_spec(s@) == Err::<int, IntErrorKind>(k),
        },
{
    let chars = chars_of(s);
    if chars.len() == 0 {
        return Err(IntErrorKind::Empty);
    }
    if chars.len() == 1 && (chars[0] == '+' || chars[0] == '-') {
        return Err(IntErrorKind::InvalidDigit);
    }
    proof {
        assert(chars@.subrange(0, chars@.len() as int) =~= s@);
        assert(chars@.subrange(1, chars@.len() as int) =~= s@.drop_first());
    }
    if chars[0] == '-' {
        return scan_digits_down(&chars, 1);
    }
    let start: usize = if chars[0] == '+' {
        1
    } else {
        0
    };
    match scan_digits_up(&chars, start, i64::MAX as u64) {
        Ok(v) => Ok(v as i64),
        Err(k) => Err(k),
    }
}

/// Reads the digits `chars[start..]` of a negative number, down to `i64::MIN`.
fn scan_digits_down(chars: &Vec<char>, start: usize) -> (r: Result<i64, IntErrorKind>)
    requires
        start <= chars@.len(),
    ensures
        match r {
            Ok(v) => scan_down(chars@.subrange(start as int, chars@.len() as int), 0, i64::MIN as int)
                == Ok::<int, IntErrorKind>(v as int),
            Err(k) => scan_down(chars@.subrange(start as int, chars@.len() as int), 0, i64::MIN as int)
                == Err::<int, IntErrorKind>(k),
        },
{
    let ghost all = chars@.subrange(start as int, chars@.len() as int);
    let mut acc: i64 = 0;
    let mut i = start;
    while i < chars.len()
        invariant
            start <= i <= chars@.len(),
            acc <= 0,
            all == chars@.subrange(start as int, chars@.len() as int),
            scan_down(all, 0, i64::MIN as int) == scan_down(
                chars@.subrange(i as int, chars@.len() as int),
                acc as int,
                i64::MIN as int,
            ),
        decreases chars@.len() - i,
    {
        let d = match digit_value(chars[i]) {
            Some(d) => d as i64,
            None => {
                return Err(IntErrorKind::InvalidDigit);
            },
        };
        // i64::MIN is -922337203685477580 * 10 - 8.
        if acc < -922337203685477580 || (acc == -922337203685477580 && d > 8) {
            return Err(IntErrorKind::NegOverflow);
        }
        proof {
            lemma_scan_down_prefix(chars@, i as int, acc as int, i64::MIN as int);
        }
        acc = acc * 10 - d;
        i = i + 1;
    }
    Ok(acc)
}

/// A required positive count read from an attribute named `name`.
pub open spec fn positive_u64_spec(value: Option<Seq<char>>, name: Seq<char>) -> Result<
    int,
    Seq<char>,
> {
    match value {
        None => Err("missing "@ + name),
        Some(text) => match parse_u64_spec(text) {
            Err(kind) => Err(int_error_message(kind)),
            Ok(v) => if v == 0 {
                Err(name + " must be positive"@)
            } else {
                Ok(v)
            },
        },
    }
}

/// Reads a required positive count; the error says what is wrong.
pub fn positive_u64(value: Option<&str>, name: &str) -> (r: Result<u64, String>)
    ensures
        match r {
            Ok(v) => positive_u64_spec(opt_view(value), name@) == Ok::<int, Seq<char>>(v as int),
            Err(message) => positive_u64_spec(opt_view(value), name@) == Err::<int, Seq<char>>(
                message@,
            ),
        },
{
    let text = match value {
        Some(text) => text,
        None => {
            let mut out: Vec<char> = Vec::new();
            push_str(&mut out, "missing ");
            push_str(&mut out, name);
            return Err(string_from_chars(out.as_slice()));
        },
    };
    let parsed = match parse_u64(text) {
        Ok(v) => v,
        Err(kind) => {
            return Err(kind.message().to_owned());
        },
    };
    if parsed == 0 {
        let mut out = chars_of(name);
        push_str(&mut out, " must be positive");
        return Err(string_from_chars(out.as_slice()));
    }
    Ok(parsed)
}

/// The view of an optional string.
pub open spec fn opt_view(value: Option<&str>) -> Option<Seq<char>> {
    match value {
        Some(text) => Some(text@),
        None => None,
    }
}

/// A required positive count that must also fit in 32 bits.
pub open spec fn positive_u32_spec(value: Option<Seq<char>>, name: Seq<char>) -> Result<
    int,
    Seq<char>,
> {
    match positive_u64_spec(value, name) {
        Err(message) => Err(message),
        Ok(v) => if v > u32::MAX {
            Err("out of range integral type conversion attempted"@)
        } else {
            Ok(v)
        },
    }
}

/// Reads a required positive count that fits in 32 bits.
pub fn positive_u32(value: Option<&str>, name: &str) -> (r: Result<u32, String>)
    ensures
        match r {
            Ok(v) => positive_u32_spec(opt_view(value), name@) == Ok::<int, Seq<char>>(v as int),
            Err(message) => positive_u32_spec(opt_view(value), name@) == Err::<int, Seq<char>>(
                message@,
            ),
        },
{
    let value = positive_u64(value, name)?;
    if value > u32::MAX as u64 {
        return Err("out of range integral type conversion attempted".to_owned());
    }
    Ok(value as u32)
}

} // verus!
