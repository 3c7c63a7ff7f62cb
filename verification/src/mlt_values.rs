use vstd::prelude::*;

use crate::text::{chars_of, string_from_chars, trim, trimmed};

verus! {

/// A colour's red, green, blue and alpha bytes.
#[derive(Clone, Copy, Debug, PartialEq, Eq, Structural)]
pub struct Rgba {
    pub red: u8,
    pub green: u8,
    pub blue: u8,
    pub alpha: u8,
}

/// `s` with every leading `0x` taken off (`trim_start_matches("0x")`).
pub open spec fn strip_0x(s: Seq<char>) -> Seq<char>
    decreases s.len(),
{
    if s.len() >= 2 && s[0] == '0' && s[1] == 'x' {
        strip_0x(s.skip(2))
    } else {
        s
    }
}

/// `s` with every leading `#` taken off.
pub open spec fn strip_hashes(s: Seq<char>) -> Seq<char>
    decreases s.len(),
{
    if s.len() > 0 && s[0] == '#' {
        strip_hashes(s.drop_first())
    } else {
        s
    }
}

/// The hexadecimal part of an MLT colour: trimmed, without `0x` and `#`
/// prefixes.
pub open spec fn color_hex(value: Seq<char>) -> Seq<char> {
    strip_hashes(strip_0x(trim(value)))
}

/// The number of bytes `c` takes in UTF-8.
pub open spec fn char_utf8_len(c: char) -> nat {
    if (c as u32) < 0x80 {
        1
    } else if (c as u32) < 0x800 {
        2
    } else if (c as u32) < 0x10000 {
        3
    } else {
        4
    }
}

/// The number of bytes `s` takes in UTF-8.
pub open spec fn utf8_len(s: Seq<char>) -> nat
    decreases s.len(),
{
    if s.len() == 0 {
        0
    } else {
        utf8_len(s.drop_last()) + char_utf8_len(s.last())
    }
}

/// The value of a hexadecimal digit.
pub open spec fn hex_digit(c: char) -> Option<u8> {
    if '0' <= c && c <= '9' {
        Some(((c as u32) - 48) as u8)
    } else if 'a' <= c && c <= 'f' {
        Some(((c as u32) - 87) as u8)
    } else if 'A' <= c && c <= 'F' {
        Some(((c as u32) - 55) as u8)
    } else {
        None
    }
}

/// `u8::from_str_radix` on two ASCII characters in base 16: two digits, or a
/// `+` and one digit.
pub open spec fn byte_pair(a: char, b: char) -> Option<u8> {
    if a == '+' {
        hex_digit(b)
    } else {
        match (hex_digit(a), hex_digit(b)) {
            (Some(x), Some(y)) => Some((16 * x + y) as u8),
            _ => None,
        }
    }
}

/// An MLT colour's red, green, blue and alpha bytes: its hexadecimal part
/// must be eight bytes long, read two by two.
pub open spec fn mlt_color_spec(value: Seq<char>) -> Result<Rgba, Seq<char>> {
    let h = color_hex(value);
    if utf8_len(h) != 8 {
        Err("MLT color must contain RGBA bytes"@)
    } else if h.len() != 8 {
        Err("invalid digit found in string"@)
    } else {
        match (byte_pair(h[0], h[1]), byte_pair(h[2], h[3]), byte_pair(h[4], h[5]), byte_pair(h[6], h[7])) {
            (Some(r), Some(g), Some(b), Some(a)) => Ok(Rgba { red: r, green: g, blue: b, alpha: a }),
            _ => Err("invalid digit found in string"@),
        }
    }
}

/// Byte `k` of `s` starts a character (or is its end).
pub open spec fn byte_boundary(s: Seq<char>, k: nat) -> bool {
    exists|i: int| 0 <= i <= s.len() && #[trigger] utf8_len(s.take(i)) == k
}

/// The colour text can be cut into byte pairs: when its hexadecimal part is
/// eight bytes long, bytes 2, 4 and 6 start characters.
pub open spec fn mlt_color_cuttable(value: Seq<char>) -> bool {
    let h = color_hex(value);
    utf8_len(h) == 8 ==> byte_boundary(h, 2) && byte_boundary(h, 4) && byte_boundary(h, 6)
}

proof fn lemma_utf8_len_at_least_len(s: Seq<char>)
    ensures
        utf8_len(s) >= s.len(),
    decreases s.len(),
{
    if s.len() > 0 {
        lemma_utf8_len_at_least_len(s.drop_last());
    }
}

proof fn lemma_utf8_len_ascii(s: Seq<char>)
    requires
        utf8_len(s) == s.len(),
    ensures
        forall|i: int| 0 <= i < s.len() ==> (#[trigger] s[i] as u32) < 0x80,
    decreases s.len(),
{
    if s.len() > 0 {
        lemma_utf8_len_at_least_len(s.drop_last());
        lemma_utf8_len_ascii(s.drop_last());
        assert forall|i: int| 0 <= i < s.len() implies (#[trigger] s[i] as u32) < 0x80 by {
            if i < s.len() - 1 {
                assert(s[i] == s.drop_last()[i]);
            }
        }
    }
}

fn hex_digit_of(c: char) -> (d: Option<u8>)
    ensures
        d == hex_digit(c),
{
    if '0' <= c && c <= '9' {
        Some(((c as u32) - 48) as u8)
    } else if 'a' <= c && c <= 'f' {
        Some(((c as u32) - 87) as u8)
    } else if 'A' <= c && c <= 'F' {
        Some(((c as u32) - 55) as u8)
    } else {
        None
    }
}

fn byte_pair_of(a: char, b: char) -> (v: Option<u8>)
    ensures
        v == byte_pair(a, b),
{
    if a == '+' {
        hex_digit_of(b)
    } else {
        match (hex_digit_of(a), hex_digit_of(b)) {
            (Some(x), Some(y)) => Some(16 * x + y),
            _ => None,
        }
    }
}

fn char_utf8_len_of(c: char) -> (n: usize)
    ensures
        n == char_utf8_len(c),
{
    if (c as u32) < 0x80 {
        1
    } else if (c as u32) < 0x800 {
        2
    } else if (c as u32) < 0x10000 {
        3
    } else {
        4
    }
}

/// Reads an MLT colour (`0xRRGGBBAA` or `#RRGGBBAA`, possibly padded).
pub fn parse_mlt_color(value: &str) -> (color: Result<Rgba, String>)
    requires
        mlt_color_cuttable(value@),
    ensures
        match (color, mlt_color_spec(value@)) {
            (Ok(c), Ok(expected)) => c == expected,
            (Err(message), Err(expected)) => message@ == expected,
            _ => false,
        },
{
    let t = trimmed(value);
    let c = chars_of(t.as_str());
    let ghost s = c@;
    let mut i: usize = 0;
    proof {
        assert(s.skip(0) =~= s);
    }
    while i < c.len() && c.len() - i > 1 && c[i] == '0' && c[i + 1] == 'x'
        invariant
            c@ == s,
            i <= s.len(),
            strip_0x(s) == strip_0x(s.skip(i as int)),
        decreases s.len() - i,
    {
        proof {
            assert(s.skip(i as int).skip(2) =~= s.skip(i + 2));
        }
        i = i + 2;
    }
    let ghost after_0x = s.skip(i as int);
    proof {
        assert(strip_0x(after_0x) == after_0x);
    }
    while i < c.len() && c[i] == '#'
        invariant
            c@ == s,
            i <= s.len(),
            strip_0x(s) == after_0x,
            after_0x.len() <= s.len(),
            after_0x == s.skip(s.len() - after_0x.len()),
            s.len() - after_0x.len() <= i,
            strip_hashes(after_0x) == strip_hashes(s.skip(i as int)),
        decreases s.len() - i,
    {
        proof {
            assert(s.skip(i as int).drop_first() =~= s.skip(i + 1));
        }
        i = i + 1;
    }
    let ghost h = s.skip(i as int);
    proof {
        assert(strip_hashes(h) == h);
        assert(h == color_hex(value@));
    }
    let n = c.len() - i;
    if n > 8 {
        proof {
            lemma_utf8_len_at_least_len(h);
        }
        return Err("MLT color must contain RGBA bytes".to_owned());
    }
    let mut bytes: usize = 0;
    let mut j: usize = 0;
    while j < n
        invariant
            c@ == s,
            h == s.skip(i as int),
            n == h.len(),
            i + n == s.len(),
            n <= 8,
            j <= n,
            bytes == utf8_len(h.take(j as int)),
            bytes <= 4 * j,
        decreases n - j,
    {
        proof {
            assert(h.take(j + 1).drop_last() =~= h.take(j as int));
        }
        bytes = bytes + char_utf8_len_of(c[i + j]);
        j = j + 1;
    }
    proof {
        assert(h.take(n as int) =~= h);
    }
    if bytes != 8 {
        return Err("MLT color must contain RGBA bytes".to_owned());
    }
    if n != 8 {
        return Err("invalid digit found in string".to_owned());
    }
    let r = byte_pair_of(c[i], c[i + 1]);
    let g = byte_pair_of(c[i + 2], c[i + 3]);
    let b = byte_pair_of(c[i + 4], c[i + 5]);
    let a = byte_pair_of(c[i + 6], c[i + 7]);
    match (r, g, b, a) {
        (Some(r), Some(g), Some(b), Some(a)) => Ok(Rgba { red: r, green: g, blue: b, alpha: a }),
        _ => Err("invalid digit found in string".to_owned()),
    }
}

/// `s` without leading `{` and `}` characters.
pub open spec fn strip_leading_braces(s: Seq<char>) -> Seq<char>
    decreases s.len(),
{
    if s.len() > 0 && (s[0] == '{' || s[0] == '}') {
        strip_leading_braces(s.drop_first())
    } else {
        s
    }
}

/// `s` without trailing `{` and `}` characters.
pub open spec fn strip_trailing_braces(s: Seq<char>) -> Seq<char>
    decreases s.len(),
{
    if s.len() > 0 && (s.last() == '{' || s.last() == '}') {
        strip_trailing_braces(s.drop_last())
    } else {
        s
    }
}

/// `s.trim_matches(['{', '}'])`.
pub open spec fn without_braces(s: Seq<char>) -> Seq<char> {
    strip_trailing_braces(strip_leading_braces(s))
}

/// `value.trim_matches(['{', '}'])`, as an owned string.
pub fn braces_trimmed(value: &str) -> (t: String)
    ensures
        t@ == without_braces(value@),
{
    let c = chars_of(value);
    let ghost s = c@;
    let mut start: usize = 0;
    proof {
        assert(s.skip(0) =~= s);
    }
    while start < c.len() && (c[start] == '{' || c[start] == '}')
        invariant
            c@ == s,
            start <= s.len(),
            strip_leading_braces(s) == strip_leading_braces(s.skip(start as int)),
        decreases s.len() - start,
    {
        proof {
            assert(s.skip(start as int).drop_first() =~= s.skip(start + 1));
        }
        start = start + 1;
    }
    let ghost rest = s.skip(start as int);
    proof {
        assert(strip_leading_braces(rest) == rest);
    }
    let mut end: usize = c.len();
    while end > start && (c[end - 1] == '{' || c[end - 1] == '}')
        invariant
            c@ == s,
            start <= end <= s.len(),
            rest == s.skip(start as int),
            strip_trailing_braces(rest) == strip_trailing_braces(s.subrange(start as int, end as int)),
        decreases end,
    {
        proof {
            assert(s.subrange(start as int, end as int).drop_last() =~= s.subrange(start as int, end - 1));
        }
        end = end - 1;
    }
    proof {
        assert(s.skip(start as int) =~= s.subrange(start as int, s.len() as int));
        assert(strip_trailing_braces(s.subrange(start as int, end as int)) == s.subrange(
            start as int,
            end as int,
        ));
    }
    let mut part: Vec<char> = Vec::new();
    let mut k: usize = start;
    while k < end
        invariant
            c@ == s,
            start <= k <= end <= s.len(),
            part@ == s.subrange(start as int, k as int),
        decreases end - k,
    {
        part.push(c[k]);
        proof {
            assert(s.subrange(start as int, k + 1) =~= s.subrange(start as int, k as int).push(s[k as int]));
        }
        k = k + 1;
    }
    string_from_chars(part.as_slice())
}

/// What `uuid::Uuid::parse_str` makes of a text: the UUID as a number, or the
/// parser's message.
pub uninterp spec fn parsed_uuid(text: Seq<char>) -> Result<u128, Seq<char>>;

/// Calls `uuid::Uuid::parse_str` and takes the UUID as a number
/// (`Uuid::as_u128`) or the error's message; the result is a function of the
/// text alone.
#[verifier::external_body]
fn parse_uuid_text(text: &str) -> (parsed: Result<u128, String>)
    ensures
        match parsed {
            Ok(v) => parsed_uuid(text@) == Ok::<u128, Seq<char>>(v),
            Err(message) => parsed_uuid(text@) == Err::<u128, Seq<char>>(message@),
        },
{
    uuid::Uuid::parse_str(text).map(|id| id.as_u128()).map_err(|error| error.to_string())
}

/// A UUID property, with surrounding braces taken off: the UUID as a number,
/// or why it is not one.
pub fn parse_uuid(value: &str) -> (id: Result<u128, String>)
    ensures
        match id {
            Ok(v) => parsed_uuid(without_braces(value@)) == Ok::<u128, Seq<char>>(v),
            Err(message) => parsed_uuid(without_braces(value@)) == Err::<u128, Seq<char>>(message@),
        },
{
    let inner = braces_trimmed(value);
    parse_uuid_text(inner.as_str())
}

} // verus!
