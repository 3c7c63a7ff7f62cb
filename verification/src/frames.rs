use vstd::prelude::*;

use crate::numfmt::push_str;
use crate::text::{chars_of, str_eq, string_from_chars};

verus! {

/// The frame `offset` frames after (or, when negative, before) `anchor`.
pub fn frame_with_offset(anchor: u64, offset: i64) -> (frame: Result<u64, String>)
    ensures
        frame matches Ok(f) ==> f == anchor + offset,
        frame is Ok <==> 0 <= anchor + offset <= u64::MAX,
        frame matches Err(message) ==> message@ == (if offset >= 0 {
            "frame overflow"@
        } else {
            "offset places the frame before zero"@
        }),
{
    if offset >= 0 {
        match anchor.checked_add(offset as u64) {
            Some(frame) => Ok(frame),
            None => Err("frame overflow".to_owned()),
        }
    } else {
        let magnitude: u64 = if offset == i64::MIN {
            9_223_372_036_854_775_808u64
        } else {
            (-offset) as u64
        };
        match anchor.checked_sub(magnitude) {
            Some(frame) => Ok(frame),
            None => Err("offset places the frame before zero".to_owned()),
        }
    }
}

/// The message for a frame given both ways.
pub open spec fn both_given_message(name: Seq<char>) -> Seq<char> {
    "provide exactly one of "@ + name + "_frame and "@ + name + "_offset_frames"@
}

/// The message for a frame given neither way.
pub open spec fn missing_message(name: Seq<char>) -> Seq<char> {
    name + " frame is required"@
}

/// The frame named `name`, given either absolutely or as an offset from `anchor`
/// (exactly one of the two).
pub fn resolve_frame(absolute: Option<u64>, offset: Option<i64>, anchor: u64, name: &str) -> (frame:
    Result<u64, String>)
    ensures
        match (absolute, offset) {
            (Some(f), None) => frame == Ok::<u64, String>(f),
            (None, Some(o)) => match frame {
                Ok(f) => 0 <= anchor + o <= u64::MAX && f == anchor + o,
                Err(message) => !(0 <= anchor + o <= u64::MAX) && message@ == name@ + ": "@ + (if o
                    >= 0 {
                    "frame overflow"@
                } else {
                    "offset places the frame before zero"@
                }),
            },
            (Some(_), Some(_)) => frame matches Err(message) && message@ == both_given_message(
                name@,
            ),
            (None, None) => frame matches Err(message) && message@ == missing_message(name@),
        },
{
    match (absolute, offset) {
        (Some(frame), None) => Ok(frame),
        (None, Some(offset)) => match frame_with_offset(anchor, offset) {
            Ok(frame) => Ok(frame),
            Err(error) => {
                let mut out = chars_of(name);
                push_str(&mut out, ": ");
                push_str(&mut out, error.as_str());
                Err(string_from_chars(out.as_slice()))
            },
        },
        (Some(_), Some(_)) => {
            let mut out: Vec<char> = Vec::new();
            push_str(&mut out, "provide exactly one of ");
            push_str(&mut out, name);
            push_str(&mut out, "_frame and ");
            push_str(&mut out, name);
            push_str(&mut out, "_offset_frames");
            proof {
                assert(out@ =~= both_given_message(name@));
            }
            Err(string_from_chars(out.as_slice()))
        },
        (None, None) => {
            let mut out = chars_of(name);
            push_str(&mut out, " frame is required");
            Err(string_from_chars(out.as_slice()))
        },
    }
}

/// How a clip plays past the end of its source.
#[derive(Clone, Copy, Debug, PartialEq, Eq, Structural)]
pub enum RepeatStrategy {
    Repeat,
    PingPong,
    Hold,
    Empty,
}

/// The strategy named by each accepted word.
pub open spec fn repeat_named(value: Seq<char>) -> Option<RepeatStrategy> {
    if value == "repeat"@ {
        Some(RepeatStrategy::Repeat)
    } else if value == "ping_pong"@ {
        Some(RepeatStrategy::PingPong)
    } else if value == "hold"@ {
        Some(RepeatStrategy::Hold)
    } else if value == "empty"@ {
        Some(RepeatStrategy::Empty)
    } else {
        None
    }
}

/// Reads a repeat strategy from its protocol name.
pub fn parse_repeat(value: &str) -> (strategy: Result<RepeatStrategy, String>)
    ensures
        match repeat_named(value@) {
            Some(s) => strategy == Ok::<RepeatStrategy, String>(s),
            None => strategy matches Err(message) && message@
                == "repeat_strategy must be repeat, ping_pong, hold, or empty"@,
        },
{
    if str_eq(value, "repeat") {
        Ok(RepeatStrategy::Repeat)
    } else if str_eq(value, "ping_pong") {
        Ok(RepeatStrategy::PingPong)
    } else if str_eq(value, "hold") {
        Ok(RepeatStrategy::Hold)
    } else if str_eq(value, "empty") {
        Ok(RepeatStrategy::Empty)
    } else {
        Err("repeat_strategy must be repeat, ping_pong, hold, or empty".to_owned())
    }
}

/// The property an expression path belongs to: the path without a trailing
/// `/expression`.
pub open spec fn expression_property_path_spec(path: Seq<char>) -> Seq<char> {
    if path.len() >= "/expression"@.len() && path.subrange(
        path.len() - "/expression"@.len(),
        path.len() as int,
    ) == "/expression"@ {
        path.subrange(0, path.len() - "/expression"@.len())
    } else {
        path
    }
}

/// `path` without a trailing `/expression`.
pub fn expression_property_path(path: &str) -> (property: String)
    ensures
        property@ == expression_property_path_spec(path@),
{
    let chars = chars_of(path);
    let suffix = chars_of("/expression");
    if chars.len() >= suffix.len() {
        let start = chars.len() - suffix.len();
        let mut i: usize = 0;
        let mut same = true;
        while i < suffix.len()
            invariant
                chars@ == path@,
                suffix@ == "/expression"@,
                start + suffix@.len() == chars@.len(),
                chars@.len() == chars.len(),
                i <= suffix@.len(),
                same == forall|j: int| 0 <= j < i ==> #[trigger] chars@[start + j] == suffix@[j],
            decreases suffix@.len() - i,
        {
            if chars[start + i] != suffix[i] {
                same = false;
            }
            i = i + 1;
        }
        proof {
            if same {
                assert forall|j: int| 0 <= j < suffix@.len() implies #[trigger] chars@.subrange(start as int, chars@.len() as int)[j] == suffix@[j] by {
                    assert(chars@[start + j] == suffix@[j]);
                }
                assert(chars@.subrange(start as int, chars@.len() as int) =~= suffix@);
            } else {
                let j = choose|j: int| 0 <= j < i && chars@[start + j] != suffix@[j];
                assert(chars@.subrange(start as int, chars@.len() as int)[j] != suffix@[j]);
            }
        }
        if same {
            let mut property: Vec<char> = Vec::new();
            let mut k: usize = 0;
            while k < start
                invariant
                    chars@ == path@,
                    start <= chars@.len(),
                    k <= start,
                    property@ == chars@.subrange(0, k as int),
                decreases start - k,
            {
                property.push(chars[k]);
                proof {
                    assert(chars@.subrange(0, k + 1) == chars@.subrange(0, k as int).push(chars@[k as int]));
                }
                k = k + 1;
            }
            return string_from_chars(property.as_slice());
        }
    }
    path.to_owned()
}

/// The smallest whole number at or above the positive fraction
/// `numerator / denominator` (a nominal frame rate, say); `None` when the
/// fraction is not positive or the rounding overflows.
pub fn ceil_positive_fraction(numerator: i64, denominator: i64) -> (ceiling: Option<i64>)
    ensures
        match ceiling {
            Some(c) => numerator > 0 && denominator > 0 && numerator + denominator - 1 <= i64::MAX
                && c == (numerator + denominator - 1) / (denominator as int),
            None => numerator <= 0 || denominator <= 0 || numerator + denominator - 1 > i64::MAX,
        },
{
    if numerator <= 0 || denominator <= 0 {
        return None;
    }
    match numerator.checked_add(denominator - 1) {
        Some(sum) => Some(sum / denominator),
        None => None,
    }
}

} // verus!
