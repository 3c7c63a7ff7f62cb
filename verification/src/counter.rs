use vstd::prelude::*;

use crate::numfmt::{push_signed_decimal, push_str, signed_decimal};
use crate::text::string_from_chars;

verus! {

/// Whether a counter counts the source frames up or down.
#[derive(Clone, Copy, Debug, PartialEq, Eq, Structural)]
pub enum CounterDirection {
    Up,
    Down,
}

/// How a counter shows its position.
#[derive(Clone, Copy, Debug, PartialEq, Eq, Structural)]
pub enum CounterStyle {
    Frames,
    Timecode,
    Clock,
    Seconds,
    SecondsPlusOne,
}

/// A counter generator clip: direction, length in frames, style, and whether
/// timecodes use drop-frame numbering.
#[derive(Clone, Copy, Debug, PartialEq, Eq, Structural)]
pub struct CounterGenerator {
    pub direction: CounterDirection,
    pub length: i64,
    pub style: CounterStyle,
    pub drop_frame: bool,
}

/// The counter's value at `source_frame`: the frame itself when counting up,
/// the frames left before the end when counting down (`None` on overflow).
pub open spec fn counter_position_spec(counter: CounterGenerator, source_frame: int) -> Option<int> {
    if counter.direction == CounterDirection::Down {
        let last = counter.length - 1;
        if last < i64::MIN || last - source_frame < i64::MIN || last - source_frame > i64::MAX {
            None
        } else {
            Some(last - source_frame)
        }
    } else {
        Some(source_frame)
    }
}

/// The counter's value at `source_frame`.
pub fn counter_position(counter: CounterGenerator, source_frame: i64) -> (position: Option<i64>)
    ensures
        match position {
            Some(p) => counter_position_spec(counter, source_frame as int) == Some(p as int),
            None => counter_position_spec(counter, source_frame as int) is None,
        },
{
    if counter.direction == CounterDirection::Down {
        match counter.length.checked_sub(1) {
            Some(last) => last.checked_sub(source_frame),
            None => None,
        }
    } else {
        Some(source_frame)
    }
}

/// `true` or `false`, as `Display` writes a `bool`.
pub open spec fn bool_text(b: bool) -> Seq<char> {
    if b {
        "true"@
    } else {
        "false"@
    }
}

/// The script line that splits the timecode into its parts.
pub open spec fn parts_line(drop_frame: bool) -> Seq<char> {
    "let parts = timecode(frame, fps, "@ + bool_text(drop_frame) + ").split(\":\");\n"@
}

/// The script expression giving the counter's frame number.
pub open spec fn position_expression(counter: CounterGenerator) -> Seq<char> {
    if counter.direction == CounterDirection::Down {
        signed_decimal(counter.length - 1) + " - int(time * fps)"@
    } else {
        "int(time * fps)"@
    }
}

/// The script expression giving the counter's text from `frame`.
pub open spec fn value_expression(counter: CounterGenerator) -> Seq<char> {
    match counter.style {
        CounterStyle::Frames => "`${frame}`"@,
        CounterStyle::Timecode => "timecode(frame, fps, "@ + bool_text(counter.drop_frame) + ")"@,
        CounterStyle::Clock => parts_line(counter.drop_frame)
            + "`${parts[0]}:${parts[1]}:${parts[2].sub_string(0, 2)}`"@,
        CounterStyle::Seconds => parts_line(counter.drop_frame) + "parts[2].sub_string(0, 2)"@,
        CounterStyle::SecondsPlusOne => parts_line(counter.drop_frame)
            + "`${parse_int(parts[2].sub_string(0, 2)) + 1}`"@,
    }
}

/// The text expression of a counter clip: its frame number, then its text.
pub open spec fn counter_expression_spec(counter: CounterGenerator) -> Seq<char> {
    "let frame = "@ + position_expression(counter) + ";\n"@ + value_expression(counter)
}

fn push_bool(out: &mut Vec<char>, b: bool)
    ensures
        final(out)@ == old(out)@ + bool_text(b),
{
    if b {
        push_str(out, "true");
    } else {
        push_str(out, "false");
    }
}

fn push_parts_line(out: &mut Vec<char>, drop_frame: bool)
    ensures
        final(out)@ == old(out)@ + parts_line(drop_frame),
{
    push_str(out, "let parts = timecode(frame, fps, ");
    push_bool(out, drop_frame);
    push_str(out, ").split(\":\");\n");
    proof {
        assert(final(out)@ =~= old(out)@ + parts_line(drop_frame));
    }
}

/// The text expression that shows a counter clip's value as it plays.
pub fn counter_expression(counter: CounterGenerator) -> (expression: String)
    requires
        counter.direction == CounterDirection::Down ==> counter.length > i64::MIN,
    ensures
        expression@ == counter_expression_spec(counter),
{
    let mut out: Vec<char> = Vec::new();
    push_str(&mut out, "let frame = ");
    if counter.direction == CounterDirection::Down {
        push_signed_decimal(&mut out, counter.length - 1);
        push_str(&mut out, " - int(time * fps)");
    } else {
        push_str(&mut out, "int(time * fps)");
    }
    let ghost after_position = out@;
    proof {
        assert(after_position =~= "let frame = "@ + position_expression(counter));
    }
    push_str(&mut out, ";\n");
    let ghost before_value = out@;
    match counter.style {
        CounterStyle::Frames => push_str(&mut out, "`${frame}`"),
        CounterStyle::Timecode => {
            push_str(&mut out, "timecode(frame, fps, ");
            push_bool(&mut out, counter.drop_frame);
            push_str(&mut out, ")");
        },
        CounterStyle::Clock => {
            push_parts_line(&mut out, counter.drop_frame);
            push_str(&mut out, "`${parts[0]}:${parts[1]}:${parts[2].sub_string(0, 2)}`");
        },
        CounterStyle::Seconds => {
            push_parts_line(&mut out, counter.drop_frame);
            push_str(&mut out, "parts[2].sub_string(0, 2)");
        },
        CounterStyle::SecondsPlusOne => {
            push_parts_line(&mut out, counter.drop_frame);
            push_str(&mut out, "`${parse_int(parts[2].sub_string(0, 2)) + 1}`");
        },
    }
    proof {
        assert(out@ =~= before_value + value_expression(counter));
        assert(out@ =~= counter_expression_spec(counter));
    }
    string_from_chars(out.as_slice())
}

} // verus!
