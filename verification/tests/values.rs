use shrimply_model::counter::{
    counter_expression, counter_position, CounterDirection, CounterGenerator, CounterStyle,
};
use shrimply_model::inspector::{vector_transition_choices, TrackPresentation, TransitionSide};
use shrimply_model::int_parse::{parse_i64, parse_u64, positive_u32, positive_u64, IntErrorKind};
use shrimply_model::item_address::{ItemKind, ObjectId, TrackAddress};

fn counter(direction: CounterDirection, style: CounterStyle) -> CounterGenerator {
    CounterGenerator { direction, length: 100, style, drop_frame: false }
}

#[test]
fn counters_count_up_or_down() {
    assert_eq!(counter_position(counter(CounterDirection::Up, CounterStyle::Frames), 7), Some(7));
    assert_eq!(counter_position(counter(CounterDirection::Down, CounterStyle::Frames), 7), Some(92));
    assert_eq!(counter_position(counter(CounterDirection::Down, CounterStyle::Frames), 150), Some(-51));
    let huge = CounterGenerator { length: i64::MIN, ..counter(CounterDirection::Down, CounterStyle::Frames) };
    assert_eq!(counter_position(huge, 0), None);
    let wide = CounterGenerator { length: 0, ..counter(CounterDirection::Down, CounterStyle::Frames) };
    assert_eq!(counter_position(wide, i64::MAX), Some(i64::MIN));
    let one = CounterGenerator { length: 1, ..counter(CounterDirection::Down, CounterStyle::Frames) };
    assert_eq!(counter_position(one, i64::MIN), None);
}

#[test]
fn counter_expressions_per_style() {
    assert_eq!(
        counter_expression(counter(CounterDirection::Up, CounterStyle::Frames)),
        "let frame = int(time * fps);\n`${frame}`"
    );
    assert_eq!(
        counter_expression(counter(CounterDirection::Down, CounterStyle::Timecode)),
        "let frame = 99 - int(time * fps);\ntimecode(frame, fps, false)"
    );
    let clock = CounterGenerator { drop_frame: true, ..counter(CounterDirection::Up, CounterStyle::Clock) };
    assert_eq!(
        counter_expression(clock),
        "let frame = int(time * fps);\nlet parts = timecode(frame, fps, true).split(\":\");\n`${parts[0]}:${parts[1]}:${parts[2].sub_string(0, 2)}`"
    );
    assert_eq!(
        counter_expression(counter(CounterDirection::Up, CounterStyle::Seconds)),
        "let frame = int(time * fps);\nlet parts = timecode(frame, fps, false).split(\":\");\nparts[2].sub_string(0, 2)"
    );
    assert_eq!(
        counter_expression(counter(CounterDirection::Up, CounterStyle::SecondsPlusOne)),
        "let frame = int(time * fps);\nlet parts = timecode(frame, fps, false).split(\":\");\n`${parse_int(parts[2].sub_string(0, 2)) + 1}`"
    );
    let negative = CounterGenerator { length: -5, ..counter(CounterDirection::Down, CounterStyle::Frames) };
    assert_eq!(counter_expression(negative), "let frame = -6 - int(time * fps);\n`${frame}`");
}

#[test]
fn unsigned_parsing_matches_std() {
    for text in ["0", "42", "+7", "", "+", "-", "-1", "12a", "18446744073709551615", "18446744073709551616", "0018", " 1", "99999999999999999999x", "x99999999999999999999", "٣"] {
        let expected = text.parse::<u64>().map_err(|e| e.to_string());
        let actual = parse_u64(text).map_err(|k| k.message().to_string());
        assert_eq!(actual, expected, "parsing {text:?}");
    }
    assert_eq!(parse_u64(""), Err(IntErrorKind::Empty));
    assert_eq!(parse_u64("20000000000000000000"), Err(IntErrorKind::PosOverflow));
}

#[test]
fn signed_parsing_matches_std() {
    for text in ["0", "-0", "-42", "+42", "9223372036854775807", "9223372036854775808", "-9223372036854775808", "-9223372036854775809", "--1", "-", "+", "", "1-", "-99999999999999999999a"] {
        let expected = text.parse::<i64>().map_err(|e| e.to_string());
        let actual = parse_i64(text).map_err(|k| k.message().to_string());
        assert_eq!(actual, expected, "parsing {text:?}");
    }
    assert_eq!(parse_i64("-9223372036854775809"), Err(IntErrorKind::NegOverflow));
}

#[test]
fn positive_counts() {
    assert_eq!(positive_u64(Some("25"), "frame_rate_num"), Ok(25));
    assert_eq!(positive_u64(None, "frame_rate_num"), Err("missing frame_rate_num".to_string()));
    assert_eq!(positive_u64(Some("0"), "width"), Err("width must be positive".to_string()));
    assert_eq!(positive_u64(Some("abc"), "width"), Err("invalid digit found in string".to_string()));
    assert_eq!(positive_u32(Some("4294967295"), "height"), Ok(u32::MAX));
    assert_eq!(
        positive_u32(Some("4294967296"), "height"),
        Err("out of range integral type conversion attempted".to_string())
    );
    let conversion = u32::try_from(4294967296u64).unwrap_err().to_string();
    assert_eq!(conversion, "out of range integral type conversion attempted");
}

#[test]
fn track_details() {
    let track = TrackPresentation {
        address: TrackAddress::Caption { track_id: ObjectId(1) },
        kind: ItemKind::Caption,
        ordinal: 2,
        enabled: true,
        language: Some("en".to_string()),
        item_count: 14,
    };
    assert_eq!(track.title(), "Caption Track");
    let details: Vec<(&str, String)> =
        track.details().into_iter().map(|d| (d.label, d.value)).collect();
    assert_eq!(details, vec![
        ("Type", "Caption Track".to_string()),
        ("Track", "3".to_string()),
        ("Items", "14".to_string())
    ]);
}

#[test]
fn vector_choices_depend_on_side() {
    let intro = vector_transition_choices(TransitionSide::Intro);
    let outro = vector_transition_choices(TransitionSide::Outro);
    assert_eq!(intro.len(), 9);
    assert_eq!(intro[0], ("write".to_string(), "Write".to_string()));
    assert_eq!(outro[0], ("write".to_string(), "Unwrite".to_string()));
    assert_eq!(intro[8], ("reverse_diffusion".to_string(), "Reverse Diffusion".to_string()));
    assert_eq!(outro[8], ("diffusion".to_string(), "Diffusion".to_string()));
    assert_eq!(intro[1..8], outro[1..8]);
}
