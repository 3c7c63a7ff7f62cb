use shrimply_model::frames::{
    ceil_positive_fraction, expression_property_path, frame_with_offset, parse_repeat,
    resolve_frame, RepeatStrategy,
};
use shrimply_model::keyframe_marker::{marker_interpolation, Interpolation};

#[test]
fn offsets_move_from_the_anchor() {
    assert_eq!(frame_with_offset(10, 5), Ok(15));
    assert_eq!(frame_with_offset(10, -10), Ok(0));
    assert_eq!(frame_with_offset(10, -11), Err("offset places the frame before zero".to_string()));
    assert_eq!(frame_with_offset(u64::MAX, 1), Err("frame overflow".to_string()));
    assert_eq!(frame_with_offset(u64::MAX, i64::MIN), Ok(u64::MAX - (1 << 63)));
}

#[test]
fn frames_are_given_exactly_one_way() {
    assert_eq!(resolve_frame(Some(7), None, 100, "start"), Ok(7));
    assert_eq!(resolve_frame(None, Some(-3), 100, "start"), Ok(97));
    assert_eq!(
        resolve_frame(None, Some(-300), 100, "start"),
        Err("start: offset places the frame before zero".to_string())
    );
    assert_eq!(
        resolve_frame(Some(1), Some(1), 100, "end"),
        Err("provide exactly one of end_frame and end_offset_frames".to_string())
    );
    assert_eq!(resolve_frame(None, None, 100, "end"), Err("end frame is required".to_string()));
}

#[test]
fn repeat_strategies_by_name() {
    assert_eq!(parse_repeat("repeat"), Ok(RepeatStrategy::Repeat));
    assert_eq!(parse_repeat("ping_pong"), Ok(RepeatStrategy::PingPong));
    assert_eq!(parse_repeat("hold"), Ok(RepeatStrategy::Hold));
    assert_eq!(parse_repeat("empty"), Ok(RepeatStrategy::Empty));
    assert_eq!(
        parse_repeat("Repeat"),
        Err("repeat_strategy must be repeat, ping_pong, hold, or empty".to_string())
    );
}

#[test]
fn expression_paths_name_their_property() {
    assert_eq!(expression_property_path("/opacity/expression"), "/opacity");
    assert_eq!(expression_property_path("/opacity"), "/opacity");
    assert_eq!(expression_property_path("/expression"), "");
}

#[test]
fn nominal_rates_round_up() {
    assert_eq!(ceil_positive_fraction(30000, 1001), Some(30));
    assert_eq!(ceil_positive_fraction(25, 1), Some(25));
    assert_eq!(ceil_positive_fraction(1, 2), Some(1));
    assert_eq!(ceil_positive_fraction(0, 1), None);
    assert_eq!(ceil_positive_fraction(5, -1), None);
    assert_eq!(ceil_positive_fraction(i64::MAX, 2), None);
    assert_eq!(ceil_positive_fraction(i64::MAX, 1), Some(i64::MAX));
}

#[test]
fn keyframe_markers_carry_their_easing() {
    assert_eq!(marker_interpolation("12"), ("12".to_string(), Interpolation::Linear));
    assert_eq!(marker_interpolation("12|"), ("12".to_string(), Interpolation::Jump));
    assert_eq!(marker_interpolation("12!"), ("12".to_string(), Interpolation::Jump));
    assert_eq!(marker_interpolation("00:00:01.000~"), ("00:00:01.000".to_string(), Interpolation::ManimSmooth));
    assert_eq!(marker_interpolation("5a"), ("5".to_string(), Interpolation::SineIn));
    assert_eq!(marker_interpolation("5z"), ("5".to_string(), Interpolation::ElasticOut));
    assert_eq!(marker_interpolation("5D"), ("5".to_string(), Interpolation::BounceInOut));
    assert_eq!(marker_interpolation("5E"), ("5E".to_string(), Interpolation::Linear));
    assert_eq!(marker_interpolation(""), ("".to_string(), Interpolation::Linear));
    assert_eq!(marker_interpolation("-"), ("".to_string(), Interpolation::ManimSmooth));
}
