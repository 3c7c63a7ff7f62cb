use shrimply_model::comment::{CommentColor, CommentItem};
use shrimply_model::comment_import::{
    comment_fits_grid, comment_tracks, compare_comments, snap_comments, dedup_comments, has_marker_data, legacy_color, pack_comments,
    read_marker, read_markers, MarkerField, MarkerFields,
};
use std::collections::HashMap;
use shrimply_model::time::Time;
use std::cmp::Ordering;

fn comment(start: i64, end: i64, text: &str) -> CommentItem {
    CommentItem::new(Time::from_seconds(start), Time::from_seconds(end), text.to_string())
}

fn spans(items: &[CommentItem]) -> Vec<(i64, i64, String)> {
    items
        .iter()
        .map(|item| {
            assert_eq!(item.start.denominator(), 1);
            assert_eq!(item.end.denominator(), 1);
            (item.start.numerator(), item.end.numerator(), item.text.clone())
        })
        .collect()
}

#[test]
fn legacy_colors_wrap_by_nine() {
    assert_eq!(legacy_color(0), CommentColor::Purple);
    assert_eq!(legacy_color(1), CommentColor::Blue);
    assert_eq!(legacy_color(3), CommentColor::Green);
    assert_eq!(legacy_color(5), CommentColor::Yellow);
    assert_eq!(legacy_color(7), CommentColor::Orange);
    assert_eq!(legacy_color(8), CommentColor::Red);
    assert_eq!(legacy_color(9), CommentColor::Purple);
    assert_eq!(legacy_color(-1), CommentColor::Red);
    assert_eq!(legacy_color(-9), CommentColor::Purple);
    assert_eq!(legacy_color(i64::MIN), legacy_color(i64::MIN.rem_euclid(9)));
}

#[test]
fn overlapping_comments_go_on_separate_tracks() {
    let tracks = pack_comments(vec![comment(0, 10, "a"), comment(5, 15, "b"), comment(10, 20, "c")]);
    assert_eq!(tracks.len(), 2);
    assert_eq!(spans(&tracks[0].items), vec![(0, 10, "a".to_string()), (10, 20, "c".to_string())]);
    assert_eq!(spans(&tracks[1].items), vec![(5, 15, "b".to_string())]);
    assert!(tracks.iter().all(|track| track.enabled));
}

#[test]
fn comment_joins_first_track_with_room() {
    let tracks = pack_comments(vec![
        comment(0, 10, "a"),
        comment(0, 4, "b"),
        comment(5, 6, "c"),
        comment(10, 12, "d"),
    ]);
    assert_eq!(tracks.len(), 2);
    assert_eq!(spans(&tracks[0].items), vec![(0, 10, "a".to_string()), (10, 12, "d".to_string())]);
    assert_eq!(spans(&tracks[1].items), vec![(0, 4, "b".to_string()), (5, 6, "c".to_string())]);
}

#[test]
fn no_comments_no_tracks() {
    assert!(pack_comments(Vec::new()).is_empty());
    assert!(comment_tracks(Vec::new(), Time::from_seconds(1)).is_empty());
}

#[test]
fn comparison_orders_by_start_end_text_and_colour() {
    assert_eq!(compare_comments(&comment(0, 5, "b"), &comment(1, 2, "a")), Ordering::Less);
    assert_eq!(compare_comments(&comment(1, 5, "a"), &comment(1, 2, "b")), Ordering::Greater);
    assert_eq!(compare_comments(&comment(1, 2, "a"), &comment(1, 2, "b")), Ordering::Less);
    let mut red = comment(1, 2, "a");
    red.color = CommentColor::Red;
    let mut blue = comment(1, 2, "a");
    blue.color = CommentColor::Blue;
    // "Blue" sorts before "Red".
    assert_eq!(compare_comments(&red, &blue), Ordering::Greater);
    assert_eq!(compare_comments(&red, &red.clone()), Ordering::Equal);
    // Equal instants with different fractions compare equal.
    let half = CommentItem::new(Time::from_fraction(1, 2), Time::from_seconds(1), "x".to_string());
    let two_quarters =
        CommentItem::new(Time::from_fraction(2, 4), Time::from_seconds(1), "x".to_string());
    assert_eq!(compare_comments(&half, &two_quarters), Ordering::Equal);
}

#[test]
fn duplicates_collapse_to_the_first() {
    let kept = dedup_comments(vec![
        comment(0, 1, "a"),
        comment(0, 1, "a"),
        comment(0, 1, "b"),
        comment(0, 1, "a"),
    ]);
    assert_eq!(spans(&kept), vec![
        (0, 1, "a".to_string()),
        (0, 1, "b".to_string()),
        (0, 1, "a".to_string())
    ]);
}

#[test]
fn import_sorts_dedups_and_packs() {
    let tracks = comment_tracks(vec![
        comment(10, 20, "late"),
        comment(0, 10, "early"),
        comment(0, 10, "early"),
        comment(5, 12, "middle"),
    ], Time::from_seconds(1));
    assert_eq!(tracks.len(), 2);
    assert_eq!(spans(&tracks[0].items), vec![
        (0, 10, "early".to_string()),
        (10, 20, "late".to_string())
    ]);
    assert_eq!(spans(&tracks[1].items), vec![(5, 12, "middle".to_string())]);
}

fn fields(pos: MarkerField<i64>, duration: MarkerField<i64>, kind: MarkerField<i64>, comment: MarkerField<String>) -> MarkerFields {
    MarkerFields { pos, duration, kind, comment }
}

#[test]
fn markers_default_and_validate_their_fields() {
    let mut colors = HashMap::new();
    colors.insert(3, CommentColor::Red);
    let marker = read_marker(
        fields(MarkerField::Value(10), MarkerField::Absent, MarkerField::Absent, MarkerField::Absent),
        &colors,
    )
    .unwrap();
    assert_eq!((marker.start_frame, marker.end_frame), (10, 10));
    assert_eq!(marker.text, "Marker");
    assert_eq!(marker.color, CommentColor::Purple);
    let marker = read_marker(
        fields(
            MarkerField::Value(10),
            MarkerField::Value(5),
            MarkerField::Value(3),
            MarkerField::Value("Intro".to_string()),
        ),
        &colors,
    )
    .unwrap();
    assert_eq!((marker.start_frame, marker.end_frame), (10, 15));
    assert_eq!(marker.text, "Intro");
    assert_eq!(marker.color, CommentColor::Red);
    let legacy = read_marker(
        fields(MarkerField::Value(0), MarkerField::Absent, MarkerField::Value(7), MarkerField::Absent),
        &colors,
    )
    .unwrap();
    assert_eq!(legacy.color, CommentColor::Orange);
}

#[test]
fn marker_errors_name_the_field() {
    let colors = HashMap::new();
    let error = |f: MarkerFields| read_marker(f, &colors).unwrap_err();
    assert_eq!(
        error(fields(MarkerField::Absent, MarkerField::Absent, MarkerField::Absent, MarkerField::Absent)),
        "marker position must be a nonnegative frame number"
    );
    assert_eq!(
        error(fields(MarkerField::Value(-1), MarkerField::Absent, MarkerField::Absent, MarkerField::Absent)),
        "marker position must be a nonnegative frame number"
    );
    assert_eq!(
        error(fields(MarkerField::Value(1), MarkerField::Value(-2), MarkerField::Absent, MarkerField::Absent)),
        "marker duration must be a nonnegative frame count"
    );
    assert_eq!(
        error(fields(MarkerField::Value(1), MarkerField::Other, MarkerField::Absent, MarkerField::Absent)),
        "marker duration must be a nonnegative frame count"
    );
    assert_eq!(
        error(fields(MarkerField::Value(i64::MAX), MarkerField::Value(1), MarkerField::Absent, MarkerField::Absent)),
        "marker range overflowed"
    );
    assert_eq!(
        error(fields(MarkerField::Value(1), MarkerField::Absent, MarkerField::Other, MarkerField::Absent)),
        "marker category must be an integer"
    );
    assert_eq!(
        error(fields(MarkerField::Value(1), MarkerField::Absent, MarkerField::Absent, MarkerField::Other)),
        "marker comment must be text"
    );
}

#[test]
fn marker_lists_stop_at_the_first_bad_record() {
    let colors = HashMap::new();
    let good = |pos: i64| fields(MarkerField::Value(pos), MarkerField::Absent, MarkerField::Absent, MarkerField::Absent);
    let markers = read_markers(vec![good(1), good(2)], &colors).unwrap();
    assert_eq!(markers.iter().map(|m| m.start_frame).collect::<Vec<_>>(), vec![1, 2]);
    let bad = fields(MarkerField::Value(3), MarkerField::Absent, MarkerField::Other, MarkerField::Absent);
    assert_eq!(
        read_markers(vec![good(1), bad, good(-1)], &colors).unwrap_err(),
        "marker category must be an integer"
    );
    assert!(read_markers(Vec::new(), &colors).unwrap().is_empty());
}

#[test]
fn blank_marker_data_is_skipped() {
    assert!(!has_marker_data(None));
    assert!(!has_marker_data(Some(" \n\t")));
    assert!(has_marker_data(Some(" []")));
}

fn frac(t: &Time) -> (i64, u64) {
    (t.numerator(), t.denominator())
}

#[test]
fn comments_snap_to_the_frame_grid() {
    let frame = Time::from_fraction(1, 30);
    let items = vec![
        CommentItem::new(Time::from_fraction(101, 300), Time::from_fraction(104, 300), "a".to_string()),
        CommentItem::new(Time::from_fraction(5, 300), Time::from_fraction(5, 300), "b".to_string()),
        CommentItem::new(Time::from_fraction(-5, 300), Time::from_seconds(1), "c".to_string()),
    ];
    assert!(items.iter().all(|item| comment_fits_grid(item, frame)));
    let snapped = snap_comments(items, frame);
    // 101/300 s is 10.1 frames: frame 10; 104/300 s is 10.4 frames: frame 10, widened to 11.
    assert_eq!((frac(&snapped[0].start), frac(&snapped[0].end)), ((10, 30), (11, 30)));
    // Half a frame rounds away from zero.
    assert_eq!((frac(&snapped[1].start), frac(&snapped[1].end)), ((1, 30), (2, 30)));
    assert_eq!((frac(&snapped[2].start), frac(&snapped[2].end)), ((-1, 30), (30, 30)));
    assert_eq!(snapped[1].text, "b");
}

#[test]
fn point_markers_at_one_instant_need_two_tracks() {
    let tracks = comment_tracks(vec![comment(10, 10, "first"), comment(10, 10, "second")], Time::from_fraction(1, 30));
    assert_eq!(tracks.len(), 2);
}

#[test]
fn huge_times_do_not_fit_a_fine_grid() {
    let item = CommentItem::new(Time::from_seconds(i64::MAX), Time::from_seconds(i64::MAX), "x".to_string());
    assert!(!comment_fits_grid(&item, Time::from_fraction(1, 30)));
    assert!(comment_fits_grid(&item, Time::from_fraction(1, 1)) == false);
}
