use shrimply_model::comment::{CommentColor, CommentTrack};
use shrimply_model::inspector::{side_title, validate_commit_name, TransitionSide};
use shrimply_model::item_address::{ItemAddress, ItemKind, ObjectId, SequenceScopeId, TrackAddress};
use shrimply_model::selection::{ItemKey, SelectionState, TrackGap, TrackKey, TrackKind};
use shrimply_model::tags::normalize_tags;
use shrimply_model::text::{str_eq_ignore_ascii_case, trimmed};
use shrimply_model::time::Time;
use shrimply_model::timeline_edit::{collision_addresses, fit_new_item, track_collides, CollisionBehavior};
use shrimply_model::clip_query::{in_scope, range_matches, FrameRange, RangeMatch};

fn t(seconds: i64) -> Time {
    Time::from_seconds(seconds)
}

#[test]
fn tags_are_trimmed_and_deduplicated_in_order() {
    let tags: Vec<String> =
        [" b ", "a", "", "b", "  ", "A"].iter().map(|s| s.to_string()).collect();
    assert_eq!(normalize_tags(&tags), vec!["b", "a", "A"]);
    let again = normalize_tags(&normalize_tags(&tags));
    assert_eq!(again, vec!["b", "a", "A"]);
}

#[test]
fn trimming_and_case_insensitive_compare() {
    assert_eq!(trimmed("\t Inter \n"), "Inter");
    assert_eq!(trimmed("   "), "");
    assert!(str_eq_ignore_ascii_case("Roboto", "rOBOTO"));
    assert!(!str_eq_ignore_ascii_case("Roboto", "Robot"));
}

#[test]
fn comment_colors_have_labels() {
    let labels: Vec<&str> = CommentColor::ALL.iter().map(|c| c.label()).collect();
    assert_eq!(labels, vec!["Red", "Orange", "Yellow", "Green", "Blue", "Purple"]);
    assert_eq!(CommentColor::default(), CommentColor::Yellow);
    let track = CommentTrack::default();
    assert!(track.enabled && track.items.is_empty());
}

#[test]
fn times_compare_by_value() {
    let half = Time::from_fraction(1, 2);
    let two_quarters = Time::from_fraction(2, 4);
    assert!(half.at_or_before(&two_quarters) && two_quarters.at_or_before(&half));
    assert!(Time::zero().before(&half));
    assert_eq!(Time::from_fraction(3, 2).as_nonnegative_nanos(), 1_500_000_000);
    assert_eq!(Time::from_seconds(-1).as_nonnegative_nanos(), 0);
    assert_eq!(t(1).min(t(2)).numerator(), 1);
    assert_eq!(t(1).max(t(2)).numerator(), 2);
}

#[test]
fn scopes_nest_and_unnest() {
    let root = SequenceScopeId::root();
    assert!(root.is_root());
    assert_eq!(root.parent(), None);
    let child = root.child(ObjectId(7)).child(ObjectId(9));
    assert_eq!(child.instance_ids(), &[ObjectId(7), ObjectId(9)]);
    assert_eq!(child.parent(), Some(SequenceScopeId::from_instance_ids(vec![ObjectId(7)])));
}

#[test]
fn addresses_know_their_track() {
    let track = TrackAddress::Video { sequence_path: vec![ObjectId(1)], track_id: ObjectId(2) };
    let item = track.item(ObjectId(3));
    assert_eq!(item.kind(), ItemKind::Video);
    assert_eq!(item.track(), track);
    assert_eq!(item.item_id(), ObjectId(3));
    assert!(!item.is_root());
    let comment = TrackAddress::Comment { track_id: ObjectId(4) };
    assert!(comment.is_root());
    assert_eq!(comment.sequence_path(), &[] as &[ObjectId]);
    assert_eq!(
        comment.item(ObjectId(5)),
        ItemAddress::Comment { track_id: ObjectId(4), item_id: ObjectId(5) }
    );
}

#[test]
fn collisions_are_open_interval_overlaps() {
    let items = vec![(ObjectId(1), t(0), t(10)), (ObjectId(2), t(10), t(20)), (ObjectId(3), t(30), t(40))];
    let track = TrackAddress::Audio { sequence_path: Vec::new(), track_id: ObjectId(9) };
    let hits = collision_addresses(&track, &items, t(5), t(15));
    assert_eq!(hits, vec![track.item(ObjectId(1)), track.item(ObjectId(2))]);
    assert!(collision_addresses(&track, &items, t(20), t(30)).is_empty());
    assert!(track_collides(&items, t(35), t(36)));
    assert!(!track_collides(&items, t(20), t(30)));
    assert_eq!(CollisionBehavior::default(), CollisionBehavior::Reject);
}

#[test]
fn selecting_items_clears_other_selections() {
    let mut state = SelectionState::new();
    let key = ItemKey { kind: TrackKind::Video, track_index: 0, item_index: 2 };
    let track = TrackKey { kind: TrackKind::Audio, index: 1 };
    assert!(state.set_selected_tracks(vec![track], Some(track)));
    assert_eq!(state.focused_track(), Some(track));
    assert!(state.set_selected_items(vec![key], Some(key)));
    assert_eq!(state.selected_items(), vec![key]);
    assert_eq!(state.focused_item(), Some(key));
    assert_eq!(state.focused_track(), None);
    assert!(state.selected_tracks().is_empty());
    // The same selection again changes nothing.
    assert!(!state.set_selected_items(vec![key], Some(key)));
    assert_eq!(state.focused_kind(TrackKind::Video), Some(key));
    assert_eq!(state.focused_kind(TrackKind::Audio), None);
}

#[test]
fn gap_selection_replaces_item_selection() {
    let mut state = SelectionState::new();
    let key = ItemKey { kind: TrackKind::Caption, track_index: 0, item_index: 0 };
    state.set_selected_items(vec![key], None);
    let gap = TrackGap { track: TrackKey { kind: TrackKind::Caption, index: 0 }, start: t(1), end: t(2) };
    assert!(state.set_selected_gap(Some(gap)));
    assert!(state.selected_items().is_empty());
    assert!(state.selected_gap().is_some());
    assert!(!state.set_selected_gap(Some(gap)));
    assert!(state.set_selected_gap(None));
    assert!(state.selected_gap().is_none());
}

#[test]
fn transitions_are_focused_and_cleared() {
    let mut state = SelectionState::new();
    // Without a focused item there is no transition to focus.
    assert!(!state.set_focused_transition(TransitionSide::Intro));
    let key = ItemKey { kind: TrackKind::Video, track_index: 0, item_index: 0 };
    state.set_selected_items(vec![key], Some(key));
    assert!(state.set_focused_transition(TransitionSide::Intro));
    assert!(!state.set_focused_transition(TransitionSide::Intro));
    assert!(state.clear_focused_transition());
    assert!(!state.clear_focused_transition());
    assert_eq!(side_title(TransitionSide::Intro), "Intro");
    assert_eq!(side_title(TransitionSide::Outro), "Outro");
}

#[test]
fn active_scope_changes_once() {
    let mut state = SelectionState::new();
    assert!(state.active_scope().is_root());
    let scope = SequenceScopeId::root().child(ObjectId(5));
    assert!(state.set_active_scope(SequenceScopeId::root().child(ObjectId(5))));
    assert!(!state.set_active_scope(SequenceScopeId::root().child(ObjectId(5))));
    assert_eq!(state.active_scope(), scope);
}

#[test]
fn commit_names_must_not_be_empty() {
    assert_eq!(validate_commit_name("fade"), Ok(()));
    assert_eq!(validate_commit_name(""), Err("transition edit has no commit name".to_string()));
}

#[test]
fn new_item_fits_into_its_gap() {
    let items = vec![(t(0), t(10)), (t(20), t(30))];
    let end = |fitted: Option<Time>| fitted.map(|e| (e.numerator(), e.denominator()));
    // Inside an item: nothing.
    assert_eq!(end(fit_new_item(&items, t(5), t(8))), None);
    assert_eq!(end(fit_new_item(&items, t(0), t(8))), None);
    // In the gap: cut back to the next item.
    assert_eq!(end(fit_new_item(&items, t(10), t(25))), Some((20, 1)));
    assert_eq!(end(fit_new_item(&items, t(12), t(15))), Some((15, 1)));
    // After every item: the proposed end stands.
    assert_eq!(end(fit_new_item(&items, t(30), t(35))), Some((35, 1)));
    // No time left after the start.
    assert_eq!(end(fit_new_item(&items, t(35), t(35))), None);
    assert_eq!(end(fit_new_item(&[], t(1), t(0))), None);
}

#[test]
fn clip_query_filters() {
    let s = |v: &[&str]| v.iter().map(|x| x.to_string()).collect::<Vec<_>>();
    assert!(in_scope(&s(&["a", "b"]), &s(&["a"]), true));
    assert!(!in_scope(&s(&["a", "b"]), &s(&["a"]), false));
    assert!(in_scope(&s(&["a"]), &s(&["a"]), false));
    assert!(in_scope(&s(&[]), &s(&[]), true));
    assert!(!in_scope(&s(&["a"]), &s(&["a", "b"]), true));
    assert!(!in_scope(&s(&["b", "a"]), &s(&["a"]), true));
    let range = Some(FrameRange { start_frame: 10, end_frame: 20 });
    assert!(range_matches(5, 15, range, RangeMatch::Overlaps));
    assert!(!range_matches(20, 25, range, RangeMatch::Overlaps));
    assert!(!range_matches(5, 10, range, RangeMatch::Overlaps));
    assert!(range_matches(10, 20, range, RangeMatch::Contained));
    assert!(!range_matches(9, 20, range, RangeMatch::Contained));
    assert!(range_matches(19, 40, range, RangeMatch::StartsIn));
    assert!(!range_matches(20, 40, range, RangeMatch::StartsIn));
    assert!(range_matches(-5, -1, None, RangeMatch::Contained));
}
