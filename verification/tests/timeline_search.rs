use shrimply_model::comment::CommentItem;
use shrimply_model::time::Time;
use shrimply_model::timeline_search::{collides, overlapping, TimeSlice};

fn slice(start: i64, end: i64) -> CommentItem {
    CommentItem::new(Time::from_seconds(start), Time::from_seconds(end), String::new())
}

fn indices(items: &[CommentItem], start: i64, end: i64) -> Vec<usize> {
    overlapping(items, Time::from_seconds(start), Time::from_seconds(end))
        .into_iter()
        .map(|(index, _)| index)
        .collect()
}

#[test]
fn finds_overlapping_items_in_sorted_track() {
    let items = [slice(0, 2), slice(3, 5), slice(6, 8)];
    assert_eq!(indices(&items, 4, 7), [1, 2]);
}

#[test]
fn accepts_reversed_bounds() {
    let items = [slice(0, 2), slice(3, 5), slice(6, 8)];
    assert_eq!(indices(&items, 7, 4), [1, 2]);
}

#[test]
fn keeps_item_that_starts_before_range_and_extends_into_it() {
    let items = [slice(0, 10), slice(2, 3), slice(12, 14)];
    assert_eq!(indices(&items, 8, 9), [0]);
}

#[test]
fn ignores_items_starting_after_range() {
    let items = [slice(0, 1), slice(5, 6), slice(9, 10)];
    assert!(indices(&items, 2, 4).is_empty());
}

#[test]
fn detects_real_collision() {
    let items = [slice(0, 2), slice(4, 6)];
    assert!(collides(&items, Time::from_seconds(1), Time::from_seconds(3)));
}

#[test]
fn allows_touching_edges() {
    let items = [slice(0, 2), slice(4, 6)];
    assert!(!collides(&items, Time::from_seconds(2), Time::from_seconds(4)));
}

#[test]
fn overlapping_returns_the_items_themselves() {
    let items = [slice(0, 2), slice(3, 5)];
    let found = overlapping(&items, Time::from_seconds(4), Time::from_seconds(4));
    assert_eq!(found.len(), 1);
    assert_eq!(found[0].0, 1);
    assert_eq!(found[0].1.start().numerator(), 3);
}

#[test]
fn collision_is_independent_of_bound_order() {
    let items = [slice(0, 2), slice(4, 6)];
    assert_eq!(
        collides(&items, Time::from_seconds(5), Time::from_seconds(3)),
        collides(&items, Time::from_seconds(3), Time::from_seconds(5))
    );
    assert!(collides(&items, Time::from_seconds(5), Time::from_seconds(3)));
}

#[test]
fn fractional_bounds_compare_exactly() {
    // [0, 1/3] and a range starting at 1/3 only touch.
    let items = [CommentItem::new(Time::zero(), Time::from_fraction(1, 3), String::new())];
    assert!(!collides(&items, Time::from_fraction(2, 6), Time::from_seconds(1)));
    assert!(collides(&items, Time::from_fraction(1, 4), Time::from_seconds(1)));
    assert_eq!(indices(&items, 1, 1).len(), 0);
}

#[test]
fn duration_in_nanoseconds() {
    let item = CommentItem::new(Time::from_fraction(1, 2), Time::from_seconds(2), String::new());
    assert_eq!(item.duration_nanos(), 1_500_000_000);
    let reversed = CommentItem::new(Time::from_seconds(2), Time::from_seconds(1), String::new());
    assert_eq!(reversed.duration_nanos(), 0);
    let negative = CommentItem::new(Time::from_seconds(-3), Time::from_seconds(1), String::new());
    assert_eq!(negative.duration_nanos(), 1_000_000_000);
}
