use shrimply_model::edit_requests::{captions_overlap, check_query_range, page, text_span};

#[test]
fn query_ranges_are_half_open() {
    assert_eq!(check_query_range(0, 1), Ok(()));
    assert_eq!(
        check_query_range(5, 5),
        Err("range must be half-open with end_frame > start_frame".to_string())
    );
}

#[test]
fn pages_default_cap_and_clamp() {
    let all: Vec<u32> = (0..1000).collect();
    let p = page(all.clone(), None, None);
    assert_eq!((p.offset, p.limit, p.total, p.items.len()), (0, 100, 1000, 100));
    assert_eq!(p.items[0], 0);
    let p = page(all.clone(), Some(900), Some(10_000));
    assert_eq!((p.offset, p.limit, p.total), (900, 500, 1000));
    assert_eq!(p.items, (900..1000).collect::<Vec<u32>>());
    let p = page(all, Some(2000), Some(5));
    assert!(p.items.is_empty());
    assert_eq!(p.offset, 2000);
}

#[test]
fn text_spans_need_text_and_duration() {
    assert_eq!(text_span("Hi", 10, 5), Ok(15));
    assert_eq!(text_span("", 10, 5), Err("insert_text requires nonempty text".to_string()));
    assert_eq!(text_span("Hi", 10, 0), Err("insert_text duration_frames must be positive".to_string()));
    assert_eq!(text_span("Hi", u64::MAX, 1), Err("insert_text end frame overflow".to_string()));
}

#[test]
fn caption_cues_may_touch_but_not_overlap() {
    assert!(!captions_overlap(&vec![(0, 10), (10, 20), (30, 40)]));
    assert!(captions_overlap(&vec![(30, 40), (0, 10), (5, 12)]));
    assert!(captions_overlap(&vec![(0, 100), (40, 50)]));
    assert!(!captions_overlap(&Vec::new()));
}
