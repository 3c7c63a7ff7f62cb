use vstd::prelude::*;

use crate::text::chars_of;

verus! {

/// Results per page when a query names none.
pub const DEFAULT_QUERY_LIMIT: usize = 100;

/// The most results a query returns per page.
pub const MAX_QUERY_LIMIT: usize = 500;

/// A query's frame range must be half-open with its end after its start.
pub fn check_query_range(start_frame: u64, end_frame: u64) -> (checked: Result<(), String>)
    ensures
        checked is Ok <==> end_frame > start_frame,
        checked matches Err(message) ==> message@ == "range must be half-open with end_frame > start_frame"@,
{
    if end_frame <= start_frame {
        Err("range must be half-open with end_frame > start_frame".to_owned())
    } else {
        Ok(())
    }
}

/// One page of query results and where it stands.
#[derive(Debug)]
pub struct Page<T> {
    pub items: Vec<T>,
    pub offset: usize,
    pub limit: usize,
    pub total: usize,
}

/// The page limit a query asks for: the limit given (else the default),
/// never above the maximum.
pub open spec fn page_limit(limit: Option<usize>) -> usize {
    let asked = match limit {
        Some(l) => l,
        None => DEFAULT_QUERY_LIMIT,
    };
    if asked <= MAX_QUERY_LIMIT {
        asked
    } else {
        MAX_QUERY_LIMIT
    }
}

/// The results from `offset` (else the first), at most `limit` of them, with
/// the offset and limit used and the number of results in all.
pub fn page<T>(results: Vec<T>, offset: Option<usize>, limit: Option<usize>) -> (p: Page<T>)
    ensures
        p.offset == (match offset {
            Some(o) => o,
            None => 0,
        }),
        p.limit == page_limit(limit),
        p.total == results@.len(),
        p.items@ == results@.subrange(
            if p.offset <= results@.len() {
                p.offset as int
            } else {
                results@.len() as int
            },
            if p.offset + p.limit <= results@.len() {
                p.offset + p.limit
            } else {
                results@.len() as int
            },
        ),
{
    let offset = match offset {
        Some(o) => o,
        None => 0,
    };
    let asked = match limit {
        Some(l) => l,
        None => DEFAULT_QUERY_LIMIT,
    };
    let limit = if asked <= MAX_QUERY_LIMIT {
        asked
    } else {
        MAX_QUERY_LIMIT
    };
    let total = results.len();
    let start = if offset <= total {
        offset
    } else {
        total
    };
    let end = if offset <= total && limit <= total - offset {
        offset + limit
    } else {
        total
    };
    let mut front = results;
    let mut items = front.split_off(start);
    items.truncate(end - start);
    proof {
        assert(items@ =~= results@.subrange(start as int, end as int));
    }
    Page { items, offset, limit, total }
}

/// The text clip a request inserts at `anchor`: its end frame, or why the
/// request is refused (no text, no duration, or an end past the last frame).
pub fn text_span(text: &str, anchor: u64, duration_frames: u64) -> (end: Result<u64, String>)
    ensures
        match end {
            Ok(e) => text@.len() > 0 && duration_frames > 0 && e == anchor + duration_frames,
            Err(message) => if text@.len() == 0 {
                message@ == "insert_text requires nonempty text"@
            } else if duration_frames == 0 {
                message@ == "insert_text duration_frames must be positive"@
            } else {
                anchor + duration_frames > u64::MAX && message@ == "insert_text end frame overflow"@
            },
        },
{
    if chars_of(text).len() == 0 {
        return Err("insert_text requires nonempty text".to_owned());
    }
    if duration_frames == 0 {
        return Err("insert_text duration_frames must be positive".to_owned());
    }
    match anchor.checked_add(duration_frames) {
        Some(e) => Ok(e),
        None => Err("insert_text end frame overflow".to_owned()),
    }
}

/// Two caption cues (start, end frames) share a frame.
pub open spec fn cues_overlap(a: (u64, u64), b: (u64, u64)) -> bool {
    a.0 < b.1 && b.0 < a.1
}

/// Whether any two of the cues share a frame. (Laid out by start, the
/// cues overlap exactly when one ends after the next begins.)
pub fn captions_overlap(cues: &Vec<(u64, u64)>) -> (overlap: bool)
    ensures
        overlap <==> exists|i: int, j: int|
            0 <= i < j < cues@.len() && #[trigger] cues_overlap(cues@[i], cues@[j]),
{
    let mut i: usize = 0;
    while i < cues.len()
        invariant
            i <= cues@.len(),
            forall|a: int, b: int| 0 <= a < b < cues@.len() && a < i ==> !#[trigger] cues_overlap(cues@[a], cues@[b]),
        decreases cues@.len() - i,
    {
        let mut j: usize = i + 1;
        while j < cues.len()
            invariant
                i < cues@.len(),
                i + 1 <= j <= cues@.len(),
                forall|a: int, b: int| 0 <= a < b < cues@.len() && a < i ==> !#[trigger] cues_overlap(cues@[a], cues@[b]),
                forall|b: int| i < b < j ==> !#[trigger] cues_overlap(cues@[i as int], cues@[b]),
            decreases cues@.len() - j,
        {
            if cues[i].0 < cues[j].1 && cues[j].0 < cues[i].1 {
                proof {
                    assert(cues_overlap(cues@[i as int], cues@[j as int]));
                }
                return true;
            }
            j = j + 1;
        }
        i = i + 1;
    }
    false
}

} // verus!
