use vstd::prelude::*;

use crate::comment::CommentItem;
use crate::time::{lemma_le_lt_transitive, lemma_le_transitive, lemma_lt_le_transitive, Time};

verus! {

/// Something that occupies a stretch of the timeline.
pub trait TimeSlice {
    spec fn start_time(&self) -> Time;

    spec fn end_time(&self) -> Time;

    fn start(&self) -> (t: Time)
        ensures
            t == self.start_time(),
    ;

    fn end(&self) -> (t: Time)
        ensures
            t == self.end_time(),
    ;

    /// The length in whole nanoseconds, zero when the end is not after the
    /// start (instants before zero count as zero).
    fn duration_nanos(&self) -> (n: u64)
        ensures
            n == (if self.end_time().nonnegative_nanos() >= self.start_time().nonnegative_nanos() {
                self.end_time().nonnegative_nanos() - self.start_time().nonnegative_nanos()
            } else {
                0
            }),
    {
        let end = self.end().as_nonnegative_nanos();
        let start = self.start().as_nonnegative_nanos();
        if end >= start {
            end - start
        } else {
            0
        }
    }
}

impl TimeSlice for CommentItem {
    open spec fn start_time(&self) -> Time {
        self.start
    }

    open spec fn end_time(&self) -> Time {
        self.end
    }

    fn start(&self) -> (t: Time) {
        self.start
    }

    fn end(&self) -> (t: Time) {
        self.end
    }
}

/// The items are ordered by start: a track as the timeline keeps it.
pub open spec fn sorted_by_start<T: TimeSlice>(items: Seq<T>) -> bool {
    forall|i: int, j: int|
        0 <= i <= j < items.len() ==> #[trigger] items[i].start_time().le(
            #[trigger] items[j].start_time(),
        )
}

/// The earlier of two bounds.
pub open spec fn range_low(a: Time, b: Time) -> Time {
    if a.le(b) {
        a
    } else {
        b
    }
}

/// The later of two bounds.
pub open spec fn range_high(a: Time, b: Time) -> Time {
    if a.le(b) {
        b
    } else {
        a
    }
}

/// The item touches the closed range `[low, high]`: it starts at or before the
/// range's end and ends at or after the range's start.
pub open spec fn touches<T: TimeSlice>(item: T, low: Time, high: Time) -> bool {
    item.start_time().le(high) && low.le(item.end_time())
}

/// The item overlaps the open range `(low, high)`: it starts before the range
/// ends and ends after the range starts.
pub open spec fn strictly_overlaps<T: TimeSlice>(item: T, low: Time, high: Time) -> bool {
    item.start_time().lt(high) && low.lt(item.end_time())
}

/// Some item overlaps the open range between the two bounds, given in either order.
pub open spec fn collides_spec<T: TimeSlice>(items: Seq<T>, a: Time, b: Time) -> bool {
    exists|i: int|
        0 <= i < items.len() && strictly_overlaps(
            #[trigger] items[i],
            range_low(a, b),
            range_high(a, b),
        )
}

/// The number of leading items that start at or before `bound`, found by binary
/// search over a track sorted by start.
fn partition_by_start<T: TimeSlice>(items: &[T], bound: &Time) -> (last: usize)
    requires
        sorted_by_start(items@),
    ensures
        last <= items@.len(),
        forall|i: int| 0 <= i < last ==> #[trigger] items@[i].start_time().le(*bound),
        forall|i: int| last <= i < items@.len() ==> !#[trigger] items@[i].start_time().le(*bound),
{
    let mut low: usize = 0;
    let mut high: usize = items.len();
    while low < high
        invariant
            low <= high <= items@.len(),
            sorted_by_start(items@),
            forall|i: int| 0 <= i < low ==> #[trigger] items@[i].start_time().le(*bound),
            forall|i: int|
                high <= i < items@.len() ==> !#[trigger] items@[i].start_time().le(*bound),
        decreases high - low,
    {
        let mid = low + (high - low) / 2;
        let start = items[mid].start();
        if start.at_or_before(bound) {
            proof {
                assert forall|i: int| 0 <= i <= mid implies #[trigger] items@[i].start_time().le(
                    *bound,
                ) by {
                    if i < mid {
                        assert(items@[i].start_time().le(items@[mid as int].start_time()));
                        lemma_le_transitive(
                            items@[i].start_time(),
                            items@[mid as int].start_time(),
                            *bound,
                        );
                    }
                }
            }
            low = mid + 1;
        } else {
            proof {
                assert forall|i: int|
                    mid <= i < items@.len() implies !#[trigger] items@[i].start_time().le(
                    *bound,
                ) by {
                    if i > mid {
                        assert(items@[mid as int].start_time().le(items@[i].start_time()));
                        lemma_lt_le_transitive(
                            *bound,
                            items@[mid as int].start_time(),
                            items@[i].start_time(),
                        );
                        assert(bound.lt(items@[i].start_time()));
                    }
                }
            }
            high = mid;
        }
    }
    low
}

/// The items of a track sorted by start that touch the range between `start`
/// and `end` (in either order), with their indices, in track order.
pub fn overlapping<'a, T: TimeSlice>(items: &'a [T], start: Time, end: Time) -> (found: Vec<(usize, &'a T)>)
    requires
        sorted_by_start(items@),
    ensures
        forall|k: int|
            0 <= k < found@.len() ==> {
                let (i, item) = #[trigger] found@[k];
                &&& i < items@.len()
                &&& *item == items@[i as int]
                &&& touches(items@[i as int], range_low(start, end), range_high(start, end))
            },
        forall|k: int, l: int| 0 <= k < l < found@.len() ==> #[trigger] found@[k].0 < #[trigger] found@[l].0,
        forall|i: int|
            0 <= i < items@.len() && touches(
                #[trigger] items@[i],
                range_low(start, end),
                range_high(start, end),
            ) ==> exists|k: int| 0 <= k < found@.len() && #[trigger] found@[k].0 == i,
{
    let range_start = start.min(end);
    let range_end = start.max(end);
    let last = partition_by_start(items, &range_end);
    let mut found: Vec<(usize, &'a T)> = Vec::new();
    let mut i: usize = 0;
    while i < last
        invariant
            i <= last <= items@.len(),
            range_start == range_low(start, end),
            range_end == range_high(start, end),
            forall|j: int| 0 <= j < last ==> #[trigger] items@[j].start_time().le(range_end),
            forall|j: int|
                last <= j < items@.len() ==> !#[trigger] items@[j].start_time().le(range_end),
            forall|k: int|
                0 <= k < found@.len() ==> {
                    let (j, item) = #[trigger] found@[k];
                    &&& j < i
                    &&& *item == items@[j as int]
                    &&& touches(items@[j as int], range_start, range_end)
                },
            forall|k: int, l: int|
                0 <= k < l < found@.len() ==> #[trigger] found@[k].0 < #[trigger] found@[l].0,
            forall|j: int|
                0 <= j < i && touches(#[trigger] items@[j], range_start, range_end) ==> exists|
                    k: int,
                | 0 <= k < found@.len() && #[trigger] found@[k].0 == j,
        decreases last - i,
    {
        let item = &items[i];
        if range_start.at_or_before(&item.end()) {
            let ghost before = found@;
            found.push((i, item));
            proof {
                assert(found@[found@.len() - 1].0 == i);
                assert forall|j: int|
                    0 <= j < i + 1 && touches(#[trigger] items@[j], range_start, range_end) implies exists|
                    k: int,
                | 0 <= k < found@.len() && #[trigger] found@[k].0 == j by {
                    if j < i {
                        let k = choose|k: int| 0 <= k < before.len() && #[trigger] before[k].0 == j;
                        assert(found@[k].0 == j);
                    } else {
                        assert(found@[found@.len() - 1].0 == j);
                    }
                }
            }
        }
        i = i + 1;
    }
    found
}

/// Some item of a track sorted by start overlaps the open range between `start`
/// and `end` (in either order); items that only touch an end of the range do not
/// collide.
pub fn collides<T: TimeSlice>(items: &[T], start: Time, end: Time) -> (hit: bool)
    requires
        sorted_by_start(items@),
    ensures
        hit == collides_spec(items@, start, end),
{
    let range_start = start.min(end);
    let range_end = start.max(end);
    proof {
        lemma_range_bounds_symmetric(start, end);
    }
    let candidates = overlapping(items, range_start, range_end);
    let mut k: usize = 0;
    while k < candidates.len()
        invariant
            k <= candidates@.len(),
            range_start == range_low(start, end),
            range_end == range_high(start, end),
            range_low(range_start, range_end) == range_start,
            range_high(range_start, range_end) == range_end,
            forall|m: int|
                0 <= m < candidates@.len() ==> {
                    let (i, item) = #[trigger] candidates@[m];
                    &&& i < items@.len()
                    &&& *item == items@[i as int]
                },
            forall|i: int|
                0 <= i < items@.len() && touches(#[trigger] items@[i], range_start, range_end)
                    ==> exists|m: int| 0 <= m < candidates@.len() && #[trigger] candidates@[m].0 == i,
            forall|m: int|
                0 <= m < k ==> !strictly_overlaps(
                    items@[(#[trigger] candidates@[m]).0 as int],
                    range_start,
                    range_end,
                ),
        decreases candidates@.len() - k,
    {
        let (_, item) = candidates[k];
        if item.start().before(&range_end) && range_start.before(&item.end()) {
            proof {
                let i = candidates@[k as int].0 as int;
                assert(strictly_overlaps(items@[i], range_start, range_end));
            }
            return true;
        }
        k = k + 1;
    }
    proof {
        assert forall|i: int|
            0 <= i < items@.len() implies !strictly_overlaps(
            #[trigger] items@[i],
            range_start,
            range_end,
        ) by {
            if strictly_overlaps(items@[i], range_start, range_end) {
                lemma_strict_overlap_touches(items@[i], range_start, range_end);
                let m = choose|m: int| 0 <= m < candidates@.len() && #[trigger] candidates@[m].0 == i;
                assert(!strictly_overlaps(items@[candidates@[m].0 as int], range_start, range_end));
            }
        }
    }
    false
}

/// The low and high ends of a range do not depend on the order the bounds come in,
/// and the low end is at or before the high end.
pub proof fn lemma_range_bounds_symmetric(a: Time, b: Time)
    ensures
        range_low(a, b).le(range_high(a, b)),
        range_low(range_low(a, b), range_high(a, b)) == range_low(a, b),
        range_high(range_low(a, b), range_high(a, b)) == range_high(a, b),
        range_low(a, b).same(range_low(b, a)),
        range_high(a, b).same(range_high(b, a)),
{
    crate::time::lemma_le_total(a, b);
    a.lemma_den_positive();
    b.lemma_den_positive();
    if a.le(b) {
        a.lemma_den_positive();
    }
    if range_low(a, b).le(range_high(a, b)) {
        assert(range_low(range_low(a, b), range_high(a, b)) == range_low(a, b));
        if range_high(a, b).le(range_low(a, b)) {
            lemma_le_self(range_low(a, b));
        }
    }
}

/// Every instant is at or after itself.
pub proof fn lemma_le_self(t: Time)
    ensures
        t.le(t),
{
}

/// An item that overlaps the open range also touches the closed range.
pub proof fn lemma_strict_overlap_touches<T: TimeSlice>(item: T, low: Time, high: Time)
    requires
        strictly_overlaps(item, low, high),
    ensures
        touches(item, low, high),
{
    crate::time::lemma_le_total(item.start_time(), high);
    crate::time::lemma_le_total(low, item.end_time());
}

/// Collision does not depend on the order the bounds are given in.
pub proof fn lemma_collides_bound_order<T: TimeSlice>(items: Seq<T>, a: Time, b: Time)
    ensures
        collides_spec(items, a, b) == collides_spec(items, b, a),
{
    lemma_range_bounds_symmetric(a, b);
    assert forall|i: int| 0 <= i < items.len() implies strictly_overlaps(
        #[trigger] items[i],
        range_low(a, b),
        range_high(a, b),
    ) == strictly_overlaps(items[i], range_low(b, a), range_high(b, a)) by {
        let s = items[i].start_time();
        let e = items[i].end_time();
        if strictly_overlaps(items[i], range_low(a, b), range_high(a, b)) {
            lemma_lt_le_transitive(s, range_high(a, b), range_high(b, a));
            lemma_le_lt_transitive(range_low(b, a), range_low(a, b), e);
        }
        if strictly_overlaps(items[i], range_low(b, a), range_high(b, a)) {
            lemma_lt_le_transitive(s, range_high(b, a), range_high(a, b));
            lemma_le_lt_transitive(range_low(a, b), range_low(b, a), e);
        }
    }
}

/// An item that ends exactly where the range starts, or starts exactly where it
/// ends, does not collide with the range.
pub proof fn lemma_touching_edges_do_not_collide<T: TimeSlice>(item: T, low: Time, high: Time)
    requires
        item.end_time().le(low) || high.le(item.start_time()),
    ensures
        !strictly_overlaps(item, low, high),
{
}

} // verus!
