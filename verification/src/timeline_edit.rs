use vstd::prelude::*;

use crate::item_address::{ItemAddress, ObjectId, TrackAddress};
use crate::time::Time;

verus! {

/// What an edit does when the destination range is already occupied.
#[derive(Clone, Copy, Debug, PartialEq, Eq, Structural)]
pub enum CollisionBehavior {
    /// Refuse the edit.
    Reject,
    /// Put the item on a new track instead.
    NewTrack,
    /// Remove whatever is in the way.
    Overwrite,
}

impl Default for CollisionBehavior {
    /// Edits refuse to collide unless asked otherwise.
    fn default() -> (behavior: CollisionBehavior)
        ensures
            behavior == CollisionBehavior::Reject,
    {
        CollisionBehavior::Reject
    }
}

/// The item occupies part of the open range `(start, end)`.
pub open spec fn occupies(item_start: Time, item_end: Time, start: Time, end: Time) -> bool {
    item_start.lt(end) && start.lt(item_end)
}

/// The addresses, on the given track, of the items (identifier, start, end) that
/// occupy part of the open range `(start, end)`, in track order.
pub fn collision_addresses(
    track: &TrackAddress,
    items: &[(ObjectId, Time, Time)],
    start: Time,
    end: Time,
) -> (addresses: Vec<ItemAddress>)
    ensures
        forall|k: int|
            0 <= k < addresses@.len() ==> {
                &&& (#[trigger] addresses@[k])@.kind == track@.kind
                &&& addresses@[k]@.sequence_path == track@.sequence_path
                &&& addresses@[k]@.track_id == track@.track_id
            },
        addresses@.map_values(|a: ItemAddress| a@.item_id) == items@.filter(
            |item: (ObjectId, Time, Time)| occupies(item.1, item.2, start, end),
        ).map_values(|item: (ObjectId, Time, Time)| item.0),
{
    let ghost keep = |item: (ObjectId, Time, Time)| occupies(item.1, item.2, start, end);
    let mut addresses: Vec<ItemAddress> = Vec::new();
    let mut i: usize = 0;
    while i < items.len()
        invariant
            i <= items@.len(),
            keep == (|item: (ObjectId, Time, Time)| occupies(item.1, item.2, start, end)),
            forall|k: int|
                0 <= k < addresses@.len() ==> {
                    &&& (#[trigger] addresses@[k])@.kind == track@.kind
                    &&& addresses@[k]@.sequence_path == track@.sequence_path
                    &&& addresses@[k]@.track_id == track@.track_id
                },
            addresses@.map_values(|a: ItemAddress| a@.item_id) == items@.subrange(0, i as int).filter(
                keep,
            ).map_values(|item: (ObjectId, Time, Time)| item.0),
        decreases items@.len() - i,
    {
        let (id, item_start, item_end) = items[i];
        proof {
            reveal_with_fuel(Seq::filter, 1);
            assert(items@.subrange(0, i + 1).drop_last() == items@.subrange(0, i as int));
            assert(items@.subrange(0, i + 1).last() == items@[i as int]);
        }
        if item_start.before(&end) && start.before(&item_end) {
            let ghost before = addresses@;
            addresses.push(track.item(id));
            proof {
                assert(addresses@.map_values(|a: ItemAddress| a@.item_id) =~= before.map_values(
                    |a: ItemAddress| a@.item_id,
                ).push(id));
            }
        }
        i = i + 1;
    }
    proof {
        assert(items@.subrange(0, items@.len() as int) == items@);
    }
    addresses
}

/// Whether any item (identifier, start, end) of a track occupies part of the
/// open range `(start, end)`.
pub fn track_collides(items: &[(ObjectId, Time, Time)], start: Time, end: Time) -> (hit: bool)
    ensures
        hit == exists|i: int| 0 <= i < items@.len() && occupies(#[trigger] items@[i].1, items@[i].2, start, end),
{
    let mut i: usize = 0;
    while i < items.len()
        invariant
            i <= items@.len(),
            forall|j: int| 0 <= j < i ==> !occupies(#[trigger] items@[j].1, items@[j].2, start, end),
        decreases items@.len() - i,
    {
        let (_, item_start, item_end) = items[i];
        if item_start.before(&end) && start.before(&item_end) {
            return true;
        }
        i = i + 1;
    }
    false
}

/// Where a new item that starts at `start` and would end at `end` ends on a
/// track whose items (start, end) are given in order: nowhere when an item
/// covers `start`; otherwise cut back to the start of the first item after
/// `start`, and nowhere when that leaves no time after `start`.
pub open spec fn fitted_end(items: Seq<(Time, Time)>, start: Time, end: Time) -> Option<Time>
    decreases items.len(),
{
    if items.len() == 0 {
        if end.le(start) {
            None
        } else {
            Some(end)
        }
    } else {
        let (item_start, item_end) = items[0];
        if item_start.le(start) && start.lt(item_end) {
            None
        } else if start.lt(item_start) {
            let cut = if end.le(item_start) {
                end
            } else {
                item_start
            };
            if cut.le(start) {
                None
            } else {
                Some(cut)
            }
        } else {
            fitted_end(items.drop_first(), start, end)
        }
    }
}

/// The end of a new item placed at `start` with the proposed `end`, fitted
/// into the gap it starts in (see [`fitted_end`]).
pub fn fit_new_item(items: &[(Time, Time)], start: Time, end: Time) -> (fitted: Option<Time>)
    ensures
        fitted == fitted_end(items@, start, end),
{
    let mut i: usize = 0;
    proof {
        assert(items@.subrange(0, items@.len() as int) =~= items@);
    }
    while i < items.len()
        invariant
            i <= items@.len(),
            fitted_end(items@, start, end) == fitted_end(items@.subrange(i as int, items@.len() as int), start, end),
        decreases items@.len() - i,
    {
        let (item_start, item_end) = items[i];
        proof {
            let rest = items@.subrange(i as int, items@.len() as int);
            assert(rest[0] == items@[i as int]);
            assert(rest.drop_first() =~= items@.subrange(i + 1, items@.len() as int));
        }
        if item_start.at_or_before(&start) && start.before(&item_end) {
            return None;
        }
        if start.before(&item_start) {
            let cut = end.min(item_start);
            if cut.at_or_before(&start) {
                return None;
            }
            return Some(cut);
        }
        i = i + 1;
    }
    if end.at_or_before(&start) {
        None
    } else {
        Some(end)
    }
}

/// A fitted item ends after it starts and, on a track whose items are in
/// order and do not overlap, overlaps none of them.
pub proof fn law_fitted_item_is_free(items: Seq<(Time, Time)>, start: Time, end: Time)
    requires
        forall|i: int| 0 <= i < items.len() ==> (#[trigger] items[i]).0.le(items[i].1),
        forall|i: int, j: int| 0 <= i < j < items.len() ==> (#[trigger] items[i]).1.le((#[trigger] items[j]).0),
    ensures
        fitted_end(items, start, end) matches Some(e) ==> start.lt(e) && e.le(end) && forall|i: int|
            0 <= i < items.len() ==> !occupies(#[trigger] items[i].0, items[i].1, start, e),
    decreases items.len(),
{
    start.lemma_den_positive();
    end.lemma_den_positive();
    if items.len() > 0 {
        let rest = items.drop_first();
        assert forall|i: int| 0 <= i < rest.len() implies (#[trigger] rest[i]).0.le(rest[i].1) by {
            assert(rest[i] == items[i + 1]);
        }
        assert forall|i: int, j: int| 0 <= i < j < rest.len() implies (#[trigger] rest[i]).1.le((#[trigger] rest[j]).0) by {
            assert(rest[i] == items[i + 1] && rest[j] == items[j + 1]);
        }
        law_fitted_item_is_free(rest, start, end);
        let (item_start, item_end) = items[0];
        if let Some(e) = fitted_end(items, start, end) {
            e.lemma_den_positive();
            item_start.lemma_den_positive();
            item_end.lemma_den_positive();
            if start.lt(item_start) {
                // The item ends at or before its start, which bounds `e`; every
                // later item starts after it.
                assert forall|i: int| 0 <= i < items.len() implies !occupies(#[trigger] items[i].0, items[i].1, start, e) by {
                    items[i].0.lemma_den_positive();
                    items[i].1.lemma_den_positive();
                    if i > 0 {
                        crate::time::lemma_le_transitive(items[0].0, items[0].1, items[i].0);
                        crate::time::lemma_le_transitive(e, items[0].0, items[i].0);
                    }
                }
            } else {
                assert(item_end.le(start));
                assert forall|i: int| 0 <= i < items.len() implies !occupies(#[trigger] items[i].0, items[i].1, start, e) by {
                    if i > 0 {
                        assert(rest[i - 1] == items[i]);
                    }
                }
            }
        }
    }
}

} // verus!
