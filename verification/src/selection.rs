use vstd::prelude::*;

use crate::inspector::TransitionSide;
use crate::item_address::{
    copy_ids, ItemAddress, ItemAddressView, ObjectId, SequenceScopeId, TrackAddress,
    TrackAddressView,
};
use crate::time::Time;

verus! {

/// The four kinds of timeline rows.
#[derive(Clone, Copy, Debug, PartialEq, Eq, Structural, Hash)]
pub enum TrackKind {
    Comment,
    Caption,
    Video,
    Audio,
}

/// A root-timeline item by position: its kind, track index and item index.
#[derive(Clone, Copy, Debug, PartialEq, Eq, Structural, Hash)]
pub struct ItemKey {
    pub kind: TrackKind,
    pub track_index: usize,
    pub item_index: usize,
}

/// A root-timeline track by position: its kind and index.
#[derive(Clone, Copy, Debug, PartialEq, Eq, Structural, Hash)]
pub struct TrackKey {
    pub kind: TrackKind,
    pub index: usize,
}

/// An empty stretch of a root-timeline track.
#[derive(Clone, Copy, Debug)]
pub struct TrackGap {
    pub track: TrackKey,
    pub start: Time,
    pub end: Time,
}

/// An empty stretch of a track, by address.
#[derive(Clone, Debug)]
pub struct TrackAddressGap {
    pub track: TrackAddress,
    pub start: Time,
    pub end: Time,
}

/// Two gaps cover the same stretch of the same track.
pub open spec fn same_gap(a: TrackGap, b: TrackGap) -> bool {
    a.track == b.track && a.start.same(b.start) && a.end.same(b.end)
}

/// Two address gaps cover the same stretch of the same track.
pub open spec fn same_address_gap(a: TrackAddressGap, b: TrackAddressGap) -> bool {
    a.track@ == b.track@ && a.start.same(b.start) && a.end.same(b.end)
}

/// Two optional gaps are both absent or the same gap.
pub open spec fn same_optional_gap(a: Option<TrackGap>, b: Option<TrackGap>) -> bool {
    match (a, b) {
        (None, None) => true,
        (Some(x), Some(y)) => same_gap(x, y),
        _ => false,
    }
}

/// Two optional address gaps are both absent or the same gap.
pub open spec fn same_optional_address_gap(
    a: Option<TrackAddressGap>,
    b: Option<TrackAddressGap>,
) -> bool {
    match (a, b) {
        (None, None) => true,
        (Some(x), Some(y)) => same_address_gap(x, y),
        _ => false,
    }
}

/// A gap has positive duration.
pub open spec fn gap_positive(gap: Option<TrackGap>) -> bool {
    gap matches Some(g) ==> g.start.lt(g.end)
}

/// An address gap has positive duration.
pub open spec fn address_gap_positive(gap: Option<TrackAddressGap>) -> bool {
    gap matches Some(g) ==> g.start.lt(g.end)
}

/// The views of a list of item addresses.
pub open spec fn item_views(items: Seq<ItemAddress>) -> Seq<ItemAddressView> {
    items.map_values(|a: ItemAddress| a@)
}

/// The views of a list of track addresses.
pub open spec fn track_views(tracks: Seq<TrackAddress>) -> Seq<TrackAddressView> {
    tracks.map_values(|a: TrackAddress| a@)
}

/// The view of an optional item address.
pub open spec fn item_view(item: Option<ItemAddress>) -> Option<ItemAddressView> {
    match item {
        Some(a) => Some(a@),
        None => None,
    }
}

/// The view of an optional track address.
pub open spec fn track_view(track: Option<TrackAddress>) -> Option<TrackAddressView> {
    match track {
        Some(a) => Some(a@),
        None => None,
    }
}

/// Which items, tracks or gap are selected on the timeline, which of them has
/// focus, the sequence scope being edited, and the focused transition.
#[derive(Debug)]
pub struct SelectionState {
    selected_item_addresses: Vec<ItemAddress>,
    focused_item_address: Option<ItemAddress>,
    legacy_selected_items: Vec<ItemKey>,
    legacy_focused_item: Option<ItemKey>,
    active_scope: SequenceScopeId,
    focused_transition: Option<TransitionSide>,
    selected_track_addresses: Vec<TrackAddress>,
    focused_track_address: Option<TrackAddress>,
    legacy_selected_tracks: Vec<TrackKey>,
    legacy_focused_track: Option<TrackKey>,
    selected_gap_address: Option<TrackAddressGap>,
    legacy_selected_gap: Option<TrackGap>,
}

/// The plain value of a selection.
#[verifier::ext_equal]
pub struct SelectionView {
    pub selected_item_addresses: Seq<ItemAddressView>,
    pub focused_item_address: Option<ItemAddressView>,
    pub legacy_selected_items: Seq<ItemKey>,
    pub legacy_focused_item: Option<ItemKey>,
    pub active_scope: Seq<ObjectId>,
    pub focused_transition: Option<TransitionSide>,
    pub selected_track_addresses: Seq<TrackAddressView>,
    pub focused_track_address: Option<TrackAddressView>,
    pub legacy_selected_tracks: Seq<TrackKey>,
    pub legacy_focused_track: Option<TrackKey>,
    pub selected_gap_address: Option<TrackAddressGap>,
    pub legacy_selected_gap: Option<TrackGap>,
}

impl View for SelectionState {
    type V = SelectionView;

    closed spec fn view(&self) -> SelectionView {
        SelectionView {
            selected_item_addresses: item_views(self.selected_item_addresses@),
            focused_item_address: item_view(self.focused_item_address),
            legacy_selected_items: self.legacy_selected_items@,
            legacy_focused_item: self.legacy_focused_item,
            active_scope: self.active_scope@,
            focused_transition: self.focused_transition,
            selected_track_addresses: track_views(self.selected_track_addresses@),
            focused_track_address: track_view(self.focused_track_address),
            legacy_selected_tracks: self.legacy_selected_tracks@,
            legacy_focused_track: self.legacy_focused_track,
            selected_gap_address: self.selected_gap_address,
            legacy_selected_gap: self.legacy_selected_gap,
        }
    }
}

/// Nothing is selected in the item category (in either form).
pub open spec fn no_items(s: SelectionView) -> bool {
    &&& s.selected_item_addresses.len() == 0
    &&& s.focused_item_address is None
    &&& s.legacy_selected_items.len() == 0
    &&& s.legacy_focused_item is None
}

/// Nothing is selected in the track category (in either form).
pub open spec fn no_tracks(s: SelectionView) -> bool {
    &&& s.selected_track_addresses.len() == 0
    &&& s.focused_track_address is None
    &&& s.legacy_selected_tracks.len() == 0
    &&& s.legacy_focused_track is None
}

/// No gap is selected (in either form).
pub open spec fn no_gap(s: SelectionView) -> bool {
    &&& s.selected_gap_address is None
    &&& s.legacy_selected_gap is None
}

/// The rules every selection keeps: items, tracks and a gap are never selected
/// at the same time; a focused item or track is one of the selected ones; a
/// transition has focus only on a focused item; a selected gap is not empty.
pub open spec fn selection_well_formed(s: SelectionView) -> bool {
    &&& !no_items(s) ==> no_tracks(s) && no_gap(s)
    &&& !no_tracks(s) ==> no_gap(s)
    &&& (s.focused_item_address matches Some(f) ==> s.selected_item_addresses.contains(f))
    &&& (s.focused_track_address matches Some(f) ==> s.selected_track_addresses.contains(f))
    &&& (s.focused_transition is Some ==> s.legacy_focused_item is Some || s.focused_item_address is Some)
    &&& address_gap_positive(s.selected_gap_address)
    &&& gap_positive(s.legacy_selected_gap)
}

/// The selection after a change that selects nothing but what is given.
pub open spec fn cleared_except(
    s: SelectionView,
    scope: Seq<ObjectId>,
) -> SelectionView {
    SelectionView {
        selected_item_addresses: Seq::empty(),
        focused_item_address: None,
        legacy_selected_items: Seq::empty(),
        legacy_focused_item: None,
        active_scope: scope,
        focused_transition: None,
        selected_track_addresses: Seq::empty(),
        focused_track_address: None,
        legacy_selected_tracks: Seq::empty(),
        legacy_focused_track: None,
        selected_gap_address: None,
        legacy_selected_gap: None,
    }
}

fn copy_item_address(address: &ItemAddress) -> (copy: ItemAddress)
    ensures
        copy@ == address@,
{
    address.track().item(address.item_id())
}

fn ids_equal(a: &[ObjectId], b: &[ObjectId]) -> (eq: bool)
    ensures
        eq == (a@ == b@),
{
    if a.len() != b.len() {
        return false;
    }
    let mut i: usize = 0;
    while i < a.len()
        invariant
            a@.len() == b@.len(),
            i <= a@.len(),
            forall|j: int| 0 <= j < i ==> #[trigger] a@[j] == b@[j],
        decreases a@.len() - i,
    {
        if a[i] != b[i] {
            return false;
        }
        i = i + 1;
    }
    proof {
        assert(a@ =~= b@);
    }
    true
}

fn item_addresses_equal(a: &ItemAddress, b: &ItemAddress) -> (eq: bool)
    ensures
        eq == (a@ == b@),
{
    a.kind() == b.kind() && a.track_id() == b.track_id() && a.item_id() == b.item_id()
        && ids_equal(a.sequence_path(), b.sequence_path())
}

fn track_addresses_equal(a: &TrackAddress, b: &TrackAddress) -> (eq: bool)
    ensures
        eq == (a@ == b@),
{
    a.kind() == b.kind() && a.track_id() == b.track_id() && ids_equal(
        a.sequence_path(),
        b.sequence_path(),
    )
}

fn item_address_lists_equal(a: &Vec<ItemAddress>, b: &Vec<ItemAddress>) -> (eq: bool)
    ensures
        eq == (item_views(a@) == item_views(b@)),
{
    if a.len() != b.len() {
        proof {
            assert(item_views(a@).len() != item_views(b@).len());
        }
        return false;
    }
    let mut i: usize = 0;
    while i < a.len()
        invariant
            a@.len() == b@.len(),
            i <= a@.len(),
            forall|j: int| 0 <= j < i ==> #[trigger] item_views(a@)[j] == item_views(b@)[j],
        decreases a@.len() - i,
    {
        if !item_addresses_equal(&a[i], &b[i]) {
            proof {
                assert(item_views(a@)[i as int] != item_views(b@)[i as int]);
            }
            return false;
        }
        i = i + 1;
    }
    proof {
        assert(item_views(a@) =~= item_views(b@));
    }
    true
}

fn track_address_lists_equal(a: &Vec<TrackAddress>, b: &Vec<TrackAddress>) -> (eq: bool)
    ensures
        eq == (track_views(a@) == track_views(b@)),
{
    if a.len() != b.len() {
        proof {
            assert(track_views(a@).len() != track_views(b@).len());
        }
        return false;
    }
    let mut i: usize = 0;
    while i < a.len()
        invariant
            a@.len() == b@.len(),
            i <= a@.len(),
            forall|j: int| 0 <= j < i ==> #[trigger] track_views(a@)[j] == track_views(b@)[j],
        decreases a@.len() - i,
    {
        if !track_addresses_equal(&a[i], &b[i]) {
            proof {
                assert(track_views(a@)[i as int] != track_views(b@)[i as int]);
            }
            return false;
        }
        i = i + 1;
    }
    proof {
        assert(track_views(a@) =~= track_views(b@));
    }
    true
}

fn item_keys_equal(a: &Vec<ItemKey>, b: &Vec<ItemKey>) -> (eq: bool)
    ensures
        eq == (a@ == b@),
{
    if a.len() != b.len() {
        return false;
    }
    let mut i: usize = 0;
    while i < a.len()
        invariant
            a@.len() == b@.len(),
            i <= a@.len(),
            forall|j: int| 0 <= j < i ==> #[trigger] a@[j] == b@[j],
        decreases a@.len() - i,
    {
        if a[i] != b[i] {
            return false;
        }
        i = i + 1;
    }
    proof {
        assert(a@ =~= b@);
    }
    true
}

fn track_keys_equal(a: &Vec<TrackKey>, b: &Vec<TrackKey>) -> (eq: bool)
    ensures
        eq == (a@ == b@),
{
    if a.len() != b.len() {
        return false;
    }
    let mut i: usize = 0;
    while i < a.len()
        invariant
            a@.len() == b@.len(),
            i <= a@.len(),
            forall|j: int| 0 <= j < i ==> #[trigger] a@[j] == b@[j],
        decreases a@.len() - i,
    {
        if a[i] != b[i] {
            return false;
        }
        i = i + 1;
    }
    proof {
        assert(a@ =~= b@);
    }
    true
}

fn optional_items_equal(a: &Option<ItemAddress>, b: &Option<ItemAddress>) -> (eq: bool)
    ensures
        eq == (item_view(*a) == item_view(*b)),
{
    match (a, b) {
        (Some(x), Some(y)) => item_addresses_equal(x, y),
        (None, None) => true,
        _ => false,
    }
}

fn optional_tracks_equal(a: &Option<TrackAddress>, b: &Option<TrackAddress>) -> (eq: bool)
    ensures
        eq == (track_view(*a) == track_view(*b)),
{
    match (a, b) {
        (Some(x), Some(y)) => track_addresses_equal(x, y),
        (None, None) => true,
        _ => false,
    }
}

fn optional_gaps_equal(a: &Option<TrackGap>, b: &Option<TrackGap>) -> (eq: bool)
    ensures
        eq == same_optional_gap(*a, *b),
{
    match (a, b) {
        (Some(x), Some(y)) => x.track == y.track && x.start.at_or_before(&y.start)
            && y.start.at_or_before(&x.start) && x.end.at_or_before(&y.end)
            && y.end.at_or_before(&x.end),
        (None, None) => true,
        _ => false,
    }
}

fn optional_address_gaps_equal(a: &Option<TrackAddressGap>, b: &Option<TrackAddressGap>) -> (eq:
    bool)
    ensures
        eq == same_optional_address_gap(*a, *b),
{
    match (a, b) {
        (Some(x), Some(y)) => track_addresses_equal(&x.track, &y.track) && x.start.at_or_before(
            &y.start,
        ) && y.start.at_or_before(&x.start) && x.end.at_or_before(&y.end)
            && y.end.at_or_before(&x.end),
        (None, None) => true,
        _ => false,
    }
}

/// The selection after selecting root-timeline items by position.
pub open spec fn after_select_items(
    s: SelectionView,
    items: Seq<ItemKey>,
    focused: Option<ItemKey>,
) -> SelectionView {
    SelectionView {
        legacy_selected_items: items,
        legacy_focused_item: focused,
        ..cleared_except(s, if items.len() > 0 { Seq::empty() } else { s.active_scope })
    }
}

/// The selection after selecting nested items by address.
pub open spec fn after_select_nested_items(
    s: SelectionView,
    items: Seq<ItemAddressView>,
    focused: Option<ItemAddressView>,
) -> SelectionView {
    SelectionView {
        selected_item_addresses: items,
        focused_item_address: focused,
        ..cleared_except(s, s.active_scope)
    }
}

/// The selection after selecting items by address, with their scope and their
/// positions on the root timeline when every one has one.
pub open spec fn after_select_item_addresses(
    s: SelectionView,
    items: Seq<ItemAddressView>,
    focused: Option<ItemAddressView>,
    scope: Option<Seq<ObjectId>>,
    legacy_items: Seq<ItemKey>,
    legacy_focused: Option<ItemKey>,
) -> SelectionView {
    SelectionView {
        selected_item_addresses: items,
        focused_item_address: focused,
        legacy_selected_items: legacy_items,
        legacy_focused_item: legacy_focused,
        ..cleared_except(
            s,
            match scope {
                Some(sc) => sc,
                None => s.active_scope,
            },
        )
    }
}

/// The selection after selecting root-timeline tracks by position.
pub open spec fn after_select_tracks(
    s: SelectionView,
    tracks: Seq<TrackKey>,
    focused: Option<TrackKey>,
) -> SelectionView {
    SelectionView {
        legacy_selected_tracks: tracks,
        legacy_focused_track: focused,
        ..cleared_except(s, if tracks.len() > 0 { Seq::empty() } else { s.active_scope })
    }
}

/// The selection after selecting tracks by address.
pub open spec fn after_select_track_addresses(
    s: SelectionView,
    tracks: Seq<TrackAddressView>,
    focused: Option<TrackAddressView>,
    scope: Option<Seq<ObjectId>>,
    legacy_tracks: Seq<TrackKey>,
    legacy_focused: Option<TrackKey>,
) -> SelectionView {
    SelectionView {
        selected_track_addresses: tracks,
        focused_track_address: focused,
        legacy_selected_tracks: legacy_tracks,
        legacy_focused_track: legacy_focused,
        ..cleared_except(
            s,
            match scope {
                Some(sc) => sc,
                None => s.active_scope,
            },
        )
    }
}

/// The selection after selecting a root-timeline gap (or none).
pub open spec fn after_select_gap(s: SelectionView, gap: Option<TrackGap>) -> SelectionView {
    SelectionView {
        legacy_selected_gap: gap,
        ..cleared_except(s, if gap is Some { Seq::empty() } else { s.active_scope })
    }
}

/// The selection after selecting a gap by address (or none).
pub open spec fn after_select_gap_address(
    s: SelectionView,
    gap: Option<TrackAddressGap>,
    scope: Option<Seq<ObjectId>>,
    legacy_gap: Option<TrackGap>,
) -> SelectionView {
    SelectionView {
        selected_gap_address: gap,
        legacy_selected_gap: legacy_gap,
        ..cleared_except(
            s,
            match scope {
                Some(sc) => sc,
                None => s.active_scope,
            },
        )
    }
}

/// Selecting these root-timeline items would change nothing.
pub open spec fn select_items_is_noop(s: SelectionView, items: Seq<ItemKey>, focused: Option<ItemKey>) -> bool {
    &&& s.legacy_selected_items == items
    &&& s.legacy_focused_item == focused
    &&& s.focused_transition is None
    &&& s.selected_item_addresses.len() == 0
    &&& s.focused_item_address is None
    &&& no_tracks(s)
    &&& no_gap(s)
}

/// Selecting these nested items would change nothing.
pub open spec fn select_nested_items_is_noop(
    s: SelectionView,
    items: Seq<ItemAddressView>,
    focused: Option<ItemAddressView>,
) -> bool {
    &&& s.selected_item_addresses == items
    &&& s.focused_item_address == focused
    &&& s.legacy_selected_items.len() == 0
    &&& s.legacy_focused_item is None
    &&& no_tracks(s)
    &&& no_gap(s)
}

/// Selecting these items by address would change nothing.
pub open spec fn select_item_addresses_is_noop(
    s: SelectionView,
    items: Seq<ItemAddressView>,
    focused: Option<ItemAddressView>,
    legacy_items: Seq<ItemKey>,
    legacy_focused: Option<ItemKey>,
) -> bool {
    &&& s.selected_item_addresses == items
    &&& s.focused_item_address == focused
    &&& s.legacy_selected_items == legacy_items
    &&& s.legacy_focused_item == legacy_focused
    &&& s.focused_transition is None
    &&& no_tracks(s)
    &&& no_gap(s)
}

/// Selecting these root-timeline tracks would change nothing.
pub open spec fn select_tracks_is_noop(s: SelectionView, tracks: Seq<TrackKey>, focused: Option<TrackKey>) -> bool {
    &&& s.legacy_selected_tracks == tracks
    &&& s.legacy_focused_track == focused
    &&& s.selected_track_addresses.len() == 0
    &&& s.focused_track_address is None
    &&& no_items(s)
    &&& no_gap(s)
}

/// Selecting these tracks by address would change nothing.
pub open spec fn select_track_addresses_is_noop(
    s: SelectionView,
    tracks: Seq<TrackAddressView>,
    focused: Option<TrackAddressView>,
    legacy_tracks: Seq<TrackKey>,
    legacy_focused: Option<TrackKey>,
) -> bool {
    &&& s.selected_track_addresses == tracks
    &&& s.focused_track_address == focused
    &&& s.legacy_selected_tracks == legacy_tracks
    &&& s.legacy_focused_track == legacy_focused
    &&& no_items(s)
    &&& no_gap(s)
}

/// Selecting this root-timeline gap would change nothing.
pub open spec fn select_gap_is_noop(s: SelectionView, gap: Option<TrackGap>) -> bool {
    &&& same_optional_gap(s.legacy_selected_gap, gap)
    &&& s.selected_gap_address is None
    &&& no_items(s)
    &&& s.focused_transition is None
    &&& no_tracks(s)
}

/// Selecting this gap by address would change nothing.
pub open spec fn select_gap_address_is_noop(
    s: SelectionView,
    gap: Option<TrackAddressGap>,
    legacy_gap: Option<TrackGap>,
) -> bool {
    &&& same_optional_address_gap(s.selected_gap_address, gap)
    &&& same_optional_gap(s.legacy_selected_gap, legacy_gap)
    &&& no_items(s)
    &&& s.focused_transition is None
    &&& no_tracks(s)
}

impl SelectionState {
    /// Nothing selected, editing the root timeline.
    pub fn new() -> (state: SelectionState)
        ensures
            state@ == cleared_except(state@, Seq::empty()),
            selection_well_formed(state@),
    {
        let state = SelectionState {
            selected_item_addresses: Vec::new(),
            focused_item_address: None,
            legacy_selected_items: Vec::new(),
            legacy_focused_item: None,
            active_scope: SequenceScopeId::root(),
            focused_transition: None,
            selected_track_addresses: Vec::new(),
            focused_track_address: None,
            legacy_selected_tracks: Vec::new(),
            legacy_focused_track: None,
            selected_gap_address: None,
            legacy_selected_gap: None,
        };
        proof {
            assert(state@ =~= cleared_except(state@, Seq::empty()));
        }
        state
    }

    /// The focused root-timeline item, by position.
    pub fn focused_item(&self) -> (item: Option<ItemKey>)
        ensures
            item == self@.legacy_focused_item,
    {
        self.legacy_focused_item
    }

    /// The selected root-timeline items, by position.
    pub fn selected_items(&self) -> (items: Vec<ItemKey>)
        ensures
            items@ == self@.legacy_selected_items,
    {
        let mut items: Vec<ItemKey> = Vec::new();
        let mut i: usize = 0;
        while i < self.legacy_selected_items.len()
            invariant
                i <= self.legacy_selected_items@.len(),
                items@ == self.legacy_selected_items@.subrange(0, i as int),
            decreases self.legacy_selected_items@.len() - i,
        {
            items.push(self.legacy_selected_items[i]);
            proof {
                assert(self.legacy_selected_items@.subrange(0, i + 1)
                    == self.legacy_selected_items@.subrange(0, i as int).push(
                    self.legacy_selected_items@[i as int],
                ));
            }
            i = i + 1;
        }
        proof {
            assert(self.legacy_selected_items@.subrange(0, i as int)
                == self.legacy_selected_items@);
        }
        items
    }

    /// The focused item, if it sits inside a folded sequence.
    pub fn focused_nested_item(&self) -> (item: Option<ItemAddress>)
        ensures
            item_view(item) == (match self@.focused_item_address {
                Some(a) => if a.sequence_path.len() > 0 { Some(a) } else { None },
                None => None,
            }),
    {
        match &self.focused_item_address {
            Some(address) => if address.is_root() {
                None
            } else {
                Some(copy_item_address(address))
            },
            None => None,
        }
    }

    /// The selected items that sit inside folded sequences, in order.
    pub fn selected_nested_items(&self) -> (items: Vec<ItemAddress>)
        ensures
            item_views(items@) == self@.selected_item_addresses.filter(
                |a: ItemAddressView| a.sequence_path.len() > 0,
            ),
    {
        let ghost keep = |a: ItemAddressView| a.sequence_path.len() > 0;
        let ghost all = item_views(self.selected_item_addresses@);
        let mut items: Vec<ItemAddress> = Vec::new();
        let mut i: usize = 0;
        while i < self.selected_item_addresses.len()
            invariant
                i <= self.selected_item_addresses@.len(),
                all == item_views(self.selected_item_addresses@),
                keep == (|a: ItemAddressView| a.sequence_path.len() > 0),
                item_views(items@) == all.subrange(0, i as int).filter(keep),
            decreases self.selected_item_addresses@.len() - i,
        {
            let address = &self.selected_item_addresses[i];
            proof {
                reveal_with_fuel(Seq::filter, 1);
                assert(all.subrange(0, i + 1).drop_last() == all.subrange(0, i as int));
                assert(all.subrange(0, i + 1).last() == address@);
            }
            if !address.is_root() {
                let ghost before = items@;
                items.push(copy_item_address(address));
                proof {
                    assert(item_views(items@) =~= item_views(before).push(address@));
                }
            }
            i = i + 1;
        }
        proof {
            assert(all.subrange(0, i as int) == all);
        }
        items
    }

    /// The sequence scope being edited.
    pub fn active_scope(&self) -> (scope: SequenceScopeId)
        ensures
            scope@ == self@.active_scope,
    {
        self.active_scope.clone()
    }

    /// Moves editing into another sequence scope. Reports whether anything changed.
    pub fn set_active_scope(&mut self, scope: SequenceScopeId) -> (changed: bool)
        ensures
            changed == (old(self)@.active_scope != scope@),
            final(self)@ == (SelectionView { active_scope: scope@, ..old(self)@ }),
            selection_well_formed(old(self)@) ==> selection_well_formed(final(self)@),
    {
        if ids_equal(self.active_scope.instance_ids(), scope.instance_ids()) {
            return false;
        }
        self.active_scope = scope;
        true
    }

    /// Gives focus to a transition of the focused item, if an item has focus.
    /// Reports whether anything changed.
    pub fn set_focused_transition(&mut self, side: TransitionSide) -> (changed: bool)
        ensures
            changed == ((old(self)@.legacy_focused_item is Some || old(self)@.focused_item_address is Some)
                && old(self)@.focused_transition != Some(side)),
            changed ==> final(self)@ == (SelectionView { focused_transition: Some(side), ..old(self)@ }),
            !changed ==> final(self)@ == old(self)@,
            selection_well_formed(old(self)@) ==> selection_well_formed(final(self)@),
    {
        if (self.legacy_focused_item.is_none() && self.focused_item_address.is_none())
            || self.focused_transition == Some(side) {
            return false;
        }
        self.focused_transition = Some(side);
        true
    }

    /// Takes focus away from the focused transition. Reports whether anything changed.
    pub fn clear_focused_transition(&mut self) -> (changed: bool)
        ensures
            changed == (old(self)@.focused_transition is Some),
            final(self)@ == (SelectionView { focused_transition: None, ..old(self)@ }),
            selection_well_formed(old(self)@) ==> selection_well_formed(final(self)@),
    {
        if self.focused_transition.is_none() {
            return false;
        }
        self.focused_transition = None;
        true
    }

    /// The focused root-timeline track, by position.
    pub fn focused_track(&self) -> (track: Option<TrackKey>)
        ensures
            track == self@.legacy_focused_track,
    {
        self.legacy_focused_track
    }

    /// The selected root-timeline tracks, by position.
    pub fn selected_tracks(&self) -> (tracks: Vec<TrackKey>)
        ensures
            tracks@ == self@.legacy_selected_tracks,
    {
        let mut tracks: Vec<TrackKey> = Vec::new();
        let mut i: usize = 0;
        while i < self.legacy_selected_tracks.len()
            invariant
                i <= self.legacy_selected_tracks@.len(),
                tracks@ == self.legacy_selected_tracks@.subrange(0, i as int),
            decreases self.legacy_selected_tracks@.len() - i,
        {
            tracks.push(self.legacy_selected_tracks[i]);
            proof {
                assert(self.legacy_selected_tracks@.subrange(0, i + 1)
                    == self.legacy_selected_tracks@.subrange(0, i as int).push(
                    self.legacy_selected_tracks@[i as int],
                ));
            }
            i = i + 1;
        }
        proof {
            assert(self.legacy_selected_tracks@.subrange(0, i as int)
                == self.legacy_selected_tracks@);
        }
        tracks
    }

    /// The selected root-timeline gap.
    pub fn selected_gap(&self) -> (gap: Option<TrackGap>)
        ensures
            gap == self@.legacy_selected_gap,
    {
        self.legacy_selected_gap
    }

    /// The focused root-timeline item when it is of the given kind.
    pub fn focused_kind(&self, kind: TrackKind) -> (item: Option<ItemKey>)
        ensures
            item == (match self@.legacy_focused_item {
                Some(k) => if k.kind == kind { Some(k) } else { None },
                None => None,
            }),
    {
        match self.legacy_focused_item {
            Some(item) => if item.kind == kind {
                Some(item)
            } else {
                None
            },
            None => None,
        }
    }

    /// Selects root-timeline items by position, one of them (or none) focused.
    /// Selecting items leaves the nested scope. Reports whether anything changed.
    pub fn set_selected_items(&mut self, items: Vec<ItemKey>, focused: Option<ItemKey>) -> (changed:
        bool)
        requires
            focused matches Some(f) ==> items@.contains(f),
        ensures
            changed == !select_items_is_noop(old(self)@, items@, focused),
            changed ==> final(self)@ == after_select_items(old(self)@, items@, focused),
            !changed ==> final(self)@ == old(self)@,
            selection_well_formed(old(self)@) ==> selection_well_formed(final(self)@),
    {
        if item_keys_equal(&self.legacy_selected_items, &items) && self.legacy_focused_item
            == focused && self.focused_transition.is_none()
            && self.selected_item_addresses.len() == 0 && self.focused_item_address.is_none()
            && self.selected_track_addresses.len() == 0 && self.focused_track_address.is_none()
            && self.legacy_selected_tracks.len() == 0 && self.legacy_focused_track.is_none()
            && self.selected_gap_address.is_none() && self.legacy_selected_gap.is_none() {
            return false;
        }
        if items.len() > 0 {
            self.active_scope = SequenceScopeId::root();
        }
        self.legacy_selected_items = items;
        self.legacy_focused_item = focused;
        self.clear_addresses_and_other_selections();
        proof {
            assert(self@ =~= after_select_items(old(self)@, items@, focused));
        }
        true
    }

    fn clear_addresses_and_other_selections(&mut self)
        ensures
            final(self).legacy_selected_items == old(self).legacy_selected_items,
            final(self).legacy_focused_item == old(self).legacy_focused_item,
            final(self).active_scope == old(self).active_scope,
            final(self).selected_item_addresses@.len() == 0,
            final(self).focused_item_address is None,
            final(self).focused_transition is None,
            final(self).selected_track_addresses@.len() == 0,
            final(self).focused_track_address is None,
            final(self).legacy_selected_tracks@.len() == 0,
            final(self).legacy_focused_track is None,
            final(self).selected_gap_address is None,
            final(self).legacy_selected_gap is None,
    {
        self.selected_item_addresses = Vec::new();
        self.focused_item_address = None;
        self.focused_transition = None;
        self.selected_track_addresses = Vec::new();
        self.focused_track_address = None;
        self.legacy_selected_tracks = Vec::new();
        self.legacy_focused_track = None;
        self.selected_gap_address = None;
        self.legacy_selected_gap = None;
    }

    fn clear_all_selections(&mut self)
        ensures
            final(self).active_scope == old(self).active_scope,
            final(self).selected_item_addresses@.len() == 0,
            final(self).focused_item_address is None,
            final(self).legacy_selected_items@.len() == 0,
            final(self).legacy_focused_item is None,
            final(self).focused_transition is None,
            final(self).selected_track_addresses@.len() == 0,
            final(self).focused_track_address is None,
            final(self).legacy_selected_tracks@.len() == 0,
            final(self).legacy_focused_track is None,
            final(self).selected_gap_address is None,
            final(self).legacy_selected_gap is None,
    {
        self.legacy_selected_items = Vec::new();
        self.legacy_focused_item = None;
        self.clear_addresses_and_other_selections();
    }

    /// Selects items inside folded sequences by address, one of them (or none)
    /// focused. Reports whether anything changed.
    pub fn set_selected_nested_items(
        &mut self,
        items: Vec<ItemAddress>,
        focused: Option<ItemAddress>,
    ) -> (changed: bool)
        requires
            forall|i: int| 0 <= i < items@.len() ==> (#[trigger] items@[i])@.sequence_path.len() > 0,
            focused matches Some(f) ==> item_views(items@).contains(f@),
        ensures
            changed == !select_nested_items_is_noop(old(self)@, item_views(items@), item_view(focused)),
            changed ==> final(self)@ == after_select_nested_items(
                old(self)@,
                item_views(items@),
                item_view(focused),
            ),
            !changed ==> final(self)@ == old(self)@,
            selection_well_formed(old(self)@) ==> selection_well_formed(final(self)@),
    {
        if item_address_lists_equal(&self.selected_item_addresses, &items)
            && optional_items_equal(&self.focused_item_address, &focused)
            && self.legacy_selected_items.len() == 0 && self.legacy_focused_item.is_none()
            && self.selected_track_addresses.len() == 0 && self.focused_track_address.is_none()
            && self.legacy_selected_tracks.len() == 0 && self.legacy_focused_track.is_none()
            && self.selected_gap_address.is_none() && self.legacy_selected_gap.is_none() {
            return false;
        }
        self.clear_all_selections();
        self.selected_item_addresses = items;
        self.focused_item_address = focused;
        proof {
            assert(self@ =~= after_select_nested_items(old(self)@, item_views(items@), item_view(focused)));
        }
        true
    }

    /// Selects items by address, one of them (or none) focused. `scope` is the
    /// sequence scope the items share (absent for an empty selection), and
    /// `legacy_items`/`legacy_focused` their root-timeline positions where they
    /// have them. Reports whether anything changed.
    pub fn set_selected_item_addresses(
        &mut self,
        items: Vec<ItemAddress>,
        focused: Option<ItemAddress>,
        scope: Option<SequenceScopeId>,
        legacy_items: Vec<ItemKey>,
        legacy_focused: Option<ItemKey>,
    ) -> (changed: bool)
        requires
            focused matches Some(f) ==> item_views(items@).contains(f@),
        ensures
            changed == !select_item_addresses_is_noop(
                old(self)@,
                item_views(items@),
                item_view(focused),
                legacy_items@,
                legacy_focused,
            ),
            changed ==> final(self)@ == after_select_item_addresses(
                old(self)@,
                item_views(items@),
                item_view(focused),
                match scope {
                    Some(s) => Some(s@),
                    None => None,
                },
                legacy_items@,
                legacy_focused,
            ),
            !changed ==> final(self)@ == old(self)@,
            selection_well_formed(old(self)@) ==> selection_well_formed(final(self)@),
    {
        if item_address_lists_equal(&self.selected_item_addresses, &items)
            && optional_items_equal(&self.focused_item_address, &focused)
            && item_keys_equal(&self.legacy_selected_items, &legacy_items)
            && self.legacy_focused_item == legacy_focused && self.focused_transition.is_none()
            && self.selected_track_addresses.len() == 0 && self.focused_track_address.is_none()
            && self.legacy_selected_tracks.len() == 0 && self.legacy_focused_track.is_none()
            && self.selected_gap_address.is_none() && self.legacy_selected_gap.is_none() {
            return false;
        }
        match scope {
            Some(scope) => {
                self.active_scope = scope;
            },
            None => {},
        }
        self.clear_all_selections();
        self.selected_item_addresses = items;
        self.focused_item_address = focused;
        self.legacy_selected_items = legacy_items;
        self.legacy_focused_item = legacy_focused;
        proof {
            assert(self@ =~= after_select_item_addresses(old(self)@, item_views(items@), item_view(focused), match scope { Some(s) => Some(s@), None => None }, legacy_items@, legacy_focused));
        }
        true
    }

    /// Selects root-timeline tracks by position, one of them (or none) focused.
    /// Selecting tracks leaves the nested scope. Reports whether anything changed.
    pub fn set_selected_tracks(&mut self, tracks: Vec<TrackKey>, focused: Option<TrackKey>) -> (changed:
        bool)
        requires
            focused matches Some(f) ==> tracks@.contains(f),
        ensures
            changed == !select_tracks_is_noop(old(self)@, tracks@, focused),
            changed ==> final(self)@ == after_select_tracks(old(self)@, tracks@, focused),
            !changed ==> final(self)@ == old(self)@,
            selection_well_formed(old(self)@) ==> selection_well_formed(final(self)@),
    {
        if track_keys_equal(&self.legacy_selected_tracks, &tracks) && self.legacy_focused_track
            == focused && self.selected_track_addresses.len() == 0
            && self.focused_track_address.is_none() && self.selected_item_addresses.len() == 0
            && self.focused_item_address.is_none() && self.legacy_selected_items.len() == 0
            && self.legacy_focused_item.is_none() && self.selected_gap_address.is_none()
            && self.legacy_selected_gap.is_none() {
            return false;
        }
        if tracks.len() > 0 {
            self.active_scope = SequenceScopeId::root();
        }
        self.clear_all_selections();
        self.legacy_selected_tracks = tracks;
        self.legacy_focused_track = focused;
        proof {
            assert(self@ =~= after_select_tracks(old(self)@, tracks@, focused));
        }
        true
    }

    /// Selects tracks by address, one of them (or none) focused. `scope` is the
    /// sequence scope the tracks share (absent for an empty selection), and
    /// `legacy_tracks`/`legacy_focused` their root-timeline positions where they
    /// have them. Reports whether anything changed.
    pub fn set_selected_track_addresses(
        &mut self,
        tracks: Vec<TrackAddress>,
        focused: Option<TrackAddress>,
        scope: Option<SequenceScopeId>,
        legacy_tracks: Vec<TrackKey>,
        legacy_focused: Option<TrackKey>,
    ) -> (changed: bool)
        requires
            focused matches Some(f) ==> track_views(tracks@).contains(f@),
        ensures
            changed == !select_track_addresses_is_noop(
                old(self)@,
                track_views(tracks@),
                track_view(focused),
                legacy_tracks@,
                legacy_focused,
            ),
            changed ==> final(self)@ == after_select_track_addresses(
                old(self)@,
                track_views(tracks@),
                track_view(focused),
                match scope {
                    Some(s) => Some(s@),
                    None => None,
                },
                legacy_tracks@,
                legacy_focused,
            ),
            !changed ==> final(self)@ == old(self)@,
            selection_well_formed(old(self)@) ==> selection_well_formed(final(self)@),
    {
        if track_address_lists_equal(&self.selected_track_addresses, &tracks)
            && optional_tracks_equal(&self.focused_track_address, &focused)
            && track_keys_equal(&self.legacy_selected_tracks, &legacy_tracks)
            && self.legacy_focused_track == legacy_focused && self.selected_item_addresses.len()
            == 0 && self.focused_item_address.is_none() && self.legacy_selected_items.len() == 0
            && self.legacy_focused_item.is_none() && self.selected_gap_address.is_none()
            && self.legacy_selected_gap.is_none() {
            return false;
        }
        match scope {
            Some(scope) => {
                self.active_scope = scope;
            },
            None => {},
        }
        self.clear_all_selections();
        self.selected_track_addresses = tracks;
        self.focused_track_address = focused;
        self.legacy_selected_tracks = legacy_tracks;
        self.legacy_focused_track = legacy_focused;
        proof {
            assert(self@ =~= after_select_track_addresses(old(self)@, track_views(tracks@), track_view(focused), match scope { Some(s) => Some(s@), None => None }, legacy_tracks@, legacy_focused));
        }
        true
    }

    /// Selects a root-timeline gap (or clears it). Selecting a gap leaves the
    /// nested scope. Reports whether anything changed.
    pub fn set_selected_gap(&mut self, gap: Option<TrackGap>) -> (changed: bool)
        requires
            gap_positive(gap),
        ensures
            changed == !select_gap_is_noop(old(self)@, gap),
            changed ==> final(self)@ == after_select_gap(old(self)@, gap),
            !changed ==> final(self)@ == old(self)@,
            selection_well_formed(old(self)@) ==> selection_well_formed(final(self)@),
    {
        if optional_gaps_equal(&self.legacy_selected_gap, &gap) && self.selected_gap_address.is_none()
            && self.selected_item_addresses.len() == 0 && self.focused_item_address.is_none()
            && self.legacy_selected_items.len() == 0 && self.legacy_focused_item.is_none()
            && self.focused_transition.is_none() && self.selected_track_addresses.len() == 0
            && self.focused_track_address.is_none() && self.legacy_selected_tracks.len() == 0
            && self.legacy_focused_track.is_none() {
            return false;
        }
        if gap.is_some() {
            self.active_scope = SequenceScopeId::root();
        }
        self.clear_all_selections();
        self.legacy_selected_gap = gap;
        proof {
            assert(self@ =~= after_select_gap(old(self)@, gap));
        }
        true
    }

    /// Selects a gap by address (or clears it). `scope` is the gap track's
    /// sequence scope (absent when clearing), and `legacy_gap` the gap by
    /// root-timeline position when its track has one. Reports whether anything
    /// changed.
    pub fn set_selected_gap_address(
        &mut self,
        gap: Option<TrackAddressGap>,
        scope: Option<SequenceScopeId>,
        legacy_gap: Option<TrackGap>,
    ) -> (changed: bool)
        requires
            address_gap_positive(gap),
            gap_positive(legacy_gap),
        ensures
            changed == !select_gap_address_is_noop(old(self)@, gap, legacy_gap),
            changed ==> final(self)@ == after_select_gap_address(
                old(self)@,
                gap,
                match scope {
                    Some(s) => Some(s@),
                    None => None,
                },
                legacy_gap,
            ),
            !changed ==> final(self)@ == old(self)@,
            selection_well_formed(old(self)@) ==> selection_well_formed(final(self)@),
    {
        if optional_address_gaps_equal(&self.selected_gap_address, &gap) && optional_gaps_equal(
            &self.legacy_selected_gap,
            &legacy_gap,
        ) && self.selected_item_addresses.len() == 0 && self.focused_item_address.is_none()
            && self.legacy_selected_items.len() == 0 && self.legacy_focused_item.is_none()
            && self.focused_transition.is_none() && self.selected_track_addresses.len() == 0
            && self.focused_track_address.is_none() && self.legacy_selected_tracks.len() == 0
            && self.legacy_focused_track.is_none() {
            return false;
        }
        match scope {
            Some(scope) => {
                self.active_scope = scope;
            },
            None => {},
        }
        self.clear_all_selections();
        self.selected_gap_address = gap;
        self.legacy_selected_gap = legacy_gap;
        proof {
            assert(self@ =~= after_select_gap_address(old(self)@, gap, match scope { Some(s) => Some(s@), None => None }, legacy_gap));
        }
        true
    }
}

/// An instant is the same as itself.
proof fn lemma_same_reflexive(t: Time)
    ensures
        t.same(t),
{
}

/// Selecting the same root-timeline items again changes nothing.
pub proof fn lemma_select_items_twice(s: SelectionView, items: Seq<ItemKey>, focused: Option<ItemKey>)
    ensures
        select_items_is_noop(after_select_items(s, items, focused), items, focused),
{
}

/// Selecting the same nested items again changes nothing.
pub proof fn lemma_select_nested_items_twice(
    s: SelectionView,
    items: Seq<ItemAddressView>,
    focused: Option<ItemAddressView>,
)
    ensures
        select_nested_items_is_noop(after_select_nested_items(s, items, focused), items, focused),
{
}

/// Selecting the same items by address again changes nothing.
pub proof fn lemma_select_item_addresses_twice(
    s: SelectionView,
    items: Seq<ItemAddressView>,
    focused: Option<ItemAddressView>,
    scope: Option<Seq<ObjectId>>,
    legacy_items: Seq<ItemKey>,
    legacy_focused: Option<ItemKey>,
)
    ensures
        select_item_addresses_is_noop(
            after_select_item_addresses(s, items, focused, scope, legacy_items, legacy_focused),
            items,
            focused,
            legacy_items,
            legacy_focused,
        ),
{
}

/// Selecting the same root-timeline tracks again changes nothing.
pub proof fn lemma_select_tracks_twice(s: SelectionView, tracks: Seq<TrackKey>, focused: Option<TrackKey>)
    ensures
        select_tracks_is_noop(after_select_tracks(s, tracks, focused), tracks, focused),
{
}

/// Selecting the same gap again changes nothing.
pub proof fn lemma_select_gap_twice(s: SelectionView, gap: Option<TrackGap>)
    ensures
        select_gap_is_noop(after_select_gap(s, gap), gap),
{
    if let Some(g) = gap {
        lemma_same_reflexive(g.start);
        lemma_same_reflexive(g.end);
    }
}

/// Selecting items drops any selected tracks or gap, selecting tracks drops any
/// selected items or gap, and selecting a gap drops any selected items or tracks.
pub proof fn lemma_selection_kinds_exclusive(
    s: SelectionView,
    items: Seq<ItemKey>,
    focused_item: Option<ItemKey>,
    tracks: Seq<TrackKey>,
    focused_track: Option<TrackKey>,
    gap: Option<TrackGap>,
)
    ensures
        no_tracks(after_select_items(s, items, focused_item)) && no_gap(after_select_items(s, items, focused_item)),
        no_items(after_select_tracks(s, tracks, focused_track)) && no_gap(after_select_tracks(s, tracks, focused_track)),
        no_items(after_select_gap(s, gap)) && no_tracks(after_select_gap(s, gap)),
{
}

} // verus!
