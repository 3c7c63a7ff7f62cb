use vstd::prelude::*;

verus! {

/// The identifier of a track, an item or a folded-sequence instance: the 128
/// bits of its UUID.
#[derive(Clone, Copy, Debug, PartialEq, Eq, Structural, Hash)]
pub struct ObjectId(pub u128);

/// A fresh random identifier (UUID version 4).
///
/// Calls `uuid::Uuid::new_v4` and returns its 128 bits. Nothing is promised of
/// the value: it is random.
#[verifier::external_body]
pub(crate) fn random_object_id() -> ObjectId {
    ObjectId(uuid::Uuid::new_v4().as_u128())
}

/// A copy of a list of identifiers.
pub fn copy_ids(ids: &Vec<ObjectId>) -> (copy: Vec<ObjectId>)
    ensures
        copy@ == ids@,
{
    let mut copy: Vec<ObjectId> = Vec::new();
    let mut i: usize = 0;
    while i < ids.len()
        invariant
            i <= ids@.len(),
            copy@ == ids@.subrange(0, i as int),
        decreases ids@.len() - i,
    {
        copy.push(ids[i]);
        i = i + 1;
    }
    proof {
        assert(ids@.subrange(0, ids@.len() as int) == ids@);
    }
    copy
}

/// The four kinds of timeline tracks and items.
#[derive(Clone, Copy, Debug, PartialEq, Eq, Structural, Hash)]
pub enum ItemKind {
    Comment,
    Caption,
    Video,
    Audio,
}

/// The logical nesting of shared folded-sequence instances: the instance IDs
/// from the root timeline inward. The root timeline is the empty list.
#[derive(Debug, PartialEq, Eq, Hash)]
pub struct SequenceScopeId {
    instance_ids: Vec<ObjectId>,
}

impl View for SequenceScopeId {
    type V = Seq<ObjectId>;

    closed spec fn view(&self) -> Seq<ObjectId> {
        self.instance_ids@
    }
}

impl Clone for SequenceScopeId {
    fn clone(&self) -> (copy: SequenceScopeId)
        ensures
            copy@ == self@,
    {
        SequenceScopeId { instance_ids: copy_ids(&self.instance_ids) }
    }
}

impl SequenceScopeId {
    /// The root timeline.
    pub fn root() -> (scope: SequenceScopeId)
        ensures
            scope@ == Seq::<ObjectId>::empty(),
    {
        SequenceScopeId { instance_ids: Vec::new() }
    }

    pub fn from_instance_ids(instance_ids: Vec<ObjectId>) -> (scope: SequenceScopeId)
        ensures
            scope@ == instance_ids@,
    {
        SequenceScopeId { instance_ids }
    }

    pub fn instance_ids(&self) -> (ids: &[ObjectId])
        ensures
            ids@ == self@,
    {
        self.instance_ids.as_slice()
    }

    pub fn is_root(&self) -> (root: bool)
        ensures
            root == (self@.len() == 0),
    {
        self.instance_ids.len() == 0
    }

    /// The enclosing scope, or `None` at the root.
    pub fn parent(&self) -> (parent: Option<SequenceScopeId>)
        ensures
            self@.len() == 0 ==> parent is None,
            self@.len() > 0 ==> (parent matches Some(p) && p@ == self@.drop_last()),
    {
        if self.instance_ids.len() == 0 {
            None
        } else {
            let mut ids = copy_ids(&self.instance_ids);
            ids.pop();
            Some(SequenceScopeId { instance_ids: ids })
        }
    }

    /// The scope of the given instance nested directly inside `self`.
    pub fn child(&self, instance_id: ObjectId) -> (child: SequenceScopeId)
        ensures
            child@ == self@.push(instance_id),
    {
        let mut ids = copy_ids(&self.instance_ids);
        ids.push(instance_id);
        SequenceScopeId { instance_ids: ids }
    }
}

/// Going into a child scope and back out returns to the starting scope.
pub proof fn lemma_child_parent(scope: Seq<ObjectId>, instance_id: ObjectId)
    ensures
        scope.push(instance_id).drop_last() == scope,
        scope.push(instance_id).len() > 0,
{
    assert(scope.push(instance_id).drop_last() =~= scope);
}

/// Where a track lives: comment and caption tracks sit on the root timeline;
/// video and audio tracks may sit inside nested folded sequences.
#[derive(Clone, Debug, PartialEq, Eq, Hash)]
pub enum TrackAddress {
    Comment { track_id: ObjectId },
    Caption { track_id: ObjectId },
    Video { sequence_path: Vec<ObjectId>, track_id: ObjectId },
    Audio { sequence_path: Vec<ObjectId>, track_id: ObjectId },
}

/// Where an item lives: its track's address and its own identifier.
#[derive(Clone, Debug, PartialEq, Eq, Hash)]
pub enum ItemAddress {
    Comment { track_id: ObjectId, item_id: ObjectId },
    Caption { track_id: ObjectId, item_id: ObjectId },
    Video { sequence_path: Vec<ObjectId>, track_id: ObjectId, item_id: ObjectId },
    Audio { sequence_path: Vec<ObjectId>, track_id: ObjectId, item_id: ObjectId },
}

/// The plain value of a track address: kind, sequence path and track.
pub struct TrackAddressView {
    pub kind: ItemKind,
    pub sequence_path: Seq<ObjectId>,
    pub track_id: ObjectId,
}

/// The plain value of an item address: kind, sequence path, track and item.
pub struct ItemAddressView {
    pub kind: ItemKind,
    pub sequence_path: Seq<ObjectId>,
    pub track_id: ObjectId,
    pub item_id: ObjectId,
}

impl View for TrackAddress {
    type V = TrackAddressView;

    open spec fn view(&self) -> TrackAddressView {
        match self {
            TrackAddress::Comment { track_id } => TrackAddressView {
                kind: ItemKind::Comment,
                sequence_path: Seq::empty(),
                track_id: *track_id,
            },
            TrackAddress::Caption { track_id } => TrackAddressView {
                kind: ItemKind::Caption,
                sequence_path: Seq::empty(),
                track_id: *track_id,
            },
            TrackAddress::Video { sequence_path, track_id } => TrackAddressView {
                kind: ItemKind::Video,
                sequence_path: sequence_path@,
                track_id: *track_id,
            },
            TrackAddress::Audio { sequence_path, track_id } => TrackAddressView {
                kind: ItemKind::Audio,
                sequence_path: sequence_path@,
                track_id: *track_id,
            },
        }
    }
}

impl View for ItemAddress {
    type V = ItemAddressView;

    open spec fn view(&self) -> ItemAddressView {
        match self {
            ItemAddress::Comment { track_id, item_id } => ItemAddressView {
                kind: ItemKind::Comment,
                sequence_path: Seq::empty(),
                track_id: *track_id,
                item_id: *item_id,
            },
            ItemAddress::Caption { track_id, item_id } => ItemAddressView {
                kind: ItemKind::Caption,
                sequence_path: Seq::empty(),
                track_id: *track_id,
                item_id: *item_id,
            },
            ItemAddress::Video { sequence_path, track_id, item_id } => ItemAddressView {
                kind: ItemKind::Video,
                sequence_path: sequence_path@,
                track_id: *track_id,
                item_id: *item_id,
            },
            ItemAddress::Audio { sequence_path, track_id, item_id } => ItemAddressView {
                kind: ItemKind::Audio,
                sequence_path: sequence_path@,
                track_id: *track_id,
                item_id: *item_id,
            },
        }
    }
}

/// An address whose kind is comment or caption has an empty sequence path.
pub open spec fn root_only_kind_has_empty_path(
    kind: ItemKind,
    sequence_path: Seq<ObjectId>,
) -> bool {
    (kind == ItemKind::Comment || kind == ItemKind::Caption) ==> sequence_path.len() == 0
}

impl TrackAddress {
    pub fn kind(&self) -> (kind: ItemKind)
        ensures
            kind == self@.kind,
    {
        match self {
            TrackAddress::Comment { .. } => ItemKind::Comment,
            TrackAddress::Caption { .. } => ItemKind::Caption,
            TrackAddress::Video { .. } => ItemKind::Video,
            TrackAddress::Audio { .. } => ItemKind::Audio,
        }
    }

    pub fn sequence_path(&self) -> (path: &[ObjectId])
        ensures
            path@ == self@.sequence_path,
    {
        match self {
            TrackAddress::Comment { .. } => &[],
            TrackAddress::Caption { .. } => &[],
            TrackAddress::Video { sequence_path, .. } => sequence_path.as_slice(),
            TrackAddress::Audio { sequence_path, .. } => sequence_path.as_slice(),
        }
    }

    pub fn track_id(&self) -> (id: ObjectId)
        ensures
            id == self@.track_id,
    {
        match self {
            TrackAddress::Comment { track_id } => *track_id,
            TrackAddress::Caption { track_id } => *track_id,
            TrackAddress::Video { track_id, .. } => *track_id,
            TrackAddress::Audio { track_id, .. } => *track_id,
        }
    }

    pub fn is_root(&self) -> (root: bool)
        ensures
            root == (self@.sequence_path.len() == 0),
    {
        self.sequence_path().len() == 0
    }

    /// The address of the item with the given identifier on this track.
    pub fn item(&self, item_id: ObjectId) -> (address: ItemAddress)
        ensures
            address@.kind == self@.kind,
            address@.sequence_path == self@.sequence_path,
            address@.track_id == self@.track_id,
            address@.item_id == item_id,
    {
        match self {
            TrackAddress::Comment { track_id } => ItemAddress::Comment {
                track_id: *track_id,
                item_id,
            },
            TrackAddress::Caption { track_id } => ItemAddress::Caption {
                track_id: *track_id,
                item_id,
            },
            TrackAddress::Video { sequence_path, track_id } => ItemAddress::Video {
                sequence_path: copy_ids(sequence_path),
                track_id: *track_id,
                item_id,
            },
            TrackAddress::Audio { sequence_path, track_id } => ItemAddress::Audio {
                sequence_path: copy_ids(sequence_path),
                track_id: *track_id,
                item_id,
            },
        }
    }
}

impl ItemAddress {
    pub fn kind(&self) -> (kind: ItemKind)
        ensures
            kind == self@.kind,
    {
        match self {
            ItemAddress::Comment { .. } => ItemKind::Comment,
            ItemAddress::Caption { .. } => ItemKind::Caption,
            ItemAddress::Video { .. } => ItemKind::Video,
            ItemAddress::Audio { .. } => ItemKind::Audio,
        }
    }

    /// The address of the track holding this item.
    pub fn track(&self) -> (track: TrackAddress)
        ensures
            track@.kind == self@.kind,
            track@.sequence_path == self@.sequence_path,
            track@.track_id == self@.track_id,
    {
        match self {
            ItemAddress::Comment { track_id, .. } => TrackAddress::Comment { track_id: *track_id },
            ItemAddress::Caption { track_id, .. } => TrackAddress::Caption { track_id: *track_id },
            ItemAddress::Video { sequence_path, track_id, .. } => TrackAddress::Video {
                sequence_path: copy_ids(sequence_path),
                track_id: *track_id,
            },
            ItemAddress::Audio { sequence_path, track_id, .. } => TrackAddress::Audio {
                sequence_path: copy_ids(sequence_path),
                track_id: *track_id,
            },
        }
    }

    pub fn sequence_path(&self) -> (path: &[ObjectId])
        ensures
            path@ == self@.sequence_path,
    {
        match self {
            ItemAddress::Comment { .. } => &[],
            ItemAddress::Caption { .. } => &[],
            ItemAddress::Video { sequence_path, .. } => sequence_path.as_slice(),
            ItemAddress::Audio { sequence_path, .. } => sequence_path.as_slice(),
        }
    }

    pub fn track_id(&self) -> (id: ObjectId)
        ensures
            id == self@.track_id,
    {
        match self {
            ItemAddress::Comment { track_id, .. } => *track_id,
            ItemAddress::Caption { track_id, .. } => *track_id,
            ItemAddress::Video { track_id, .. } => *track_id,
            ItemAddress::Audio { track_id, .. } => *track_id,
        }
    }

    pub fn item_id(&self) -> (id: ObjectId)
        ensures
            id == self@.item_id,
    {
        match self {
            ItemAddress::Comment { item_id, .. } => *item_id,
            ItemAddress::Caption { item_id, .. } => *item_id,
            ItemAddress::Video { item_id, .. } => *item_id,
            ItemAddress::Audio { item_id, .. } => *item_id,
        }
    }

    pub fn is_root(&self) -> (root: bool)
        ensures
            root == (self@.sequence_path.len() == 0),
    {
        self.sequence_path().len() == 0
    }
}

/// Every track address of a comment or caption track sits on the root timeline.
pub proof fn lemma_track_address_root_kinds(address: TrackAddress)
    ensures
        root_only_kind_has_empty_path(address@.kind, address@.sequence_path),
{
}

/// Every item address of a comment or caption item sits on the root timeline.
pub proof fn lemma_item_address_root_kinds(address: ItemAddress)
    ensures
        root_only_kind_has_empty_path(address@.kind, address@.sequence_path),
{
}

} // verus!
