use vstd::prelude::*;

use crate::item_address::{ItemKind, TrackAddress};
use crate::numfmt::{decimal, decimal_string};

verus! {

/// The kind of transition shown in the inspector.
#[derive(Clone, Copy, Debug, PartialEq, Eq, Structural)]
pub enum TransitionType {
    Visual,
    Audio,
    VisualClip,
    AudioClip,
}

/// The icon of an inspector category.
#[derive(Clone, Copy, Debug, PartialEq, Eq, Structural)]
pub enum CategoryIcon {
    Project,
    Track,
    Text,
    Visual,
    Audio,
    Playback,
    Info,
    Performance,
    Transition,
}

/// Which end of an item a transition belongs to.
#[derive(Clone, Copy, Debug, PartialEq, Eq, Structural)]
pub enum TransitionSide {
    Intro,
    Outro,
}

/// A transition edit must name the undo step it is recorded as.
pub fn validate_commit_name(commit_name: &str) -> (result: Result<(), String>)
    ensures
        result is Ok <==> commit_name@.len() > 0,
        result matches Err(message) ==> message@ == "transition edit has no commit name"@,
{
    if commit_name.unicode_len() == 0 {
        Err("transition edit has no commit name".to_owned())
    } else {
        Ok(())
    }
}

/// The label of a side in the transition section's title.
pub fn side_title(side: TransitionSide) -> (title: &'static str)
    ensures
        title@ == (match side {
            TransitionSide::Intro => "Intro"@,
            TransitionSide::Outro => "Outro"@,
        }),
{
    match side {
        TransitionSide::Intro => "Intro",
        TransitionSide::Outro => "Outro",
    }
}

/// One labelled line of the inspector's details.
#[derive(Clone, Debug, PartialEq, Eq)]
pub struct InspectorDetail {
    pub label: &'static str,
    pub value: String,
}

/// What the inspector shows for a track.
#[derive(Clone, Debug, PartialEq, Eq)]
pub struct TrackPresentation {
    pub address: TrackAddress,
    pub kind: ItemKind,
    /// The position of the track among the tracks of its kind, from zero.
    pub ordinal: usize,
    pub enabled: bool,
    pub language: Option<String>,
    pub item_count: usize,
}

/// The title of a track of each kind.
pub open spec fn track_title(kind: ItemKind) -> Seq<char> {
    match kind {
        ItemKind::Video => "Video Track"@,
        ItemKind::Comment => "Comment Track"@,
        ItemKind::Caption => "Caption Track"@,
        ItemKind::Audio => "Audio Track"@,
    }
}

impl TrackPresentation {
    /// The track's title, by kind.
    pub fn title(&self) -> (title: &'static str)
        ensures
            title@ == track_title(self.kind),
    {
        match self.kind {
            ItemKind::Video => "Video Track",
            ItemKind::Comment => "Comment Track",
            ItemKind::Caption => "Caption Track",
            ItemKind::Audio => "Audio Track",
        }
    }

    /// The track's type, its number counted from one, and its item count.
    pub fn details(&self) -> (details: Vec<InspectorDetail>)
        requires
            self.ordinal < usize::MAX,
        ensures
            details@.len() == 3,
            details@[0].label@ == "Type"@ && details@[0].value@ == track_title(self.kind),
            details@[1].label@ == "Track"@ && details@[1].value@ == decimal(self.ordinal as nat + 1),
            details@[2].label@ == "Items"@ && details@[2].value@ == decimal(self.item_count as nat),
    {
        let mut details: Vec<InspectorDetail> = Vec::new();
        details.push(InspectorDetail { label: "Type", value: self.title().to_owned() });
        details.push(InspectorDetail { label: "Track", value: decimal_string((self.ordinal + 1) as u64) });
        details.push(InspectorDetail { label: "Items", value: decimal_string(self.item_count as u64) });
        details
    }
}

/// The choices of vector transition, as (value, label) pairs; the first and
/// last depend on the side.
pub open spec fn vector_choices_spec(side: TransitionSide) -> Seq<(Seq<char>, Seq<char>)> {
    seq![
        ("write"@, if side == TransitionSide::Intro { "Write"@ } else { "Unwrite"@ }),
        ("create"@, "Create"@),
        ("facet_assembly"@, "Facet Assembly"@),
        ("coalesce"@, "Coalesce"@),
        ("contour_current"@, "Contour Current"@),
        ("soft_refraction"@, "Soft Refraction"@),
        ("morphological_resolve"@, "Morphological Resolve"@),
        ("living_fill"@, "Living Fill"@),
        if side == TransitionSide::Intro {
            ("reverse_diffusion"@, "Reverse Diffusion"@)
        } else {
            ("diffusion"@, "Diffusion"@)
        },
    ]
}

/// The (value, label) pairs of the vector transition choices.
pub open spec fn choice_views(choices: Seq<(String, String)>) -> Seq<(Seq<char>, Seq<char>)> {
    choices.map_values(|c: (String, String)| (c.0@, c.1@))
}

fn push_choice(choices: &mut Vec<(String, String)>, value: &str, label: &str)
    ensures
        choice_views(final(choices)@) == choice_views(old(choices)@).push((value@, label@)),
{
    choices.push((value.to_owned(), label.to_owned()));
    proof {
        assert(choice_views(final(choices)@) =~= choice_views(old(choices)@).push((value@, label@)));
    }
}

/// The vector transitions offered for a side of an item.
pub fn vector_transition_choices(side: TransitionSide) -> (choices: Vec<(String, String)>)
    ensures
        choice_views(choices@) == vector_choices_spec(side),
{
    let write = match side {
        TransitionSide::Intro => "Write",
        TransitionSide::Outro => "Unwrite",
    };
    let (diffusion_value, diffusion_label) = match side {
        TransitionSide::Intro => ("reverse_diffusion", "Reverse Diffusion"),
        TransitionSide::Outro => ("diffusion", "Diffusion"),
    };
    let mut choices: Vec<(String, String)> = Vec::new();
    push_choice(&mut choices, "write", write);
    push_choice(&mut choices, "create", "Create");
    push_choice(&mut choices, "facet_assembly", "Facet Assembly");
    push_choice(&mut choices, "coalesce", "Coalesce");
    push_choice(&mut choices, "contour_current", "Contour Current");
    push_choice(&mut choices, "soft_refraction", "Soft Refraction");
    push_choice(&mut choices, "morphological_resolve", "Morphological Resolve");
    push_choice(&mut choices, "living_fill", "Living Fill");
    push_choice(&mut choices, diffusion_value, diffusion_label);
    proof {
        assert(choice_views(choices@) =~= vector_choices_spec(side));
    }
    choices
}

} // verus!
