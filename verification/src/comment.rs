use vstd::prelude::*;

use crate::item_address::{random_object_id, ObjectId};
use crate::time::Time;

verus! {

/// The colour a comment is shown with on the timeline.
#[derive(Clone, Copy, Debug, PartialEq, Eq, Structural, Hash)]
pub enum CommentColor {
    Red,
    Orange,
    Yellow,
    Green,
    Blue,
    Purple,
}

/// The label shown for each comment colour.
pub open spec fn comment_color_label(color: CommentColor) -> Seq<char> {
    match color {
        CommentColor::Red => "Red"@,
        CommentColor::Orange => "Orange"@,
        CommentColor::Yellow => "Yellow"@,
        CommentColor::Green => "Green"@,
        CommentColor::Blue => "Blue"@,
        CommentColor::Purple => "Purple"@,
    }
}

impl CommentColor {
    /// Every colour, in palette order.
    pub const ALL: [CommentColor; 6] = [
        CommentColor::Red,
        CommentColor::Orange,
        CommentColor::Yellow,
        CommentColor::Green,
        CommentColor::Blue,
        CommentColor::Purple,
    ];

    /// The human readable name of the colour.
    pub fn label(self) -> (label: &'static str)
        ensures
            label@ == comment_color_label(self),
    {
        match self {
            CommentColor::Red => "Red",
            CommentColor::Orange => "Orange",
            CommentColor::Yellow => "Yellow",
            CommentColor::Green => "Green",
            CommentColor::Blue => "Blue",
            CommentColor::Purple => "Purple",
        }
    }
}

impl Default for CommentColor {
    /// New comments are yellow.
    fn default() -> (color: CommentColor)
        ensures
            color == CommentColor::Yellow,
    {
        CommentColor::Yellow
    }
}

/// A text note placed on a comment track between two instants.
#[derive(Clone, Debug)]
pub struct CommentItem {
    pub id: ObjectId,
    pub start: Time,
    pub end: Time,
    pub text: String,
    pub color: CommentColor,
    pub group_id: Option<u64>,
}

impl CommentItem {
    /// A new yellow, ungrouped comment with a fresh random identifier.
    pub fn new(start: Time, end: Time, text: String) -> (item: CommentItem)
        ensures
            item.start == start,
            item.end == end,
            item.text@ == text@,
            item.color == CommentColor::Yellow,
            item.group_id is None,
    {
        CommentItem {
            id: random_object_id(),
            start,
            end,
            text,
            color: CommentColor::Yellow,
            group_id: None,
        }
    }
}

/// A track of comments.
#[derive(Clone, Debug)]
pub struct CommentTrack {
    pub id: ObjectId,
    pub enabled: bool,
    pub items: Vec<CommentItem>,
}

impl Default for CommentTrack {
    /// An enabled, empty track with a fresh random identifier.
    fn default() -> (track: CommentTrack)
        ensures
            track.enabled,
            track.items@.len() == 0,
    {
        CommentTrack { id: random_object_id(), enabled: true, items: Vec::new() }
    }
}

} // verus!
