use vstd::prelude::*;

pub mod audio_export;
pub mod clip_query;
pub mod comment;
pub mod comment_import;
pub mod counter;
pub mod diagnostics;
pub mod edit_requests;
pub mod font_browser;
pub mod font_family;
pub mod frames;
pub mod inspector;
pub mod int_parse;
pub mod item_address;
pub mod keyframe_marker;
pub mod lex;
pub mod marker_projection;
pub mod mlt_values;
pub mod media_info;
pub mod numfmt;
pub mod producer;
pub mod project_settings;
pub mod property_transfer;
pub mod selection;
pub mod sequence_nesting;
pub mod tags;
pub mod text;
pub mod time;
pub mod timeline_edit;
pub mod timeline_search;

verus! {
} // verus!
