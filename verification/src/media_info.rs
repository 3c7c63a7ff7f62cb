use vstd::prelude::*;

use crate::numfmt::{decimal, push_decimal, push_signed_decimal, push_str, signed_decimal};
use crate::text::{str_eq, string_from_chars};

verus! {

/// The media information shown for a source file.
#[derive(Clone, Debug)]
pub struct MediaInfoPresentation {
    pub artwork: Option<MediaInfoArtwork>,
    pub groups: Vec<MediaInfoGroup>,
}

/// Embedded cover art.
#[derive(Clone, Debug)]
pub struct MediaInfoArtwork {
    pub data: Vec<u8>,
    pub mime_type: Option<String>,
}

/// A titled group of label/value rows, possibly about one stream of the file.
#[derive(Clone, Debug)]
pub struct MediaInfoGroup {
    pub title: String,
    pub rows: Vec<MediaInfoRow>,
    pub source: Option<SourceMetadata>,
}

/// One label/value row.
#[derive(Clone, Debug)]
pub struct MediaInfoRow {
    pub label: String,
    pub value: String,
}

/// Which stream of a file a group describes: the n-th video or the n-th audio
/// stream, or none.
#[derive(Clone, Copy, Debug, PartialEq, Eq, Structural, Hash)]
pub enum SourceMetadata {
    NoStream,
    Video(u32),
    Audio(u32),
}

/// The media file behind the inspected item and the stream it plays.
#[derive(Clone, Debug)]
pub struct InspectorMedia {
    pub path: String,
    pub revision: Option<u64>,
    pub selected: SourceMetadata,
}

impl MediaInfoGroup {
    /// An empty group about no particular stream.
    pub fn new(title: String) -> (group: MediaInfoGroup)
        ensures
            group.title@ == title@,
            group.rows@.len() == 0,
            group.source is None,
    {
        MediaInfoGroup { title, rows: Vec::new(), source: None }
    }

    /// An empty group about the given stream.
    pub fn for_stream(title: String, source: SourceMetadata) -> (group: MediaInfoGroup)
        ensures
            group.title@ == title@,
            group.rows@.len() == 0,
            group.source == Some(source),
    {
        MediaInfoGroup { title, rows: Vec::new(), source: Some(source) }
    }

    /// Adds a row at the end.
    pub fn add(&mut self, label: String, value: String)
        ensures
            final(self).title == old(self).title,
            final(self).source == old(self).source,
            final(self).rows@.len() == old(self).rows@.len() + 1,
            forall|i: int| 0 <= i < old(self).rows@.len() ==> final(self).rows@[i] == old(self).rows@[i],
            final(self).rows@.last().label@ == label@,
            final(self).rows@.last().value@ == value@,
    {
        self.rows.push(MediaInfoRow { label, value });
    }

    /// The title, marked as selected when the group describes the stream that
    /// the inspected item plays.
    pub fn display_title(&self, selected: SourceMetadata) -> (title: String)
        ensures
            title@ == (if self.source == Some(selected) && selected != SourceMetadata::NoStream {
                self.title@ + " · Selected"@
            } else {
                self.title@
            }),
    {
        if self.source == Some(selected) && selected != SourceMetadata::NoStream {
            let mut title = self.title.clone();
            title.append(" · Selected");
            title
        } else {
            self.title.clone()
        }
    }
}

/// "n" or "n of total".
pub open spec fn number_of_spec(value: u32, total: Option<u32>) -> Seq<char> {
    match total {
        Some(t) => decimal(value as nat) + " of "@ + decimal(t as nat),
        None => decimal(value as nat),
    }
}

/// A track or disc number, with the total when known.
pub fn number_of(value: u32, total: Option<u32>) -> (text: String)
    ensures
        text@ == number_of_spec(value, total),
{
    let mut out: Vec<char> = Vec::new();
    push_decimal(&mut out, value as u64);
    match total {
        Some(t) => {
            push_str(&mut out, " of ");
            push_decimal(&mut out, t as u64);
        },
        None => {},
    }
    string_from_chars(out.as_slice())
}

/// `whole.tenth unit` for `amount` in units of `unit_size`, truncating.
pub open spec fn scaled_spec(amount: nat, unit_size: nat, unit: Seq<char>) -> Seq<char> {
    decimal(amount / unit_size) + "."@ + decimal((amount % unit_size) * 10 / unit_size) + " "@ + unit
}

/// A bit rate with decimal units: `b/s` below a kilobit, then `kb/s`, `Mb/s`
/// and `Gb/s` with one truncated decimal. Negative rates show as zero.
pub open spec fn format_rate_spec(bits_per_second: i64) -> Seq<char> {
    let bits: nat = if bits_per_second < 0 { 0 } else { bits_per_second as nat };
    if bits >= 1_000_000_000 {
        scaled_spec(bits, 1_000_000_000, "Gb/s"@)
    } else if bits >= 1_000_000 {
        scaled_spec(bits, 1_000_000, "Mb/s"@)
    } else if bits >= 1_000 {
        scaled_spec(bits, 1_000, "kb/s"@)
    } else {
        decimal(bits) + " b/s"@
    }
}

/// A size with binary units: `B` below a kibibyte, then `KiB`, `MiB` and `GiB`
/// with one truncated decimal.
pub open spec fn format_bytes_spec(bytes: u64) -> Seq<char> {
    if bytes >= 1_073_741_824 {
        scaled_spec(bytes as nat, 1_073_741_824, "GiB"@)
    } else if bytes >= 1_048_576 {
        scaled_spec(bytes as nat, 1_048_576, "MiB"@)
    } else if bytes >= 1024 {
        scaled_spec(bytes as nat, 1024, "KiB"@)
    } else {
        decimal(bytes as nat) + " B"@
    }
}

fn push_scaled(out: &mut Vec<char>, amount: u64, unit_size: u64, unit: &str)
    requires
        0 < unit_size <= 1_073_741_824,
    ensures
        final(out)@ == old(out)@ + scaled_spec(amount as nat, unit_size as nat, unit@),
{
    push_decimal(out, amount / unit_size);
    push_str(out, ".");
    proof {
        assert((amount % unit_size) * 10 < 10_737_418_240) by (nonlinear_arith)
            requires
                0 < unit_size <= 1_073_741_824,
        ;
    }
    push_decimal(out, (amount % unit_size) * 10 / unit_size);
    push_str(out, " ");
    push_str(out, unit);
    proof {
        assert(final(out)@ =~= old(out)@ + scaled_spec(amount as nat, unit_size as nat, unit@));
    }
}

/// A bit rate for display.
pub fn format_rate(bits_per_second: i64) -> (text: String)
    ensures
        text@ == format_rate_spec(bits_per_second),
{
    let bits: u64 = if bits_per_second < 0 { 0 } else { bits_per_second as u64 };
    let mut out: Vec<char> = Vec::new();
    if bits >= 1_000_000_000 {
        push_scaled(&mut out, bits, 1_000_000_000, "Gb/s");
    } else if bits >= 1_000_000 {
        push_scaled(&mut out, bits, 1_000_000, "Mb/s");
    } else if bits >= 1_000 {
        push_scaled(&mut out, bits, 1_000, "kb/s");
    } else {
        push_decimal(&mut out, bits);
        push_str(&mut out, " b/s");
    }
    proof {
        assert(out@ =~= format_rate_spec(bits_per_second));
    }
    string_from_chars(out.as_slice())
}

/// A byte size for display.
pub fn format_bytes(bytes: u64) -> (text: String)
    ensures
        text@ == format_bytes_spec(bytes),
{
    let mut out: Vec<char> = Vec::new();
    if bytes >= 1_073_741_824 {
        push_scaled(&mut out, bytes, 1_073_741_824, "GiB");
    } else if bytes >= 1_048_576 {
        push_scaled(&mut out, bytes, 1_048_576, "MiB");
    } else if bytes >= 1024 {
        push_scaled(&mut out, bytes, 1024, "KiB");
    } else {
        push_decimal(&mut out, bytes);
        push_str(&mut out, " B");
    }
    proof {
        assert(out@ =~= format_bytes_spec(bytes));
    }
    string_from_chars(out.as_slice())
}

/// An exact rational, such as a stream's time base or frame rate.
#[derive(Clone, Copy, Debug, PartialEq, Eq, Structural)]
pub struct ExactRatio {
    pub numerator: i64,
    pub denominator: i64,
}

/// An exact time: a count of time-base units.
#[derive(Clone, Copy, Debug, PartialEq, Eq, Structural)]
pub struct ExactTime {
    pub value: i64,
    pub time_base: ExactRatio,
}

/// `n` for whole ratios, else `n/d`.
pub open spec fn format_ratio_spec(ratio: ExactRatio) -> Seq<char> {
    if ratio.denominator == 1 {
        signed_decimal(ratio.numerator as int)
    } else {
        signed_decimal(ratio.numerator as int) + "/"@ + signed_decimal(ratio.denominator as int)
    }
}

/// `value × time_base s`.
pub open spec fn format_time_spec(time: ExactTime) -> Seq<char> {
    signed_decimal(time.value as int) + " × "@ + format_ratio_spec(time.time_base) + " s"@
}

fn push_ratio(out: &mut Vec<char>, ratio: ExactRatio)
    ensures
        final(out)@ == old(out)@ + format_ratio_spec(ratio),
{
    push_signed_decimal(out, ratio.numerator);
    if ratio.denominator != 1 {
        push_str(out, "/");
        push_signed_decimal(out, ratio.denominator);
    }
    proof {
        assert(final(out)@ =~= old(out)@ + format_ratio_spec(ratio));
    }
}

/// A ratio for display.
pub fn format_ratio(ratio: ExactRatio) -> (text: String)
    ensures
        text@ == format_ratio_spec(ratio),
{
    let mut out: Vec<char> = Vec::new();
    push_ratio(&mut out, ratio);
    proof {
        assert(out@ =~= format_ratio_spec(ratio));
    }
    string_from_chars(out.as_slice())
}

/// An exact time for display.
pub fn format_time(time: ExactTime) -> (text: String)
    ensures
        text@ == format_time_spec(time),
{
    let mut out: Vec<char> = Vec::new();
    push_signed_decimal(&mut out, time.value);
    push_str(&mut out, " × ");
    push_ratio(&mut out, time.time_base);
    push_str(&mut out, " s");
    proof {
        assert(out@ =~= format_time_spec(time));
    }
    string_from_chars(out.as_slice())
}

/// The number of streams among `kinds` of the given kind.
pub open spec fn count_kind(kinds: Seq<Seq<char>>, kind: Seq<char>) -> nat
    decreases kinds.len(),
{
    if kinds.len() == 0 {
        0
    } else {
        count_kind(kinds.drop_last(), kind) + if kinds.last() == kind { 1nat } else { 0nat }
    }
}

/// `n` capped at `u32::MAX`.
pub open spec fn saturate_u32(n: nat) -> u32 {
    if n > u32::MAX {
        u32::MAX
    } else {
        n as u32
    }
}

/// Which stream the group for stream `i` describes: video and audio streams are
/// numbered by their order among streams of the same kind.
pub open spec fn stream_source(kinds: Seq<Seq<char>>, i: int) -> SourceMetadata {
    if kinds[i] == "video"@ {
        SourceMetadata::Video(saturate_u32(count_kind(kinds.subrange(0, i), "video"@)))
    } else if kinds[i] == "audio"@ {
        SourceMetadata::Audio(saturate_u32(count_kind(kinds.subrange(0, i), "audio"@)))
    } else {
        SourceMetadata::NoStream
    }
}

/// The texts of strings.
pub open spec fn string_views(strings: Seq<String>) -> Seq<Seq<char>> {
    strings.map_values(|s: String| s@)
}

/// The stream each group describes, for streams of the given kinds in file order.
pub fn stream_sources(kinds: &[String]) -> (sources: Vec<SourceMetadata>)
    ensures
        sources@.len() == kinds@.len(),
        forall|i: int| 0 <= i < kinds@.len() ==> #[trigger] sources@[i] == stream_source(
            string_views(kinds@),
            i,
        ),
{
    let ghost views = string_views(kinds@);
    let mut sources: Vec<SourceMetadata> = Vec::new();
    let mut video: u32 = 0;
    let mut audio: u32 = 0;
    let mut i: usize = 0;
    while i < kinds.len()
        invariant
            i <= kinds@.len(),
            views == string_views(kinds@),
            sources@.len() == i,
            video == saturate_u32(count_kind(views.subrange(0, i as int), "video"@)),
            audio == saturate_u32(count_kind(views.subrange(0, i as int), "audio"@)),
            forall|j: int| 0 <= j < i ==> #[trigger] sources@[j] == stream_source(views, j),
        decreases kinds@.len() - i,
    {
        let is_video = str_eq(kinds[i].as_str(), "video");
        let is_audio = str_eq(kinds[i].as_str(), "audio");
        proof {
            assert(views[i as int] == kinds@[i as int]@);
            assert(views.subrange(0, i + 1).drop_last() =~= views.subrange(0, i as int));
            assert(views.subrange(0, i + 1).last() == views[i as int]);
            assert("video"@ != "audio"@) by {
                reveal_strlit("video");
                reveal_strlit("audio");
                assert("video"@[0] != "audio"@[0]);
            }
        }
        if is_video {
            sources.push(SourceMetadata::Video(video));
            video = video.saturating_add(1);
        } else if is_audio {
            sources.push(SourceMetadata::Audio(audio));
            audio = audio.saturating_add(1);
        } else {
            sources.push(SourceMetadata::NoStream);
        }
        i = i + 1;
    }
    sources
}

/// The artwork shown first, given each artwork's picture type: the first
/// front cover, else the first picture.
pub fn primary_artwork(picture_types: &[String]) -> (index: Option<usize>)
    ensures
        index is None <==> picture_types@.len() == 0,
        index matches Some(i) ==> i < picture_types@.len() && forall|j: int|
            0 <= j < i ==> #[trigger] picture_types@[j]@ != "CoverFront"@,
        index matches Some(i) ==> (picture_types@[i as int]@ == "CoverFront"@ || (i == 0
            && forall|j: int| 0 <= j < picture_types@.len() ==> #[trigger] picture_types@[j]@
            != "CoverFront"@)),
{
    let mut i: usize = 0;
    while i < picture_types.len()
        invariant
            i <= picture_types@.len(),
            forall|j: int| 0 <= j < i ==> #[trigger] picture_types@[j]@ != "CoverFront"@,
        decreases picture_types@.len() - i,
    {
        if str_eq(picture_types[i].as_str(), "CoverFront") {
            return Some(i);
        }
        i = i + 1;
    }
    if picture_types.len() > 0 {
        Some(0)
    } else {
        None
    }
}

} // verus!
