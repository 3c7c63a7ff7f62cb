use vstd::prelude::*;

use crate::counter::{CounterDirection, CounterGenerator, CounterStyle};
use crate::int_parse::{int_error_message, parse_i64, parse_i64_spec, parse_u64, parse_u64_spec};
use crate::mlt_values::{
    mlt_color_cuttable, mlt_color_spec, Rgba, parse_mlt_color, parse_uuid, parsed_uuid, without_braces,
};
use crate::numfmt::push_str;
use crate::text::{
    ascii_lower, char_ascii_lower, chars_of, eq_ignore_ascii_case, str_eq, str_eq_ignore_ascii_case,
    string_from_chars, strip_prefix_text, without_prefix,
};

verus! {

/// A producer element of an imported project: its element name and its
/// `property` children and attributes, as (name, value) pairs in document
/// order.
#[derive(Clone, Debug, PartialEq, Eq)]
pub struct Producer {
    pub name: String,
    pub properties: Vec<(String, String)>,
    pub attributes: Vec<(String, String)>,
}

/// The value of the first entry named `key`.
pub open spec fn lookup(entries: Seq<(String, String)>, key: Seq<char>) -> Option<Seq<char>>
    decreases entries.len(),
{
    if entries.len() == 0 {
        None
    } else if entries[0].0@ == key {
        Some(entries[0].1@)
    } else {
        lookup(entries.drop_first(), key)
    }
}

/// The view of an optional text.
pub open spec fn opt_text(text: Option<&str>) -> Option<Seq<char>> {
    match text {
        Some(t) => Some(t@),
        None => None,
    }
}

/// The value of the first entry named `key`.
pub fn lookup_entry<'a>(entries: &'a Vec<(String, String)>, key: &str) -> (found: Option<&'a str>)
    ensures
        opt_text(found) == lookup(entries@, key@),
{
    let mut i: usize = 0;
    proof {
        assert(entries@.subrange(0, entries@.len() as int) =~= entries@);
    }
    while i < entries.len()
        invariant
            i <= entries@.len(),
            lookup(entries@, key@) == lookup(entries@.subrange(i as int, entries@.len() as int), key@),
        decreases entries@.len() - i,
    {
        proof {
            let rest = entries@.subrange(i as int, entries@.len() as int);
            assert(rest[0] == entries@[i as int]);
            assert(rest.drop_first() =~= entries@.subrange(i + 1, entries@.len() as int));
        }
        if str_eq(entries[i].0.as_str(), key) {
            return Some(entries[i].1.as_str());
        }
        i = i + 1;
    }
    proof {
        assert(entries@.subrange(i as int, entries@.len() as int) =~= Seq::<(String, String)>::empty());
    }
    None
}

/// How the duration and the reversed origin of a media source come out, from
/// the frame values read (or failed to read) from its `length`, `out` and
/// `in`: the duration is the length, else out + 1, else unknown; a reversed
/// source starts at in (zero when missing) + out (else length − 1).
pub open spec fn source_timing_spec(
    length: Option<Result<i64, Seq<char>>>,
    out: Option<Result<i64, Seq<char>>>,
    in_frame: Option<Result<i64, Seq<char>>>,
    reversed: bool,
) -> Result<(Option<int>, Option<int>), Seq<char>> {
    match (length, out) {
        (Some(Err(e)), _) => Err(e),
        (_, Some(Err(e))) => Err(e),
        _ => {
            let len: Option<int> = match length {
                Some(Ok(l)) => Some(l as int),
                _ => None,
            };
            let o: Option<int> = match out {
                Some(Ok(v)) => Some(v as int),
                _ => None,
            };
            let duration: Result<Option<int>, Seq<char>> = match (len, o) {
                (Some(l), _) => Ok(Some(l)),
                (None, Some(v)) => if v + 1 > i64::MAX {
                    Err("producer duration overflowed"@)
                } else {
                    Ok(Some(v + 1))
                },
                (None, None) => Ok(None),
            };
            match duration {
                Err(e) => Err(e),
                Ok(d) => if !reversed {
                    Ok((d, None))
                } else {
                    match in_frame {
                        Some(Err(e)) => Err(e),
                        _ => {
                            let start: int = match in_frame {
                                Some(Ok(v)) => v as int,
                                _ => 0,
                            };
                            let last: Option<int> = match (o, len) {
                                (Some(v), _) => Some(v),
                                (None, Some(l)) => if l - 1 < i64::MIN {
                                    None
                                } else {
                                    Some(l - 1)
                                },
                                (None, None) => None,
                            };
                            match last {
                                None => Err("reverse timewarp producer has no out or length"@),
                                Some(v) => if start + v > i64::MAX || start + v < i64::MIN {
                                    Err("reverse clip origin overflowed"@)
                                } else {
                                    Ok((d, Some(start + v)))
                                },
                            }
                        },
                    }
                },
            }
        },
    }
}

/// The duration (frames) and reversed origin (frame) of a media source.
#[derive(Clone, Copy, Debug, PartialEq, Eq, Structural)]
pub struct SourceTiming {
    pub duration_frames: Option<i64>,
    pub reverse_origin_frame: Option<i64>,
}

/// The view of a frame read.
pub open spec fn frame_read(read: Option<Result<i64, String>>) -> Option<Result<i64, Seq<char>>> {
    match read {
        Some(Ok(v)) => Some(Ok(v)),
        Some(Err(e)) => Some(Err(e@)),
        None => None,
    }
}

/// Works out a media source's duration and reversed origin from its frame
/// reads; the first failed read, or the first overflow, is the error.
pub fn source_timing(
    length: Option<Result<i64, String>>,
    out: Option<Result<i64, String>>,
    in_frame: Option<Result<i64, String>>,
    reversed: bool,
) -> (timing: Result<SourceTiming, String>)
    ensures
        match (timing, source_timing_spec(frame_read(length), frame_read(out), frame_read(in_frame), reversed)) {
            (Ok(t), Ok((d, r))) => (match t.duration_frames {
                Some(v) => d == Some(v as int),
                None => d is None,
            }) && (match t.reverse_origin_frame {
                Some(v) => r == Some(v as int),
                None => r is None,
            }),
            (Err(message), Err(expected)) => message@ == expected,
            _ => false,
        },
{
    let len = match length {
        Some(Err(e)) => return Err(e),
        Some(Ok(l)) => Some(l),
        None => None,
    };
    let o = match out {
        Some(Err(e)) => return Err(e),
        Some(Ok(v)) => Some(v),
        None => None,
    };
    let duration = match (len, o) {
        (Some(l), _) => Some(l),
        (None, Some(v)) => match v.checked_add(1) {
            Some(d) => Some(d),
            None => return Err("producer duration overflowed".to_owned()),
        },
        (None, None) => None,
    };
    if !reversed {
        return Ok(SourceTiming { duration_frames: duration, reverse_origin_frame: None });
    }
    let start = match in_frame {
        Some(Err(e)) => return Err(e),
        Some(Ok(v)) => v,
        None => 0,
    };
    let last = match (o, len) {
        (Some(v), _) => Some(v),
        (None, Some(l)) => l.checked_sub(1),
        (None, None) => None,
    };
    let last = match last {
        Some(v) => v,
        None => return Err("reverse timewarp producer has no out or length".to_owned()),
    };
    match start.checked_add(last) {
        Some(origin) => Ok(SourceTiming { duration_frames: duration, reverse_origin_frame: Some(origin) }),
        None => Err("reverse clip origin overflowed".to_owned()),
    }
}

/// What a media file becomes, by its extension.
#[derive(Clone, Copy, Debug, PartialEq, Eq, Structural)]
pub enum MediaContent {
    Image,
    Gif,
    Svg,
    Pdf,
    LayeredImage,
    Media,
}

/// The content a file with this extension (compared in ASCII lower case) is
/// imported as.
pub open spec fn media_content_spec(extension: Seq<char>) -> MediaContent {
    let e = extension.map_values(|c: char| ascii_lower(c));
    if e == "png"@ || e == "jpg"@ || e == "jpeg"@ || e == "webp"@ || e == "bmp"@ || e == "tif"@
        || e == "tiff"@ {
        MediaContent::Image
    } else if e == "gif"@ {
        MediaContent::Gif
    } else if e == "svg"@ {
        MediaContent::Svg
    } else if e == "pdf"@ {
        MediaContent::Pdf
    } else if e == "kra"@ || e == "psd"@ {
        MediaContent::LayeredImage
    } else {
        MediaContent::Media
    }
}

fn lowered(chars: &Vec<char>) -> (lower: Vec<char>)
    ensures
        lower@ == chars@.map_values(|c: char| ascii_lower(c)),
{
    let mut lower: Vec<char> = Vec::new();
    let mut i: usize = 0;
    while i < chars.len()
        invariant
            i <= chars@.len(),
            lower@ == chars@.subrange(0, i as int).map_values(|c: char| ascii_lower(c)),
        decreases chars@.len() - i,
    {
        lower.push(char_ascii_lower(chars[i]));
        proof {
            assert(chars@.subrange(0, i + 1) =~= chars@.subrange(0, i as int).push(chars@[i as int]));
            assert(lower@ =~= chars@.subrange(0, i + 1).map_values(|c: char| ascii_lower(c)));
        }
        i = i + 1;
    }
    proof {
        assert(chars@.subrange(0, i as int) =~= chars@);
    }
    lower
}

fn chars_are(chars: &Vec<char>, text: &str) -> (same: bool)
    ensures
        same == (chars@ == text@),
{
    let t = chars_of(text);
    if t.len() != chars.len() {
        return false;
    }
    let mut i: usize = 0;
    while i < t.len()
        invariant
            t@ == text@,
            t@.len() == chars@.len(),
            i <= t@.len(),
            forall|j: int| 0 <= j < i ==> #[trigger] t@[j] == chars@[j],
        decreases t@.len() - i,
    {
        if t[i] != chars[i] {
            return false;
        }
        i = i + 1;
    }
    proof {
        assert(t@ =~= chars@);
    }
    true
}

/// The content a file with this extension is imported as.
pub fn media_content(extension: &str) -> (content: MediaContent)
    ensures
        content == media_content_spec(extension@),
{
    let e = lowered(&chars_of(extension));
    if chars_are(&e, "png") || chars_are(&e, "jpg") || chars_are(&e, "jpeg") || chars_are(&e, "webp")
        || chars_are(&e, "bmp") || chars_are(&e, "tif") || chars_are(&e, "tiff") {
        MediaContent::Image
    } else if chars_are(&e, "gif") {
        MediaContent::Gif
    } else if chars_are(&e, "svg") {
        MediaContent::Svg
    } else if chars_are(&e, "pdf") {
        MediaContent::Pdf
    } else if chars_are(&e, "kra") || chars_are(&e, "psd") {
        MediaContent::LayeredImage
    } else {
        MediaContent::Media
    }
}

/// A whole number read from a property, when it reads as one that fits in 32
/// bits.
pub open spec fn u32_value(text: Option<Seq<char>>) -> Option<u32> {
    match text {
        Some(t) => match parse_u64_spec(t) {
            Ok(v) => if v <= u32::MAX {
                Some(v as u32)
            } else {
                None
            },
            Err(_) => None,
        },
        None => None,
    }
}

fn read_u32(text: Option<&str>) -> (value: Option<u32>)
    ensures
        value == u32_value(opt_text(text)),
{
    match text {
        Some(t) => match parse_u64(t) {
            Ok(v) => if v <= u32::MAX as u64 {
                Some(v as u32)
            } else {
                None
            },
            Err(_) => None,
        },
        None => None,
    }
}

/// The first of two properties that reads as a 32-bit whole number, else the
/// fallback.
pub open spec fn size_value(
    properties: Seq<(String, String)>,
    first: Seq<char>,
    second: Seq<char>,
    fallback: u32,
) -> u32 {
    match u32_value(lookup(properties, first)) {
        Some(v) => v,
        None => match u32_value(lookup(properties, second)) {
            Some(v) => v,
            None => fallback,
        },
    }
}

/// What a producer is imported as, before any file is read.
#[derive(Clone, Debug, PartialEq, Eq)]
pub enum SourcePlan {
    /// A nested sequence, by its UUID.
    FoldedSequence { sequence_id: u128 },
    /// A solid colour: red, green, blue and alpha.
    SolidColor { color: Rgba },
    /// A generator.
    Generator(GeneratorSource),
    /// A media file.
    Media(MediaPlan),
}

/// How a media producer is imported. Its timing comes from [`source_timing`]
/// once the speed is read.
#[derive(Clone, Debug, PartialEq, Eq)]
pub struct MediaPlan {
    /// The resource as written.
    pub resource: String,
    /// The resource resolved against the project folder.
    pub path: String,
    /// The file's content, by the path's extension.
    pub content: MediaContent,
    /// The timewarp speed as written ("1" when the producer is no timewarp).
    pub speed: String,
    pub pitch_preserved: bool,
    pub width: u32,
    pub height: u32,
    pub video_stream: u32,
    pub audio_stream: u32,
}

/// The extension of a resource's file name, as `Path::extension` reads it
/// (empty when there is none).
pub uninterp spec fn extension_of(resource: Seq<char>) -> Seq<char>;

/// Calls `Path::extension` (and `OsStr::to_str`), with an empty text when
/// there is none; the result is a function of the resource text alone.
#[verifier::external_body]
fn path_extension(resource: &str) -> (extension: String)
    ensures
        extension@ == extension_of(resource@),
{
    std::path::Path::new(resource).extension().and_then(|e| e.to_str()).unwrap_or_default().to_owned()
}

/// Whether a path text is absolute, as `Path::is_absolute` reads it.
pub uninterp spec fn is_absolute_path(path: Seq<char>) -> bool;

/// Calls `Path::is_absolute`; the answer is a function of the text alone.
#[verifier::external_body]
fn path_is_absolute(path: &str) -> (absolute: bool)
    ensures
        absolute == is_absolute_path(path@),
{
    std::path::Path::new(path).is_absolute()
}

/// The path `Path::join` makes of a folder and a path.
pub uninterp spec fn joined_path(root: Seq<char>, path: Seq<char>) -> Seq<char>;

/// Calls `Path::join` (and takes the result as text; both parts are text, so
/// nothing is lost); the result is a function of the two texts alone.
#[verifier::external_body]
fn path_join(root: &str, path: &str) -> (joined: String)
    ensures
        joined@ == joined_path(root@, path@),
{
    std::path::Path::new(root).join(path).to_string_lossy().into_owned()
}

/// A resource resolved against the project folder `root`: kept when
/// absolute, else joined to the folder.
pub open spec fn resolved_path(root: Seq<char>, resource: Seq<char>) -> Seq<char> {
    if is_absolute_path(resource) {
        resource
    } else {
        joined_path(root, resource)
    }
}

/// Resolves a resource against the project folder `root`.
pub fn resolve_path(root: &str, resource: &str) -> (path: String)
    ensures
        path@ == resolved_path(root@, resource@),
{
    if path_is_absolute(resource) {
        resource.to_owned()
    } else {
        path_join(root, resource)
    }
}

/// The producer's `mlt_service` (empty when missing).
pub open spec fn service_of(producer: Producer) -> Seq<char> {
    match lookup(producer.properties@, "mlt_service"@) {
        Some(s) => s,
        None => Seq::empty(),
    }
}

/// A media producer's resource: `kdenlive:originalurl`, else `warp_resource`,
/// else `resource`.
pub open spec fn resource_of(producer: Producer) -> Option<Seq<char>> {
    let props = producer.properties@;
    match lookup(props, "kdenlive:originalurl"@) {
        Some(r) => Some(r),
        None => match lookup(props, "warp_resource"@) {
            Some(r) => Some(r),
            None => lookup(props, "resource"@),
        },
    }
}

/// The view of a generator classification.
pub open spec fn generator_read(generator: Result<Option<GeneratorSource>, String>) -> Result<
    Option<GeneratorSource>,
    Seq<char>,
> {
    match generator {
        Ok(g) => Ok(g),
        Err(e) => Err(e@),
    }
}

/// Why a producer cannot be imported, if it cannot: a `tractor` without a
/// UUID or with one that does not read, a `color`/`colour` service without a
/// resource or with one that is no MLT colour, a generator that could not be
/// classified, or other media without a resource.
pub open spec fn producer_error(
    producer: Producer,
    generator: Result<Option<GeneratorSource>, Seq<char>>,
) -> Option<Seq<char>> {
    let props = producer.properties@;
    if producer.name@ == "tractor"@ {
        match lookup(props, "kdenlive:uuid"@) {
            None => Some("nested sequence has no UUID"@),
            Some(t) => match parsed_uuid(without_braces(t)) {
                Err(e) => Some(e),
                Ok(_) => None,
            },
        }
    } else if service_of(producer) == "color"@ || service_of(producer) == "colour"@ {
        match lookup(props, "resource"@) {
            None => Some("color producer has no color"@),
            Some(t) => match mlt_color_spec(t) {
                Err(e) => Some(e),
                Ok(_) => None,
            },
        }
    } else {
        match generator {
            Err(e) => Some(e),
            Ok(Some(_)) => None,
            Ok(None) => if resource_of(producer) is None {
                Some("media producer has no resource"@)
            } else {
                None
            },
        }
    }
}

/// A colour producer's resource can be cut into byte pairs (where it is
/// eight bytes long); reading it would otherwise fail mid-character.
pub open spec fn color_resource_cuttable(producer: Producer) -> bool {
    producer.name@ != "tractor"@ && (service_of(producer) == "color"@ || service_of(producer) == "colour"@)
        ==> (lookup(producer.properties@, "resource"@) matches Some(t) ==> mlt_color_cuttable(t))
}

/// `plan` is what the producer is imported as: a nested sequence by its UUID
/// (braces taken off), a solid colour by its MLT colour, the generator it was
/// classified as, or media with its resource, the resource resolved against
/// `root`, the content kind by the resolved path's extension,
/// timewarp speed ("1" unless the service is `timewarp`; `warp_speed`, else
/// "1"), pitch (`warp_pitch` is "1"), size (the first of the two size
/// properties that reads as a 32-bit number, else the canvas) and streams
/// (`vstream` and `astream` read as 32-bit numbers, else 0).
pub open spec fn plan_of(
    producer: Producer,
    root: Seq<char>,
    canvas_width: u32,
    canvas_height: u32,
    generator: Result<Option<GeneratorSource>, Seq<char>>,
    plan: SourcePlan,
) -> bool {
    let props = producer.properties@;
    if producer.name@ == "tractor"@ {
        plan matches SourcePlan::FoldedSequence { sequence_id } && lookup(props, "kdenlive:uuid"@) matches Some(
            t,
        ) && parsed_uuid(without_braces(t)) == Ok::<u128, Seq<char>>(sequence_id)
    } else if service_of(producer) == "color"@ || service_of(producer) == "colour"@ {
        plan matches SourcePlan::SolidColor { color } && lookup(props, "resource"@) matches Some(t)
            && mlt_color_spec(t) == Ok::<Rgba, Seq<char>>(color)
    } else if generator is Ok && generator->Ok_0 is Some {
        plan == SourcePlan::Generator(generator->Ok_0->Some_0)
    } else {
        plan matches SourcePlan::Media(m) && {
            &&& Some(m.resource@) == resource_of(producer)
            &&& m.path@ == resolved_path(root, m.resource@)
            &&& m.content == media_content_spec(extension_of(m.path@))
            &&& m.speed@ == (if service_of(producer) == "timewarp"@ {
                match lookup(props, "warp_speed"@) {
                    Some(s) => s,
                    None => "1"@,
                }
            } else {
                "1"@
            })
            &&& m.pitch_preserved == (lookup(props, "warp_pitch"@) == Some("1"@))
            &&& m.width == size_value(props, "meta.media.width"@, "meta.media.0.codec.width"@, canvas_width)
            &&& m.height == size_value(props, "meta.media.height"@, "meta.media.0.codec.height"@, canvas_height)
            &&& m.video_stream == (match u32_value(lookup(props, "vstream"@)) {
                Some(v) => v,
                None => 0,
            })
            &&& m.audio_stream == (match u32_value(lookup(props, "astream"@)) {
                Some(v) => v,
                None => 0,
            })
        }
    }
}

fn size_from(props: &Vec<(String, String)>, first: &str, second: &str, fallback: u32) -> (size: u32)
    ensures
        size == size_value(props@, first@, second@, fallback),
{
    match read_u32(lookup_entry(props, first)) {
        Some(v) => v,
        None => match read_u32(lookup_entry(props, second)) {
            Some(v) => v,
            None => fallback,
        },
    }
}

fn text_is(text: Option<&str>, expected: &str) -> (same: bool)
    ensures
        same == (opt_text(text) == Some(expected@)),
{
    match text {
        Some(t) => str_eq(t, expected),
        None => false,
    }
}

/// What a producer is imported as, or why it cannot be. `generator` is what
/// [`classify_generator`] made of the producer, or of the one generator in
/// the MLT file that [`generator_file`] names for it; `root` is the project
/// folder.
pub fn producer_source(
    producer: &Producer,
    root: &str,
    canvas_width: u32,
    canvas_height: u32,
    generator: Result<Option<GeneratorSource>, String>,
) -> (result: Result<SourcePlan, String>)
    requires
        color_resource_cuttable(*producer),
    ensures
        match (result, producer_error(*producer, generator_read(generator))) {
            (Ok(plan), None) => plan_of(*producer, root@, canvas_width, canvas_height, generator_read(generator), plan),
            (Err(message), Some(expected)) => message@ == expected,
            _ => false,
        },
{
    let props = &producer.properties;
    if str_eq(producer.name.as_str(), "tractor") {
        return match lookup_entry(props, "kdenlive:uuid") {
            None => Err("nested sequence has no UUID".to_owned()),
            Some(text) => match parse_uuid(text) {
                Ok(id) => Ok(SourcePlan::FoldedSequence { sequence_id: id }),
                Err(e) => Err(e),
            },
        };
    }
    let service = match lookup_entry(props, "mlt_service") {
        Some(s) => s,
        None => "",
    };
    proof {
        reveal_strlit("");
        assert(service@ == service_of(*producer));
    }
    if str_eq(service, "color") || str_eq(service, "colour") {
        return match lookup_entry(props, "resource") {
            None => Err("color producer has no color".to_owned()),
            Some(text) => match parse_mlt_color(text) {
                Ok(color) => Ok(SourcePlan::SolidColor { color }),
                Err(e) => Err(e),
            },
        };
    }
    match generator {
        Err(e) => return Err(e),
        Ok(Some(g)) => return Ok(SourcePlan::Generator(g)),
        Ok(None) => {},
    }
    let resource = match lookup_entry(props, "kdenlive:originalurl") {
        Some(r) => Some(r),
        None => match lookup_entry(props, "warp_resource") {
            Some(r) => Some(r),
            None => lookup_entry(props, "resource"),
        },
    };
    let resource = match resource {
        Some(r) => r,
        None => return Err("media producer has no resource".to_owned()),
    };
    let speed = if str_eq(service, "timewarp") {
        match lookup_entry(props, "warp_speed") {
            Some(s) => s.to_owned(),
            None => "1".to_owned(),
        }
    } else {
        "1".to_owned()
    };
    let path = resolve_path(root, resource);
    let extension = path_extension(path.as_str());
    let plan = MediaPlan {
        resource: resource.to_owned(),
        path,
        content: media_content(extension.as_str()),
        speed,
        pitch_preserved: text_is(lookup_entry(props, "warp_pitch"), "1"),
        width: size_from(props, "meta.media.width", "meta.media.0.codec.width", canvas_width),
        height: size_from(props, "meta.media.height", "meta.media.0.codec.height", canvas_height),
        video_stream: match read_u32(lookup_entry(props, "vstream")) {
            Some(v) => v,
            None => 0,
        },
        audio_stream: match read_u32(lookup_entry(props, "astream")) {
            Some(v) => v,
            None => 0,
        },
    };
    Ok(SourcePlan::Media(plan))
}

/// The sound a counter generator plays.
#[derive(Clone, Copy, Debug, PartialEq, Eq, Structural)]
pub enum CounterSound {
    Silent,
    TwoPop,
    FrameZero,
}

/// A generator producer, imported as generated pictures (and sound) rather
/// than as a file.
#[derive(Clone, Copy, Debug, PartialEq, Eq, Structural)]
pub enum GeneratorSource {
    ColorBars,
    WhiteNoise,
    Counter { counter: CounterGenerator, sound: CounterSound, clock_background: bool },
}

/// The value of the first entry named `key`, else `default`.
pub open spec fn value_or(entries: Seq<(String, String)>, key: Seq<char>, default: Seq<char>) -> Seq<char> {
    match lookup(entries, key) {
        Some(v) => v,
        None => default,
    }
}

/// The generator service: the `mlt_service` property, else the attribute of
/// that name (empty when both are missing).
pub open spec fn generator_service(producer: Producer) -> Seq<char> {
    match lookup(producer.properties@, "mlt_service"@) {
        Some(s) => s,
        None => value_or(producer.attributes@, "mlt_service"@, Seq::empty()),
    }
}

/// A counter's length in frames: the `length` read (whose failure is the
/// error), else the `out` read plus one when that read succeeds and does not
/// overflow.
pub open spec fn counter_length(
    length: Option<Result<i64, Seq<char>>>,
    out: Option<Result<i64, Seq<char>>>,
) -> Result<int, Seq<char>> {
    match length {
        Some(Err(e)) => Err(e),
        Some(Ok(l)) => Ok(l as int),
        None => match out {
            Some(Ok(o)) => if o + 1 <= i64::MAX {
                Ok(o + 1)
            } else {
                Err("counter generator has no duration"@)
            },
            _ => Err("counter generator has no duration"@),
        },
    }
}

/// The counter style named by a `style` property.
pub open spec fn counter_style_of(name: Seq<char>) -> CounterStyle {
    if name == "frames"@ {
        CounterStyle::Frames
    } else if name == "timecode"@ {
        CounterStyle::Timecode
    } else if name == "clock"@ {
        CounterStyle::Clock
    } else if name == "seconds+1"@ {
        CounterStyle::SecondsPlusOne
    } else {
        CounterStyle::Seconds
    }
}

/// The counter sound named by a `sound` property.
pub open spec fn counter_sound_of(name: Seq<char>) -> CounterSound {
    if name == "2pop"@ {
        CounterSound::TwoPop
    } else if name == "frame0"@ {
        CounterSound::FrameZero
    } else {
        CounterSound::Silent
    }
}

/// Whether a `drop` property asks for drop-frame numbering: it reads as a
/// nonzero integer.
pub open spec fn drop_frame_of(text: Option<Seq<char>>) -> bool {
    match text {
        Some(t) => match parse_i64_spec(t) {
            Ok(v) => v != 0,
            Err(_) => false,
        },
        None => false,
    }
}

/// What generator a producer is, from its service and, for a counter, its
/// properties and the reads of its `length` and `out` frames: colour bars,
/// white noise, a counter, or no generator. A counter needs a positive
/// length.
pub open spec fn generator_spec(
    producer: Producer,
    length: Option<Result<i64, Seq<char>>>,
    out: Option<Result<i64, Seq<char>>>,
) -> Result<Option<GeneratorSource>, Seq<char>> {
    let service = generator_service(producer);
    let props = producer.properties@;
    if service == "frei0r.test_pat_B"@ {
        Ok(Some(GeneratorSource::ColorBars))
    } else if service == "noise"@ {
        Ok(Some(GeneratorSource::WhiteNoise))
    } else if service == "count"@ {
        match counter_length(length, out) {
            Err(e) => Err(e),
            Ok(l) => if l <= 0 {
                Err("counter generator duration is not positive"@)
            } else {
                Ok(
                    Some(
                        GeneratorSource::Counter {
                            counter: CounterGenerator {
                                direction: if value_or(props, "direction"@, "down"@) == "down"@ {
                                    CounterDirection::Down
                                } else {
                                    CounterDirection::Up
                                },
                                length: l as i64,
                                style: counter_style_of(value_or(props, "style"@, "seconds+1"@)),
                                drop_frame: drop_frame_of(lookup(props, "drop"@)),
                            },
                            sound: counter_sound_of(value_or(props, "sound"@, "silent"@)),
                            clock_background: value_or(props, "background"@, "clock"@) == "clock"@,
                        },
                    ),
                )
            },
        }
    } else {
        Ok(None)
    }
}

fn entry_or<'a>(entries: &'a Vec<(String, String)>, key: &str, default: &'a str) -> (value: &'a str)
    ensures
        value@ == value_or(entries@, key@, default@),
{
    match lookup_entry(entries, key) {
        Some(v) => v,
        None => default,
    }
}

/// What generator a producer is, given the reads of its `length` property
/// and `out` attribute as frames; a failed `length` read is the error of a
/// counter, a failed `out` read counts as no `out`.
pub fn classify_generator(
    producer: &Producer,
    length: Option<Result<i64, String>>,
    out: Option<Result<i64, String>>,
) -> (generator: Result<Option<GeneratorSource>, String>)
    ensures
        match (generator, generator_spec(*producer, frame_read(length), frame_read(out))) {
            (Ok(g), Ok(expected)) => g == expected,
            (Err(message), Err(expected)) => message@ == expected,
            _ => false,
        },
{
    let props = &producer.properties;
    let service = match lookup_entry(props, "mlt_service") {
        Some(s) => s,
        None => entry_or(&producer.attributes, "mlt_service", ""),
    };
    proof {
        reveal_strlit("");
        assert(service@ == generator_service(*producer));
    }
    if str_eq(service, "frei0r.test_pat_B") {
        return Ok(Some(GeneratorSource::ColorBars));
    }
    if str_eq(service, "noise") {
        return Ok(Some(GeneratorSource::WhiteNoise));
    }
    if !str_eq(service, "count") {
        return Ok(None);
    }
    let frames: i64 = match length {
        Some(Err(e)) => return Err(e),
        Some(Ok(l)) => l,
        None => match out {
            Some(Ok(o)) => match o.checked_add(1) {
                Some(f) => f,
                None => return Err("counter generator has no duration".to_owned()),
            },
            _ => return Err("counter generator has no duration".to_owned()),
        },
    };
    if frames <= 0 {
        return Err("counter generator duration is not positive".to_owned());
    }
    let style_name = entry_or(props, "style", "seconds+1");
    let style = if str_eq(style_name, "frames") {
        CounterStyle::Frames
    } else if str_eq(style_name, "timecode") {
        CounterStyle::Timecode
    } else if str_eq(style_name, "clock") {
        CounterStyle::Clock
    } else if str_eq(style_name, "seconds+1") {
        CounterStyle::SecondsPlusOne
    } else {
        CounterStyle::Seconds
    };
    let sound_name = entry_or(props, "sound", "silent");
    let sound = if str_eq(sound_name, "2pop") {
        CounterSound::TwoPop
    } else if str_eq(sound_name, "frame0") {
        CounterSound::FrameZero
    } else {
        CounterSound::Silent
    };
    let drop_frame = match lookup_entry(props, "drop") {
        Some(t) => match parse_i64(t) {
            Ok(v) => v != 0,
            Err(_) => false,
        },
        None => false,
    };
    let direction = if str_eq(entry_or(props, "direction", "down"), "down") {
        CounterDirection::Down
    } else {
        CounterDirection::Up
    };
    Ok(
        Some(
            GeneratorSource::Counter {
                counter: CounterGenerator { direction, length: frames, style, drop_frame },
                sound,
                clock_background: str_eq(entry_or(props, "background", "clock"), "clock"),
            },
        ),
    )
}

/// The path of the resource with an `xml:` or `consumer:` prefix taken off.
pub open spec fn generator_path_of(resource: Seq<char>) -> Seq<char> {
    match without_prefix(resource, "xml:"@) {
        Some(r) => r,
        None => match without_prefix(resource, "consumer:"@) {
            Some(r) => r,
            None => resource,
        },
    }
}

/// The MLT file whose one generator a producer stands for: an `xml` or
/// `consumer` service whose resource (without its service prefix, resolved
/// against `root`) has the extension `mlt`, in any case.
pub open spec fn generator_file_of(producer: Producer, root: Seq<char>) -> Option<Seq<char>> {
    let service = service_of(producer);
    match resource_of(producer) {
        Some(r) => if (service == "xml"@ || service == "consumer"@) && eq_ignore_ascii_case(
            extension_of(resolved_path(root, generator_path_of(r))),
            "mlt"@,
        ) {
            Some(resolved_path(root, generator_path_of(r)))
        } else {
            None
        },
        None => None,
    }
}

/// The MLT file (resolved against the project folder `root`) to read a
/// producer's generator from, if the producer is one that stands for a file.
pub fn generator_file(producer: &Producer, root: &str) -> (path: Option<String>)
    ensures
        match path {
            Some(p) => generator_file_of(*producer, root@) == Some(p@),
            None => generator_file_of(*producer, root@) is None,
        },
{
    let props = &producer.properties;
    let service = match lookup_entry(props, "mlt_service") {
        Some(s) => s,
        None => "",
    };
    proof {
        reveal_strlit("");
        assert(service@ == service_of(*producer));
    }
    let resource = match lookup_entry(props, "kdenlive:originalurl") {
        Some(r) => Some(r),
        None => match lookup_entry(props, "warp_resource") {
            Some(r) => Some(r),
            None => lookup_entry(props, "resource"),
        },
    };
    let resource = match resource {
        Some(r) => r,
        None => return None,
    };
    let unprefixed = match strip_prefix_text(resource, "xml:") {
        Some(r) => r,
        None => match strip_prefix_text(resource, "consumer:") {
            Some(r) => r,
            None => resource.to_owned(),
        },
    };
    let path = resolve_path(root, unprefixed.as_str());
    if !(str_eq(service, "xml") || str_eq(service, "consumer")) {
        return None;
    }
    let extension = path_extension(path.as_str());
    if str_eq_ignore_ascii_case(extension.as_str(), "mlt") {
        Some(path)
    } else {
        None
    }
}

/// A timeline element's duration in frames from the reads of its `length`,
/// `in` (read as "0" when missing) and `out` attributes: the length when
/// there is one, else out − in + 1; the first failed read needed is the
/// error, and a missing `out` is one too.
pub open spec fn element_duration_spec(
    length: Option<Result<i64, Seq<char>>>,
    in_frame: Result<i64, Seq<char>>,
    out: Option<Result<i64, Seq<char>>>,
) -> Result<int, Seq<char>> {
    match length {
        Some(Ok(l)) => Ok(l as int),
        Some(Err(e)) => Err(e),
        None => match in_frame {
            Err(e) => Err(e),
            Ok(start) => match out {
                None => Err("timeline element has no out point"@),
                Some(Err(e)) => Err(e),
                Some(Ok(end)) => Ok(end - start + 1),
            },
        },
    }
}

/// The view of one frame read.
pub open spec fn result_read(read: Result<i64, String>) -> Result<i64, Seq<char>> {
    match read {
        Ok(v) => Ok(v),
        Err(e) => Err(e@),
    }
}

/// A timeline element's duration in frames, from the reads of its `length`,
/// `in` and `out` attributes. The subtraction must not overflow.
pub fn element_duration(
    length: Option<Result<i64, String>>,
    in_frame: Result<i64, String>,
    out: Option<Result<i64, String>>,
) -> (duration: Result<i64, String>)
    requires
        length is None ==> (in_frame matches Ok(start) ==> (out matches Some(Ok(end)) ==> i64::MIN <= end
            - start < i64::MAX)),
    ensures
        match (duration, element_duration_spec(frame_read(length), result_read(in_frame), frame_read(out))) {
            (Ok(d), Ok(expected)) => d == expected,
            (Err(message), Err(expected)) => message@ == expected,
            _ => false,
        },
{
    match length {
        Some(read) => return read,
        None => {},
    }
    let start = match in_frame {
        Ok(v) => v,
        Err(e) => return Err(e),
    };
    match out {
        None => Err("timeline element has no out point".to_owned()),
        Some(Err(e)) => Err(e),
        Some(Ok(end)) => Ok(end - start + 1),
    }
}

/// A frame value written as a plain frame number (no `:`): the number, or
/// why it is not one. Values with a `:` are timestamps, read otherwise.
pub open spec fn frame_number_spec(value: Seq<char>) -> Option<Result<int, Seq<char>>> {
    if value.contains(':') {
        None
    } else {
        match parse_i64_spec(value) {
            Ok(v) => Some(Ok(v)),
            Err(kind) => Some(Err("invalid animation frame: "@ + int_error_message(kind))),
        }
    }
}

/// Reads a frame value written as a plain frame number; `None` for a
/// timestamp (a value with a `:`).
pub fn frame_number(value: &str) -> (read: Option<Result<i64, String>>)
    ensures
        match (read, frame_number_spec(value@)) {
            (None, None) => true,
            (Some(Ok(v)), Some(Ok(expected))) => v == expected,
            (Some(Err(message)), Some(Err(expected))) => message@ == expected,
            _ => false,
        },
{
    let chars = chars_of(value);
    let mut i: usize = 0;
    while i < chars.len()
        invariant
            chars@ == value@,
            i <= chars@.len(),
            forall|j: int| 0 <= j < i ==> chars@[j] != ':',
        decreases chars@.len() - i,
    {
        if chars[i] == ':' {
            proof {
                assert(value@[i as int] == ':');
            }
            return None;
        }
        i = i + 1;
    }
    proof {
        assert(!value@.contains(':'));
    }
    match parse_i64(value) {
        Ok(v) => Some(Ok(v)),
        Err(kind) => {
            let mut out: Vec<char> = Vec::new();
            push_str(&mut out, "invalid animation frame: ");
            push_str(&mut out, kind.message());
            Some(Err(string_from_chars(out.as_slice())))
        },
    }
}

/// Lower-case ASCII letters and other characters that lower-casing keeps.
spec fn kept_by_lowering(s: Seq<char>) -> bool {
    forall|i: int| 0 <= i < s.len() ==> #[trigger] ascii_lower(s[i]) == s[i]
}

proof fn lemma_same_ignoring_case(e: Seq<char>, name: Seq<char>)
    requires
        kept_by_lowering(name),
    ensures
        eq_ignore_ascii_case(e, name) <==> e.map_values(|c: char| ascii_lower(c)) == name,
{
    let lowered = e.map_values(|c: char| ascii_lower(c));
    if eq_ignore_ascii_case(e, name) {
        assert(lowered =~= name);
    }
    if lowered == name {
        assert forall|i: int| 0 <= i < e.len() implies ascii_lower(#[trigger] e[i]) == ascii_lower(name[i]) by {
            assert(lowered[i] == ascii_lower(e[i]));
        }
    }
}

proof fn lemma_names_differ(a: Seq<char>, b: Seq<char>, i: int)
    requires
        0 <= i < a.len(),
        i < b.len(),
        a[i] != b[i],
    ensures
        a != b,
{
}

/// Extensions are read whatever their ASCII case: every still-image
/// extension (png, jpg, jpeg, webp, bmp, tif, tiff) gives an image; gif,
/// svg and pdf give their own kinds; kra and psd give a layered image; and
/// only an extension that is none of these gives plain media.
pub proof fn law_media_content_by_extension(extension: Seq<char>)
    ensures
        eq_ignore_ascii_case(extension, "png"@) || eq_ignore_ascii_case(extension, "jpg"@)
            || eq_ignore_ascii_case(extension, "jpeg"@) || eq_ignore_ascii_case(extension, "webp"@)
            || eq_ignore_ascii_case(extension, "bmp"@) || eq_ignore_ascii_case(extension, "tif"@)
            || eq_ignore_ascii_case(extension, "tiff"@) ==> media_content_spec(extension)
            == MediaContent::Image,
        eq_ignore_ascii_case(extension, "gif"@) ==> media_content_spec(extension) == MediaContent::Gif,
        eq_ignore_ascii_case(extension, "svg"@) ==> media_content_spec(extension) == MediaContent::Svg,
        eq_ignore_ascii_case(extension, "pdf"@) ==> media_content_spec(extension) == MediaContent::Pdf,
        eq_ignore_ascii_case(extension, "kra"@) || eq_ignore_ascii_case(extension, "psd"@)
            ==> media_content_spec(extension) == MediaContent::LayeredImage,
        media_content_spec(extension) == MediaContent::Media ==> !(eq_ignore_ascii_case(extension, "png"@)
            || eq_ignore_ascii_case(extension, "jpg"@) || eq_ignore_ascii_case(extension, "jpeg"@)
            || eq_ignore_ascii_case(extension, "webp"@) || eq_ignore_ascii_case(extension, "bmp"@)
            || eq_ignore_ascii_case(extension, "tif"@) || eq_ignore_ascii_case(extension, "tiff"@)
            || eq_ignore_ascii_case(extension, "gif"@) || eq_ignore_ascii_case(extension, "svg"@)
            || eq_ignore_ascii_case(extension, "pdf"@) || eq_ignore_ascii_case(extension, "kra"@)
            || eq_ignore_ascii_case(extension, "psd"@)),
{
    reveal_strlit("png");
    reveal_strlit("jpg");
    reveal_strlit("jpeg");
    reveal_strlit("webp");
    reveal_strlit("bmp");
    reveal_strlit("tif");
    reveal_strlit("tiff");
    reveal_strlit("gif");
    reveal_strlit("svg");
    reveal_strlit("pdf");
    reveal_strlit("kra");
    reveal_strlit("psd");
    assert(kept_by_lowering("png"@));
    assert(kept_by_lowering("jpg"@));
    assert(kept_by_lowering("jpeg"@));
    assert(kept_by_lowering("webp"@));
    assert(kept_by_lowering("bmp"@));
    assert(kept_by_lowering("tif"@));
    assert(kept_by_lowering("tiff"@));
    assert(kept_by_lowering("gif"@));
    assert(kept_by_lowering("svg"@));
    assert(kept_by_lowering("pdf"@));
    assert(kept_by_lowering("kra"@));
    assert(kept_by_lowering("psd"@));
    lemma_same_ignoring_case(extension, "png"@);
    lemma_same_ignoring_case(extension, "jpg"@);
    lemma_same_ignoring_case(extension, "jpeg"@);
    lemma_same_ignoring_case(extension, "webp"@);
    lemma_same_ignoring_case(extension, "bmp"@);
    lemma_same_ignoring_case(extension, "tif"@);
    lemma_same_ignoring_case(extension, "tiff"@);
    lemma_same_ignoring_case(extension, "gif"@);
    lemma_same_ignoring_case(extension, "svg"@);
    lemma_same_ignoring_case(extension, "pdf"@);
    lemma_same_ignoring_case(extension, "kra"@);
    lemma_same_ignoring_case(extension, "psd"@);
    let lowered = extension.map_values(|c: char| ascii_lower(c));
    if lowered == "gif"@ {
        lemma_names_differ("gif"@, "png"@, 0);
        lemma_names_differ("gif"@, "jpg"@, 0);
        lemma_names_differ("gif"@, "bmp"@, 0);
        lemma_names_differ("gif"@, "tif"@, 0);
    }
    if lowered == "svg"@ {
        lemma_names_differ("svg"@, "png"@, 0);
        lemma_names_differ("svg"@, "jpg"@, 0);
        lemma_names_differ("svg"@, "bmp"@, 0);
        lemma_names_differ("svg"@, "tif"@, 0);
        lemma_names_differ("svg"@, "gif"@, 0);
    }
    if lowered == "pdf"@ {
        lemma_names_differ("pdf"@, "png"@, 1);
        lemma_names_differ("pdf"@, "jpg"@, 0);
        lemma_names_differ("pdf"@, "bmp"@, 0);
        lemma_names_differ("pdf"@, "tif"@, 0);
        lemma_names_differ("pdf"@, "gif"@, 0);
        lemma_names_differ("pdf"@, "svg"@, 0);
    }
    if lowered == "kra"@ {
        lemma_names_differ("kra"@, "png"@, 0);
        lemma_names_differ("kra"@, "jpg"@, 0);
        lemma_names_differ("kra"@, "bmp"@, 0);
        lemma_names_differ("kra"@, "tif"@, 0);
        lemma_names_differ("kra"@, "gif"@, 0);
        lemma_names_differ("kra"@, "svg"@, 0);
        lemma_names_differ("kra"@, "pdf"@, 0);
    }
    if lowered == "psd"@ {
        lemma_names_differ("psd"@, "png"@, 1);
        lemma_names_differ("psd"@, "jpg"@, 0);
        lemma_names_differ("psd"@, "bmp"@, 0);
        lemma_names_differ("psd"@, "tif"@, 0);
        lemma_names_differ("psd"@, "gif"@, 0);
        lemma_names_differ("psd"@, "svg"@, 0);
        lemma_names_differ("psd"@, "pdf"@, 1);
        lemma_names_differ("psd"@, "kra"@, 0);
    }
}

} // verus!
