use vstd::prelude::*;

use crate::text::{chars_of, string_from_chars};

verus! {

/// How a keyframe eases towards the next one.
#[derive(Clone, Copy, Debug, PartialEq, Eq, Structural)]
pub enum Interpolation {
    Linear,
    Jump,
    ManimSmooth,
    SineIn,
    SineOut,
    SineInOut,
    QuadIn,
    QuadOut,
    QuadInOut,
    CubicIn,
    CubicOut,
    CubicInOut,
    QuartIn,
    QuartOut,
    QuartInOut,
    QuintIn,
    QuintOut,
    QuintInOut,
    ExpoIn,
    ExpoOut,
    ExpoInOut,
    CircIn,
    CircOut,
    CircInOut,
    BackIn,
    BackOut,
    BackInOut,
    ElasticIn,
    ElasticOut,
    ElasticInOut,
    BounceIn,
    BounceOut,
    BounceInOut,
}

/// The easing a keyframe marker's last character stands for, if any.
pub open spec fn marker_suffix(c: char) -> Option<Interpolation> {
    match c {
        '|' | '!' => Some(Interpolation::Jump),
        '~' | '$' | '-' => Some(Interpolation::ManimSmooth),
        'a' => Some(Interpolation::SineIn),
        'b' => Some(Interpolation::SineOut),
        'c' => Some(Interpolation::SineInOut),
        'd' => Some(Interpolation::QuadIn),
        'e' => Some(Interpolation::QuadOut),
        'f' => Some(Interpolation::QuadInOut),
        'g' => Some(Interpolation::CubicIn),
        'h' => Some(Interpolation::CubicOut),
        'i' => Some(Interpolation::CubicInOut),
        'j' => Some(Interpolation::QuartIn),
        'k' => Some(Interpolation::QuartOut),
        'l' => Some(Interpolation::QuartInOut),
        'm' => Some(Interpolation::QuintIn),
        'n' => Some(Interpolation::QuintOut),
        'o' => Some(Interpolation::QuintInOut),
        'p' => Some(Interpolation::ExpoIn),
        'q' => Some(Interpolation::ExpoOut),
        'r' => Some(Interpolation::ExpoInOut),
        's' => Some(Interpolation::CircIn),
        't' => Some(Interpolation::CircOut),
        'u' => Some(Interpolation::CircInOut),
        'v' => Some(Interpolation::BackIn),
        'w' => Some(Interpolation::BackOut),
        'x' => Some(Interpolation::BackInOut),
        'y' => Some(Interpolation::ElasticIn),
        'z' => Some(Interpolation::ElasticOut),
        'A' => Some(Interpolation::ElasticInOut),
        'B' => Some(Interpolation::BounceIn),
        'C' => Some(Interpolation::BounceOut),
        'D' => Some(Interpolation::BounceInOut),
        _ => None,
    }
}

fn suffix_of(c: char) -> (interpolation: Option<Interpolation>)
    ensures
        interpolation == marker_suffix(c),
{
    match c {
        '|' | '!' => Some(Interpolation::Jump),
        '~' | '$' | '-' => Some(Interpolation::ManimSmooth),
        'a' => Some(Interpolation::SineIn),
        'b' => Some(Interpolation::SineOut),
        'c' => Some(Interpolation::SineInOut),
        'd' => Some(Interpolation::QuadIn),
        'e' => Some(Interpolation::QuadOut),
        'f' => Some(Interpolation::QuadInOut),
        'g' => Some(Interpolation::CubicIn),
        'h' => Some(Interpolation::CubicOut),
        'i' => Some(Interpolation::CubicInOut),
        'j' => Some(Interpolation::QuartIn),
        'k' => Some(Interpolation::QuartOut),
        'l' => Some(Interpolation::QuartInOut),
        'm' => Some(Interpolation::QuintIn),
        'n' => Some(Interpolation::QuintOut),
        'o' => Some(Interpolation::QuintInOut),
        'p' => Some(Interpolation::ExpoIn),
        'q' => Some(Interpolation::ExpoOut),
        'r' => Some(Interpolation::ExpoInOut),
        's' => Some(Interpolation::CircIn),
        't' => Some(Interpolation::CircOut),
        'u' => Some(Interpolation::CircInOut),
        'v' => Some(Interpolation::BackIn),
        'w' => Some(Interpolation::BackOut),
        'x' => Some(Interpolation::BackInOut),
        'y' => Some(Interpolation::ElasticIn),
        'z' => Some(Interpolation::ElasticOut),
        'A' => Some(Interpolation::ElasticInOut),
        'B' => Some(Interpolation::BounceIn),
        'C' => Some(Interpolation::BounceOut),
        'D' => Some(Interpolation::BounceInOut),
        _ => None,
    }
}

/// A keyframe marker split into its time and easing: a known last character
/// gives the easing and is dropped; otherwise the whole marker is the time
/// and the easing is linear.
pub open spec fn marker_interpolation_spec(marker: Seq<char>) -> (Seq<char>, Interpolation) {
    if marker.len() > 0 && marker_suffix(marker.last()) is Some {
        (marker.drop_last(), marker_suffix(marker.last())->0)
    } else {
        (marker, Interpolation::Linear)
    }
}

/// Splits a keyframe marker into its time and easing.
pub fn marker_interpolation(marker: &str) -> (split: (String, Interpolation))
    ensures
        (split.0@, split.1) == marker_interpolation_spec(marker@),
{
    let mut chars = chars_of(marker);
    if chars.len() == 0 {
        return (marker.to_owned(), Interpolation::Linear);
    }
    let last = chars[chars.len() - 1];
    match suffix_of(last) {
        Some(interpolation) => {
            chars.pop();
            (string_from_chars(chars.as_slice()), interpolation)
        },
        None => (marker.to_owned(), Interpolation::Linear),
    }
}

} // verus!
