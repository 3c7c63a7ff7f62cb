use vstd::prelude::*;

use crate::text::str_eq;

verus! {

/// How a clip's frames must relate to a requested frame range.
#[derive(Clone, Copy, Debug, PartialEq, Eq, Structural)]
pub enum RangeMatch {
    /// The clip shares at least one frame with the range.
    Overlaps,
    /// The clip lies inside the range.
    Contained,
    /// The clip starts inside the range.
    StartsIn,
}

/// A half-open range of frames `[start_frame, end_frame)`.
#[derive(Clone, Copy, Debug, PartialEq, Eq, Structural)]
pub struct FrameRange {
    pub start_frame: i64,
    pub end_frame: i64,
}

/// Whether a clip spanning frames `[start, end)` matches the requested range;
/// every clip matches when no range is requested.
pub open spec fn range_matches_spec(start: int, end: int, range: Option<FrameRange>, mode: RangeMatch) -> bool {
    match range {
        None => true,
        Some(r) => match mode {
            RangeMatch::Overlaps => start < r.end_frame && end > r.start_frame,
            RangeMatch::Contained => start >= r.start_frame && end <= r.end_frame,
            RangeMatch::StartsIn => start >= r.start_frame && start < r.end_frame,
        },
    }
}

/// Whether a clip spanning frames `[start, end)` matches the requested range.
pub fn range_matches(start: i64, end: i64, range: Option<FrameRange>, mode: RangeMatch) -> (matches: bool)
    ensures
        matches == range_matches_spec(start as int, end as int, range, mode),
{
    match range {
        None => true,
        Some(r) => match mode {
            RangeMatch::Overlaps => start < r.end_frame && end > r.start_frame,
            RangeMatch::Contained => start >= r.start_frame && end <= r.end_frame,
            RangeMatch::StartsIn => start >= r.start_frame && start < r.end_frame,
        },
    }
}

/// `scope` is a prefix of `path`, element by element.
pub open spec fn path_starts_with(path: Seq<Seq<char>>, scope: Seq<Seq<char>>) -> bool {
    scope.len() <= path.len() && forall|i: int| 0 <= i < scope.len() ==> #[trigger] path[i] == scope[i]
}

/// The views of a list of strings.
pub open spec fn string_views(strings: Seq<String>) -> Seq<Seq<char>> {
    strings.map_values(|s: String| s@)
}

/// Whether a sequence path lies in a scope: below it when the search is
/// recursive, exactly at it otherwise.
pub fn in_scope(path: &[String], scope: &[String], recursive: bool) -> (inside: bool)
    ensures
        inside == if recursive {
            path_starts_with(string_views(path@), string_views(scope@))
        } else {
            string_views(path@) == string_views(scope@)
        },
{
    if scope.len() > path.len() || (!recursive && scope.len() != path.len()) {
        proof {
            if !recursive {
                assert(string_views(path@).len() != string_views(scope@).len());
            }
        }
        return false;
    }
    let mut i: usize = 0;
    while i < scope.len()
        invariant
            i <= scope@.len() <= path@.len(),
            forall|j: int| 0 <= j < i ==> #[trigger] path@[j]@ == scope@[j]@,
        decreases scope@.len() - i,
    {
        if !str_eq(path[i].as_str(), scope[i].as_str()) {
            proof {
                assert(string_views(path@)[i as int] != string_views(scope@)[i as int]);
            }
            return false;
        }
        i = i + 1;
    }
    proof {
        assert forall|j: int| 0 <= j < scope@.len() implies #[trigger] string_views(path@)[j] == string_views(scope@)[j] by {
            assert(path@[j]@ == scope@[j]@);
        }
        if !recursive {
            assert(string_views(path@) =~= string_views(scope@));
        }
    }
    true
}

/// Frame `f` lies in the half-open span `[from, to)`.
pub open spec fn frame_in(f: int, from: int, to: int) -> bool {
    from <= f < to
}

/// Read frame by frame, for a clip with at least one frame: it is contained
/// in a range when every one of its frames lies in the range, it overlaps
/// the range when some frame of it does, and it starts in the range when
/// its first frame does; with no range, every clip matches. (Queries refuse
/// empty ranges.)
pub proof fn law_range_matches_by_frames(start: int, end: int, range: Option<FrameRange>)
    requires
        start < end,
        range matches Some(r) ==> r.start_frame < r.end_frame,
    ensures
        range is None ==> range_matches_spec(start, end, range, RangeMatch::Overlaps)
            && range_matches_spec(start, end, range, RangeMatch::Contained)
            && range_matches_spec(start, end, range, RangeMatch::StartsIn),
        range matches Some(r) ==> (range_matches_spec(start, end, range, RangeMatch::Contained) <==> forall|f: int|
            #[trigger] frame_in(f, start, end) ==> frame_in(f, r.start_frame as int, r.end_frame as int)),
        range matches Some(r) ==> (range_matches_spec(start, end, range, RangeMatch::Overlaps) <==> exists|f: int|
            #[trigger] frame_in(f, start, end) && frame_in(f, r.start_frame as int, r.end_frame as int)),
        range matches Some(r) ==> (range_matches_spec(start, end, range, RangeMatch::StartsIn) <==> frame_in(
            start,
            r.start_frame as int,
            r.end_frame as int,
        )),
{
    match range {
        None => {},
        Some(r) => {
            let rs = r.start_frame as int;
            let re = r.end_frame as int;
            if forall|f: int| #[trigger] frame_in(f, start, end) ==> frame_in(f, rs, re) {
                assert(frame_in(start, start, end));
                assert(frame_in(end - 1, start, end));
            }
            if range_matches_spec(start, end, range, RangeMatch::Overlaps) {
                let w = if start >= rs {
                    start
                } else {
                    rs
                };
                assert(frame_in(w, start, end) && frame_in(w, rs, re));
            }
        },
    }
}

} // verus!
