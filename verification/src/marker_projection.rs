use vstd::prelude::*;

use vstd::arithmetic::div_mod::lemma_fundamental_div_mod_converse;

verus! {

/// `-1` for a negative number, else `1`.
pub open spec fn sign(p: int) -> int {
    if p < 0 {
        -1
    } else {
        1
    }
}

/// The absolute value.
pub open spec fn magnitude(p: int) -> int {
    if p < 0 {
        -p
    } else {
        p
    }
}

/// Where source frame `m` lands on the timeline, in frames, as a numerator
/// over `|p|`: a clip that starts at timeline frame `c0` and plays its source
/// from `sf · |p/q|` source frames at speed `p/q` shows source frame `m` at
/// `c0 + (m·q − sf·|p|)/p`.
pub open spec fn projected_num(m: int, c0: int, sf: int, p: int, q: int) -> int {
    (c0 - sign(p) * sf) * magnitude(p) + sign(p) * m * q
}

/// `n / d` rounded to the nearest whole number, halves away from zero
/// (`d > 0`).
pub open spec fn round_frames(n: int, d: int) -> int {
    let i = n / d;
    let r = n % d;
    if n >= 0 {
        if 2 * r >= d {
            i + 1
        } else {
            i
        }
    } else {
        if 2 * r > d {
            i + 1
        } else {
            i
        }
    }
}

pub open spec fn min_int(a: int, b: int) -> int {
    if a <= b {
        a
    } else {
        b
    }
}

pub open spec fn max_int(a: int, b: int) -> int {
    if a >= b {
        a
    } else {
        b
    }
}

/// Where a source marker `m0..m1` (frames) shows on the timeline, for a clip
/// over timeline frames `c0..c1` that plays its source from source time
/// `sf · |p/q|` (frames) at speed `p/q`.
///
/// A point marker (`m0 == m1`) stays a point: it is dropped when it lands
/// outside `[c0, c1)`, else put on the nearest frame within the clip. A range
/// is projected (reversed for negative speeds, from the last frame it
/// covers), cut to the clip, dropped when nothing is left, and put on whole
/// frames: its start within the clip and before its last frame, its end at
/// least one frame after the start and not past the clip's end.
pub open spec fn marker_range_spec(
    m0: int,
    m1: int,
    c0: int,
    c1: int,
    sf: int,
    p: int,
    q: int,
) -> Option<(int, int)> {
    let d = magnitude(p);
    if m0 == m1 {
        let n = projected_num(m0, c0, sf, p, q);
        if n < c0 * d || n >= c1 * d {
            None
        } else {
            let point = max_int(min_int(round_frames(n, d), c1 - 1), c0);
            Some((point, point))
        }
    } else {
        let ns = if p < 0 {
            projected_num(m1 - 1, c0, sf, p, q)
        } else {
            projected_num(m0, c0, sf, p, q)
        };
        let ne = if p < 0 {
            projected_num(m0 - 1, c0, sf, p, q)
        } else {
            projected_num(m1, c0, sf, p, q)
        };
        let start = max_int(ns, c0 * d);
        let end = min_int(ne, c1 * d);
        if start >= end {
            None
        } else {
            let s = max_int(min_int(round_frames(start, d), c1 - 1), c0);
            let e = min_int(max_int(round_frames(end, d), s + 1), c1);
            Some((s, e))
        }
    }
}

/// A projected frame as a whole part and a remainder over `d`.
struct Split {
    whole: i128,
    rest: i128,
}

spec fn split_is(x: Split, n: int, d: int) -> bool {
    &&& 0 <= x.rest < d
    &&& n == x.whole * d + x.rest
    &&& -0x4000_0000_0000_0002_0000_0000_0000_0000 < x.whole < 0x4000_0000_0000_0002_0000_0000_0000_0000
}

proof fn lemma_split_div(n: int, d: int, i: int, r: int)
    requires
        d > 0,
        0 <= r < d,
        n == i * d + r,
    ensures
        n / d == i,
        n % d == r,
        n >= 0 <==> i >= 0,
{
    lemma_fundamental_div_mod_converse(n, d, i, r);
    if i >= 0 {
        assert(i * d >= 0) by (nonlinear_arith)
            requires
                i >= 0,
                d > 0,
        ;
    } else {
        assert(i * d <= -d) by (nonlinear_arith)
            requires
                i < 0,
                d > 0,
        ;
    }
}

proof fn lemma_split_lt(i: int, r: int, d: int, k: int)
    requires
        d > 0,
        0 <= r < d,
    ensures
        (i * d + r < k * d) <==> i < k,
        (i * d + r >= k * d) <==> i >= k,
{
    if i < k {
        assert(i * d + r < k * d) by (nonlinear_arith)
            requires
                i < k,
                d > 0,
                r < d,
        ;
    } else {
        assert(i * d + r >= k * d) by (nonlinear_arith)
            requires
                i >= k,
                d > 0,
                r >= 0,
        ;
    }
}

proof fn lemma_split_order(i: int, r: int, j: int, s: int, d: int)
    requires
        d > 0,
        0 <= r < d,
        0 <= s < d,
    ensures
        (i * d + r >= j * d + s) <==> (i > j || (i == j && r >= s)),
{
    if i > j {
        assert(i * d + r >= j * d + s) by (nonlinear_arith)
            requires
                i > j,
                d > 0,
                r >= 0,
                s < d,
        ;
    } else if i < j {
        assert(i * d + r < j * d + s) by (nonlinear_arith)
            requires
                i < j,
                d > 0,
                r < d,
                s >= 0,
        ;
    }
}

/// Source frame `m` projected, split into whole frames and a remainder.
fn project_split(m: i128, c0: i64, sf: i64, p: i64, q: i64) -> (x: Split)
    requires
        p != 0,
        q > 0,
        -0x8000_0000_0000_0001 <= m <= 0x7fff_ffff_ffff_ffff,
    ensures
        split_is(x, projected_num(m as int, c0 as int, sf as int, p as int, q as int), magnitude(p as int)),
{
    let d: i128 = if p < 0 {
        -(p as i128)
    } else {
        p as i128
    };
    let sg: i128 = if p < 0 {
        -1
    } else {
        1
    };
    let base: i128 = (c0 as i128) - sg * (sf as i128);
    proof {
        assert(-0x8000_0000_0000_0001 * 0x7fff_ffff_ffff_ffff <= m * q <= 0x7fff_ffff_ffff_ffff
            * 0x7fff_ffff_ffff_ffff) by (nonlinear_arith)
            requires
                -0x8000_0000_0000_0001 <= m <= 0x7fff_ffff_ffff_ffff,
                0 < q <= 0x7fff_ffff_ffff_ffff,
        ;
    }
    let mq: i128 = m * (q as i128);
    let big: i128 = sg * mq;
    let a: u128 = if big < 0 {
        (-big) as u128
    } else {
        big as u128
    };
    let du = d as u128;
    let qa: u128 = a / du;
    let ra: u128 = a % du;
    proof {
        assert(qa <= a) by (nonlinear_arith)
            requires
                du > 0,
                qa == a / du,
        ;
        assert(a == qa * du + ra) by (nonlinear_arith)
            requires
                du > 0,
                qa == a / du,
                ra == a % du,
        ;
    }
    let (k, r): (i128, i128) = if big >= 0 {
        (qa as i128, ra as i128)
    } else if ra == 0 {
        (-(qa as i128), 0)
    } else {
        (-(qa as i128) - 1, (du - ra) as i128)
    };
    proof {
        assert(big == k * d + r) by (nonlinear_arith)
            requires
                d == du,
                a == qa * du + ra,
                big >= 0 ==> (a == big && k == qa && r == ra),
                big < 0 && ra == 0 ==> (a == -big && k == -qa && r == 0),
                big < 0 && ra != 0 ==> (a == -big && k == -qa - 1 && r == du - ra),
        ;
        let pi = p as int;
        assert(projected_num(m as int, c0 as int, sf as int, pi, q as int) == base * d + big) by (nonlinear_arith)
            requires
                d == magnitude(pi),
                sg == sign(pi),
                base == c0 - sg * sf,
                big == sg * (m * q),
        ;
        assert(projected_num(m as int, c0 as int, sf as int, pi, q as int) == (base + k) * d + r) by (nonlinear_arith)
            requires
                projected_num(m as int, c0 as int, sf as int, pi, q as int) == base * d + big,
                big == k * d + r,
        ;
    }
    proof {
        assert(a <= 0x4000_0000_0000_0000_0000_0000_0000_0000);
        assert(-0x4000_0000_0000_0001_0000_0000_0000_0000 <= k <= 0x4000_0000_0000_0000_0000_0000_0000_0000);
        assert(0 <= r < d);
    }
    Split { whole: base + k, rest: r }
}

/// `round_frames` of a split value.
fn round_split(x: &Split, d: i128) -> (k: i128)
    requires
        0 < d <= 0x8000_0000_0000_0000,
        0 <= x.rest < d,
        -0x4000_0000_0000_0002_0000_0000_0000_0000 < x.whole < 0x4000_0000_0000_0002_0000_0000_0000_0000,
    ensures
        k == round_frames(x.whole * d + x.rest, d as int),
{
    proof {
        lemma_split_div(x.whole * d + x.rest, d as int, x.whole as int, x.rest as int);
    }
    let twice = 2 * x.rest;
    if x.whole >= 0 {
        if twice >= d {
            x.whole + 1
        } else {
            x.whole
        }
    } else {
        if twice > d {
            x.whole + 1
        } else {
            x.whole
        }
    }
}

fn min_i128(a: i128, b: i128) -> (m: i128)
    ensures
        m == min_int(a as int, b as int),
{
    if a <= b {
        a
    } else {
        b
    }
}

fn max_i128(a: i128, b: i128) -> (m: i128)
    ensures
        m == max_int(a as int, b as int),
{
    if a >= b {
        a
    } else {
        b
    }
}

/// Where a source marker `marker` (frames) shows on the timeline for a clip
/// over timeline frames `clip` that plays its source from source frame
/// `source_frame` at speed `speed` (numerator, positive denominator): see
/// [`marker_range_spec`].
pub fn project_marker_range(marker: (i64, i64), clip: (i64, i64), source_frame: i64, speed: (i64, i64)) -> (range:
    Option<(i64, i64)>)
    requires
        speed.0 != 0,
        speed.1 > 0,
    ensures
        match (range, marker_range_spec(
            marker.0 as int,
            marker.1 as int,
            clip.0 as int,
            clip.1 as int,
            source_frame as int,
            speed.0 as int,
            speed.1 as int,
        )) {
            (Some((s, e)), Some((es, ee))) => s == es && e == ee,
            (None, None) => true,
            _ => false,
        },
        range matches Some((s, e)) ==> clip.0 <= s <= e <= clip.1,
        range matches Some((s, e)) ==> (s == e <==> marker.0 == marker.1),
{
    let (m0, m1) = marker;
    let (c0, c1) = clip;
    let (p, q) = speed;
    let ghost d_int = magnitude(p as int);
    let d: i128 = if p < 0 {
        -(p as i128)
    } else {
        p as i128
    };
    let c0w = c0 as i128;
    let c1w = c1 as i128;
    if m0 == m1 {
        let x = project_split(m0 as i128, c0, source_frame, p, q);
        proof {
            lemma_split_lt(x.whole as int, x.rest as int, d as int, c0 as int);
            lemma_split_lt(x.whole as int, x.rest as int, d as int, c1 as int);
        }
        if x.whole < c0w || x.whole >= c1w {
            return None;
        }
        let k = round_split(&x, d);
        let point = max_i128(min_i128(k, c1w - 1), c0w);
        return Some((point as i64, point as i64));
    }
    let (xs, xe) = if p < 0 {
        (project_split((m1 as i128) - 1, c0, source_frame, p, q), project_split((m0 as i128) - 1, c0, source_frame, p, q))
    } else {
        (project_split(m0 as i128, c0, source_frame, p, q), project_split(m1 as i128, c0, source_frame, p, q))
    };
    proof {
        lemma_split_lt(xs.whole as int, xs.rest as int, d as int, c0 as int);
        lemma_split_lt(xe.whole as int, xe.rest as int, d as int, c1 as int);
        lemma_split_order(xe.whole as int, xe.rest as int, c1 as int, 0, d as int);
    }
    // The start, cut to the clip's start.
    let start = if xs.whole < c0w {
        Split { whole: c0w, rest: 0 }
    } else {
        Split { whole: xs.whole, rest: xs.rest }
    };
    // The end, cut to the clip's end.
    let end = if xe.whole > c1w || (xe.whole == c1w && xe.rest > 0) {
        Split { whole: c1w, rest: 0 }
    } else {
        Split { whole: xe.whole, rest: xe.rest }
    };
    proof {
        lemma_split_order(start.whole as int, start.rest as int, end.whole as int, end.rest as int, d as int);
    }
    if start.whole > end.whole || (start.whole == end.whole && start.rest >= end.rest) {
        return None;
    }
    proof {
        lemma_split_order(c0 as int, 0, c1 as int, 0, d as int);
    }
    let s = max_i128(min_i128(round_split(&start, d), c1w - 1), c0w);
    let e = min_i128(max_i128(round_split(&end, d), s + 1), c1w);
    Some((s as i64, e as i64))
}

/// Where an entry's clip takes its source from: its in point (frames), the
/// source frame its reversed playback starts from (for negative speeds), and
/// its speed (numerator, positive denominator).
#[derive(Clone, Copy, Debug, PartialEq, Eq, Structural)]
pub struct Placement {
    pub in_frame: i64,
    pub reverse_origin: Option<i64>,
    pub speed_numerator: i64,
    pub speed_denominator: i64,
}

/// One `entry` or `blank` of a playlist lane, with what was read of it: its
/// duration (frames); for an entry, its markers (source frames) and, needed
/// only when it has markers, its placement.
#[derive(Debug)]
pub enum LaneNode {
    Blank { duration: Result<i64, String> },
    Entry {
        duration: Result<i64, String>,
        markers: Result<Vec<(i64, i64)>, String>,
        placement: Result<Placement, String>,
    },
}

/// A marker that shows on the timeline: the node and the marker it comes
/// from, and the timeline frames it covers.
#[derive(Clone, Copy, Debug, PartialEq, Eq, Structural)]
pub struct LaneMarker {
    pub node: usize,
    pub marker: usize,
    pub start: i64,
    pub end: i64,
}

/// The markers of node `node` (the first `markers.len()` of them) that show
/// on a clip over `c0..c1`, in order.
pub open spec fn shown_markers(
    node: int,
    markers: Seq<(i64, i64)>,
    c0: int,
    c1: int,
    sf: int,
    p: int,
    q: int,
) -> Seq<LaneMarker>
    decreases markers.len(),
{
    if markers.len() == 0 {
        Seq::empty()
    } else {
        let before = shown_markers(node, markers.drop_last(), c0, c1, sf, p, q);
        match marker_range_spec(markers.last().0 as int, markers.last().1 as int, c0, c1, sf, p, q) {
            Some((s, e)) => before.push(
                LaneMarker { node: node as usize, marker: (markers.len() - 1) as usize, start: s as i64, end: e as i64 },
            ),
            None => before,
        }
    }
}

/// The source frame an entry starts at: its in point, or for a reversed
/// clip the reverse origin less the in point.
pub open spec fn source_frame_of(placement: Placement) -> Option<int> {
    match placement.reverse_origin {
        Some(o) => if i64::MIN <= o - placement.in_frame <= i64::MAX {
            Some(o - placement.in_frame)
        } else {
            None
        },
        None => Some(placement.in_frame as int),
    }
}

/// One node of a lane starting at timeline frame `cursor`: the markers it
/// shows and the frame after it, or the first error met.
pub open spec fn node_step(node: LaneNode, index: int, cursor: int) -> Result<(Seq<LaneMarker>, int), Seq<char>> {
    let duration = match node {
        LaneNode::Blank { duration } => duration,
        LaneNode::Entry { duration, .. } => duration,
    };
    match duration {
        Err(e) => Err(e@),
        Ok(d) => if cursor + d < i64::MIN || cursor + d > i64::MAX {
            Err("marker timeline position overflowed"@)
        } else {
            let end = cursor + d;
            match node {
                LaneNode::Blank { .. } => Ok((Seq::empty(), end)),
                LaneNode::Entry { markers, placement, .. } => match markers {
                    Err(e) => Err(e@),
                    Ok(ms) => if ms@.len() == 0 {
                        Ok((Seq::empty(), end))
                    } else {
                        match placement {
                            Err(e) => Err(e@),
                            Ok(pl) => match source_frame_of(pl) {
                                None => Err("marker source position overflowed"@),
                                Some(sf) => if pl.speed_numerator == 0 {
                                    Err("marker clip has zero playback speed"@)
                                } else {
                                    Ok(
                                        (
                                            shown_markers(index, ms@, cursor, end, sf, pl.speed_numerator as int, pl.speed_denominator as int),
                                            end,
                                        ),
                                    )
                                },
                            },
                        }
                    },
                },
            }
        },
    }
}

/// The markers a lane shows from node `i` on, the lane being at timeline
/// frame `cursor` there, or the first error met.
pub open spec fn lane_from(nodes: Seq<LaneNode>, i: int, cursor: int) -> Result<Seq<LaneMarker>, Seq<char>>
    decreases nodes.len() - i,
{
    if i < 0 || i >= nodes.len() {
        Ok(Seq::empty())
    } else {
        match node_step(nodes[i], i, cursor) {
            Err(e) => Err(e),
            Ok((shown, end)) => match lane_from(nodes, i + 1, end) {
                Err(e) => Err(e),
                Ok(rest) => Ok(shown + rest),
            },
        }
    }
}

/// Every placement read has a positive speed denominator.
pub open spec fn placements_valid(nodes: Seq<LaneNode>) -> bool {
    forall|i: int|
        0 <= i < nodes.len() ==> (#[trigger] nodes[i] matches LaneNode::Entry { placement: Ok(pl), .. }
            ==> pl.speed_denominator > 0)
}

fn shown_markers_of(node: usize, markers: &Vec<(i64, i64)>, c0: i64, c1: i64, sf: i64, speed: (i64, i64)) -> (shown: Vec<
    LaneMarker,
>)
    requires
        speed.0 != 0,
        speed.1 > 0,
    ensures
        shown@ == shown_markers(node as int, markers@, c0 as int, c1 as int, sf as int, speed.0 as int, speed.1 as int),
{
    let mut shown: Vec<LaneMarker> = Vec::new();
    let mut j: usize = 0;
    while j < markers.len()
        invariant
            speed.0 != 0,
            speed.1 > 0,
            j <= markers@.len(),
            shown@ == shown_markers(node as int, markers@.take(j as int), c0 as int, c1 as int, sf as int, speed.0 as int, speed.1 as int),
        decreases markers@.len() - j,
    {
        proof {
            assert(markers@.take(j + 1).drop_last() =~= markers@.take(j as int));
            assert(markers@.take(j + 1).last() == markers@[j as int]);
        }
        match project_marker_range(markers[j], (c0, c1), sf, speed) {
            Some((s, e)) => {
                shown.push(LaneMarker { node, marker: j, start: s, end: e });
            },
            None => {},
        }
        j = j + 1;
    }
    proof {
        assert(markers@.take(markers@.len() as int) =~= markers@);
    }
    shown
}

/// Walks a playlist lane from timeline frame 0: each node's duration moves
/// the cursor, and each entry's markers are projected onto the frames it
/// covers; the first error met ends the walk.
pub fn lane_markers(nodes: &Vec<LaneNode>) -> (shown: Result<Vec<LaneMarker>, String>)
    requires
        placements_valid(nodes@),
    ensures
        match (shown, lane_from(nodes@, 0, 0)) {
            (Ok(v), Ok(expected)) => v@ == expected,
            (Err(message), Err(expected)) => message@ == expected,
            _ => false,
        },
{
    let mut shown: Vec<LaneMarker> = Vec::new();
    let mut cursor: i64 = 0;
    let mut i: usize = 0;
    while i < nodes.len()
        invariant
            placements_valid(nodes@),
            i <= nodes@.len(),
            lane_from(nodes@, 0, 0) == (match lane_from(nodes@, i as int, cursor as int) {
                Ok(rest) => Ok(shown@ + rest),
                Err(e) => Err(e),
            }),
        decreases nodes@.len() - i,
    {
        let node = &nodes[i];
        let ghost step = node_step(nodes@[i as int], i as int, cursor as int);
        let duration = match node {
            LaneNode::Blank { duration } => duration,
            LaneNode::Entry { duration, .. } => duration,
        };
        let d = match duration {
            Ok(d) => *d,
            Err(e) => {
                return Err(e.clone());
            },
        };
        let end = match cursor.checked_add(d) {
            Some(end) => end,
            None => {
                return Err("marker timeline position overflowed".to_owned());
            },
        };
        let mut found: Vec<LaneMarker> = match node {
            LaneNode::Blank { .. } => Vec::new(),
            LaneNode::Entry { markers, placement, .. } => {
                let ms = match markers {
                    Ok(ms) => ms,
                    Err(e) => {
                        return Err(e.clone());
                    },
                };
                if ms.len() == 0 {
                    Vec::new()
                } else {
                    let pl = match placement {
                        Ok(pl) => *pl,
                        Err(e) => {
                            return Err(e.clone());
                        },
                    };
                    let sf = match pl.reverse_origin {
                        Some(o) => match o.checked_sub(pl.in_frame) {
                            Some(v) => v,
                            None => {
                                return Err("marker source position overflowed".to_owned());
                            },
                        },
                        None => pl.in_frame,
                    };
                    if pl.speed_numerator == 0 {
                        return Err("marker clip has zero playback speed".to_owned());
                    }
                    proof {
                        assert(nodes@[i as int] matches LaneNode::Entry { placement: Ok(pl), .. });
                    }
                    shown_markers_of(i, ms, cursor, end, sf, (pl.speed_numerator, pl.speed_denominator))
                }
            },
        };
        proof {
            assert(step == Ok::<(Seq<LaneMarker>, int), Seq<char>>((found@, end as int)));
            assert(shown@ + found@ + lane_from(nodes@, i + 1, end as int)->Ok_0 =~= shown@ + (found@ + lane_from(
                nodes@,
                i + 1,
                end as int,
            )->Ok_0));
        }
        shown.append(&mut found);
        cursor = end;
        i = i + 1;
    }
    proof {
        assert(shown@ + Seq::<LaneMarker>::empty() =~= shown@);
    }
    Ok(shown)
}

proof fn lemma_scale_order(a: int, b: int, k: int)
    requires
        k != 0,
    ensures
        k > 0 ==> (a * k < b * k <==> a < b),
        k < 0 ==> (a * k < b * k <==> a > b),
{
    if k > 0 {
        if a < b {
            assert(a * k < b * k) by (nonlinear_arith)
                requires
                    a < b,
                    k > 0,
            ;
        } else {
            assert(a * k >= b * k) by (nonlinear_arith)
                requires
                    a >= b,
                    k > 0,
            ;
        }
    } else {
        if a > b {
            assert(a * k < b * k) by (nonlinear_arith)
                requires
                    a > b,
                    k < 0,
            ;
        } else {
            assert(a * k >= b * k) by (nonlinear_arith)
                requires
                    a <= b,
                    k < 0,
            ;
        }
    }
}

proof fn lemma_projected_forward(m: int, c0: int, sf: int, p: int, q: int)
    requires
        p > 0,
    ensures
        projected_num(m, c0, sf, p, q) == c0 * p + (m * q - sf * p),
{
    assert((c0 - sf) * p + m * q == c0 * p + (m * q - sf * p)) by (nonlinear_arith);
}

proof fn lemma_projected_backward(m: int, c0: int, sf: int, p: int, q: int)
    requires
        p < 0,
    ensures
        projected_num(m, c0, sf, p, q) == c0 * (-p) - ((m * q) + sf * p),
        projected_num(m - 1, c0, sf, p, q) == c0 * (-p) - ((m - 1) * q + sf * p),
{
    assert((c0 - (-1) * sf) * (-p) + (-1) * m * q == c0 * (-p) - ((m * q) + sf * p)) by (nonlinear_arith);
    assert((c0 - (-1) * sf) * (-p) + (-1) * (m - 1) * q == c0 * (-p) - ((m - 1) * q + sf * p)) by (nonlinear_arith);
}

/// A marker shows on a clip exactly when its projection meets the clip. With
/// the clip at timeline frames `c0..c1`, its source starting at `sf` source
/// frames (scaled by the speed) and speed `p/q`, source frame `m` lands at
/// timeline frame `c0 + (m·q − sf·|p|)/p`:
/// - a point marker shows exactly when it lands in `[c0, c1)`;
/// - a range marker shows exactly when it is a forward range (`m0 < m1`),
///   the clip has a frame, and the projected range (from its last covered
///   frame when playing backwards) ends after the clip's start and starts
///   before the clip's end;
/// - a shown range covers at least one frame, inside the clip.
pub proof fn law_marker_shows_when_it_meets_the_clip(m0: int, m1: int, c0: int, c1: int, sf: int, p: int, q: int)
    requires
        p != 0,
        q > 0,
    ensures
        m0 == m1 && p > 0 ==> (marker_range_spec(m0, m1, c0, c1, sf, p, q) is Some <==> (0 <= m0 * q - sf * p
            && m0 * q - sf * p < (c1 - c0) * p)),
        m0 == m1 && p < 0 ==> (marker_range_spec(m0, m1, c0, c1, sf, p, q) is Some <==> (m0 * q + sf * p <= 0
            && m0 * q + sf * p > (c1 - c0) * p)),
        m0 != m1 && p > 0 ==> (marker_range_spec(m0, m1, c0, c1, sf, p, q) is Some <==> (m0 < m1 && c0 < c1 && m1
            * q - sf * p > 0 && m0 * q - sf * p < (c1 - c0) * p)),
        m0 != m1 && p < 0 ==> (marker_range_spec(m0, m1, c0, c1, sf, p, q) is Some <==> (m0 < m1 && c0 < c1 && (m0
            - 1) * q + sf * p < 0 && (m1 - 1) * q + sf * p > (c1 - c0) * p)),
        m0 != m1 ==> (marker_range_spec(m0, m1, c0, c1, sf, p, q) matches Some((s, e)) ==> c0 <= s < e <= c1),
{
    assert((c1 - c0) * p == c1 * p - c0 * p) by (nonlinear_arith);
    lemma_scale_order(c0, c1, p);
    lemma_scale_order(c1, c0, p);
    lemma_scale_order(m0, m1, q);
    if p > 0 {
        lemma_projected_forward(m0, c0, sf, p, q);
        lemma_projected_forward(m1, c0, sf, p, q);
        assert(magnitude(p) == p);
    } else {
        lemma_projected_backward(m0, c0, sf, p, q);
        lemma_projected_backward(m1, c0, sf, p, q);
        assert(magnitude(p) == -p);
        assert(c0 * (-p) == -(c0 * p) && c1 * (-p) == -(c1 * p)) by (nonlinear_arith);
        assert((m0 - 1) * q == m0 * q - q && (m1 - 1) * q == m1 * q - q) by (nonlinear_arith);
    }
}

} // verus!
