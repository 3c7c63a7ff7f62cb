use vstd::prelude::*;

use crate::comment::{comment_color_label, CommentColor, CommentItem, CommentTrack};
use crate::lex::{chars_less, chars_lt, lemma_chars_lt_irreflexive, lemma_chars_lt_total, lemma_chars_lt_transitive};
use crate::text::{chars_of, trim, trimmed};
use crate::time::{
    lemma_le_lt_transitive, lemma_le_total, lemma_le_transitive, lemma_lt_le_transitive, snapped,
    step_index, step_index_of, steps_fit, steps_fit_exec, Time,
};
use std::cmp::Ordering;
use std::collections::HashMap;

verus! {

/// Marker categories of older projects, by category number modulo nine.
pub const LEGACY_COLORS: [CommentColor; 9] = [
    CommentColor::Purple,
    CommentColor::Blue,
    CommentColor::Green,
    CommentColor::Green,
    CommentColor::Yellow,
    CommentColor::Yellow,
    CommentColor::Orange,
    CommentColor::Orange,
    CommentColor::Red,
];

/// The colour of legacy marker category `kind` (Euclidean remainder by nine).
pub open spec fn legacy_color_of(kind: int) -> CommentColor {
    let r = kind % 9;
    if r == 0 {
        CommentColor::Purple
    } else if r == 1 {
        CommentColor::Blue
    } else if r <= 3 {
        CommentColor::Green
    } else if r <= 5 {
        CommentColor::Yellow
    } else if r <= 7 {
        CommentColor::Orange
    } else {
        CommentColor::Red
    }
}

/// The colour of legacy marker category `kind`.
pub fn legacy_color(kind: i64) -> (color: CommentColor)
    ensures
        color == legacy_color_of(kind as int),
{
    let r = kind % 9;
    let index: usize = if r < 0 {
        (r + 9) as usize
    } else {
        r as usize
    };
    proof {
        assert(index as int == (kind as int) % 9);
    }
    LEGACY_COLORS[index]
}

/// Imported comments are ordered by start, end, text and colour label.
pub open spec fn comment_lt(a: CommentItem, b: CommentItem) -> bool {
    ||| a.start.lt(b.start)
    ||| a.start.same(b.start) && a.end.lt(b.end)
    ||| a.start.same(b.start) && a.end.same(b.end) && chars_lt(a.text@, b.text@)
    ||| a.start.same(b.start) && a.end.same(b.end) && a.text@ == b.text@ && chars_lt(
        comment_color_label(a.color),
        comment_color_label(b.color),
    )
}

/// Two comments are duplicates: same span, text and colour.
pub open spec fn same_comment(a: CommentItem, b: CommentItem) -> bool {
    a.start.same(b.start) && a.end.same(b.end) && a.text@ == b.text@ && a.color == b.color
}

/// No comment is ordered before an earlier one.
pub open spec fn comments_sorted(items: Seq<CommentItem>) -> bool {
    forall|i: int, j: int| 0 <= i < j < items.len() ==> !comment_lt(#[trigger] items[j], #[trigger] items[i])
}

/// Three-way comparison in the order of [`comment_lt`].
pub fn compare_comments(a: &CommentItem, b: &CommentItem) -> (order: Ordering)
    ensures
        (order == Ordering::Less) == comment_lt(*a, *b),
        (order == Ordering::Greater) == comment_lt(*b, *a),
{
    proof {
        lemma_time_order(a.start, b.start);
        lemma_time_order(a.end, b.end);
        lemma_chars_lt_total(a.text@, b.text@);
        lemma_chars_lt_irreflexive(a.text@);
        lemma_chars_lt_irreflexive(comment_color_label(a.color));
        lemma_chars_lt_total(comment_color_label(a.color), comment_color_label(b.color));
        if chars_lt(a.text@, b.text@) && chars_lt(b.text@, a.text@) {
            lemma_chars_lt_transitive(a.text@, b.text@, a.text@);
        }
        let la = comment_color_label(a.color);
        let lb = comment_color_label(b.color);
        if chars_lt(la, lb) && chars_lt(lb, la) {
            lemma_chars_lt_transitive(la, lb, la);
        }
    }
    if a.start.before(&b.start) {
        return Ordering::Less;
    }
    if b.start.before(&a.start) {
        return Ordering::Greater;
    }
    if a.end.before(&b.end) {
        return Ordering::Less;
    }
    if b.end.before(&a.end) {
        return Ordering::Greater;
    }
    let at = chars_of(a.text.as_str());
    let bt = chars_of(b.text.as_str());
    if chars_less(&at, &bt) {
        return Ordering::Less;
    }
    if chars_less(&bt, &at) {
        return Ordering::Greater;
    }
    let al = chars_of(a.color.label());
    let bl = chars_of(b.color.label());
    if chars_less(&al, &bl) {
        return Ordering::Less;
    }
    if chars_less(&bl, &al) {
        return Ordering::Greater;
    }
    Ordering::Equal
}

proof fn lemma_time_order(a: Time, b: Time)
    ensures
        a.lt(b) ==> !b.lt(a),
        !a.lt(b) && !b.lt(a) ==> a.same(b),
        a.same(b) ==> !a.lt(b) && !b.lt(a),
{
    a.lemma_den_positive();
    b.lemma_den_positive();
}

proof fn lemma_lt_implies_start_le(a: CommentItem, b: CommentItem)
    requires
        comment_lt(a, b),
    ensures
        a.start.le(b.start),
{
    lemma_le_total(a.start, b.start);
}

proof fn lemma_time_chain(a: Time, b: Time, c: Time)
    requires
        a.le(b),
        b.le(c),
    ensures
        a.le(c),
        a.lt(b) || b.lt(c) ==> a.lt(c),
        !a.lt(c) ==> a.same(b) && b.same(c),
{
    lemma_le_transitive(a, b, c);
    if a.lt(b) {
        lemma_lt_le_transitive(a, b, c);
    }
    if b.lt(c) {
        lemma_le_lt_transitive(a, b, c);
    }
    lemma_le_total(a, b);
    lemma_le_total(b, c);
}

proof fn lemma_chars_chain(a: Seq<char>, b: Seq<char>, c: Seq<char>)
    requires
        a == b || chars_lt(a, b),
        b == c || chars_lt(b, c),
    ensures
        a == c || chars_lt(a, c),
        chars_lt(a, b) || chars_lt(b, c) ==> chars_lt(a, c),
{
    if chars_lt(a, b) && chars_lt(b, c) {
        lemma_chars_lt_transitive(a, b, c);
    }
}

/// Two comments neither of which is ordered before the other agree on start,
/// end, text and colour label.
proof fn lemma_comment_incomparable(a: CommentItem, b: CommentItem)
    requires
        !comment_lt(a, b),
        !comment_lt(b, a),
    ensures
        a.start.same(b.start),
        a.end.same(b.end),
        a.text@ == b.text@,
        comment_color_label(a.color) == comment_color_label(b.color),
{
    lemma_time_order(a.start, b.start);
    lemma_time_order(a.end, b.end);
    lemma_chars_lt_total(a.text@, b.text@);
    lemma_chars_lt_total(comment_color_label(a.color), comment_color_label(b.color));
}

/// The order of imported comments is a strict weak order, as sorting needs:
/// irreflexive, asymmetric and transitive, with incomparability transitive.
pub proof fn law_comment_order_is_strict_weak(a: CommentItem, b: CommentItem, c: CommentItem)
    ensures
        !comment_lt(a, a),
        comment_lt(a, b) ==> !comment_lt(b, a),
        comment_lt(a, b) && comment_lt(b, c) ==> comment_lt(a, c),
        (!comment_lt(a, b) && !comment_lt(b, a) && !comment_lt(b, c) && !comment_lt(c, b)) ==> (
        !comment_lt(a, c) && !comment_lt(c, a)),
{
    lemma_chars_lt_irreflexive(a.text@);
    lemma_chars_lt_irreflexive(comment_color_label(a.color));
    lemma_time_order(a.start, a.start);
    lemma_time_order(a.end, a.end);
    if comment_lt(a, b) && comment_lt(b, a) {
        lemma_time_order(a.start, b.start);
        lemma_time_order(a.end, b.end);
        if chars_lt(a.text@, b.text@) && chars_lt(b.text@, a.text@) {
            lemma_chars_lt_transitive(a.text@, b.text@, a.text@);
        }
        let la = comment_color_label(a.color);
        let lb = comment_color_label(b.color);
        if chars_lt(la, lb) && chars_lt(lb, la) {
            lemma_chars_lt_transitive(la, lb, la);
        }
    }
    if comment_lt(a, b) && comment_lt(b, c) {
        lemma_comment_transitive(a, b, c);
    }
    if !comment_lt(a, b) && !comment_lt(b, a) && !comment_lt(b, c) && !comment_lt(c, b) {
        lemma_comment_incomparable(a, b);
        lemma_comment_incomparable(b, c);
        lemma_time_chain(a.start, b.start, c.start);
        lemma_time_chain(c.start, b.start, a.start);
        lemma_time_chain(a.end, b.end, c.end);
        lemma_time_chain(c.end, b.end, a.end);
        lemma_chars_lt_irreflexive(a.text@);
        lemma_chars_lt_irreflexive(comment_color_label(a.color));
        lemma_time_order(a.start, c.start);
        lemma_time_order(a.end, c.end);
    }
}

proof fn lemma_comment_transitive(a: CommentItem, b: CommentItem, c: CommentItem)
    requires
        comment_lt(a, b),
        comment_lt(b, c),
    ensures
        comment_lt(a, c),
{
    lemma_lt_implies_start_le(a, b);
    lemma_lt_implies_start_le(b, c);
    lemma_time_chain(a.start, b.start, c.start);
    lemma_time_order(a.start, b.start);
    lemma_time_order(b.start, c.start);
    if !a.start.lt(c.start) {
        // Same start throughout: compare ends.
        lemma_le_total(a.end, b.end);
        lemma_le_total(b.end, c.end);
        assert(a.end.le(b.end));
        assert(b.end.le(c.end));
        lemma_time_chain(a.end, b.end, c.end);
        lemma_time_order(a.end, b.end);
        lemma_time_order(b.end, c.end);
        lemma_time_chain(a.start, b.start, c.start);
        lemma_le_transitive(c.start, b.start, a.start);
        if !a.end.lt(c.end) {
            lemma_le_transitive(c.end, b.end, a.end);
            lemma_chars_lt_total(a.text@, b.text@);
            lemma_chars_lt_total(b.text@, c.text@);
            lemma_chars_chain(a.text@, b.text@, c.text@);
            if !chars_lt(a.text@, c.text@) {
                lemma_chars_chain(
                    comment_color_label(a.color),
                    comment_color_label(b.color),
                    comment_color_label(c.color),
                );
            }
        }
    }
}

/// Sorts comments into the order of [`comment_lt`].
///
/// Calls `slice::sort_by` with [`compare_comments`], which orders the
/// comments totally: the result holds the same comments, and none comes
/// before an earlier one in that order. The sort is stable, but which of two
/// equal comments comes first is not stated here.
#[verifier::external_body]
fn sort_comments(items: &mut Vec<CommentItem>)
    ensures
        final(items)@.to_multiset() == old(items)@.to_multiset(),
        comments_sorted(final(items)@),
{
    items.sort_by(compare_comments);
}

/// The comments with every run of duplicates reduced to its first comment.
pub open spec fn deduplicated(items: Seq<CommentItem>) -> Seq<CommentItem>
    decreases items.len(),
{
    if items.len() == 0 {
        Seq::empty()
    } else {
        let kept = deduplicated(items.drop_last());
        if kept.len() > 0 && same_comment(items.last(), kept.last()) {
            kept
        } else {
            kept.push(items.last())
        }
    }
}

/// Drops each comment that duplicates the comment kept before it.
pub fn dedup_comments(items: Vec<CommentItem>) -> (kept: Vec<CommentItem>)
    ensures
        kept@ == deduplicated(items@),
{
    let ghost all = items@;
    let total = items.len();
    let mut items = items;
    let mut kept: Vec<CommentItem> = Vec::new();
    let mut seen: usize = 0;
    while items.len() > 0
        invariant
            seen + items@.len() == all.len(),
            all.len() == total,
            items@ == all.subrange(seen as int, all.len() as int),
            kept@ == deduplicated(all.subrange(0, seen as int)),
        decreases items@.len(),
    {
        let item = items.remove(0);
        proof {
            assert(all.subrange(0, seen + 1).drop_last() =~= all.subrange(0, seen as int));
            assert(all.subrange(0, seen + 1).last() == item);
        }
        let duplicate = match kept.last() {
            Some(last) => same_comment_exec(&item, last),
            None => false,
        };
        if !duplicate {
            kept.push(item);
        }
        seen = seen + 1;
        proof {
            assert(items@ =~= all.subrange(seen as int, all.len() as int));
        }
    }
    proof {
        assert(all.subrange(0, seen as int) =~= all);
    }
    kept
}

fn same_comment_exec(a: &CommentItem, b: &CommentItem) -> (same: bool)
    ensures
        same == same_comment(*a, *b),
{
    a.start.at_or_before(&b.start) && b.start.at_or_before(&a.start) && a.end.at_or_before(&b.end)
        && b.end.at_or_before(&a.end) && crate::text::str_eq(a.text.as_str(), b.text.as_str())
        && a.color == b.color
}

/// After deduplication no comment duplicates the one before it.
pub proof fn law_no_adjacent_duplicates(items: Seq<CommentItem>)
    ensures
        forall|j: int|
            0 <= j < deduplicated(items).len() - 1 ==> !same_comment(
                #[trigger] deduplicated(items)[j + 1],
                deduplicated(items)[j],
            ),
    decreases items.len(),
{
    if items.len() > 0 {
        law_no_adjacent_duplicates(items.drop_last());
        let kept = deduplicated(items.drop_last());
        let result = deduplicated(items);
        assert forall|j: int| 0 <= j < result.len() - 1 implies !same_comment(
            #[trigger] result[j + 1],
            result[j],
        ) by {
            if !(kept.len() > 0 && same_comment(items.last(), kept.last())) {
                assert(result == kept.push(items.last()));
                if j + 1 < kept.len() {
                    assert(result[j + 1] == kept[j + 1] && result[j] == kept[j]);
                }
            }
        }
    }
}

/// A comment can be put on the grid of `step`: its snapped start, the step
/// after it, and its snapped end all fit.
pub open spec fn snap_fits(item: CommentItem, step: Time) -> bool {
    &&& steps_fit(step_index(item.start, step), step)
    &&& steps_fit(step_index(item.start, step) + 1, step)
    &&& steps_fit(step_index(item.end, step), step)
}

/// Whether a comment can be put on the grid of `step` (see [`snap_fits`]).
pub fn comment_fits_grid(item: &CommentItem, step: Time) -> (fits: bool)
    requires
        step.num() > 0,
    ensures
        fits == snap_fits(*item, step),
{
    let ks = step_index_of(item.start, step);
    let ke = step_index_of(item.end, step);
    steps_fit_exec(ks, step) && steps_fit_exec(ks + 1, step) && steps_fit_exec(ke, step)
}

/// `after` is `before` on the grid of `step`: its start is the nearest whole
/// step, its end the nearest whole step but at least one step after the start
/// (so a point marker lasts one step), both over the step's denominator; the
/// other fields are kept.
pub open spec fn is_snapped(before: CommentItem, after: CommentItem, step: Time) -> bool {
    let ks = step_index(before.start, step);
    let ke = step_index(before.end, step);
    &&& after.start.num() == ks * step.num()
    &&& after.start.den() == step.den()
    &&& after.end.num() == (if ke <= ks + 1 {
        ks + 1
    } else {
        ke
    }) * step.num()
    &&& after.end.den() == step.den()
    &&& after.id == before.id
    &&& after.text == before.text
    &&& after.color == before.color
    &&& after.group_id == before.group_id
}

proof fn lemma_same_den_le(a: int, b: int, c: int, d: int)
    requires
        c > 0,
        d > 0,
    ensures
        (a * c * d <= b * c * d) == (a <= b),
{
    if a <= b {
        assert(a * c * d <= b * c * d) by (nonlinear_arith)
            requires
                a <= b,
                c > 0,
                d > 0,
        ;
    } else {
        assert(a * c * d > b * c * d) by (nonlinear_arith)
            requires
                a > b,
                c > 0,
                d > 0,
        ;
    }
}

/// Puts every comment on the grid of `step` (see [`is_snapped`]).
pub fn snap_comments(items: Vec<CommentItem>, step: Time) -> (on_grid: Vec<CommentItem>)
    requires
        step.num() > 0,
        forall|i: int| 0 <= i < items@.len() ==> snap_fits(#[trigger] items@[i], step),
    ensures
        on_grid@.len() == items@.len(),
        forall|i: int| 0 <= i < items@.len() ==> is_snapped(#[trigger] items@[i], on_grid@[i], step),
{
    let ghost all = items@;
    let total = items.len();
    let mut pending = items;
    let mut on_grid: Vec<CommentItem> = Vec::new();
    let mut done: usize = 0;
    while pending.len() > 0
        invariant
            step.num() > 0,
            all.len() == total,
            done + pending@.len() == all.len(),
            pending@ == all.subrange(done as int, all.len() as int),
            on_grid@.len() == done,
            forall|i: int| 0 <= i < all.len() ==> snap_fits(#[trigger] all[i], step),
            forall|i: int| 0 <= i < done ==> is_snapped(#[trigger] all[i], on_grid@[i], step),
        decreases pending@.len(),
    {
        let item = pending.remove(0);
        proof {
            assert(all[done as int] == item);
        }
        let start = snapped(item.start, step);
        let end_on_grid = snapped(item.end, step);
        proof {
            let ks = step_index(item.start, step);
            assert((ks + 1) * step.num() == ks * step.num() + step.num()) by (nonlinear_arith);
            assert(snap_fits(item, step));
        }
        let next = Time::from_fraction(start.numerator() + step.numerator(), step.denominator());
        let end = end_on_grid.max(next);
        proof {
            let ks = step_index(item.start, step);
            let ke = step_index(item.end, step);
            step.lemma_den_positive();
            assert(next.num() == (ks + 1) * step.num()) by (nonlinear_arith)
                requires
                    next.num() == ks * step.num() + step.num(),
            ;
            lemma_same_den_le(ke, ks + 1, step.num(), step.den());
            assert(end_on_grid.le(next) == (ke <= ks + 1)) by (nonlinear_arith)
                requires
                    end_on_grid.num() == ke * step.num(),
                    next.num() == (ks + 1) * step.num(),
                    end_on_grid.den() == step.den(),
                    next.den() == step.den(),
                    end_on_grid.le(next) == (end_on_grid.num() * next.den() <= next.num() * end_on_grid.den()),
                    (ke * step.num() * step.den() <= (ks + 1) * step.num() * step.den()) == (ke <= ks + 1),
            ;
        }
        let moved = CommentItem {
            id: item.id,
            start,
            end,
            text: item.text,
            color: item.color,
            group_id: item.group_id,
        };
        on_grid.push(moved);
        done = done + 1;
        proof {
            assert(pending@ =~= all.subrange(done as int, all.len() as int));
        }
    }
    on_grid
}

/// Puts the imported comments on the frame grid of `step`, orders them, drops
/// duplicates and packs them into tracks.
pub fn comment_tracks(items: Vec<CommentItem>, step: Time) -> (tracks: Vec<CommentTrack>)
    requires
        step.num() > 0,
        forall|i: int| 0 <= i < items@.len() ==> snap_fits(#[trigger] items@[i], step),
    ensures
        exists|on_grid: Seq<CommentItem>, sorted: Seq<CommentItem>|
            {
                &&& on_grid.len() == items@.len()
                &&& forall|i: int| 0 <= i < items@.len() ==> is_snapped(#[trigger] items@[i], on_grid[i], step)
                &&& sorted.to_multiset() == on_grid.to_multiset()
                &&& comments_sorted(sorted)
                &&& track_items(tracks@) == packed(deduplicated(sorted))
            },
        forall|i: int| 0 <= i < tracks@.len() ==> (#[trigger] tracks@[i]).enabled,
{
    let mut items = snap_comments(items, step);
    let ghost on_grid = items@;
    sort_comments(&mut items);
    let ghost sorted = items@;
    let kept = dedup_comments(items);
    pack_comments(kept)
}

/// One field of a marker record: missing, holding a value of the expected
/// kind, or holding something else.
#[derive(Clone, Debug, PartialEq, Eq)]
pub enum MarkerField<T> {
    Absent,
    Value(T),
    Other,
}

/// The fields of a marker record: position and duration in frames, category
/// number and comment text.
#[derive(Clone, Debug, PartialEq, Eq)]
pub struct MarkerFields {
    pub pos: MarkerField<i64>,
    pub duration: MarkerField<i64>,
    pub kind: MarkerField<i64>,
    pub comment: MarkerField<String>,
}

/// A marker read from its record: frames `[start_frame, end_frame]`, text and
/// colour.
#[derive(Clone, Debug, PartialEq, Eq)]
pub struct Marker {
    pub start_frame: i64,
    pub end_frame: i64,
    pub text: String,
    pub color: CommentColor,
}

/// The colour of marker category `kind`: its named category colour, or the
/// legacy colour of the number.
pub open spec fn marker_color_of(colors: Map<i64, CommentColor>, kind: i64) -> CommentColor {
    if colors.contains_key(kind) {
        colors[kind]
    } else {
        legacy_color_of(kind as int)
    }
}

/// What a marker record reads as: the position must be a nonnegative frame,
/// the duration (zero when missing) a nonnegative count whose end fits, the
/// category (zero when missing) an integer, and the comment ("Marker" when
/// missing) text; each failure has its message, checked in that order.
pub open spec fn read_marker_spec(fields: MarkerFields, colors: Map<i64, CommentColor>) -> Result<
    (int, int, Seq<char>, CommentColor),
    Seq<char>,
> {
    match fields.pos {
        MarkerField::Value(pos) if pos >= 0 => match fields.duration {
            MarkerField::Value(d) if d < 0 => Err(
                "marker duration must be a nonnegative frame count"@,
            ),
            MarkerField::Other => Err("marker duration must be a nonnegative frame count"@),
            _ => {
                let duration: int = match fields.duration {
                    MarkerField::Value(d) => d as int,
                    _ => 0,
                };
                if pos + duration > i64::MAX {
                    Err("marker range overflowed"@)
                } else {
                    match fields.kind {
                        MarkerField::Other => Err("marker category must be an integer"@),
                        _ => {
                            let kind: i64 = match fields.kind {
                                MarkerField::Value(k) => k,
                                _ => 0,
                            };
                            match fields.comment {
                                MarkerField::Other => Err("marker comment must be text"@),
                                MarkerField::Value(text) => Ok(
                                    (pos as int, pos + duration, text@, marker_color_of(colors, kind)),
                                ),
                                MarkerField::Absent => Ok(
                                    (pos as int, pos + duration, "Marker"@, marker_color_of(colors, kind)),
                                ),
                            }
                        },
                    }
                }
            },
        },
        _ => Err("marker position must be a nonnegative frame number"@),
    }
}

/// Reads one marker record; the error says which field is wrong.
pub fn read_marker(fields: MarkerFields, colors: &HashMap<i64, CommentColor>) -> (marker: Result<
    Marker,
    String,
>)
    ensures
        match (marker, read_marker_spec(fields, colors@)) {
            (Ok(m), Ok((start, end, text, color))) => m.start_frame == start && m.end_frame == end
                && m.text@ == text && m.color == color,
            (Err(message), Err(expected)) => message@ == expected,
            _ => false,
        },
{
    broadcast use vstd::std_specs::hash::group_hash_axioms;

    let pos = match fields.pos {
        MarkerField::Value(pos) => {
            if pos < 0 {
                return Err("marker position must be a nonnegative frame number".to_owned());
            }
            pos
        },
        _ => {
            return Err("marker position must be a nonnegative frame number".to_owned());
        },
    };
    let duration = match fields.duration {
        MarkerField::Absent => 0,
        MarkerField::Value(d) => {
            if d < 0 {
                return Err("marker duration must be a nonnegative frame count".to_owned());
            }
            d
        },
        MarkerField::Other => {
            return Err("marker duration must be a nonnegative frame count".to_owned());
        },
    };
    let end = match pos.checked_add(duration) {
        Some(end) => end,
        None => {
            return Err("marker range overflowed".to_owned());
        },
    };
    let kind = match fields.kind {
        MarkerField::Absent => 0,
        MarkerField::Value(k) => k,
        MarkerField::Other => {
            return Err("marker category must be an integer".to_owned());
        },
    };
    let text = match fields.comment {
        MarkerField::Absent => "Marker".to_owned(),
        MarkerField::Value(text) => text,
        MarkerField::Other => {
            return Err("marker comment must be text".to_owned());
        },
    };
    let color = match colors.get(&kind) {
        Some(color) => *color,
        None => legacy_color(kind),
    };
    Ok(Marker { start_frame: pos, end_frame: end, text, color })
}

/// A marker list is read only when its text is more than whitespace.
pub fn has_marker_data(data: Option<&str>) -> (present: bool)
    ensures
        present == (data matches Some(text) && trim(text@).len() > 0),
{
    match data {
        Some(text) => trimmed(text).unicode_len() > 0,
        None => false,
    }
}

/// A looked-up field: missing, or holding a value of the expected kind or
/// not.
pub open spec fn marker_field_spec<T>(found: Option<Option<T>>) -> MarkerField<T> {
    match found {
        None => MarkerField::Absent,
        Some(Some(value)) => MarkerField::Value(value),
        Some(None) => MarkerField::Other,
    }
}

/// The field for a lookup: `None` when the key is missing, `Some(None)` when
/// its value is not of the expected kind.
pub fn marker_field<T>(found: Option<Option<T>>) -> (field: MarkerField<T>)
    ensures
        field == marker_field_spec(found),
{
    match found {
        None => MarkerField::Absent,
        Some(Some(value)) => MarkerField::Value(value),
        Some(None) => MarkerField::Other,
    }
}

/// The marker records a JSON marker list holds (the `pos`, `duration`, `type`
/// and `comment` fields of each element), or the parser's message when the
/// text is not a JSON array.
pub uninterp spec fn marker_records(text: Seq<char>) -> Result<Seq<MarkerFields>, Seq<char>>;

/// Calls `serde_json::from_str::<Vec<serde_json::Value>>` and takes from each
/// element its `pos`, `duration` and `type` as `as_i64` reads them and its
/// `comment` as `as_str` reads it; an error becomes its message. The result
/// is a function of the text alone.
#[verifier::external_body]
fn parse_marker_records(text: &str) -> (records: Result<Vec<MarkerFields>, String>)
    ensures
        match records {
            Ok(v) => marker_records(text@) == Ok::<Seq<MarkerFields>, Seq<char>>(v@),
            Err(message) => marker_records(text@) == Err::<Seq<MarkerFields>, Seq<char>>(message@),
        },
{
    let values: Vec<serde_json::Value> = serde_json::from_str(text).map_err(|e| e.to_string())?;
    Ok(values.iter().map(|v| MarkerFields {
        pos: marker_field(v.get("pos").map(|x| x.as_i64())),
        duration: marker_field(v.get("duration").map(|x| x.as_i64())),
        kind: marker_field(v.get("type").map(|x| x.as_i64())),
        comment: marker_field(v.get("comment").map(|x| x.as_str().map(|t| t.to_owned()))),
    }).collect())
}

/// The markers of a marker list: none for missing or blank data; otherwise
/// the records it holds, read in order, or the message of the parser or of
/// the first record that cannot be read.
pub open spec fn markers_spec(data: Option<Seq<char>>, colors: Map<i64, CommentColor>) -> Result<
    Seq<(int, int, Seq<char>, CommentColor)>,
    Seq<char>,
> {
    match data {
        Some(text) if trim(text).len() > 0 => match marker_records(text) {
            Err(message) => Err(message),
            Ok(records) => read_markers_spec(records, colors),
        },
        _ => Ok(Seq::empty()),
    }
}

/// Reads a JSON marker list (positions and durations in frames).
pub fn markers(data: Option<&str>, colors: &HashMap<i64, CommentColor>) -> (result: Result<
    Vec<Marker>,
    String,
>)
    ensures
        match (result, markers_spec(
            match data {
                Some(text) => Some(text@),
                None => None,
            },
            colors@,
        )) {
            (Ok(ms), Ok(expected)) => marker_values(ms@) == expected,
            (Err(message), Err(expected)) => message@ == expected,
            _ => false,
        },
{
    if !has_marker_data(data) {
        let empty: Vec<Marker> = Vec::new();
        proof {
            assert(marker_values(empty@) =~= Seq::empty());
        }
        return Ok(empty);
    }
    let text = match data {
        Some(text) => text,
        None => {
            return Ok(Vec::new());
        },
    };
    let records = parse_marker_records(text)?;
    read_markers(records, colors)
}

/// The markers of a list of records, in order, or the message of the first
/// record that cannot be read.
pub open spec fn read_markers_spec(records: Seq<MarkerFields>, colors: Map<i64, CommentColor>) -> Result<
    Seq<(int, int, Seq<char>, CommentColor)>,
    Seq<char>,
>
    decreases records.len(),
{
    if records.len() == 0 {
        Ok(Seq::empty())
    } else {
        match read_markers_spec(records.drop_last(), colors) {
            Err(message) => Err(message),
            Ok(markers) => match read_marker_spec(records.last(), colors) {
                Err(message) => Err(message),
                Ok(marker) => Ok(markers.push(marker)),
            },
        }
    }
}

/// The plain values of markers.
pub open spec fn marker_values(markers: Seq<Marker>) -> Seq<(int, int, Seq<char>, CommentColor)> {
    markers.map_values(|m: Marker| (m.start_frame as int, m.end_frame as int, m.text@, m.color))
}

/// Reads every marker record in order, stopping at the first that cannot be
/// read.
pub fn read_markers(records: Vec<MarkerFields>, colors: &HashMap<i64, CommentColor>) -> (markers:
    Result<Vec<Marker>, String>)
    ensures
        match (markers, read_markers_spec(records@, colors@)) {
            (Ok(ms), Ok(expected)) => marker_values(ms@) == expected,
            (Err(message), Err(expected)) => message@ == expected,
            _ => false,
        },
{
    let ghost all = records@;
    let total = records.len();
    let mut pending = records;
    let mut markers: Vec<Marker> = Vec::new();
    let mut done: usize = 0;
    proof {
        assert(all.subrange(0, 0) =~= Seq::<MarkerFields>::empty());
        assert(marker_values(markers@) =~= Seq::empty());
    }
    while pending.len() > 0
        invariant
            all == records@,
            done + pending@.len() == all.len(),
            all.len() == total,
            pending@ == all.subrange(done as int, all.len() as int),
            read_markers_spec(all.subrange(0, done as int), colors@) == Ok::<
                Seq<(int, int, Seq<char>, CommentColor)>,
                Seq<char>,
            >(marker_values(markers@)),
        decreases pending@.len(),
    {
        let record = pending.remove(0);
        proof {
            assert(all.subrange(0, done + 1).drop_last() =~= all.subrange(0, done as int));
            assert(all.subrange(0, done + 1).last() == record);
        }
        let marker = match read_marker(record, colors) {
            Ok(marker) => marker,
            Err(message) => {
                proof {
                    assert(read_markers_spec(all.subrange(0, done + 1), colors@) == Err::<
                        Seq<(int, int, Seq<char>, CommentColor)>,
                        Seq<char>,
                    >(message@));
                    lemma_read_markers_stops(all, done as int + 1, colors@);
                    assert(read_markers_spec(all, colors@) == Err::<
                        Seq<(int, int, Seq<char>, CommentColor)>,
                        Seq<char>,
                    >(message@));
                }
                return Err(message);
            },
        };
        let ghost before = markers@;
        markers.push(marker);
        proof {
            assert(marker_values(markers@) =~= marker_values(before).push(
                (marker.start_frame as int, marker.end_frame as int, marker.text@, marker.color),
            ));
        }
        done = done + 1;
        proof {
            assert(pending@ =~= all.subrange(done as int, all.len() as int));
        }
    }
    proof {
        assert(all.subrange(0, done as int) =~= all);
    }
    Ok(markers)
}

/// Once a prefix of the records fails, the whole list fails with the same
/// message.
proof fn lemma_read_markers_stops(all: Seq<MarkerFields>, n: int, colors: Map<i64, CommentColor>)
    requires
        0 <= n <= all.len(),
        read_markers_spec(all.subrange(0, n), colors) is Err,
    ensures
        read_markers_spec(all, colors) == read_markers_spec(all.subrange(0, n), colors),
    decreases all.len() - n,
{
    if n < all.len() {
        assert(all.subrange(0, n + 1).drop_last() =~= all.subrange(0, n));
        lemma_read_markers_stops(all, n + 1, colors);
    } else {
        assert(all.subrange(0, n) =~= all);
    }
}

/// `item` can follow the comments of `lane`: the lane is empty or its last
/// comment ends at or before `item` starts.
pub open spec fn fits_after(lane: Seq<CommentItem>, item: CommentItem) -> bool {
    lane.len() == 0 || lane.last().end.le(item.start)
}

/// The first lane at or after `k` that `item` fits after, or the number of
/// lanes when none does.
pub open spec fn first_fit(lanes: Seq<Seq<CommentItem>>, item: CommentItem, k: int) -> int
    decreases lanes.len() - k,
{
    if k >= lanes.len() || k < 0 {
        lanes.len() as int
    } else if fits_after(lanes[k], item) {
        k
    } else {
        first_fit(lanes, item, k + 1)
    }
}

/// The lanes after placing `item`: it joins the first lane it fits after, or
/// opens a new lane.
pub open spec fn place(lanes: Seq<Seq<CommentItem>>, item: CommentItem) -> Seq<Seq<CommentItem>> {
    let i = first_fit(lanes, item, 0);
    if i < lanes.len() {
        lanes.update(i, lanes[i].push(item))
    } else {
        lanes.push(seq![item])
    }
}

/// The lanes the comments are packed into, placed one by one in order.
pub open spec fn packed(items: Seq<CommentItem>) -> Seq<Seq<CommentItem>>
    decreases items.len(),
{
    if items.len() == 0 {
        Seq::empty()
    } else {
        place(packed(items.drop_last()), items.last())
    }
}

/// Within a lane each comment ends at or before the next one starts.
#[verifier::opaque]
pub open spec fn lane_ordered(lane: Seq<CommentItem>) -> bool {
    forall|j: int| 0 <= j < lane.len() - 1 ==> (#[trigger] lane[j]).end.le(lane[j + 1].start)
}

/// The number of comments in all lanes.
pub open spec fn lane_total(lanes: Seq<Seq<CommentItem>>) -> nat
    decreases lanes.len(),
{
    if lanes.len() == 0 {
        0
    } else {
        lane_total(lanes.drop_last()) + lanes.last().len()
    }
}

proof fn lemma_first_fit(lanes: Seq<Seq<CommentItem>>, item: CommentItem, k: int)
    requires
        0 <= k <= lanes.len(),
    ensures
        k <= first_fit(lanes, item, k) <= lanes.len(),
        first_fit(lanes, item, k) < lanes.len() ==> fits_after(
            lanes[first_fit(lanes, item, k)],
            item,
        ),
        forall|j: int| k <= j < first_fit(lanes, item, k) ==> !fits_after(#[trigger] lanes[j], item),
    decreases lanes.len() - k,
{
    if k < lanes.len() && !fits_after(lanes[k], item) {
        lemma_first_fit(lanes, item, k + 1);
    }
}

proof fn lemma_lane_total_update(lanes: Seq<Seq<CommentItem>>, i: int, lane: Seq<CommentItem>)
    requires
        0 <= i < lanes.len(),
    ensures
        lane_total(lanes.update(i, lane)) == lane_total(lanes) - lanes[i].len() + lane.len(),
    decreases lanes.len(),
{
    let updated = lanes.update(i, lane);
    if i == lanes.len() - 1 {
        assert(updated.drop_last() =~= lanes.drop_last());
    } else {
        lemma_lane_total_update(lanes.drop_last(), i, lane);
        assert(updated.drop_last() =~= lanes.drop_last().update(i, lane));
    }
}

#[verifier::spinoff_prover]
proof fn lemma_push_ordered(lane: Seq<CommentItem>, item: CommentItem)
    requires
        lane_ordered(lane),
        fits_after(lane, item),
    ensures
        lane_ordered(lane.push(item)),
{
    reveal(lane_ordered);
    let pushed = lane.push(item);
    assert forall|j: int| 0 <= j < pushed.len() - 1 implies (#[trigger] pushed[j]).end.le(
        pushed[j + 1].start,
    ) by {
        if j < lane.len() - 1 {
            assert(pushed[j] == lane[j] && pushed[j + 1] == lane[j + 1]);
        } else {
            assert(pushed[j] == lane.last());
        }
    }
}

proof fn lemma_place(lanes: Seq<Seq<CommentItem>>, item: CommentItem)
    requires
        forall|i: int| 0 <= i < lanes.len() ==> (#[trigger] lanes[i]).len() > 0,
        forall|i: int| 0 <= i < lanes.len() ==> lane_ordered(#[trigger] lanes[i]),
    ensures
        lane_total(place(lanes, item)) == lane_total(lanes) + 1,
        forall|i: int| 0 <= i < place(lanes, item).len() ==> (#[trigger] place(lanes, item)[i]).len() > 0,
        forall|i: int| 0 <= i < place(lanes, item).len() ==> lane_ordered(#[trigger] place(lanes, item)[i]),
{
    lemma_first_fit(lanes, item, 0);
    let i = first_fit(lanes, item, 0);
    let result = place(lanes, item);
    if i < lanes.len() {
        let lane = lanes[i].push(item);
        lemma_lane_total_update(lanes, i, lane);
        assert(result == lanes.update(i, lane));
        lemma_push_ordered(lanes[i], item);
        assert forall|l: int| 0 <= l < result.len() implies lane_ordered(#[trigger] result[l]) by {
            if l != i {
                assert(result[l] == lanes[l]);
            }
        }
        assert forall|l: int| 0 <= l < result.len() implies (#[trigger] result[l]).len() > 0 by {
            if l != i {
                assert(result[l] == lanes[l]);
            }
        }
    } else {
        assert(result == lanes.push(seq![item]));
        assert(result.drop_last() =~= lanes);
        assert forall|l: int| 0 <= l < result.len() implies lane_ordered(#[trigger] result[l]) by {
            if l < lanes.len() {
                assert(result[l] == lanes[l]);
            } else {
                assert(result[l] == seq![item]);
                reveal(lane_ordered);
            }
        }
        assert forall|l: int| 0 <= l < result.len() implies (#[trigger] result[l]).len() > 0 by {
            if l < lanes.len() {
                assert(result[l] == lanes[l]);
            }
        }
    }
}

/// Packing keeps every comment: the lanes hold as many comments as were given,
/// each lane holds at least one, and within each lane every comment ends at or
/// before the next one starts.
pub proof fn law_packing_keeps_comments_apart(items: Seq<CommentItem>)
    ensures
        lane_total(packed(items)) == items.len(),
        forall|i: int| 0 <= i < packed(items).len() ==> (#[trigger] packed(items)[i]).len() > 0,
        forall|i: int| 0 <= i < packed(items).len() ==> lane_ordered(#[trigger] packed(items)[i]),
    decreases items.len(),
{
    if items.len() > 0 {
        law_packing_keeps_comments_apart(items.drop_last());
        lemma_place(packed(items.drop_last()), items.last());
    }
}

/// The comments of each track.
pub open spec fn track_items(tracks: Seq<CommentTrack>) -> Seq<Seq<CommentItem>> {
    tracks.map_values(|track: CommentTrack| track.items@)
}

/// Packs comments into as few tracks as the order allows: each comment goes on
/// the first track whose last comment ends at or before it starts, or on a new
/// enabled track.
pub fn pack_comments(items: Vec<CommentItem>) -> (tracks: Vec<CommentTrack>)
    ensures
        track_items(tracks@) == packed(items@),
        forall|i: int| 0 <= i < tracks@.len() ==> (#[trigger] tracks@[i]).enabled,
{
    let ghost all = items@;
    let total = items.len();
    let mut items = items;
    let mut tracks: Vec<CommentTrack> = Vec::new();
    let mut placed: usize = 0;
    while items.len() > 0
        invariant
            placed + items@.len() == all.len(),
            all.len() <= usize::MAX,
            items@ == all.subrange(placed as int, all.len() as int),
            track_items(tracks@) == packed(all.subrange(0, placed as int)),
            forall|i: int| 0 <= i < tracks@.len() ==> (#[trigger] tracks@[i]).enabled,
        decreases items@.len(),
    {
        let item = items.remove(0);
        let ghost lanes = track_items(tracks@);
        proof {
            assert(all.subrange(0, placed + 1).drop_last() =~= all.subrange(0, placed as int));
            assert(all.subrange(0, placed + 1).last() == item);
            lemma_first_fit(lanes, item, 0);
        }
        let mut k: usize = 0;
        while k < tracks.len()
            invariant
                k <= tracks@.len(),
                lanes == track_items(tracks@),
                forall|j: int| 0 <= j < k ==> !fits_after(#[trigger] lanes[j], item),
            ensures
                k <= tracks@.len(),
                k < tracks@.len() ==> fits_after(lanes[k as int], item),
                forall|j: int| 0 <= j < k ==> !fits_after(#[trigger] lanes[j], item),
            decreases tracks@.len() - k,
        {
            let fits = match tracks[k].items.last() {
                Some(last) => last.end.at_or_before(&item.start),
                None => true,
            };
            proof {
                assert(lanes[k as int] == tracks@[k as int].items@);
            }
            if fits {
                break;
            }
            k = k + 1;
        }
        proof {
            if k < tracks@.len() {
                assert(fits_after(lanes[k as int], item));
            }
            lemma_first_fit_is(lanes, item, k as int);
        }
        if k < tracks.len() {
            let mut track = tracks.remove(k);
            track.items.push(item);
            tracks.insert(k, track);
            proof {
                assert(track_items(tracks@) =~= lanes.update(k as int, lanes[k as int].push(item)));
            }
        } else {
            let mut track = CommentTrack::default();
            track.items.push(item);
            proof {
                assert(track.items@ =~= seq![item]);
            }
            tracks.push(track);
            proof {
                assert(track_items(tracks@) =~= lanes.push(seq![item]));
            }
        }
        placed = placed + 1;
        proof {
            assert(items@ =~= all.subrange(placed as int, all.len() as int));
        }
    }
    proof {
        assert(all.subrange(0, placed as int) =~= all);
    }
    tracks
}

proof fn lemma_first_fit_is(lanes: Seq<Seq<CommentItem>>, item: CommentItem, k: int)
    requires
        0 <= k <= lanes.len(),
        forall|j: int| 0 <= j < k ==> !fits_after(#[trigger] lanes[j], item),
        k < lanes.len() ==> fits_after(lanes[k], item),
    ensures
        first_fit(lanes, item, 0) == k,
{
    lemma_first_fit_from(lanes, item, 0, k);
}

proof fn lemma_first_fit_from(lanes: Seq<Seq<CommentItem>>, item: CommentItem, j: int, k: int)
    requires
        0 <= j <= k <= lanes.len(),
        forall|l: int| j <= l < k ==> !fits_after(#[trigger] lanes[l], item),
        k < lanes.len() ==> fits_after(lanes[k], item),
    ensures
        first_fit(lanes, item, j) == k,
    decreases k - j,
{
    if j < k {
        lemma_first_fit_from(lanes, item, j + 1, k);
    }
}

} // verus!
