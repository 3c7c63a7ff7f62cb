use vstd::prelude::*;

use crate::text::{
    eq_ignore_ascii_case, lemma_trim_ends, lemma_trim_idempotent, str_eq_ignore_ascii_case,
    trim, trimmed,
};

verus! {

/// A font family chosen for a text item: installed locally or from Google Fonts.
#[derive(Debug)]
pub enum ProjectFontFamily {
    Local { name: String },
    GoogleFonts { name: String },
}

/// The plain value of a font family: where it comes from and its name.
pub struct FontFamilyView {
    pub google: bool,
    pub name: Seq<char>,
}

impl View for ProjectFontFamily {
    type V = FontFamilyView;

    open spec fn view(&self) -> FontFamilyView {
        match self {
            ProjectFontFamily::Local { name } => FontFamilyView { google: false, name: name@ },
            ProjectFontFamily::GoogleFonts { name } => FontFamilyView { google: true, name: name@ },
        }
    }
}

impl Clone for ProjectFontFamily {
    fn clone(&self) -> (copy: ProjectFontFamily)
        ensures
            copy@ == self@,
    {
        match self {
            ProjectFontFamily::Local { name } => ProjectFontFamily::Local { name: name.clone() },
            ProjectFontFamily::GoogleFonts { name } => ProjectFontFamily::GoogleFonts {
                name: name.clone(),
            },
        }
    }
}

impl ProjectFontFamily {
    pub fn name(&self) -> (name: &str)
        ensures
            name@ == self@.name,
    {
        match self {
            ProjectFontFamily::Local { name } => name.as_str(),
            ProjectFontFamily::GoogleFonts { name } => name.as_str(),
        }
    }
}

/// The views of a list of families.
pub open spec fn family_views(families: Seq<ProjectFontFamily>) -> Seq<FontFamilyView> {
    families.map_values(|f: ProjectFontFamily| f@)
}

/// The family with the same source and the given name.
pub open spec fn renamed(family: FontFamilyView, name: Seq<char>) -> FontFamilyView {
    FontFamilyView { google: family.google, name }
}

/// The families with nonempty names, each with its name trimmed, in order.
pub open spec fn normalized_spec(families: Seq<FontFamilyView>) -> Seq<FontFamilyView>
    decreases families.len(),
{
    if families.len() == 0 {
        Seq::empty()
    } else {
        let kept = normalized_spec(families.drop_last());
        let name = trim(families.last().name);
        if name.len() > 0 {
            kept.push(renamed(families.last(), name))
        } else {
            kept
        }
    }
}

/// Some family other than the one at `skip` has the name, ignoring ASCII case.
pub open spec fn name_taken(families: Seq<FontFamilyView>, name: Seq<char>, skip: int) -> bool {
    exists|i: int|
        0 <= i < families.len() && i != skip && eq_ignore_ascii_case(
            (#[trigger] families[i]).name,
            name,
        )
}

/// Result of replacing the family at `index`.
pub open spec fn replace_spec(
    families: Seq<FontFamilyView>,
    index: int,
    family: FontFamilyView,
) -> Option<Seq<FontFamilyView>> {
    let next = normalized_spec(families);
    if index >= next.len() || name_taken(next, family.name, index) {
        None
    } else {
        Some(next.update(index, family))
    }
}

/// Result of appending a family.
pub open spec fn append_spec(families: Seq<FontFamilyView>, family: FontFamilyView) -> Option<
    Seq<FontFamilyView>,
> {
    let next = normalized_spec(families);
    if name_taken(next, family.name, -1) {
        None
    } else {
        Some(next.push(family))
    }
}

/// `seq` with the entries at `i` and `j` exchanged.
pub open spec fn swapped<A>(seq: Seq<A>, i: int, j: int) -> Seq<A> {
    seq.update(i, seq[j]).update(j, seq[i])
}

/// Result of moving the family at `index` by `offset` places (exchanging it
/// with the family there).
pub open spec fn move_spec(families: Seq<FontFamilyView>, index: int, offset: int) -> Option<
    Seq<FontFamilyView>,
> {
    let next = normalized_spec(families);
    let destination = index + offset;
    if destination < 0 || destination > usize::MAX || index >= next.len() || destination
        >= next.len() {
        None
    } else {
        Some(swapped(next, index, destination))
    }
}

/// Result of removing the family at `index`.
pub open spec fn remove_spec(families: Seq<FontFamilyView>, index: int) -> Option<
    Seq<FontFamilyView>,
> {
    let next = normalized_spec(families);
    if index < next.len() {
        Some(next.remove(index))
    } else {
        None
    }
}

/// The view of an optional list of families.
pub open spec fn option_views(result: Option<Vec<ProjectFontFamily>>) -> Option<
    Seq<FontFamilyView>,
> {
    match result {
        Some(families) => Some(family_views(families@)),
        None => None,
    }
}

fn with_name(family: &ProjectFontFamily, name: String) -> (renamed_family: ProjectFontFamily)
    ensures
        renamed_family@ == renamed(family@, name@),
{
    match family {
        ProjectFontFamily::Local { .. } => ProjectFontFamily::Local { name },
        ProjectFontFamily::GoogleFonts { .. } => ProjectFontFamily::GoogleFonts { name },
    }
}

/// The families with empty names dropped and the other names trimmed.
pub fn normalized_families(families: &[ProjectFontFamily]) -> (next: Vec<ProjectFontFamily>)
    ensures
        family_views(next@) == normalized_spec(family_views(families@)),
{
    let mut next: Vec<ProjectFontFamily> = Vec::new();
    let mut i: usize = 0;
    while i < families.len()
        invariant
            i <= families@.len(),
            family_views(next@) == normalized_spec(family_views(families@).subrange(0, i as int)),
        decreases families@.len() - i,
    {
        let family = &families[i];
        let name = trimmed(family.name());
        let ghost prefix = family_views(families@).subrange(0, i + 1);
        proof {
            assert(prefix.drop_last() == family_views(families@).subrange(0, i as int));
            assert(prefix.last() == families@[i as int]@);
        }
        if name.as_str().unicode_len() != 0 {
            let ghost before = next@;
            next.push(with_name(family, name));
            proof {
                assert(family_views(next@) == family_views(before).push(next@.last()@));
            }
        }
        i = i + 1;
    }
    proof {
        assert(family_views(families@).subrange(0, families@.len() as int) == family_views(
            families@,
        ));
    }
    next
}

/// Whether a family other than the one at `skip` has the name, ignoring ASCII case.
fn name_taken_exec(families: &Vec<ProjectFontFamily>, name: &str, skip: Option<usize>) -> (taken:
    bool)
    ensures
        taken == name_taken(
            family_views(families@),
            name@,
            match skip {
                Some(s) => s as int,
                None => -1,
            },
        ),
{
    let ghost skip_index: int = match skip {
        Some(s) => s as int,
        None => -1,
    };
    let ghost views = family_views(families@);
    let mut i: usize = 0;
    while i < families.len()
        invariant
            i <= families@.len(),
            views == family_views(families@),
            skip_index == (match skip {
                Some(s) => s as int,
                None => -1,
            }),
            forall|j: int|
                0 <= j < i && j != skip_index ==> !eq_ignore_ascii_case(
                    (#[trigger] views[j]).name,
                    name@,
                ),
        decreases families@.len() - i,
    {
        let is_skipped = match skip {
            Some(s) => s == i,
            None => false,
        };
        if !is_skipped && str_eq_ignore_ascii_case(families[i].name(), name) {
            proof {
                assert(views[i as int] == families@[i as int]@);
            }
            return true;
        }
        i = i + 1;
    }
    false
}

/// Replaces the family at `index`, unless the index is out of range or another
/// family has the same name ignoring ASCII case. The list is normalized first.
pub fn replace_family(families: &[ProjectFontFamily], index: usize, family: ProjectFontFamily) -> (next:
    Option<Vec<ProjectFontFamily>>)
    ensures
        option_views(next) == replace_spec(family_views(families@), index as int, family@),
{
    let mut next = normalized_families(families);
    if index >= next.len() || name_taken_exec(&next, family.name(), Some(index)) {
        return None;
    }
    let ghost before = next@;
    let ghost new_view = family@;
    next.set(index, family);
    proof {
        assert(family_views(next@) =~= family_views(before).update(index as int, new_view));
    }
    Some(next)
}

/// Appends a family, unless one with the same name ignoring ASCII case is
/// already listed. The list is normalized first.
pub fn append_family(families: &[ProjectFontFamily], family: ProjectFontFamily) -> (next: Option<
    Vec<ProjectFontFamily>,
>)
    ensures
        option_views(next) == append_spec(family_views(families@), family@),
{
    let mut next = normalized_families(families);
    if name_taken_exec(&next, family.name(), None) {
        return None;
    }
    let ghost before = next@;
    let ghost new_view = family@;
    next.push(family);
    proof {
        assert(family_views(next@) =~= family_views(before).push(new_view));
    }
    Some(next)
}

/// Exchanges the family at `index` with the one `offset` places away, if both
/// positions exist. The list is normalized first.
pub fn move_family(families: &[ProjectFontFamily], index: usize, offset: isize) -> (next: Option<
    Vec<ProjectFontFamily>,
>)
    ensures
        option_views(next) == move_spec(family_views(families@), index as int, offset as int),
{
    let mut next = normalized_families(families);
    let destination = match index.checked_add_signed(offset) {
        Some(destination) => destination,
        None => return None,
    };
    if index >= next.len() || destination >= next.len() {
        return None;
    }
    let ghost before = family_views(next@);
    let moved = next[index].clone();
    let other = next[destination].clone();
    next.set(index, other);
    next.set(destination, moved);
    proof {
        assert(family_views(next@) =~= swapped(before, index as int, destination as int));
    }
    Some(next)
}

/// Removes the family at `index`, if it exists. The list is normalized first.
pub fn remove_family(families: &[ProjectFontFamily], index: usize) -> (next: Option<
    Vec<ProjectFontFamily>,
>)
    ensures
        option_views(next) == remove_spec(family_views(families@), index as int),
{
    let mut next = normalized_families(families);
    if index < next.len() {
        let ghost before = family_views(next@);
        next.remove(index);
        proof {
            assert(family_views(next@) =~= before.remove(index as int));
        }
        Some(next)
    } else {
        None
    }
}

/// An edit of a text item's font list.
#[derive(Clone)]
pub enum FamilyEdit {
    Append(ProjectFontFamily),
    Replace { index: usize, family: ProjectFontFamily },
    Remove(usize),
    Move { index: usize, offset: isize },
}

/// The new font list after an edit, or `None` when the edit does not apply.
pub fn apply_family_edit(families: &[ProjectFontFamily], edit: FamilyEdit) -> (next: Option<
    Vec<ProjectFontFamily>,
>)
    ensures
        option_views(next) == (match edit {
            FamilyEdit::Append(family) => append_spec(family_views(families@), family@),
            FamilyEdit::Replace { index, family } => replace_spec(
                family_views(families@),
                index as int,
                family@,
            ),
            FamilyEdit::Remove(index) => remove_spec(family_views(families@), index as int),
            FamilyEdit::Move { index, offset } => move_spec(
                family_views(families@),
                index as int,
                offset as int,
            ),
        }),
{
    match edit {
        FamilyEdit::Append(family) => append_family(families, family),
        FamilyEdit::Replace { index, family } => replace_family(families, index, family),
        FamilyEdit::Remove(index) => remove_family(families, index),
        FamilyEdit::Move { index, offset } => move_family(families, index, offset),
    }
}

/// A font list as stored after an edit: every name trimmed and nonempty.
pub open spec fn families_are_normal(families: Seq<FontFamilyView>) -> bool {
    forall|i: int|
        0 <= i < families.len() ==> (#[trigger] families[i]).name.len() > 0 && trim(
            families[i].name,
        ) == families[i].name
}

/// Normalized lists are normal.
pub proof fn lemma_normalized_is_normal(families: Seq<FontFamilyView>)
    ensures
        families_are_normal(normalized_spec(families)),
        normalized_spec(families).len() <= families.len(),
    decreases families.len(),
{
    if families.len() > 0 {
        lemma_normalized_is_normal(families.drop_last());
        lemma_trim_idempotent(families.last().name);
    }
}

/// A normal list is left as it is by normalization.
pub proof fn lemma_normal_unchanged(families: Seq<FontFamilyView>)
    requires
        families_are_normal(families),
    ensures
        normalized_spec(families) == families,
    decreases families.len(),
{
    if families.len() > 0 {
        let rest = families.drop_last();
        assert(families_are_normal(rest)) by {
            assert forall|i: int| 0 <= i < rest.len() implies (#[trigger] rest[i]).name.len() > 0
                && trim(rest[i].name) == rest[i].name by {
                assert(rest[i] == families[i]);
            }
        }
        lemma_normal_unchanged(rest);
        let last = families.last();
        assert(trim(last.name) == last.name);
        assert(renamed(last, last.name) == last);
        assert(rest.push(last) =~= families);
    }
}

/// Normalizing a font list twice is normalizing it once.
pub proof fn lemma_normalize_idempotent(families: Seq<FontFamilyView>)
    ensures
        normalized_spec(normalized_spec(families)) == normalized_spec(families),
{
    lemma_normalized_is_normal(families);
    lemma_normal_unchanged(normalized_spec(families));
}

/// Removing the family just appended gives back the normalized list.
pub proof fn lemma_append_then_remove(families: Seq<FontFamilyView>, family: FontFamilyView)
    requires
        append_spec(families, family) is Some,
        family.name.len() > 0,
        trim(family.name) == family.name,
    ensures
        remove_spec(append_spec(families, family)->0, normalized_spec(families).len() as int)
            == Some(normalized_spec(families)),
{
    let next = normalized_spec(families);
    let appended = next.push(family);
    lemma_normalized_is_normal(families);
    assert(families_are_normal(appended)) by {
        assert forall|i: int| 0 <= i < appended.len() implies (#[trigger] appended[i]).name.len()
            > 0 && trim(appended[i].name) == appended[i].name by {
            if i < next.len() {
                assert(appended[i] == next[i]);
            }
        }
    }
    lemma_normal_unchanged(appended);
    assert(appended.remove(next.len() as int) =~= next);
}

/// Moving a family by an offset and then back by the opposite offset gives the
/// normalized list.
pub proof fn lemma_move_there_and_back(families: Seq<FontFamilyView>, index: int, offset: int)
    requires
        move_spec(families, index, offset) is Some,
        0 <= index <= usize::MAX,
        isize::MIN < offset <= isize::MAX,
    ensures
        move_spec(move_spec(families, index, offset)->0, index + offset, -offset) == Some(
            normalized_spec(families),
        ),
{
    let next = normalized_spec(families);
    let destination = index + offset;
    let moved = swapped(next, index, destination);
    lemma_normalized_is_normal(families);
    assert(families_are_normal(moved)) by {
        assert forall|i: int| 0 <= i < moved.len() implies (#[trigger] moved[i]).name.len() > 0
            && trim(moved[i].name) == moved[i].name by {
            if i == index {
                assert(moved[i] == next[destination] || moved[i] == next[index]);
            } else if i == destination {
                assert(moved[i] == next[index]);
            } else {
                assert(moved[i] == next[i]);
            }
        }
    }
    lemma_normal_unchanged(moved);
    assert(swapped(moved, destination, index) =~= next);
}

/// An appended family is listed last and no other listed family shares its
/// name, ignoring ASCII case.
pub proof fn lemma_append_unique(families: Seq<FontFamilyView>, family: FontFamilyView)
    requires
        append_spec(families, family) is Some,
    ensures
        append_spec(families, family)->0.last() == family,
        !name_taken(append_spec(families, family)->0.drop_last(), family.name, -1),
{
    let next = normalized_spec(families);
    assert(next.push(family).drop_last() =~= next);
}

/// A replace succeeds exactly when the index lies within the normalized list
/// and no other family there has the new name (ignoring ASCII case); then
/// the given family, with its own source and name, stands at the index, and
/// every other family of the normalized list stays where it was.
pub proof fn law_replace_puts_family(families: Seq<FontFamilyView>, index: int, family: FontFamilyView)
    requires
        0 <= index,
    ensures
        replace_spec(families, index, family) is Some <==> (index < normalized_spec(families).len()
            && forall|j: int|
            0 <= j < normalized_spec(families).len() && j != index ==> !eq_ignore_ascii_case(
                #[trigger] normalized_spec(families)[j].name,
                family.name,
            )),
        replace_spec(families, index, family) matches Some(next) ==> {
            &&& next.len() == normalized_spec(families).len()
            &&& next[index].google == family.google
            &&& next[index].name == family.name
            &&& forall|j: int| 0 <= j < next.len() && j != index ==> #[trigger] next[j] == normalized_spec(families)[j]
        },
{
    let normal = normalized_spec(families);
    if name_taken(normal, family.name, index) {
        let j = choose|j: int|
            0 <= j < normal.len() && j != index && eq_ignore_ascii_case(#[trigger] normal[j].name, family.name);
        assert(eq_ignore_ascii_case(normal[j].name, family.name));
    }
}

} // verus!
