use vstd::prelude::*;

use crate::text::{lemma_trim_idempotent, str_eq, trim, trimmed};

verus! {

/// The tags kept from `tags`, in first-seen order: each trimmed, empty ones
/// dropped, and a tag already kept not kept again.
pub open spec fn normalized_tags(tags: Seq<Seq<char>>) -> Seq<Seq<char>>
    decreases tags.len(),
{
    if tags.len() == 0 {
        Seq::empty()
    } else {
        let kept = normalized_tags(tags.drop_last());
        let tag = trim(tags.last());
        if tag.len() > 0 && !kept.contains(tag) {
            kept.push(tag)
        } else {
            kept
        }
    }
}

/// The text of each string.
pub open spec fn texts(strings: Seq<String>) -> Seq<Seq<char>> {
    strings.map_values(|s: String| s@)
}

/// Tags as a project stores them: trimmed, nonempty and without repeats.
pub open spec fn tags_are_normal(tags: Seq<Seq<char>>) -> bool {
    &&& forall|i: int| 0 <= i < tags.len() ==> (#[trigger] tags[i]).len() > 0
    &&& forall|i: int| 0 <= i < tags.len() ==> trim(#[trigger] tags[i]) == tags[i]
    &&& forall|i: int, j: int| 0 <= i < j < tags.len() ==> #[trigger] tags[i] != #[trigger] tags[j]
}

fn contains_tag(kept: &Vec<String>, tag: &String) -> (found: bool)
    ensures
        found == texts(kept@).contains(tag@),
{
    let mut i: usize = 0;
    while i < kept.len()
        invariant
            i <= kept@.len(),
            forall|j: int| 0 <= j < i ==> kept@[j]@ != tag@,
        decreases kept@.len() - i,
    {
        if str_eq(kept[i].as_str(), tag.as_str()) {
            proof {
                assert(texts(kept@)[i as int] == tag@);
            }
            return true;
        }
        i = i + 1;
    }
    proof {
        if texts(kept@).contains(tag@) {
            let j = choose|j: int| 0 <= j < texts(kept@).len() && texts(kept@)[j] == tag@;
            assert(kept@[j]@ == tag@);
        }
    }
    false
}

/// Trims every tag, drops empty ones, and keeps only the first of equal tags.
pub fn normalize_tags(tags: &[String]) -> (unique: Vec<String>)
    ensures
        texts(unique@) == normalized_tags(texts(tags@)),
{
    let mut unique: Vec<String> = Vec::new();
    let mut i: usize = 0;
    while i < tags.len()
        invariant
            i <= tags@.len(),
            texts(unique@) == normalized_tags(texts(tags@).subrange(0, i as int)),
        decreases tags@.len() - i,
    {
        let tag = trimmed(tags[i].as_str());
        let ghost prefix = texts(tags@).subrange(0, i + 1);
        proof {
            assert(prefix.drop_last() == texts(tags@).subrange(0, i as int));
            assert(prefix.last() == tags@[i as int]@);
        }
        if tag.as_str().unicode_len() != 0 && !contains_tag(&unique, &tag) {
            let ghost before = unique@;
            unique.push(tag);
            proof {
                assert(texts(unique@) == texts(before).push(tag@));
            }
        }
        i = i + 1;
    }
    proof {
        assert(texts(tags@).subrange(0, tags@.len() as int) == texts(tags@));
    }
    unique
}

/// Normalized tags are trimmed, nonempty and free of repeats.
pub proof fn lemma_normalized_tags_are_normal(tags: Seq<Seq<char>>)
    ensures
        tags_are_normal(normalized_tags(tags)),
    decreases tags.len(),
{
    if tags.len() > 0 {
        let kept = normalized_tags(tags.drop_last());
        lemma_normalized_tags_are_normal(tags.drop_last());
        let tag = trim(tags.last());
        lemma_trim_idempotent(tags.last());
        if tag.len() > 0 && !kept.contains(tag) {
            let next = kept.push(tag);
            assert forall|i: int, j: int| 0 <= i < j < next.len() implies #[trigger] next[i]
                != #[trigger] next[j] by {
                if j == next.len() - 1 {
                    assert(kept[i] == next[i]);
                }
            }
        }
    }
}

/// Tags that are already normal are left exactly as they are.
pub proof fn lemma_normal_tags_unchanged(tags: Seq<Seq<char>>)
    requires
        tags_are_normal(tags),
    ensures
        normalized_tags(tags) == tags,
    decreases tags.len(),
{
    if tags.len() > 0 {
        let rest = tags.drop_last();
        assert(tags_are_normal(rest)) by {
            assert forall|i: int, j: int| 0 <= i < j < rest.len() implies #[trigger] rest[i]
                != #[trigger] rest[j] by {
                assert(rest[i] == tags[i] && rest[j] == tags[j]);
            }
            assert forall|i: int| 0 <= i < rest.len() implies trim(#[trigger] rest[i]) == rest[i] by {
                assert(rest[i] == tags[i]);
            }
            assert forall|i: int| 0 <= i < rest.len() implies (#[trigger] rest[i]).len() > 0 by {
                assert(rest[i] == tags[i]);
            }
        }
        lemma_normal_tags_unchanged(rest);
        let last = tags.last();
        assert(trim(last) == last);
        if rest.contains(last) {
            let i = choose|i: int| 0 <= i < rest.len() && rest[i] == last;
            assert(tags[i] == tags[tags.len() - 1]);
        }
        assert(rest.push(last) =~= tags);
    }
}

/// Normalizing tags twice gives the same tags as normalizing once.
pub proof fn lemma_normalize_tags_idempotent(tags: Seq<Seq<char>>)
    ensures
        normalized_tags(normalized_tags(tags)) == normalized_tags(tags),
{
    lemma_normalized_tags_are_normal(tags);
    lemma_normal_tags_unchanged(normalized_tags(tags));
}

} // verus!
