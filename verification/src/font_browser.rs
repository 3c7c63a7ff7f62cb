use vstd::prelude::*;

use crate::text::{eq_ignore_ascii_case, str_eq, str_eq_ignore_ascii_case};

verus! {

/// Where a font family in the browser comes from.
#[derive(Clone, Copy, PartialEq, Eq, Structural, Debug)]
pub enum FontSource {
    Local,
    Google,
}

/// One row of the font browser: a family name, its source and the revision of
/// the cached files (negative when nothing is cached yet).
#[derive(Debug, PartialEq, Eq)]
pub struct FontFamily {
    pub name: String,
    pub source: FontSource,
    pub revision: i64,
}

impl Clone for FontFamily {
    fn clone(&self) -> (copy: FontFamily)
        ensures
            copy == *self,
    {
        FontFamily { name: self.name.clone(), source: self.source, revision: self.revision }
    }
}

/// Unicode lower case of a string, as `str::to_lowercase` computes it.
pub uninterp spec fn lowercase(s: Seq<char>) -> Seq<char>;

/// Calls `str::to_lowercase`; the result is a function of the characters alone.
#[verifier::external_body]
fn to_lowercase(s: &str) -> (lower: String)
    ensures
        lower@ == lowercase(s@),
{
    s.to_lowercase()
}

/// The key under which a preview of `family` is tracked: its lower-cased name
/// and its revision.
pub open spec fn preview_key(family: FontFamily) -> (Seq<char>, i64) {
    (lowercase(family.name@), family.revision)
}

/// A preview that was asked for, with the query generation of the last request.
struct PendingPreview {
    name: String,
    revision: i64,
    generation: u64,
}

spec fn entry_key(entry: PendingPreview) -> (Seq<char>, i64) {
    (entry.name@, entry.revision)
}

spec fn pending_map(entries: Seq<PendingPreview>) -> Map<(Seq<char>, i64), u64>
    decreases entries.len(),
{
    if entries.len() == 0 {
        Map::empty()
    } else {
        pending_map(entries.drop_last()).insert(entry_key(entries.last()), entries.last().generation)
    }
}

spec fn keys_unique(entries: Seq<PendingPreview>) -> bool {
    forall|i: int, j: int|
        0 <= i < j < entries.len() ==> entry_key(#[trigger] entries[i]) != entry_key(
            #[trigger] entries[j],
        )
}

proof fn lemma_pending_absent(entries: Seq<PendingPreview>, key: (Seq<char>, i64))
    requires
        forall|i: int| 0 <= i < entries.len() ==> entry_key(#[trigger] entries[i]) != key,
    ensures
        !pending_map(entries).contains_key(key),
    decreases entries.len(),
{
    if entries.len() > 0 {
        let rest = entries.drop_last();
        assert forall|i: int| 0 <= i < rest.len() implies entry_key(#[trigger] rest[i]) != key by {
            assert(rest[i] == entries[i]);
        }
        lemma_pending_absent(rest, key);
        assert(entry_key(entries[entries.len() - 1]) != key);
    }
}

proof fn lemma_pending_at(entries: Seq<PendingPreview>, i: int)
    requires
        keys_unique(entries),
        0 <= i < entries.len(),
    ensures
        pending_map(entries).contains_key(entry_key(entries[i])),
        pending_map(entries)[entry_key(entries[i])] == entries[i].generation,
    decreases entries.len(),
{
    let rest = entries.drop_last();
    if i < entries.len() - 1 {
        assert(rest[i] == entries[i]);
        assert(keys_unique(rest)) by {
            assert forall|a: int, b: int| 0 <= a < b < rest.len() implies entry_key(
                #[trigger] rest[a],
            ) != entry_key(#[trigger] rest[b]) by {
                assert(rest[a] == entries[a] && rest[b] == entries[b]);
            }
        }
        lemma_pending_at(rest, i);
        assert(entry_key(entries[i]) != entry_key(entries[entries.len() - 1]));
    }
}

proof fn lemma_pending_push(entries: Seq<PendingPreview>, entry: PendingPreview)
    ensures
        pending_map(entries.push(entry)) == pending_map(entries).insert(
            entry_key(entry),
            entry.generation,
        ),
{
    assert(entries.push(entry).drop_last() =~= entries);
}

proof fn lemma_pending_update(entries: Seq<PendingPreview>, i: int, entry: PendingPreview)
    requires
        keys_unique(entries),
        0 <= i < entries.len(),
        entry_key(entry) == entry_key(entries[i]),
    ensures
        keys_unique(entries.update(i, entry)),
        pending_map(entries.update(i, entry)) == pending_map(entries).insert(
            entry_key(entry),
            entry.generation,
        ),
    decreases entries.len(),
{
    let updated = entries.update(i, entry);
    assert forall|a: int, b: int| 0 <= a < b < updated.len() implies entry_key(
        #[trigger] updated[a],
    ) != entry_key(#[trigger] updated[b]) by {
        assert(entry_key(updated[a]) == entry_key(entries[a]));
        assert(entry_key(updated[b]) == entry_key(entries[b]));
    }
    let rest = entries.drop_last();
    assert(keys_unique(rest)) by {
        assert forall|a: int, b: int| 0 <= a < b < rest.len() implies entry_key(
            #[trigger] rest[a],
        ) != entry_key(#[trigger] rest[b]) by {
            assert(rest[a] == entries[a] && rest[b] == entries[b]);
        }
    }
    if i == entries.len() - 1 {
        assert(updated.drop_last() =~= rest);
        assert(pending_map(updated) == pending_map(rest).insert(entry_key(entry), entry.generation));
        assert(pending_map(updated) =~= pending_map(entries).insert(
            entry_key(entry),
            entry.generation,
        ));
    } else {
        assert(rest[i] == entries[i]);
        lemma_pending_update(rest, i, entry);
        assert(updated.drop_last() =~= rest.update(i, entry));
        let last = entries.last();
        assert(updated.last() == last);
        assert(entry_key(last) != entry_key(entry));
        assert(pending_map(updated) =~= pending_map(entries).insert(
            entry_key(entry),
            entry.generation,
        ));
    }
}

proof fn lemma_pending_remove(entries: Seq<PendingPreview>, i: int)
    requires
        keys_unique(entries),
        0 <= i < entries.len(),
    ensures
        keys_unique(entries.remove(i)),
        pending_map(entries.remove(i)) == pending_map(entries).remove(entry_key(entries[i])),
    decreases entries.len(),
{
    let removed = entries.remove(i);
    assert forall|a: int, b: int| 0 <= a < b < removed.len() implies entry_key(
        #[trigger] removed[a],
    ) != entry_key(#[trigger] removed[b]) by {
        let a0 = if a < i { a } else { a + 1 };
        let b0 = if b < i { b } else { b + 1 };
        assert(removed[a] == entries[a0] && removed[b] == entries[b0]);
    }
    let rest = entries.drop_last();
    assert(keys_unique(rest)) by {
        assert forall|a: int, b: int| 0 <= a < b < rest.len() implies entry_key(
            #[trigger] rest[a],
        ) != entry_key(#[trigger] rest[b]) by {
            assert(rest[a] == entries[a] && rest[b] == entries[b]);
        }
    }
    let key = entry_key(entries[i]);
    if i == entries.len() - 1 {
        assert(removed =~= rest);
        assert forall|a: int| 0 <= a < rest.len() implies entry_key(#[trigger] rest[a]) != key by {
            assert(rest[a] == entries[a]);
        }
        lemma_pending_absent(rest, key);
        assert(pending_map(removed) =~= pending_map(entries).remove(key));
    } else {
        assert(rest[i] == entries[i]);
        lemma_pending_remove(rest, i);
        assert(removed.drop_last() =~= rest.remove(i));
        assert(removed.last() == entries.last());
        assert(entry_key(entries.last()) != key);
        assert(pending_map(removed) =~= pending_map(entries).remove(key));
    }
}

/// Position of the entry tracked under `key`, if there is one.
fn find_pending(entries: &Vec<PendingPreview>, name: &str, revision: i64) -> (found: Option<usize>)
    requires
        keys_unique(entries@),
    ensures
        match found {
            Some(i) => i < entries@.len() && entry_key(entries@[i as int]) == (name@, revision),
            None => !pending_map(entries@).contains_key((name@, revision)),
        },
{
    let mut i: usize = 0;
    while i < entries.len()
        invariant
            i <= entries@.len(),
            forall|j: int| 0 <= j < i ==> entry_key(#[trigger] entries@[j]) != (name@, revision),
        decreases entries@.len() - i,
    {
        if entries[i].revision == revision && str_eq(entries[i].name.as_str(), name) {
            return Some(i);
        }
        i = i + 1;
    }
    proof {
        lemma_pending_absent(entries@, (name@, revision));
    }
    None
}

/// Work that the browser hands to its runner: each job is run off the UI
/// thread and its outcome comes back as a [`Message`].
#[derive(Debug)]
pub enum BrowserJob {
    /// Read the catalogue of installed and cached families.
    LoadCatalog,
    /// Look the query up in the Google Fonts directory.
    Lookup { generation: u64, query: String },
    /// Prepare the cached preview of a Google family.
    Preview { family: FontFamily, generation: u64 },
    /// Download or load the chosen family, with the current lookup result.
    Activate { family: FontFamily },
}

/// What a finished job reports back.
pub enum Message<G> {
    Catalog { families: Vec<FontFamily>, cache_error: Option<String> },
    Preview { family: FontFamily, generation: u64, result: Option<Result<(), String>> },
    Lookup { generation: u64, result: Result<G, String> },
    Activation(Result<FontFamily, String>),
}

/// What one message changed, for the view that shows the browser.
pub struct Poll {
    pub changed: bool,
    pub visible_changed: bool,
    pub activations: Vec<Result<FontFamily, String>>,
}

impl Default for Poll {
    /// Nothing changed.
    fn default() -> (poll: Poll)
        ensures
            !poll.changed,
            !poll.visible_changed,
            poll.activations@.len() == 0,
    {
        Poll { changed: false, visible_changed: false, activations: Vec::new() }
    }
}

/// The searchable list of font families behind the font picker.
pub struct Browser<G> {
    families: Vec<FontFamily>,
    visible: Vec<FontFamily>,
    lookup: Option<G>,
    query: String,
    status: String,
    generation: u64,
    lookup_generation: Option<u64>,
    pending: Vec<PendingPreview>,
    queue: Vec<FontFamily>,
    active_previews: usize,
    catalog_loaded: bool,
    loading_catalog: bool,
    looking_up: bool,
    activating: bool,
    jobs: Vec<BrowserJob>,
}

/// The state of a [`Browser`].
pub struct BrowserView<G> {
    /// Every family the catalogue and activations made known.
    pub families: Vec<FontFamily>,
    /// The families that match the query, as the matching function gave them.
    pub visible: Vec<FontFamily>,
    /// The Google Fonts entry found for the query, if any.
    pub lookup: Option<G>,
    pub query: String,
    pub status: Seq<char>,
    /// Counts query changes (wrapping); results of older queries are stale.
    pub generation: u64,
    /// The generation for which a lookup was started.
    pub lookup_generation: Option<u64>,
    /// Requested previews by key, with the generation of the last request.
    pub pending: Map<(Seq<char>, i64), u64>,
    /// Previews waiting for a free worker, oldest first.
    pub queue: Seq<FontFamily>,
    pub active_previews: nat,
    pub catalog_loaded: bool,
    pub loading_catalog: bool,
    pub looking_up: bool,
    pub activating: bool,
    /// Jobs handed out and not yet taken by the runner, oldest first.
    pub jobs: Seq<BrowserJob>,
}

/// At most this many previews are prepared at a time.
pub const MAX_PREVIEW_WORKERS: usize = 2;

pub open spec fn loading_fonts_status() -> Seq<char> {
    "Loading installed fonts…"@
}

pub open spec fn searching_status() -> Seq<char> {
    "Searching Google Fonts…"@
}

pub open spec fn downloading_status() -> Seq<char> {
    "Downloading font family…"@
}

pub open spec fn loading_cached_status() -> Seq<char> {
    "Loading cached font…"@
}

pub open spec fn already_activating_error() -> Seq<char> {
    "A font is already being activated"@
}

/// Hands queued previews to free workers: skips those no longer pending and
/// stops when every worker is busy or the queue is empty.
pub open spec fn start_previews<G>(s: BrowserView<G>) -> BrowserView<G>
    decreases s.queue.len(),
{
    if s.active_previews >= MAX_PREVIEW_WORKERS || s.queue.len() == 0 {
        s
    } else {
        let family = s.queue[0];
        let rest = BrowserView { queue: s.queue.drop_first(), ..s };
        if !s.pending.contains_key(preview_key(family)) {
            start_previews(rest)
        } else {
            start_previews(
                BrowserView {
                    active_previews: s.active_previews + 1,
                    jobs: s.jobs.push(BrowserJob::Preview { family, generation: s.generation }),
                    ..rest
                },
            )
        }
    }
}

/// The generation that follows `generation`, wrapping at the top.
pub open spec fn next_generation(generation: u64) -> u64 {
    if generation == u64::MAX {
        0
    } else {
        (generation + 1) as u64
    }
}

/// `matching` may be called on any families, query and lookup result.
pub open spec fn matching_total<G, M: Fn(&Vec<FontFamily>, &String, &Option<G>) -> Vec<FontFamily>>(
    matching: M,
) -> bool {
    forall|families: &Vec<FontFamily>, query: &String, lookup: &Option<G>|
        call_requires(matching, (families, query, lookup))
}

/// `needed` may be called on any families and query.
pub open spec fn needed_total<N: Fn(&Vec<FontFamily>, &String) -> bool>(needed: N) -> bool {
    forall|families: &Vec<FontFamily>, query: &String| call_requires(needed, (families, query))
}

/// `post` is `pre` with its visible list rebuilt: what `matching` returned on
/// the families, query and lookup result of `pre`.
pub open spec fn rebuilt<G, M: Fn(&Vec<FontFamily>, &String, &Option<G>) -> Vec<FontFamily>>(
    pre: BrowserView<G>,
    matching: M,
    post: BrowserView<G>,
) -> bool {
    &&& post == (BrowserView { visible: post.visible, ..pre })
    &&& call_ensures(matching, (&pre.families, &pre.query, &pre.lookup), post.visible)
}

/// The state once the query has become `query`, before the visible list is
/// rebuilt: the lookup, pending previews and queue of the old query are dropped.
pub open spec fn requeried<G>(s: BrowserView<G>, query: String) -> BrowserView<G> {
    BrowserView {
        query,
        lookup: None,
        generation: next_generation(s.generation),
        lookup_generation: None,
        looking_up: false,
        pending: Map::empty(),
        queue: Seq::empty(),
        status: if s.loading_catalog && s.families@.len() == 0 {
            loading_fonts_status()
        } else {
            Seq::empty()
        },
        ..s
    }
}

/// Setting the query to `query` takes `pre` to `post` and gives `generation`:
/// nothing happens for the same text; otherwise the state is re-queried and
/// the visible list rebuilt.
pub open spec fn query_step<G, M: Fn(&Vec<FontFamily>, &String, &Option<G>) -> Vec<FontFamily>>(
    pre: BrowserView<G>,
    query: String,
    matching: M,
    generation: u64,
    post: BrowserView<G>,
) -> bool {
    if pre.query@ == query@ {
        post == pre && generation == pre.generation
    } else {
        rebuilt(requeried(pre, query), matching, post) && generation == post.generation
    }
}

/// A lookup for `generation` may start: it is the current generation, none was
/// started for it, and the catalogue is not still loading with nothing known.
pub open spec fn lookup_may_start<G>(s: BrowserView<G>, generation: u64) -> bool {
    &&& generation == s.generation
    &&& s.lookup_generation != Some(generation)
    &&& !(s.loading_catalog && s.families@.len() == 0)
}

/// The state once a lookup of the current query has been issued.
pub open spec fn lookup_started<G>(s: BrowserView<G>) -> BrowserView<G> {
    BrowserView {
        lookup_generation: Some(s.generation),
        looking_up: true,
        status: searching_status(),
        jobs: s.jobs.push(BrowserJob::Lookup { generation: s.generation, query: s.query }),
        ..s
    }
}

/// Asking for a lookup of `generation` takes `pre` to `post`; `started` tells
/// whether one was issued, which happens exactly when it may start and
/// `needed` answered that the installed families do not cover the query.
pub open spec fn lookup_step<G, N: Fn(&Vec<FontFamily>, &String) -> bool>(
    pre: BrowserView<G>,
    generation: u64,
    needed: N,
    started: bool,
    post: BrowserView<G>,
) -> bool {
    if !lookup_may_start(pre, generation) {
        !started && post == pre
    } else {
        &&& call_ensures(needed, (&pre.families, &pre.query), started)
        &&& post == if started {
            lookup_started(pre)
        } else {
            pre
        }
    }
}

/// A family is worth a preview: a Google family with cached files whose
/// preview is not `ready` yet.
pub open spec fn wants_preview(family: FontFamily, ready: bool) -> bool {
    family.source == FontSource::Google && family.revision >= 0 && !ready
}

/// The state after the first `n` of `families` were requested, `ready[k]`
/// telling whether the preview of `families[k]` was ready: each wanted one is
/// pending for the current generation, and queued unless it was pending.
pub open spec fn requested<G>(
    s: BrowserView<G>,
    families: Seq<FontFamily>,
    ready: Seq<bool>,
    n: nat,
) -> BrowserView<G>
    decreases n,
{
    if n == 0 {
        s
    } else {
        let prev = requested(s, families, ready, (n - 1) as nat);
        let family = families[n - 1];
        if !wants_preview(family, ready[n - 1]) {
            prev
        } else {
            let key = preview_key(family);
            BrowserView {
                pending: prev.pending.insert(key, prev.generation),
                queue: if prev.pending.contains_key(key) {
                    prev.queue
                } else {
                    prev.queue.push(family)
                },
                ..prev
            }
        }
    }
}

/// The rows `[start, end)` clamped to a list of `len` rows.
pub open spec fn clamped_range(len: int, start: int, end: int) -> (int, int) {
    let e = if end < len {
        end
    } else {
        len
    };
    let s = if start < e {
        start
    } else {
        e
    };
    (s, e)
}

proof fn lemma_requested_prefix<G>(
    s: BrowserView<G>,
    families: Seq<FontFamily>,
    ready: Seq<bool>,
    other: Seq<bool>,
    n: nat,
)
    requires
        n <= ready.len(),
        n <= other.len(),
        forall|k: int| 0 <= k < n ==> ready[k] == other[k],
    ensures
        requested(s, families, ready, n) == requested(s, families, other, n),
    decreases n,
{
    if n > 0 {
        lemma_requested_prefix(s, families, ready, other, (n - 1) as nat);
    }
}

proof fn lemma_requested_keeps<G>(
    s: BrowserView<G>,
    families: Seq<FontFamily>,
    ready: Seq<bool>,
    n: nat,
)
    ensures
        requested(s, families, ready, n) == (BrowserView {
            pending: requested(s, families, ready, n).pending,
            queue: requested(s, families, ready, n).queue,
            ..s
        }),
    decreases n,
{
    if n > 0 {
        lemma_requested_keeps(s, families, ready, (n - 1) as nat);
    }
}

/// `candidate` is the row of `family`'s preview: same source and revision,
/// and the same name up to ASCII case.
pub open spec fn same_preview_row(candidate: FontFamily, family: FontFamily) -> bool {
    &&& candidate.source == family.source
    &&& candidate.revision == family.revision
    &&& eq_ignore_ascii_case(candidate.name@, family.name@)
}

/// `candidate` is the same family as `family`: same source, and the same name
/// up to ASCII case.
pub open spec fn same_family(candidate: FontFamily, family: FontFamily) -> bool {
    candidate.source == family.source && eq_ignore_ascii_case(candidate.name@, family.name@)
}

/// `i` is the first position of a family the same as `family`.
pub open spec fn first_same_family(families: Seq<FontFamily>, family: FontFamily, i: int) -> bool {
    &&& 0 <= i < families.len()
    &&& same_family(families[i], family)
    &&& forall|j: int| 0 <= j < i ==> !same_family(#[trigger] families[j], family)
}

/// The families once `family` has been activated: it replaces the first
/// family the same as it, or is appended when there is none.
pub open spec fn activated_families(families: Seq<FontFamily>, family: FontFamily) -> Seq<
    FontFamily,
> {
    if exists|i: int| first_same_family(families, family, i) {
        families.update(choose|i: int| first_same_family(families, family, i), family)
    } else {
        families.push(family)
    }
}

/// `s` with `visible` as its visible list.
pub open spec fn with_visible<G>(s: BrowserView<G>, visible: Vec<FontFamily>) -> BrowserView<G> {
    BrowserView { visible, ..s }
}

/// The state once a catalogue arrived: it replaces the families, ends the
/// loading, and sets the status to the cache error (or clears it unless a
/// lookup runs).
pub open spec fn catalog_loaded<G>(
    pre: BrowserView<G>,
    families: Vec<FontFamily>,
    cache_error: Option<String>,
) -> BrowserView<G> {
    BrowserView {
        families,
        loading_catalog: false,
        catalog_loaded: true,
        status: match cache_error {
            Some(error) => error@,
            None => if pre.looking_up {
                pre.status
            } else {
                Seq::empty()
            },
        },
        ..pre
    }
}

/// A catalogue arrived: the state is [`catalog_loaded`], the visible list is
/// rebuilt, and a lookup of the current generation is asked for.
pub open spec fn catalog_step<
    G,
    N: Fn(&Vec<FontFamily>, &String) -> bool,
    M: Fn(&Vec<FontFamily>, &String, &Option<G>) -> Vec<FontFamily>,
>(
    pre: BrowserView<G>,
    families: Vec<FontFamily>,
    cache_error: Option<String>,
    needed: N,
    matching: M,
    post: BrowserView<G>,
) -> bool {
    let shown = with_visible(catalog_loaded(pre, families, cache_error), post.visible);
    &&& rebuilt(catalog_loaded(pre, families, cache_error), matching, shown)
    &&& exists|started: bool|
        lookup_step(
            with_visible(catalog_loaded(pre, families, cache_error), post.visible),
            pre.generation,
            needed,
            started,
            post,
        )
}

/// A preview job finished: a worker is free again; the pending entry goes
/// away when it was for this generation; free workers take queued previews.
pub open spec fn preview_done<G>(
    pre: BrowserView<G>,
    family: FontFamily,
    generation: u64,
) -> BrowserView<G> {
    let key = preview_key(family);
    start_previews(
        BrowserView {
            active_previews: if pre.active_previews == 0 {
                0
            } else {
                (pre.active_previews - 1) as nat
            },
            pending: if pre.pending.contains_key(key) && pre.pending[key] == generation {
                pre.pending.remove(key)
            } else {
                pre.pending
            },
            ..pre
        },
    )
}

/// A finished preview changes the view when it succeeded for the current
/// generation, was the last request for its key, and its row is visible.
pub open spec fn preview_changes_view<G>(
    pre: BrowserView<G>,
    family: FontFamily,
    generation: u64,
    result: Option<Result<(), String>>,
) -> bool {
    let key = preview_key(family);
    &&& result matches Some(Ok(_))
    &&& generation == pre.generation
    &&& pre.pending.contains_key(key) && pre.pending[key] == generation
    &&& exists|i: int|
        0 <= i < pre.visible@.len() && same_preview_row(#[trigger] pre.visible@[i], family)
}

/// A lookup of the current generation finished: the lookup stops, its entry
/// (or its error as status) is kept, and the visible list is rebuilt.
pub open spec fn lookup_done<G, M: Fn(&Vec<FontFamily>, &String, &Option<G>) -> Vec<FontFamily>>(
    pre: BrowserView<G>,
    result: Result<G, String>,
    matching: M,
    post: BrowserView<G>,
) -> bool {
    let answered = BrowserView {
        looking_up: false,
        lookup: match result {
            Ok(found) => Some(found),
            Err(_) => pre.lookup,
        },
        status: match result {
            Ok(_) => Seq::empty(),
            Err(error) => error@,
        },
        ..pre
    };
    rebuilt(answered, matching, post)
}

/// An activation finished: the activation stops; an activated family joins
/// the families (see [`activated_families`]), clears the status and the
/// visible list is rebuilt; an error becomes the status.
pub open spec fn activation_done<
    G,
    M: Fn(&Vec<FontFamily>, &String, &Option<G>) -> Vec<FontFamily>,
>(pre: BrowserView<G>, result: Result<FontFamily, String>, matching: M, post: BrowserView<G>) -> bool {
    match result {
        Ok(family) => {
            let updated = BrowserView {
                families: post.families,
                activating: false,
                status: Seq::empty(),
                ..pre
            };
            &&& post.families@ == activated_families(pre.families@, family)
            &&& rebuilt(updated, matching, post)
        },
        Err(error) => post == (BrowserView { activating: false, status: error@, ..pre }),
    }
}

/// Handling `message` takes `pre` to `post` and reports `poll`.
pub open spec fn poll_step<
    G,
    N: Fn(&Vec<FontFamily>, &String) -> bool,
    M: Fn(&Vec<FontFamily>, &String, &Option<G>) -> Vec<FontFamily>,
>(
    pre: BrowserView<G>,
    message: Message<G>,
    needed: N,
    matching: M,
    poll: Poll,
    post: BrowserView<G>,
) -> bool {
    match message {
        Message::Catalog { families, cache_error } => {
            &&& poll.changed && poll.visible_changed && poll.activations@.len() == 0
            &&& catalog_step(pre, families, cache_error, needed, matching, post)
        },
        Message::Preview { family, generation, result } => {
            &&& poll.changed == preview_changes_view(pre, family, generation, result)
            &&& !poll.visible_changed && poll.activations@.len() == 0
            &&& post == preview_done(pre, family, generation)
        },
        Message::Lookup { generation, result } => {
            &&& poll.changed == (generation == pre.generation)
            &&& poll.visible_changed == (generation == pre.generation)
            &&& poll.activations@.len() == 0
            &&& if generation == pre.generation {
                lookup_done(pre, result, matching, post)
            } else {
                post == pre
            }
        },
        Message::Activation(result) => {
            &&& poll.changed && poll.visible_changed
            &&& poll.activations@ == seq![result]
            &&& activation_done(pre, result, matching, post)
        },
    }
}

/// Searching for `query` takes `pre` to `post` and reports `changed`: the
/// query is set (see [`query_step`]), then a lookup of its generation is asked
/// for (see [`lookup_step`]); it changed something when the generation moved
/// or a lookup started.
pub open spec fn search_step<
    G,
    N: Fn(&Vec<FontFamily>, &String) -> bool,
    M: Fn(&Vec<FontFamily>, &String, &Option<G>) -> Vec<FontFamily>,
>(pre: BrowserView<G>, query: String, needed: N, matching: M, changed: bool, post: BrowserView<G>) -> bool {
    exists|mid: BrowserView<G>, generation: u64, started: bool|
        {
            &&& query_step(pre, query, matching, generation, mid)
            &&& lookup_step(mid, generation, needed, started, post)
            &&& changed == (pre.generation != generation || started)
        }
}

/// `needed` gives one answer for given families and query.
pub open spec fn needed_deterministic<N: Fn(&Vec<FontFamily>, &String) -> bool>(needed: N) -> bool {
    forall|families: &Vec<FontFamily>, query: &String, a: bool, b: bool|
        call_ensures(needed, (families, query), a) && call_ensures(needed, (families, query), b)
            ==> a == b
}

/// Searching again for the text just searched for changes nothing and starts
/// no second lookup (when `needed` answers the same for the same families and
/// query); a search for a new text always reports a change.
pub proof fn law_search_twice<
    G,
    N: Fn(&Vec<FontFamily>, &String) -> bool,
    M: Fn(&Vec<FontFamily>, &String, &Option<G>) -> Vec<FontFamily>,
>(
    pre: BrowserView<G>,
    query: String,
    again: String,
    needed: N,
    matching: M,
    first_changed: bool,
    mid: BrowserView<G>,
    second_changed: bool,
    post: BrowserView<G>,
)
    requires
        search_step(pre, query, needed, matching, first_changed, mid),
        search_step(mid, again, needed, matching, second_changed, post),
        again@ == query@,
        needed_deterministic(needed),
    ensures
        !second_changed,
        post == mid,
        pre.query@ != query@ ==> first_changed,
{
    let (m1, g1, st1) = choose|m: BrowserView<G>, g: u64, st: bool|
        {
            &&& query_step(pre, query, matching, g, m)
            &&& lookup_step(m, g, needed, st, mid)
            &&& first_changed == (pre.generation != g || st)
        };
    let (m2, g2, st2) = choose|m: BrowserView<G>, g: u64, st: bool|
        {
            &&& query_step(mid, again, matching, g, m)
            &&& lookup_step(m, g, needed, st, post)
            &&& second_changed == (mid.generation != g || st)
        };
    assert(m1.generation == g1);
    assert(mid.generation == m1.generation);
    assert(mid.query@ == query@);
    assert(m2 == mid && g2 == mid.generation);
    if lookup_may_start(m2, g2) {
        if st1 {
            assert(mid.lookup_generation == Some(g1));
        } else {
            assert(mid == m1);
            assert(lookup_may_start(m1, g1));
            assert(call_ensures(needed, (&m1.families, &m1.query), false));
            assert(call_ensures(needed, (&mid.families, &mid.query), st2));
        }
    }
}

/// At most [`MAX_PREVIEW_WORKERS`] previews are being prepared at any time.
pub proof fn law_preview_workers_bounded<G>(browser: &Browser<G>)
    requires
        browser.well_formed(),
    ensures
        browser@.active_previews <= MAX_PREVIEW_WORKERS,
{
}

/// Setting the query to the text it already has changes nothing: after one
/// call, a second with the same text keeps the state and the generation.
pub proof fn law_same_query_twice<
    G,
    M1: Fn(&Vec<FontFamily>, &String, &Option<G>) -> Vec<FontFamily>,
    M2: Fn(&Vec<FontFamily>, &String, &Option<G>) -> Vec<FontFamily>,
>(
    pre: BrowserView<G>,
    query: String,
    again: String,
    first_matching: M1,
    second_matching: M2,
    first: u64,
    second: u64,
    mid: BrowserView<G>,
    post: BrowserView<G>,
)
    requires
        query_step(pre, query, first_matching, first, mid),
        query_step(mid, again, second_matching, second, post),
        again@ == query@,
    ensures
        post == mid,
        second == first,
{
}

/// A new query text starts a new generation and forgets the lookup and the
/// previews of the old one.
pub proof fn law_new_query_forgets<
    G,
    M: Fn(&Vec<FontFamily>, &String, &Option<G>) -> Vec<FontFamily>,
>(pre: BrowserView<G>, query: String, matching: M, generation: u64, post: BrowserView<G>)
    requires
        query_step(pre, query, matching, generation, post),
        pre.query@ != query@,
    ensures
        generation == post.generation,
        generation != pre.generation,
        post.query == query,
        post.lookup is None,
        post.lookup_generation is None,
        !post.looking_up,
        post.pending.is_empty(),
        post.queue.len() == 0,
{
    assert(post.pending =~= Map::empty());
}

/// A lookup result for another generation than the current one is dropped:
/// the state stays and nothing is reported.
pub proof fn law_stale_lookup_ignored<
    G,
    N: Fn(&Vec<FontFamily>, &String) -> bool,
    M: Fn(&Vec<FontFamily>, &String, &Option<G>) -> Vec<FontFamily>,
>(
    pre: BrowserView<G>,
    generation: u64,
    result: Result<G, String>,
    needed: N,
    matching: M,
    poll: Poll,
    post: BrowserView<G>,
)
    requires
        generation != pre.generation,
        poll_step(pre, Message::Lookup { generation, result }, needed, matching, poll, post),
    ensures
        post == pre,
        !poll.changed,
        !poll.visible_changed,
        poll.activations@.len() == 0,
{
}

/// A preview finished for another generation than the current one never
/// reports a change.
pub proof fn law_stale_preview_unchanged<
    G,
    N: Fn(&Vec<FontFamily>, &String) -> bool,
    M: Fn(&Vec<FontFamily>, &String, &Option<G>) -> Vec<FontFamily>,
>(
    pre: BrowserView<G>,
    family: FontFamily,
    generation: u64,
    result: Option<Result<(), String>>,
    needed: N,
    matching: M,
    poll: Poll,
    post: BrowserView<G>,
)
    requires
        generation != pre.generation,
        poll_step(
            pre,
            Message::Preview { family, generation, result },
            needed,
            matching,
            poll,
            post,
        ),
    ensures
        !poll.changed,
        !poll.visible_changed,
{
}

impl<G> View for Browser<G> {
    type V = BrowserView<G>;

    closed spec fn view(&self) -> BrowserView<G> {
        BrowserView {
            families: self.families,
            visible: self.visible,
            lookup: self.lookup,
            query: self.query,
            status: self.status@,
            generation: self.generation,
            lookup_generation: self.lookup_generation,
            pending: pending_map(self.pending@),
            queue: self.queue@,
            active_previews: self.active_previews as nat,
            catalog_loaded: self.catalog_loaded,
            loading_catalog: self.loading_catalog,
            looking_up: self.looking_up,
            activating: self.activating,
            jobs: self.jobs@,
        }
    }
}

impl<G> Default for Browser<G> {
    /// An empty browser, as [`Browser::new`].
    fn default() -> (browser: Self)
        ensures
            browser.well_formed(),
            browser@.families@.len() == 0,
            browser@.visible@.len() == 0,
            browser@.lookup is None,
            browser@.query@.len() == 0,
            browser@.status.len() == 0,
            browser@.generation == 0,
            browser@.lookup_generation is None,
            browser@.pending.is_empty(),
            browser@.queue.len() == 0,
            browser@.active_previews == 0,
            !browser@.catalog_loaded,
            !browser@.loading_catalog,
            !browser@.looking_up,
            !browser@.activating,
            browser@.jobs.len() == 0,
    {
        Browser::new()
    }
}

impl<G> Browser<G> {
    /// The browser's internal bookkeeping is consistent.
    pub closed spec fn well_formed(&self) -> bool {
        keys_unique(self.pending@) && self.active_previews <= MAX_PREVIEW_WORKERS
    }

    /// An empty browser: no catalogue, no query, nothing pending.
    pub fn new() -> (browser: Self)
        ensures
            browser.well_formed(),
            browser@.families@.len() == 0,
            browser@.visible@.len() == 0,
            browser@.lookup is None,
            browser@.query@.len() == 0,
            browser@.status.len() == 0,
            browser@.generation == 0,
            browser@.lookup_generation is None,
            browser@.pending.is_empty(),
            browser@.queue.len() == 0,
            browser@.active_previews == 0,
            !browser@.catalog_loaded,
            !browser@.loading_catalog,
            !browser@.looking_up,
            !browser@.activating,
            browser@.jobs.len() == 0,
    {
        let browser = Browser {
            families: Vec::new(),
            visible: Vec::new(),
            lookup: None,
            query: String::new(),
            status: String::new(),
            generation: 0,
            lookup_generation: None,
            pending: Vec::new(),
            queue: Vec::new(),
            active_previews: 0,
            catalog_loaded: false,
            loading_catalog: false,
            looking_up: false,
            activating: false,
            jobs: Vec::new(),
        };
        proof {
            assert(pending_map(browser.pending@) =~= Map::empty());
        }
        browser
    }

    /// Starts loading the catalogue unless it is loaded or loading already.
    pub fn open(&mut self) -> (started: bool)
        requires
            old(self).well_formed(),
        ensures
            final(self).well_formed(),
            started == !(old(self)@.catalog_loaded || old(self)@.loading_catalog),
            !started ==> final(self)@ == old(self)@,
            started ==> final(self)@ == (BrowserView {
                loading_catalog: true,
                status: if old(self)@.families@.len() == 0 {
                    loading_fonts_status()
                } else {
                    old(self)@.status
                },
                jobs: old(self)@.jobs.push(BrowserJob::LoadCatalog),
                ..old(self)@
            }),
    {
        if self.catalog_loaded || self.loading_catalog {
            return false;
        }
        self.loading_catalog = true;
        if self.families.len() == 0 {
            self.status = "Loading installed fonts…".to_owned();
        }
        self.jobs.push(BrowserJob::LoadCatalog);
        true
    }

    /// Starts activating `family`; only one activation runs at a time.
    pub fn activate(&mut self, family: FontFamily) -> (result: Result<(), String>)
        requires
            old(self).well_formed(),
        ensures
            final(self).well_formed(),
            old(self)@.activating ==> final(self)@ == old(self)@ && (result matches Err(e)
                && e@ == already_activating_error()),
            !old(self)@.activating ==> result is Ok && final(self)@ == (BrowserView {
                activating: true,
                status: if family.revision < 0 {
                    downloading_status()
                } else {
                    loading_cached_status()
                },
                jobs: old(self)@.jobs.push(BrowserJob::Activate { family }),
                ..old(self)@
            }),
    {
        if self.activating {
            return Err("A font is already being activated".to_owned());
        }
        self.activating = true;
        self.status = if family.revision < 0 {
            "Downloading font family…".to_owned()
        } else {
            "Loading cached font…".to_owned()
        };
        self.jobs.push(BrowserJob::Activate { family });
        Ok(())
    }

    /// The families that match the query.
    pub fn visible(&self) -> (families: &[FontFamily])
        ensures
            families@ == self@.visible@,
    {
        self.visible.as_slice()
    }

    /// The Google Fonts entry found for the current query.
    pub fn lookup(&self) -> (found: Option<&G>)
        ensures
            match found {
                Some(g) => self@.lookup == Some(*g),
                None => self@.lookup is None,
            },
    {
        match &self.lookup {
            Some(g) => Some(g),
            None => None,
        }
    }

    /// The line shown under the search field.
    pub fn status(&self) -> (status: &str)
        ensures
            status@ == self@.status,
    {
        self.status.as_str()
    }

    /// Whether a catalogue load, a lookup or an activation is under way.
    pub fn busy(&self) -> (busy: bool)
        ensures
            busy == (self@.loading_catalog || self@.looking_up || self@.activating),
    {
        self.loading_catalog || self.looking_up || self.activating
    }

    /// The generation of the current query.
    pub fn generation(&self) -> (generation: u64)
        ensures
            generation == self@.generation,
    {
        self.generation
    }

    fn rebuild<M>(&mut self, matching: &M)
        where
            M: Fn(&Vec<FontFamily>, &String, &Option<G>) -> Vec<FontFamily>,
        requires
            old(self).well_formed(),
            matching_total(*matching),
        ensures
            final(self).well_formed(),
            rebuilt(old(self)@, *matching, final(self)@),
    {
        let visible = matching(&self.families, &self.query, &self.lookup);
        self.visible = visible;
    }

    /// Sets the query text and returns its generation. A new text starts a new
    /// generation: the lookup, pending previews and queued previews of the
    /// old text are dropped and the visible list is rebuilt with `matching`.
    pub fn set_query<M>(&mut self, query: String, matching: &M) -> (generation: u64)
        where
            M: Fn(&Vec<FontFamily>, &String, &Option<G>) -> Vec<FontFamily>,
        requires
            old(self).well_formed(),
            matching_total(*matching),
        ensures
            final(self).well_formed(),
            query_step(old(self)@, query, *matching, generation, final(self)@),
    {
        if str_eq(self.query.as_str(), query.as_str()) {
            return self.generation;
        }
        self.query = query;
        self.lookup = None;
        self.generation = self.generation.wrapping_add(1);
        self.lookup_generation = None;
        self.looking_up = false;
        self.pending = Vec::new();
        self.queue = Vec::new();
        if self.loading_catalog && self.families.len() == 0 {
            self.status = "Loading installed fonts…".to_owned();
        } else {
            self.status = String::new();
        }
        proof {
            assert(pending_map(self.pending@) =~= Map::empty());
            assert(self.queue@ =~= Seq::<FontFamily>::empty());
        }
        self.rebuild(matching);
        self.generation
    }

    /// Starts a Google Fonts lookup of the current query for `generation`
    /// when one may start and `needed` asks for it.
    pub fn begin_lookup<N>(&mut self, generation: u64, needed: &N) -> (started: bool)
        where
            N: Fn(&Vec<FontFamily>, &String) -> bool,
        requires
            old(self).well_formed(),
            needed_total(*needed),
        ensures
            final(self).well_formed(),
            lookup_step(old(self)@, generation, *needed, started, final(self)@),
    {
        if generation != self.generation || self.lookup_generation == Some(generation) {
            return false;
        }
        if self.loading_catalog && self.families.len() == 0 {
            return false;
        }
        if !needed(&self.families, &self.query) {
            return false;
        }
        self.lookup_generation = Some(generation);
        self.looking_up = true;
        self.status = "Searching Google Fonts…".to_owned();
        let query = self.query.clone();
        self.jobs.push(BrowserJob::Lookup { generation: self.generation, query });
        true
    }

    /// Sets the query and asks for a lookup of it; tells whether anything
    /// changed: a new generation or a lookup that started.
    pub fn search<N, M>(&mut self, query: String, needed: &N, matching: &M) -> (changed: bool)
        where
            N: Fn(&Vec<FontFamily>, &String) -> bool,
            M: Fn(&Vec<FontFamily>, &String, &Option<G>) -> Vec<FontFamily>,
        requires
            old(self).well_formed(),
            needed_total(*needed),
            matching_total(*matching),
        ensures
            final(self).well_formed(),
            search_step(old(self)@, query, *needed, *matching, changed, final(self)@),
    {
        let previous_generation = self.generation;
        let generation = self.set_query(query, matching);
        let ghost mid = self@;
        let started = self.begin_lookup(generation, needed);
        proof {
            assert(query_step(old(self)@, query, *matching, generation, mid));
            assert(lookup_step(mid, generation, *needed, started, self@));
        }
        previous_generation != generation || started
    }

    /// Asks for previews of the visible rows in `range` (clamped to the list):
    /// each Google family with cached files whose preview `prepared` does not
    /// report ready becomes pending for the current generation and, unless it
    /// was pending already, joins the queue; then free workers take previews
    /// from the queue.
    pub fn request_previews<P>(&mut self, range: std::ops::Range<usize>, prepared: &P)
        where
            P: Fn(&FontFamily, &Option<G>) -> bool,
        requires
            old(self).well_formed(),
            forall|family: &FontFamily, lookup: &Option<G>|
                call_requires(*prepared, (family, lookup)),
        ensures
            final(self).well_formed(),
            ({
                let (start, end) = clamped_range(
                    old(self)@.visible@.len() as int,
                    range.start as int,
                    range.end as int,
                );
                let families = old(self)@.visible@.subrange(start, end);
                exists|ready: Seq<bool>|
                    {
                        &&& ready.len() == families.len()
                        &&& forall|k: int|
                            0 <= k < families.len() && (#[trigger] families[k]).source
                                == FontSource::Google && families[k].revision >= 0
                                ==> call_ensures(
                                *prepared,
                                (&families[k], &old(self)@.lookup),
                                ready[k],
                            )
                        &&& final(self)@ == start_previews(
                            requested(old(self)@, families, ready, families.len()),
                        )
                    }
            }),
    {
        let end = if range.end < self.visible.len() {
            range.end
        } else {
            self.visible.len()
        };
        let start = if range.start < end {
            range.start
        } else {
            end
        };
        let ghost families = self.visible@.subrange(start as int, end as int);
        let ghost orig = self@;
        let ghost mut ready: Seq<bool> = Seq::empty();
        let mut i = start;
        while i < end
            invariant
                self.well_formed(),
                start <= i <= end <= self.visible@.len(),
                families == self.visible@.subrange(start as int, end as int),
                self.visible == orig.visible,
                self.lookup == orig.lookup,
                ready.len() == i - start,
                forall|k: int|
                    0 <= k < i - start && (#[trigger] families[k]).source == FontSource::Google
                        && families[k].revision >= 0 ==> call_ensures(
                        *prepared,
                        (&families[k], &orig.lookup),
                        ready[k],
                    ),
                self@ == requested(orig, families, ready, (i - start) as nat),
                forall|family: &FontFamily, lookup: &Option<G>|
                    call_requires(*prepared, (family, lookup)),
            decreases end - i,
        {
            let ghost k = i - start;
            let ghost before = self@;
            assert(families[k] == self.visible@[i as int]);
            if self.visible[i].source != FontSource::Google || self.visible[i].revision < 0 {
                proof {
                    let next = ready.push(false);
                    lemma_requested_prefix(orig, families, ready, next, k as nat);
                    ready = next;
                }
                i = i + 1;
                continue;
            }
            let is_ready = prepared(&self.visible[i], &self.lookup);
            proof {
                let next = ready.push(is_ready);
                lemma_requested_prefix(orig, families, ready, next, k as nat);
                ready = next;
            }
            if is_ready {
                i = i + 1;
                continue;
            }
            let family = self.visible[i].clone();
            let key_name = to_lowercase(family.name.as_str());
            let entry = PendingPreview {
                name: key_name,
                revision: family.revision,
                generation: self.generation,
            };
            match find_pending(&self.pending, entry.name.as_str(), entry.revision) {
                Some(idx) => {
                    proof {
                        lemma_pending_at(self.pending@, idx as int);
                        lemma_pending_update(self.pending@, idx as int, entry);
                    }
                    self.pending.set(idx, entry);
                },
                None => {
                    proof {
                        lemma_pending_push(self.pending@, entry);
                        assert forall|a: int, b: int|
                            0 <= a < b < self.pending@.push(entry).len() implies entry_key(
                            #[trigger] self.pending@.push(entry)[a],
                        ) != entry_key(#[trigger] self.pending@.push(entry)[b]) by {
                            if b == self.pending@.len() {
                                lemma_pending_at(self.pending@, a);
                            }
                        }
                    }
                    self.pending.push(entry);
                    self.queue.push(family);
                },
            }
            i = i + 1;
        }
        proof {
            lemma_requested_keeps(orig, families, ready, families.len());
        }
        self.start_preview_jobs();
    }

    /// Handles one finished job and reports what changed.
    pub fn poll<N, M>(&mut self, message: Message<G>, needed: &N, matching: &M) -> (poll: Poll)
        where
            N: Fn(&Vec<FontFamily>, &String) -> bool,
            M: Fn(&Vec<FontFamily>, &String, &Option<G>) -> Vec<FontFamily>,
        requires
            old(self).well_formed(),
            needed_total(*needed),
            matching_total(*matching),
        ensures
            final(self).well_formed(),
            poll_step(old(self)@, message, *needed, *matching, poll, final(self)@),
    {
        let ghost message_copy = message;
        match message {
            Message::Catalog { families, cache_error } => {
                let ghost catalog_families = families;
                let ghost catalog_error = cache_error;
                self.loading_catalog = false;
                self.catalog_loaded = true;
                self.families = families;
                match cache_error {
                    Some(error) => {
                        self.status = error;
                    },
                    None => {
                        if !self.looking_up {
                            self.status = String::new();
                        }
                    },
                }
                self.rebuild(matching);
                let generation = self.generation;
                let started = self.begin_lookup(generation, needed);
                proof {
                    // The lookup was asked for on the loaded state with the rebuilt list.
                    let loaded = catalog_loaded(old(self)@, catalog_families, catalog_error);
                    assert(lookup_step(with_visible(loaded, self@.visible), generation, *needed, started, self@));
                }
                Poll { changed: true, visible_changed: true, activations: Vec::new() }
            },
            Message::Preview { family, generation, result } => {
                self.active_previews = self.active_previews.saturating_sub(1);
                let key_name = to_lowercase(family.name.as_str());
                let requested = match find_pending(
                    &self.pending,
                    key_name.as_str(),
                    family.revision,
                ) {
                    Some(idx) => {
                        proof {
                            lemma_pending_at(self.pending@, idx as int);
                        }
                        if self.pending[idx].generation == generation {
                            proof {
                                lemma_pending_remove(self.pending@, idx as int);
                            }
                            self.pending.remove(idx);
                            true
                        } else {
                            false
                        }
                    },
                    None => false,
                };
                let current = self.shows_preview_row(&family);
                let succeeded = match result {
                    Some(Ok(())) => true,
                    _ => false,
                };
                let changed = succeeded && generation == self.generation && current && requested;
                proof {
                    assert(self@.visible == old(self)@.visible);
                }
                self.start_preview_jobs();
                Poll { changed, visible_changed: false, activations: Vec::new() }
            },
            Message::Lookup { generation, result } => {
                if generation != self.generation {
                    return Poll { changed: false, visible_changed: false, activations: Vec::new() };
                }
                self.looking_up = false;
                match result {
                    Ok(found) => {
                        self.lookup = Some(found);
                        self.status = String::new();
                    },
                    Err(error) => {
                        self.status = error;
                    },
                }
                self.rebuild(matching);
                Poll { changed: true, visible_changed: true, activations: Vec::new() }
            },
            Message::Activation(result) => {
                self.activating = false;
                let mut activations: Vec<Result<FontFamily, String>> = Vec::new();
                match result {
                    Ok(family) => {
                        self.store_activated(&family);
                        self.status = String::new();
                        self.rebuild(matching);
                        activations.push(Ok(family));
                    },
                    Err(error) => {
                        self.status = error.clone();
                        activations.push(Err(error));
                    },
                }
                proof {
                    assert(activations@ =~= seq![message_copy->0]);
                }
                Poll { changed: true, visible_changed: true, activations }
            },
        }
    }

    /// Whether a visible row is the row of `family`'s preview.
    fn shows_preview_row(&self, family: &FontFamily) -> (shown: bool)
        ensures
            shown == exists|i: int|
                0 <= i < self@.visible@.len() && same_preview_row(
                    #[trigger] self@.visible@[i],
                    *family,
                ),
    {
        let mut i: usize = 0;
        while i < self.visible.len()
            invariant
                i <= self.visible@.len(),
                forall|j: int| 0 <= j < i ==> !same_preview_row(#[trigger] self.visible@[j], *family),
            decreases self.visible@.len() - i,
        {
            let candidate = &self.visible[i];
            if candidate.source == family.source && candidate.revision == family.revision
                && str_eq_ignore_ascii_case(candidate.name.as_str(), family.name.as_str()) {
                proof {
                    assert(same_preview_row(self@.visible@[i as int], *family));
                }
                return true;
            }
            i = i + 1;
        }
        false
    }

    /// Replaces the first family the same as `family`, or appends it.
    fn store_activated(&mut self, family: &FontFamily)
        requires
            old(self).well_formed(),
        ensures
            final(self).well_formed(),
            final(self)@ == (BrowserView { families: final(self)@.families, ..old(self)@ }),
            final(self)@.families@ == activated_families(old(self)@.families@, *family),
    {
        let ghost families = self.families@;
        let mut i: usize = 0;
        while i < self.families.len()
            invariant
                i <= self.families@.len(),
                self.well_formed(),
                self@ == old(self)@,
                self.families@ == families,
                forall|j: int| 0 <= j < i ==> !same_family(#[trigger] families[j], *family),
            decreases self.families@.len() - i,
        {
            let candidate = &self.families[i];
            if candidate.source == family.source && str_eq_ignore_ascii_case(
                candidate.name.as_str(),
                family.name.as_str(),
            ) {
                proof {
                    assert(first_same_family(families, *family, i as int));
                    let chosen = choose|k: int| first_same_family(families, *family, k);
                    assert(first_same_family(families, *family, chosen));
                    if chosen < i {
                        assert(!same_family(families[chosen], *family));
                    }
                    if chosen > i {
                        assert(!same_family(families[i as int], *family));
                    }
                    assert(chosen == i);
                }
                self.families.set(i, family.clone());
                return;
            }
            i = i + 1;
        }
        proof {
            assert(!exists|k: int| first_same_family(families, *family, k));
        }
        self.families.push(family.clone());
    }

    /// Whether a preview of `family` is pending.
    fn is_pending(&self, family: &FontFamily) -> (pending: bool)
        requires
            self.well_formed(),
        ensures
            pending == self@.pending.contains_key(preview_key(*family)),
    {
        let key_name = to_lowercase(family.name.as_str());
        match find_pending(&self.pending, key_name.as_str(), family.revision) {
            Some(i) => {
                proof {
                    lemma_pending_at(self.pending@, i as int);
                }
                true
            },
            None => false,
        }
    }

    fn start_preview_jobs(&mut self)
        requires
            old(self).well_formed(),
        ensures
            final(self).well_formed(),
            final(self)@ == start_previews(old(self)@),
    {
        while self.active_previews < MAX_PREVIEW_WORKERS && self.queue.len() > 0
            invariant
                self.well_formed(),
                start_previews(self@) == start_previews(old(self)@),
            decreases self.queue@.len(),
        {
            let ghost before = self@;
            let family = self.queue.remove(0);
            proof {
                assert(self.queue@ =~= before.queue.drop_first());
            }
            if !self.is_pending(&family) {
                continue;
            }
            let generation = self.generation;
            self.active_previews = self.active_previews + 1;
            self.jobs.push(BrowserJob::Preview { family, generation });
        }
    }

    /// Hands the jobs issued so far to the runner, oldest first.
    pub fn take_jobs(&mut self) -> (jobs: Vec<BrowserJob>)
        requires
            old(self).well_formed(),
        ensures
            final(self).well_formed(),
            jobs@ == old(self)@.jobs,
            final(self)@ == (BrowserView { jobs: Seq::empty(), ..old(self)@ }),
    {
        let mut jobs: Vec<BrowserJob> = Vec::new();
        std::mem::swap(&mut jobs, &mut self.jobs);
        proof {
            assert(self.jobs@ =~= Seq::<BrowserJob>::empty());
        }
        jobs
    }
}

} // verus!
