use vstd::prelude::*;

use crate::lex::{chars_less, chars_lt, lemma_chars_lt_irreflexive, lemma_chars_lt_total, lemma_chars_lt_transitive};
use crate::text::{chars_of, str_eq};

verus! {

/// What an output stream reported for a write or a flush.
#[derive(Clone, Copy, Debug, PartialEq, Eq, Structural)]
pub enum StreamOutcome {
    /// The stream accepted this many bytes (or flushed).
    Done(usize),
    /// The stream would block: it is congested.
    WouldBlock,
    /// The stream's reader has gone away.
    BrokenPipe,
    /// Any other error.
    Failed,
}

/// The result of a diagnostic write: bytes accepted, or the stream's own error
/// passed on.
#[derive(Clone, Copy, Debug, PartialEq, Eq, Structural)]
pub enum WriteDecision {
    Accepted(usize),
    PassOnError,
}

/// Diagnostic logging is best-effort: a congested or closed stream drops the
/// slice (reporting it written) rather than blocking or failing; any other
/// error is passed on.
pub open spec fn write_decision_spec(outcome: StreamOutcome, len: usize) -> WriteDecision {
    match outcome {
        StreamOutcome::Done(n) => WriteDecision::Accepted(n),
        StreamOutcome::WouldBlock | StreamOutcome::BrokenPipe => WriteDecision::Accepted(len),
        StreamOutcome::Failed => WriteDecision::PassOnError,
    }
}

/// What to report for a write of `len` bytes given what the stream said.
pub fn write_decision(outcome: StreamOutcome, len: usize) -> (decision: WriteDecision)
    ensures
        decision == write_decision_spec(outcome, len),
{
    match outcome {
        StreamOutcome::Done(n) => WriteDecision::Accepted(n),
        StreamOutcome::WouldBlock | StreamOutcome::BrokenPipe => WriteDecision::Accepted(len),
        StreamOutcome::Failed => WriteDecision::PassOnError,
    }
}

/// A writer around a stream that treats a congested or closed stream as
/// success, so that logging never blocks or fails the program.
#[derive(Clone, Copy, Debug)]
pub struct ResilientWriter<W> {
    pub inner: W,
}

impl<W> ResilientWriter<W> {
    pub fn new(inner: W) -> (writer: ResilientWriter<W>)
        ensures
            writer.inner == inner,
    {
        ResilientWriter { inner }
    }
}

/// `std::io::Error`, carried through unchanged.
#[verifier::external_type_specification]
#[verifier::external_body]
pub struct ExIoError(std::io::Error);

/// The outcome of a failed write, from whether its error kind is
/// `WouldBlock` and whether it is `BrokenPipe`.
pub open spec fn classify_spec(would_block: bool, broken_pipe: bool) -> StreamOutcome {
    if would_block {
        StreamOutcome::WouldBlock
    } else if broken_pipe {
        StreamOutcome::BrokenPipe
    } else {
        StreamOutcome::Failed
    }
}

/// The outcome of a failed write, from the two kinds that matter.
pub fn classify(would_block: bool, broken_pipe: bool) -> (outcome: StreamOutcome)
    ensures
        outcome == classify_spec(would_block, broken_pipe),
{
    if would_block {
        StreamOutcome::WouldBlock
    } else if broken_pipe {
        StreamOutcome::BrokenPipe
    } else {
        StreamOutcome::Failed
    }
}

/// Whether an I/O error's kind is `WouldBlock`, and whether it is
/// `BrokenPipe`: a function of the error alone.
pub uninterp spec fn kind_flags(error: std::io::Error) -> (bool, bool);

/// Whether an I/O error's kind is `WouldBlock`, and whether it is
/// `BrokenPipe`.
///
/// Compares what `std::io::Error::kind` returns with the two kinds; the kind
/// is fixed when the error is made, so the answers are those of the error.
#[verifier::external_body]
fn error_kind_flags(error: &std::io::Error) -> (flags: (bool, bool))
    ensures
        flags == kind_flags(*error),
{
    let kind = error.kind();
    (kind == std::io::ErrorKind::WouldBlock, kind == std::io::ErrorKind::BrokenPipe)
}

/// What a resilient writer reports for a write of `len` bytes that the
/// stream answered with `result`.
pub open spec fn resilient_write_spec(result: std::io::Result<usize>, len: usize) -> std::io::Result<usize> {
    match result {
        Ok(n) => Ok(n),
        Err(e) => match write_decision_spec(classify_spec(kind_flags(e).0, kind_flags(e).1), len) {
            WriteDecision::Accepted(n) => Ok(n),
            WriteDecision::PassOnError => result,
        },
    }
}

/// What a resilient writer reports for a write of `len` bytes, given what the
/// stream returned: a success passes through; an error either passes through
/// unchanged or (for a congested or closed stream) becomes all `len` bytes
/// written.
pub fn resilient_write_result(result: std::io::Result<usize>, len: usize) -> (reported:
    std::io::Result<usize>)
    ensures
        reported == resilient_write_spec(result, len),
{
    match result {
        Ok(n) => Ok(n),
        Err(error) => {
            let (would_block, broken_pipe) = error_kind_flags(&error);
            match write_decision(classify(would_block, broken_pipe), len) {
                WriteDecision::Accepted(n) => Ok(n),
                WriteDecision::PassOnError => Err(error),
            }
        },
    }
}

/// What a resilient writer reports for a flush: a success passes through; an
/// error either passes through unchanged or (for a congested or closed
/// stream) becomes success.
pub fn resilient_flush_result(result: std::io::Result<()>) -> (reported: std::io::Result<()>)
    ensures
        result is Ok ==> reported == result,
        result matches Err(e) ==> ((reported is Ok) == (kind_flags(e).0 || kind_flags(e).1)),
        reported is Err ==> reported == result,
{
    match result {
        Ok(done) => Ok(done),
        Err(error) => {
            let (would_block, broken_pipe) = error_kind_flags(&error);
            match write_decision(classify(would_block, broken_pipe), 0) {
                WriteDecision::Accepted(_) => Ok(()),
                WriteDecision::PassOnError => Err(error),
            }
        },
    }
}

/// The largest `std::time::Duration`, in nanoseconds.
pub const DURATION_MAX_NANOS: u128 = 18_446_744_073_709_551_615_999_999_999u128;

/// Summaries are written at most once per second.
pub const TIMING_LOG_INTERVAL_NANOS: u128 = 1_000_000_000u128;

/// The samples of one stage in the current window.
#[derive(Clone, Copy, Debug, PartialEq, Eq, Structural, Default)]
pub struct TimingSamples {
    pub calls: u64,
    pub total_nanos: u128,
    pub maximum_nanos: u128,
}

/// What one stage did in a window, in whole microseconds.
#[derive(Clone, Copy, Debug, PartialEq, Eq, Structural)]
pub struct StageSummary {
    pub calls: u64,
    pub total_micros: u128,
    pub average_micros: u128,
    pub maximum_micros: u128,
}

/// The stage timings and event counts collected between two summaries.
#[derive(Debug)]
pub struct DiagnosticsState {
    timings: Vec<(String, TimingSamples)>,
    counts: Vec<(String, u64)>,
}

/// The report written at the end of a window.
#[derive(Debug)]
pub struct FlushReport {
    pub window_micros: u128,
    pub stages: Vec<(String, StageSummary)>,
    pub counts: Vec<(String, u64)>,
}

/// The plain value of a list of named entries.
pub open spec fn named<V>(entries: Seq<(String, V)>) -> Seq<(Seq<char>, V)> {
    entries.map_values(|e: (String, V)| (e.0@, e.1))
}

/// The keys are strictly increasing in `str` order.
pub open spec fn keys_sorted<V>(entries: Seq<(Seq<char>, V)>) -> bool {
    forall|i: int, j: int|
        0 <= i < j < entries.len() ==> chars_lt(#[trigger] entries[i].0, #[trigger] entries[j].0)
}

/// No key appears twice.
pub open spec fn keys_unique<V>(entries: Seq<(Seq<char>, V)>) -> bool {
    forall|i: int, j: int|
        0 <= i < j < entries.len() ==> #[trigger] entries[i].0 != #[trigger] entries[j].0
}

/// The samples after one more run of `elapsed` nanoseconds.
pub open spec fn record_sample(samples: TimingSamples, elapsed: u128) -> TimingSamples {
    TimingSamples {
        calls: (samples.calls + 1) as u64,
        total_nanos: (samples.total_nanos + elapsed) as u128,
        maximum_nanos: if elapsed > samples.maximum_nanos { elapsed } else { samples.maximum_nanos },
    }
}

/// The summary of a stage's samples: averages round down, and a stage that did
/// not run averages zero.
pub open spec fn summary_of(samples: TimingSamples) -> StageSummary {
    StageSummary {
        calls: samples.calls,
        total_micros: samples.total_nanos / 1000,
        average_micros: if samples.calls == 0 { 0 } else { (samples.total_nanos / 1000) / (samples.calls as u128) },
        maximum_micros: samples.maximum_nanos / 1000,
    }
}

impl DiagnosticsState {
    /// The recorded stages, in the order they first reported.
    pub closed spec fn timings(&self) -> Seq<(Seq<char>, TimingSamples)> {
        named(self.timings@)
    }

    /// The counted events, in `str` order.
    pub closed spec fn counts(&self) -> Seq<(Seq<char>, u64)> {
        named(self.counts@)
    }

    /// The state keeps each stage once and the events sorted.
    pub open spec fn well_formed(&self) -> bool {
        keys_unique(self.timings()) && keys_sorted(self.counts())
    }

    /// Nothing recorded yet.
    pub fn new() -> (state: DiagnosticsState)
        ensures
            state.well_formed(),
            state.timings().len() == 0,
            state.counts().len() == 0,
    {
        DiagnosticsState { timings: Vec::new(), counts: Vec::new() }
    }
}

/// The position of the stage in the timings, if it has reported.
pub open spec fn stage_index(timings: Seq<(Seq<char>, TimingSamples)>, stage: Seq<char>) -> Option<int> {
    if exists|i: int| 0 <= i < timings.len() && #[trigger] timings[i].0 == stage {
        Some(choose|i: int| 0 <= i < timings.len() && #[trigger] timings[i].0 == stage)
    } else {
        None
    }
}

/// Whether one more run of `elapsed` nanoseconds can be recorded for the stage
/// without its call count or total time overflowing.
pub open spec fn can_record(timings: Seq<(Seq<char>, TimingSamples)>, stage: Seq<char>, elapsed: u128) -> bool {
    elapsed <= DURATION_MAX_NANOS && match stage_index(timings, stage) {
        Some(i) => timings[i].1.calls < u64::MAX && timings[i].1.total_nanos + elapsed <= DURATION_MAX_NANOS,
        None => true,
    }
}

/// The timings after recording one run of the stage.
pub open spec fn timings_after_record(timings: Seq<(Seq<char>, TimingSamples)>, stage: Seq<char>, elapsed: u128) -> Seq<(Seq<char>, TimingSamples)> {
    match stage_index(timings, stage) {
        Some(i) => timings.update(i, (stage, record_sample(timings[i].1, elapsed))),
        None => timings.push((stage, record_sample(TimingSamples { calls: 0, total_nanos: 0, maximum_nanos: 0 }, elapsed))),
    }
}

/// Records one run of a stage that took `elapsed` nanoseconds.
pub fn record_timing(state: &mut DiagnosticsState, stage: &str, elapsed_nanos: u128)
    requires
        old(state).well_formed(),
        can_record(old(state).timings(), stage@, elapsed_nanos),
    ensures
        final(state).well_formed(),
        final(state).timings() == timings_after_record(old(state).timings(), stage@, elapsed_nanos),
        final(state).counts() == old(state).counts(),
{
    let ghost before = named(state.timings@);
    let ghost counts_before = named(state.counts@);
    let mut i: usize = 0;
    while i < state.timings.len()
        invariant
            i <= state.timings@.len(),
            named(state.timings@) == before,
            named(state.counts@) == counts_before,
            counts_before == old(state).counts(),
            before == old(state).timings(),
            keys_unique(before),
            keys_sorted(counts_before),
            can_record(before, stage@, elapsed_nanos),
            forall|j: int| 0 <= j < i ==> #[trigger] before[j].0 != stage@,
        decreases state.timings@.len() - i,
    {
        if str_eq(state.timings[i].0.as_str(), stage) {
            proof {
                assert(before[i as int].0 == stage@);
                assert(keys_unique(before));
                let k = choose|k: int| 0 <= k < before.len() && #[trigger] before[k].0 == stage@;
                assert(k == i);
            }
            let (name, samples) = state.timings.remove(i);
            let updated = TimingSamples {
                calls: samples.calls + 1,
                total_nanos: samples.total_nanos + elapsed_nanos,
                maximum_nanos: if elapsed_nanos > samples.maximum_nanos { elapsed_nanos } else { samples.maximum_nanos },
            };
            state.timings.insert(i, (name, updated));
            proof {
                assert(named(state.timings@) =~= before.update(i as int, (stage@, updated)));
                assert(keys_unique(named(state.timings@))) by {
                    let after = named(state.timings@);
                    assert forall|a: int, b: int| 0 <= a < b < after.len() implies #[trigger] after[a].0 != #[trigger] after[b].0 by {
                        assert(after[a].0 == before[a].0 && after[b].0 == before[b].0);
                    }
                }
            }
            return;
        }
        i = i + 1;
    }
    proof {
        assert(!(exists|j: int| 0 <= j < before.len() && #[trigger] before[j].0 == stage@));
    }
    let samples = TimingSamples { calls: 1, total_nanos: elapsed_nanos, maximum_nanos: elapsed_nanos };
    let name = stage.to_owned();
    state.timings.push((name, samples));
    proof {
        let after = named(state.timings@);
        assert(after =~= before.push((stage@, samples)));
        assert forall|a: int, b: int| 0 <= a < b < after.len() implies #[trigger] after[a].0 != #[trigger] after[b].0 by {
            if b < before.len() {
                assert(after[a].0 == before[a].0 && after[b].0 == before[b].0);
            } else {
                assert(after[a].0 == before[a].0);
            }
        }
    }
}

/// Whether one more run of `elapsed_nanos` can be recorded for the stage: its
/// call count and total time stay within range.
pub fn record_fits(state: &DiagnosticsState, stage: &str, elapsed_nanos: u128) -> (fits: bool)
    requires
        state.well_formed(),
    ensures
        fits == can_record(state.timings(), stage@, elapsed_nanos),
{
    if elapsed_nanos > DURATION_MAX_NANOS {
        return false;
    }
    let ghost timings = named(state.timings@);
    let mut i: usize = 0;
    while i < state.timings.len()
        invariant
            i <= state.timings@.len(),
            timings == named(state.timings@),
            state.well_formed(),
            elapsed_nanos <= DURATION_MAX_NANOS,
            forall|j: int| 0 <= j < i ==> #[trigger] timings[j].0 != stage@,
        decreases state.timings@.len() - i,
    {
        if str_eq(state.timings[i].0.as_str(), stage) {
            proof {
                assert(timings[i as int].0 == stage@);
                let k = choose|k: int| 0 <= k < timings.len() && #[trigger] timings[k].0 == stage@;
                if k != i {
                    assert(keys_unique(timings));
                }
                assert(k == i);
            }
            let samples = state.timings[i].1;
            return samples.calls < u64::MAX && samples.total_nanos <= DURATION_MAX_NANOS
                - elapsed_nanos;
        }
        i = i + 1;
    }
    proof {
        assert(!exists|k: int| 0 <= k < timings.len() && #[trigger] timings[k].0 == stage@);
    }
    true
}

/// Whether one more occurrence of the event can be counted.
pub fn count_fits(state: &DiagnosticsState, event: &str) -> (fits: bool)
    requires
        state.well_formed(),
    ensures
        fits == can_count(state.counts(), event@),
{
    let ghost counts = named(state.counts@);
    let mut i: usize = 0;
    while i < state.counts.len()
        invariant
            i <= state.counts@.len(),
            counts == named(state.counts@),
            forall|j: int| 0 <= j < i && #[trigger] counts[j].0 == event@ ==> counts[j].1 < u64::MAX,
        decreases state.counts@.len() - i,
    {
        if str_eq(state.counts[i].0.as_str(), event) && state.counts[i].1 == u64::MAX {
            proof {
                assert(counts[i as int].0 == event@);
            }
            return false;
        }
        i = i + 1;
    }
    true
}

/// The counts after one more occurrence of the event: its count goes up by one,
/// and a new event enters at its place in `str` order.
pub open spec fn counts_after_event(counts: Seq<(Seq<char>, u64)>, event: Seq<char>) -> Seq<(Seq<char>, u64)> {
    if exists|i: int| 0 <= i < counts.len() && #[trigger] counts[i].0 == event {
        let i = choose|i: int| 0 <= i < counts.len() && #[trigger] counts[i].0 == event;
        counts.update(i, (event, (counts[i].1 + 1) as u64))
    } else {
        let p = choose|p: int| is_insert_position(counts, event, p);
        counts.insert(p, (event, 1u64))
    }
}

/// `p` is where the event belongs among the sorted keys.
pub open spec fn is_insert_position(counts: Seq<(Seq<char>, u64)>, event: Seq<char>, p: int) -> bool {
    &&& 0 <= p <= counts.len()
    &&& forall|j: int| 0 <= j < p ==> chars_lt(#[trigger] counts[j].0, event)
    &&& forall|j: int| p <= j < counts.len() ==> chars_lt(event, #[trigger] counts[j].0)
}

/// Whether one more occurrence of the event can be counted without overflow.
pub open spec fn can_count(counts: Seq<(Seq<char>, u64)>, event: Seq<char>) -> bool {
    forall|i: int| 0 <= i < counts.len() && #[trigger] counts[i].0 == event ==> counts[i].1 < u64::MAX
}

/// Counts one occurrence of an event.
pub fn count(state: &mut DiagnosticsState, event: &str)
    requires
        old(state).well_formed(),
        can_count(old(state).counts(), event@),
    ensures
        final(state).well_formed(),
        final(state).counts() == counts_after_event(old(state).counts(), event@),
        final(state).timings() == old(state).timings(),
{
    let ghost before = named(state.counts@);
    let ghost timings_before = named(state.timings@);
    let key = chars_of(event);
    let mut i: usize = 0;
    while i < state.counts.len()
        invariant
            i <= state.counts@.len(),
            named(state.counts@) == before,
            named(state.timings@) == timings_before,
            before == old(state).counts(),
            timings_before == old(state).timings(),
            keys_unique(timings_before),
            can_count(before, event@),
            keys_sorted(before),
            key@ == event@,
            forall|j: int| 0 <= j < i ==> chars_lt(#[trigger] before[j].0, event@),
        decreases state.counts@.len() - i,
    {
        let existing = chars_of(state.counts[i].0.as_str());
        proof {
            assert(existing@ == before[i as int].0);
        }
        if chars_less(&existing, &key) {
            i = i + 1;
        } else {
            if !chars_less(&key, &existing) {
                proof {
                    lemma_chars_lt_total(existing@, key@);
                    assert(before[i as int].0 == event@);
                    assert forall|j: int| 0 <= j < before.len() && #[trigger] before[j].0 == event@ implies j == i by {
                        if j < i {
                            lemma_chars_lt_irreflexive(event@);
                        } else if j > i {
                            lemma_chars_lt_irreflexive(event@);
                        }
                    }
                }
                let (name, n) = state.counts.remove(i);
                state.counts.insert(i, (name, n + 1));
                proof {
                    let after = named(state.counts@);
                    assert(after =~= before.update(i as int, (event@, (n + 1) as u64)));
                    assert forall|a: int, b: int| 0 <= a < b < after.len() implies chars_lt(#[trigger] after[a].0, #[trigger] after[b].0) by {
                        assert(after[a].0 == before[a].0 && after[b].0 == before[b].0);
                    }
                }
                return;
            }
            proof {
                assert forall|j: int| i <= j < before.len() implies chars_lt(event@, #[trigger] before[j].0) by {
                    if j > i {
                        lemma_chars_lt_transitive(event@, before[i as int].0, before[j].0);
                    }
                }
                assert forall|j: int| 0 <= j < before.len() implies #[trigger] before[j].0 != event@ by {
                    if j < i {
                        lemma_chars_lt_irreflexive(event@);
                    } else {
                        lemma_chars_lt_irreflexive(event@);
                    }
                }
            }
            state.counts.insert(i, (event.to_owned(), 1));
            proof {
                lemma_insert_position_unique(before, event@, i as int);
                assert(named(state.counts@) =~= before.insert(i as int, (event@, 1u64)));
                lemma_insert_keeps_sorted(before, event@, 1u64, i as int);
            }
            return;
        }
    }
    proof {
        assert forall|j: int| 0 <= j < before.len() implies #[trigger] before[j].0 != event@ by {
            lemma_chars_lt_irreflexive(event@);
        }
        lemma_insert_position_unique(before, event@, i as int);
    }
    state.counts.push((event.to_owned(), 1));
    proof {
        assert(named(state.counts@) =~= before.insert(i as int, (event@, 1u64)));
        lemma_insert_keeps_sorted(before, event@, 1u64, i as int);
    }
}

proof fn lemma_insert_position_unique(counts: Seq<(Seq<char>, u64)>, event: Seq<char>, p: int)
    requires
        0 <= p <= counts.len(),
        forall|j: int| 0 <= j < p ==> chars_lt(#[trigger] counts[j].0, event),
        forall|j: int| p <= j < counts.len() ==> chars_lt(event, #[trigger] counts[j].0),
    ensures
        (choose|q: int| is_insert_position(counts, event, q)) == p,
{
    assert(is_insert_position(counts, event, p));
    let q = choose|q: int| is_insert_position(counts, event, q);
    if q < p {
        assert(chars_lt(counts[q].0, event));
        assert(chars_lt(event, counts[q].0));
        lemma_chars_lt_transitive(event, counts[q].0, event);
        lemma_chars_lt_irreflexive(event);
    } else if q > p {
        assert(chars_lt(counts[p].0, event));
        assert(chars_lt(event, counts[p].0));
        lemma_chars_lt_transitive(event, counts[p].0, event);
        lemma_chars_lt_irreflexive(event);
    }
}

proof fn lemma_insert_keeps_sorted(counts: Seq<(Seq<char>, u64)>, event: Seq<char>, n: u64, p: int)
    requires
        0 <= p <= counts.len(),
        keys_sorted(counts),
        forall|j: int| 0 <= j < p ==> chars_lt(#[trigger] counts[j].0, event),
        forall|j: int| p <= j < counts.len() ==> chars_lt(event, #[trigger] counts[j].0),
    ensures
        keys_sorted(counts.insert(p, (event, n))),
{
    let next = counts.insert(p, (event, n));
    assert forall|i: int, j: int| 0 <= i < j < next.len() implies chars_lt(#[trigger] next[i].0, #[trigger] next[j].0) by {
        if j < p {
            assert(next[i] == counts[i] && next[j] == counts[j]);
        } else if j == p {
            assert(next[i] == counts[i]);
        } else if i == p {
            assert(next[j] == counts[j - 1]);
        } else if i < p {
            assert(next[i] == counts[i] && next[j] == counts[j - 1]);
        } else {
            assert(next[i] == counts[i - 1] && next[j] == counts[j - 1]);
        }
    }
}

/// The report for a window of `window_nanos` nanoseconds, given the timings and
/// counts collected in it.
pub open spec fn report_stages(timings: Seq<(Seq<char>, TimingSamples)>) -> Seq<(Seq<char>, StageSummary)> {
    timings.map_values(|e: (Seq<char>, TimingSamples)| (e.0, summary_of(e.1)))
}

/// Every stage kept with its samples cleared.
pub open spec fn cleared_timings(timings: Seq<(Seq<char>, TimingSamples)>) -> Seq<(Seq<char>, TimingSamples)> {
    timings.map_values(|e: (Seq<char>, TimingSamples)| (e.0, TimingSamples { calls: 0, total_nanos: 0, maximum_nanos: 0 }))
}

/// Every event kept with its count cleared.
pub open spec fn cleared_counts(counts: Seq<(Seq<char>, u64)>) -> Seq<(Seq<char>, u64)> {
    counts.map_values(|e: (Seq<char>, u64)| (e.0, 0u64))
}

/// The samples a stage has before one more run: its recorded samples, or none
/// for a stage that has not reported.
pub open spec fn samples_before(timings: Seq<(Seq<char>, TimingSamples)>, stage: Seq<char>) -> TimingSamples {
    match stage_index(timings, stage) {
        Some(i) => timings[i].1,
        None => TimingSamples { calls: 0, total_nanos: 0, maximum_nanos: 0 },
    }
}

/// A recorded run shows in the next summary: the stage is reported with one
/// more call, its total grown by the run and its maximum at least the run,
/// and every other stage is reported as before.
pub proof fn law_recorded_run_is_reported(
    timings: Seq<(Seq<char>, TimingSamples)>,
    stage: Seq<char>,
    elapsed: u128,
)
    requires
        keys_unique(timings),
        can_record(timings, stage, elapsed),
    ensures
        exists|i: int|
            0 <= i < timings_after_record(timings, stage, elapsed).len() && (
            #[trigger] report_stages(timings_after_record(timings, stage, elapsed))[i]) == (
            stage,
            summary_of(record_sample(samples_before(timings, stage), elapsed)),
            ),
        samples_before(timings, stage).calls + 1 == record_sample(samples_before(timings, stage), elapsed).calls,
        record_sample(samples_before(timings, stage), elapsed).total_nanos == samples_before(timings, stage).total_nanos + elapsed,
        record_sample(samples_before(timings, stage), elapsed).maximum_nanos >= elapsed,
        forall|j: int|
            0 <= j < timings.len() && #[trigger] timings[j].0 != stage ==> report_stages(
                timings_after_record(timings, stage, elapsed),
            )[j] == report_stages(timings)[j],
{
    let after = timings_after_record(timings, stage, elapsed);
    match stage_index(timings, stage) {
        Some(i) => {
            assert(after[i].0 == stage);
            assert(report_stages(after)[i] == (stage, summary_of(record_sample(timings[i].1, elapsed))));
            assert forall|j: int|
                0 <= j < timings.len() && #[trigger] timings[j].0 != stage implies report_stages(after)[j]
                == report_stages(timings)[j] by {
                assert(j != i);
            }
        },
        None => {
            let n = timings.len() as int;
            assert(after[n].0 == stage);
            assert(report_stages(after)[n] == (
                stage,
                summary_of(record_sample(TimingSamples { calls: 0, total_nanos: 0, maximum_nanos: 0 }, elapsed)),
            ));
        },
    }
}

/// After a summary, a summary of the cleared window reports every stage with
/// no calls and no time, and every event with a zero count.
pub proof fn law_cleared_window_reports_nothing(
    timings: Seq<(Seq<char>, TimingSamples)>,
    counts: Seq<(Seq<char>, u64)>,
)
    ensures
        report_stages(cleared_timings(timings)).len() == timings.len(),
        forall|i: int|
            0 <= i < timings.len() ==> (#[trigger] report_stages(cleared_timings(timings))[i]) == (
            timings[i].0,
            StageSummary { calls: 0, total_micros: 0, average_micros: 0, maximum_micros: 0 },
            ),
        cleared_counts(counts).len() == counts.len(),
        forall|i: int| 0 <= i < counts.len() ==> (#[trigger] cleared_counts(counts)[i]) == (counts[i].0, 0u64),
{
}

/// Ends the current window when at least a second has passed since it began
/// (`window_nanos`): reports every stage and event seen so far (stages that did
/// not run in this window report zero calls) and clears their samples and
/// counts. Before a second has passed, nothing is reported or cleared.
pub fn flush_timings(state: &mut DiagnosticsState, window_nanos: u128) -> (report: Option<FlushReport>)
    requires
        old(state).well_formed(),
    ensures
        final(state).well_formed(),
        window_nanos < TIMING_LOG_INTERVAL_NANOS ==> report is None && final(state).timings() == old(state).timings() && final(state).counts() == old(state).counts(),
        window_nanos >= TIMING_LOG_INTERVAL_NANOS ==> (report matches Some(r) && {
            &&& r.window_micros == window_nanos / 1000
            &&& named(r.stages@) == report_stages(old(state).timings())
            &&& named(r.counts@) == old(state).counts()
            &&& final(state).timings() == cleared_timings(old(state).timings())
            &&& final(state).counts() == cleared_counts(old(state).counts())
        }),
{
    if window_nanos < TIMING_LOG_INTERVAL_NANOS {
        return None;
    }
    let ghost timings_before = named(state.timings@);
    let ghost counts_before = named(state.counts@);
    let mut stages: Vec<(String, StageSummary)> = Vec::new();
    let mut cleared: Vec<(String, TimingSamples)> = Vec::new();
    let mut i: usize = 0;
    while i < state.timings.len()
        invariant
            i <= state.timings@.len(),
            named(state.timings@) == timings_before,
            named(stages@) == report_stages(timings_before).subrange(0, i as int),
            named(cleared@) == cleared_timings(timings_before).subrange(0, i as int),
        decreases state.timings@.len() - i,
    {
        let entry = &state.timings[i];
        let name = &entry.0;
        let samples = entry.1;
        proof {
            assert(timings_before[i as int] == (name@, samples));
        }
        let total_micros = samples.total_nanos / 1000;
        let average_micros = if samples.calls == 0 { 0 } else { total_micros / (samples.calls as u128) };
        let summary = StageSummary {
            calls: samples.calls,
            total_micros,
            average_micros,
            maximum_micros: samples.maximum_nanos / 1000,
        };
        let ghost stages_prev = stages@;
        let ghost cleared_prev = cleared@;
        stages.push((name.clone(), summary));
        cleared.push((name.clone(), TimingSamples { calls: 0, total_nanos: 0, maximum_nanos: 0 }));
        proof {
            assert(named(stages@) =~= named(stages_prev).push((name@, summary)));
            assert(named(cleared@) =~= named(cleared_prev).push((name@, TimingSamples { calls: 0, total_nanos: 0, maximum_nanos: 0 })));
            assert(report_stages(timings_before).subrange(0, i + 1) =~= report_stages(timings_before).subrange(0, i as int).push(report_stages(timings_before)[i as int]));
            assert(cleared_timings(timings_before).subrange(0, i + 1) =~= cleared_timings(timings_before).subrange(0, i as int).push(cleared_timings(timings_before)[i as int]));
            assert(named(stages@) =~= report_stages(timings_before).subrange(0, i + 1));
            assert(named(cleared@) =~= cleared_timings(timings_before).subrange(0, i + 1));
        }
        i = i + 1;
    }
    let mut counts: Vec<(String, u64)> = Vec::new();
    let mut zeroed: Vec<(String, u64)> = Vec::new();
    let mut k: usize = 0;
    while k < state.counts.len()
        invariant
            k <= state.counts@.len(),
            named(state.counts@) == counts_before,
            named(counts@) == counts_before.subrange(0, k as int),
            named(zeroed@) == cleared_counts(counts_before).subrange(0, k as int),
        decreases state.counts@.len() - k,
    {
        let entry = &state.counts[k];
        let name = &entry.0;
        let n = entry.1;
        proof {
            assert(counts_before[k as int] == (name@, n));
        }
        let ghost counts_prev = counts@;
        let ghost zeroed_prev = zeroed@;
        counts.push((name.clone(), n));
        zeroed.push((name.clone(), 0));
        proof {
            assert(named(counts@) =~= named(counts_prev).push((name@, n)));
            assert(named(zeroed@) =~= named(zeroed_prev).push((name@, 0u64)));
            assert(counts_before.subrange(0, k + 1) =~= counts_before.subrange(0, k as int).push(counts_before[k as int]));
            assert(cleared_counts(counts_before).subrange(0, k + 1) =~= cleared_counts(counts_before).subrange(0, k as int).push(cleared_counts(counts_before)[k as int]));
            assert(named(counts@) =~= counts_before.subrange(0, k + 1));
            assert(named(zeroed@) =~= cleared_counts(counts_before).subrange(0, k + 1));
        }
        k = k + 1;
    }
    proof {
        assert(report_stages(timings_before).subrange(0, i as int) =~= report_stages(timings_before));
        assert(cleared_timings(timings_before).subrange(0, i as int) =~= cleared_timings(timings_before));
        assert(counts_before.subrange(0, k as int) =~= counts_before);
        assert(cleared_counts(counts_before).subrange(0, k as int) =~= cleared_counts(counts_before));
        assert(keys_unique(named(cleared@)));
        assert(keys_sorted(named(zeroed@)));
    }
    state.timings = cleared;
    state.counts = zeroed;
    Some(FlushReport { window_micros: window_nanos / 1000, stages, counts })
}

/// A running stage: its name and when it began.
#[derive(Debug)]
pub struct Timing {
    pub stage: &'static str,
    pub started: std::time::Instant,
}

/// `std::time::Instant`, carried through unchanged.
#[verifier::external_type_specification]
#[verifier::external_body]
pub struct ExInstant(std::time::Instant);

/// The current instant of the monotonic clock.
///
/// Calls `std::time::Instant::now`; nothing is stated of the result.
#[verifier::external_body]
fn instant_now() -> std::time::Instant {
    std::time::Instant::now()
}

/// Starts timing a stage now.
pub fn timing(stage: &'static str) -> (running: Timing)
    ensures
        running.stage == stage,
{
    Timing { stage, started: instant_now() }
}

/// The time since `started`.
///
/// Calls `Instant::elapsed`; the clock's reading is not stated.
#[verifier::external_body]
fn elapsed_since(started: &std::time::Instant) -> std::time::Duration {
    started.elapsed()
}

/// A duration in whole nanoseconds.
///
/// Calls `Duration::as_nanos`; nothing is stated of the number.
#[verifier::external_body]
fn duration_nanos(duration: &std::time::Duration) -> u128 {
    duration.as_nanos()
}

/// Ends a running stage: records exactly one run, of the time elapsed since
/// it began, unless that would overflow the stage's samples; tells whether it
/// recorded. Event counts are untouched.
pub fn finish_timing(state: &mut DiagnosticsState, running: &Timing) -> (recorded: bool)
    requires
        old(state).well_formed(),
    ensures
        final(state).well_formed(),
        final(state).counts() == old(state).counts(),
        exists|elapsed: u128|
            #![trigger can_record(old(state).timings(), running.stage@, elapsed)]
            recorded == can_record(old(state).timings(), running.stage@, elapsed) && (if recorded {
                final(state).timings() == timings_after_record(old(state).timings(), running.stage@, elapsed)
            } else {
                final(state).timings() == old(state).timings()
            }),
{
    let elapsed = duration_nanos(&elapsed_since(&running.started));
    if !record_fits(state, running.stage, elapsed) {
        return false;
    }
    record_timing(state, running.stage, elapsed);
    true
}

} // verus!
