# shrimply_model

The editing model behind the Shrimply video editor, written in Verus. The
library's own logic is verified against its contracts; the few calls into
`std` and outside crates (a random UUID, UUID parsing, the clock,
`io::Error::kind`, lower-casing, sorting, `Path` queries, JSON parsing) sit behind small
`#[verifier::external_body]` wrappers whose contracts are trusted, not proved.
Each such wrapper says in its doc comment what it claims of the call it makes.

- `src/` — the verified library: exact timeline instants (`time`), item and
  track addresses, timeline search and collision tests, the selection state,
  comment import (marker records, snapping to the frame grid, ordering,
  packing into tracks, sequence nesting, projecting markers through clips
  and walking playlist lanes), producer import plans and MLT values,
  new-project settings, edit-request checks and query paging, font family lists and the font browser's state machine, media
  information formatting, audio export planning, diagnostics bookkeeping
  (stream error classification, timing records), and small text and number
  helpers.
- `tests/` — tests that run the library with its outside crates linked.
- `app/` — the runtime around the library: the `tracing` subscriber and the
  best-effort `io::Write` adapter that writes diagnostics to standard error,
  the timing guard that records a run when dropped, and the worker threads
  that run the font browser's jobs and feed their results back.

Laws of the library are public proof functions (named `law_…` or `lemma_…`)
next to the functions they speak of.
