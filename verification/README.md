# just_notes

The verified core of Just Notes, a local-first app that records meetings into
note threads and reminds the user when calendar meetings start and end.

- `src/` is the library, written in Verus: every function carries a contract
  and is proved against it. The laws that span several operations (a start
  prompt is consumed once, a warning precedes an automatic stop by a minute,
  two different recording folders never feed the same bytes to the fingerprint
  hash, not even when only a file boundary moves, and others)
  are public proof functions, mostly in `src/meetings/laws.rs` and beside the
  modules they concern.
  - `meetings/`: the scheduler state, its transitions and policies, the pass
    run on every poll, notification wording, and the start/stop actions.
  - `threads/`: titles, metadata transitions (readiness, creation, renaming),
    search and listing order, storage accounting, import planning and folder
    fingerprints (SHA-256 through the `sha2` crate).
  - `recording/`: which thread a recording goes into, and the steps of a
    recording's start and stop.
  - `platform/`: calendar data and its ordering, permission labels, and the
    calendar worker's restart policy.
- `app/` is a small command-line program over a data folder: it reads and
  writes the JSON files with `serde_json` and hands plain values to the
  library.
- `tests/` runs the library on concrete values.
