# clockify_to_solidtime

Moves clients, projects, tasks, tags and time entries from Clockify to
Solidtime, compares the two project structures, and validates the
configuration first.

## Layout

- `src/` is the library, verified with Verus: configuration precedence,
  mapping-file resolution, the structure comparison and its tables, the
  per-record migration plans, time-entry fingerprints, the state of a run,
  paging and retry rules, and the monthly windows. Contracts state each
  function's result; proof functions state the laws of a run (reruns reuse
  what was recorded, a dry run creates and writes nothing, the last attempt
  of a request is never retried, among others).
- `app/` is the command-line program around it: argument handling, HTTP,
  JSON/TOML/CSV reading and writing, the state file, and the loops that carry
  out the library's decisions.
- `tests/` exercises the library on concrete values.

Calls into chrono and the HTTP status table stand behind small trusted
wrappers in `src/calendar.rs`, `src/http.rs` and `src/text.rs`, each with a
doc comment saying what its contract claims.
