# faa-registry-mirror

Mirrors the FAA Releasable Aircraft database into SQLite and keeps ownership
history with Slowly Changing Dimensions (Type 2).

- `src/` is the library, verified with Verus: the fixed-width parsers of the
  seven dump files (Windows-1252 decoding, BOM/header/blank-line handling,
  quarantine of bad rows), identifiers (`N`-numbers, Mode S hex), FAA and UTC
  dates, state hashes, the SCD planner that decides which rows stay, close or
  are inserted, the ingest decisions (same-dump skip, truncated-dump floor, run
  counts), and the lookup/search/status text.
- `app/` is the command-line program around it: downloading and unzipping the
  dump, the clock, and every SQLite statement.
- `tests/` runs the library on concrete inputs.
