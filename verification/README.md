# logmorph

A streaming analyzer for Minecraft and Java server logs: it classifies each
line, groups stack traces (with their `Caused by` chains) into events,
fingerprints errors and counts each distinct error once, with its
occurrences, timeline and the plugin it is attributed to.

## Layout

- `src/` — the library, verified with Verus.
  - `text.rs`: character-level string helpers with specifications over
    `Seq<char>`.
  - `patterns.rs`: regular-expression matching through the `regex` crate.
  - `models/`: log levels and lines, stack frames and traces, aggregated
    errors.
  - `parser/`: line classification, the state machine that groups lines
    into events, and the streaming reader (the caller supplies the lines).
  - `engine/`: framework/plugin frame classification, plugin extraction
    from server messages, fingerprints, ordering, and the aggregation
    engine with its invariants.
  - `cli/`: command-line options and the text reports.
- `app/` — the `logmorph` command (argument parsing, file, gzip and
  standard-input reading, printing), JSON forms of the report, and the
  native methods of the server plugin.
- `tests/` — tests of the library.
