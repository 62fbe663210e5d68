# evidence_backend

A verified library for the evidence backend's command-line program, written in
Verus, with a thin executable around it.

- `src/text.rs` — character-level string helpers (equality, substring search,
  ASCII lower-casing, white space, decimal writing).
- `src/number.rs` — decimal integers read from text, with the acceptance rules
  and error kinds of `str::parse` for `usize` and `i64`.
- `src/csv.rs` — CSV text to rows (quoting, line ends, blank lines) and rows to
  header-keyed records.
- `src/config.rs` — the configuration and the command line, specified as a
  reader over the argument words.
- `src/app.rs` — the ordered operations of commands, the retry rule for a
  locked database, document routing and worker counts for ingest, and the
  lines the commands print.
- `src/evaluate.rs` — gold cases, hit@k scoring, tallies and the Markdown
  report of a search evaluation.
- `app/main.rs` — argument handling, file access and printing.
- `tests/` — tests of the library on concrete values.
