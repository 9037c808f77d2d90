# rbspy

The data model and the raw storage format of a sampling profiler for Ruby programs,
written and proved in Verus.

- `src/storage/`: raw data files. `Store` writes them, `TraceStream` reads them one
  stack trace at a time; `laws.rs` states what holds of both together.
- `src/frame.rs`, `src/trace.rs`: stack frames with their order and text, stack traces.
- `src/scanner_cache.rs`: what the stack scanners remember, within a bound.
- `src/output_format.rs`, `src/output_file.rs`: output formats, and how output files are
  created and owned.
- `src/memory_error.rs`: failures to copy memory out of a process, with what is taken on
  trust of `anyhow`.
- `src/text.rs`, `src/keyed.rs`: numerals, ASCII case and string order; a map.
- `src/gzip.rs`, `src/system.rs`: what is taken on trust of `flate2` and of `std`'s
  errors; `String::from_utf8` stands in `src/text.rs`.
- `app/`: files, the environment, JSON and the command line.
