# nca_core

Verified core of an agent CLI's workspace bookkeeping and experiment
analysis, written in Verus.

- `src/` — the verified library:
  - `text`, `numbers`, `paths`, `named`: white space and trimming, the
    numerals that `u64`/`f64` parsing accepts, paths held as text (joined
    and split by `std::path`), and small name-to-text tables;
  - `todos`: session todo lists and their file path;
  - `last_session`: the last-session marker and how its content is read;
  - `metric_parser`: the pattern table and metric extraction from output,
    with regular expressions evaluated by the `regex` crate;
  - `experiment`: experiment configuration and the decisions taken around a
    run (log location, kill timeout, output assembly, judging the exit).
- `tests/` — tests run against the compiled library.
- `app/` — the unverified I/O around it: JSON files, async file access,
  child processes, and floating-point values of metrics.
