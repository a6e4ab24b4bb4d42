# osimperf

Tools for following the performance of opensim-core over its history:
choosing the commits to compile, compiling them with cmake into an archive,
running benchmarks on each compiled commit, and tabulating the results.

## Layout

- `src/` is the library, written in Verus. Every function there carries a
  contract (`requires` / `ensures`) that Verus proves. External programs
  (git, cmake, du, the benchmarks themselves) are reached through a
  `Runner` that the caller hands in: it wraps the function that runs a
  command and keeps, in order, the commands it was handed. The contracts
  state which commands the library hands over and what it makes of every
  possible reply. Most of them also state the order of those commands and
  that none follows a failure; the daily listings that date each hash one
  by one state the commands and results but not their order.
  - `text` — string helpers (splitting, joining, decimal numbers).
  - `command` — commands and pipelines, how they are printed and parsed.
  - `common::git`, `repo`, `node::repo` — git queries: branches, commit
    hashes, commit dates, one commit per day or month.
  - `node` — a compilation node and its state machine over the targets
    (dependencies, opensim-core, tests).
  - `cmake`, `node::cmake` — cmake flags, configure and build steps.
  - `bench_tests` — benchmark setups, their results and the results table.
  - `compiler_service` — the decisions of the monthly compile loop.
  - `history` — the decisions of compiling the history month by month.
  - `status_converter` — reading node records of an older form.
- `tests/` runs the library on concrete values.
- `app/` is the program around the library: argument parsing, processes,
  files, serialisation and the terminal interface. Configuration and node
  files are read and written as JSON with `serde_json`: the copies of the
  library's types in `app/` derive serde's traits, so any serde format
  would do, and JSON keeps these files readable and editable by hand, which
  matters for the configuration files that users write themselves.
