# maproom

The search core of the maproom code indexer, written in Verus: the
library in `src/` is verified, and its functions state what they return in
contracts that Verus proves (a few that do nothing, such as the profiling
hooks without a profiler, carry none).

- `src/search/` — query tokenization, synonym expansion, search-mode
  detection and validation, full-text query strings, exact-match
  normalization, structured error diagnostics, cache keys and the
  least-recently-used result cache over `lru`, deduplication of
  results across worktrees, ranking and grouping of fused hits, relationship
  helpers.
- `src/memory/` — allocation metrics, a buffer pool and a string interner,
  each with the laws it keeps (balances, peaks, reuse, deduplication).
- `src/cli/` — exit codes, error classification, the one-line agent error
  format, number formatting, throttle parsing, repository identity from git
  and the branch-switch decision.
- `src/progress.rs`, `src/metrics/`, `src/migrate/`, `src/profiling.rs` —
  progress lines, cache counters, migration bookkeeping.
- `src/text.rs`, `src/order.rs`, `src/strmap.rs` — strings, their order and a
  small string-keyed map, with the specifications the rest builds on.
- `app/` — the command-line program and everything that is floating point,
  shared-state or I/O: score fusion, quantization, the shared result cache
  that keeps the results behind the library's cache, Prometheus exporters,
  and git invocation.
- `tests/` — runtime tests of the library.
