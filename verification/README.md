# continuum

A transport log (append-only event streams with idempotent appends, ordered
reads, monotonic consumer checkpoints and logical truncation) and the
benchmark harness that measures its storage backends, written in Verus.

`src/` is the verified library:

- `types`, `memory`, `laws_memory`: stream identities and records, the
  in-memory log with its abstract model, and the laws it keeps (idempotent
  appends, read-your-writes, numbering from 1, monotonic checkpoints,
  truncation, stream independence).
- `seq_alloc`, `topic_read`: sequence-number allocation and batch-append
  bookkeeping shared by the storage backends; merging per-stream reads.
- `sql`, `scylla`, `tikv_keys`, `tikv_raw`, `surreal`: what each backend
  computes between driver calls (placeholder binding, DDL, key layouts,
  retry decisions, configuration).
- `dimensions`, `matrix`, `experiments`, `harness`, `resources`: the
  benchmark dimensions, the pre-registered matrices and their filters, run
  pre-checks, workload naming, results-table patching and resource tallies.
- `text`, `assoc`: string and association-list helpers with exact specifications.

`app/` is the command-line runner: argument parsing, environment, database
drivers, timing, floating-point metrics and report files. `tests/` exercises
the library on concrete values.
