# dream

Dream composes `.foo` programs into projects for a catalog toolchain (cargo, go,
python, …) and records the provenance of every file it writes, so that later runs know
which unit owns which file, what is locked, and what a fresh start removes.

The library in `src/` is verified with Verus: each public function states its result
in its contract, over the views of the types (`StoreView`, `DepGraphView`, …), and the
laws of the library are proof functions beside the code they speak of.

- `source/` — projects, manifests (`dream.toml`), lexical path handling, the graph of
  unit reads and its freedom from cycles.
- `provenance/` — the store, ownership rules for reading, writing and removing dest
  paths, locks and lock checks, reconciling a recomposed unit, the `inspect` report.
- `toolchain/` — the catalog, program lookup, and the configure/build/run state machine.
- `toolchain_resolver.rs` — mapping a requested target to a toolchain.
- `tools/` — the decisions, replies and parameter schemas of the tools the model calls
  (dest writes, HTTP requests).

`app/` holds what touches the machine: reading and writing the store file, walking
directories, running processes and sending HTTP requests. It hands the library plain
values and acts on the values it gets back.
