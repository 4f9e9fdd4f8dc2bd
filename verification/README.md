# helix_db

Verified pieces of the Helix graph database tooling, written in Verus.

- `src/text.rs` — characters, lines, words, decimal numbers, and the string helpers the
  other modules build on.
- `src/cli/` — the command-line tool's bookkeeping: the credentials file, the list of
  local instances, which project files form the source, where the configuration lives,
  and the toolchain version check.
- `src/engine/paths.rs` — breadth-first shortest paths over a graph's out-edges, with
  the laws that the answer is a shortest path, is found exactly when one exists, and is
  the one whose edges come first in the order the graph lists them.
- `src/analyzer/` — the query compiler's analysis: field tables built from schemas,
  schema checks and their laws, identifier and field checks, where a traversal starts,
  graph-step checking, parameter types, the checking of whole traversals and the type
  inference of expressions (mutually recursive, each described by a relation over the
  states it passes through, a `Trace`), and the values a query returns.
  Diagnostics are recorded as values in the analysis context.
- `src/generator/` — the Rust source text that compiled queries are made of.
- `app/` — the program around the library: files, processes, signals, ports, and
  shortest paths by floating-point edge weight.
- `tests/` — tests of the library on concrete values.
