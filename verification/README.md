# repo_gc

A repository hygiene analyzer for Rust code bases. It reads a workspace's
source files, builds a module-level import graph and reports the patterns
that waste an AI agent's context window: oversized files, orphaned modules,
re-export barrels, coupling hotspots, duplicated function bodies and unused
imports, plus a family of per-file code-quality heuristics.

## Layout

- `src/` — the library, verified with Verus:
  - `types.rs`, `canonical.rs`, `cli.rs`: findings, severities, kinds, the
    threshold levels and their tables.
  - `text.rs`, `paths.rs`: text and path operations the rest is stated over.
  - `parsing/`: the structural facts of one file: `syntax` reads its text
    with `syn` into events, `events` replays them on the `Visitor`; module
    paths, `use` trees, comment and line counts.
  - `discovery/`: which files a run takes, and the workspace's packages.
  - `graph/`: fan-in and fan-out from `use` items.
  - `heuristics/`: one module per heuristic, each with an exact contract.
  - `analysis.rs`: one run over parsed files, its totals and the
    explanation of one file.
  - `reporting/`: the Markdown and LLM renderings and the terminal decisions.
- `app/` — the `repo-gc` command: argument parsing, the file system,
  `cargo metadata`, the floating-point scores and printing.
- `tests/` — tests of the library.
