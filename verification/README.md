# junction_rs

A type-safe object graph mapper toolkit: node and edge model types, a query DSL for
selects, inserts, updates, deletes and graph traversals, schema snapshots and diffs, and the
tooling behind a migrations command line. The library in `src/` is written in Verus; each
function states its behaviour in `requires` / `ensures` and Verus proves it.

## Layout

- `src/` — the verified library.
  - `text`, `keyindex`, `pattern` — string helpers, sorted key indexes, and regular-expression
    and case-mapping calls.
  - `expr`, `schema`, `traits`, `id`, `json` — filter expressions, typed tables and columns,
    the `Node` / `Edge` / `Insertable` traits, typed UUID ids.
  - `query/` — the statement AST and the select, insert, update and delete builders.
  - `graph` — the traversal AST and its typed builder.
  - `schema_ops`, `snapshot`, `diff`, `diff_laws`, `diff_swap` — schema operations,
    snapshots, the diff between two snapshots, the proofs that applying a diff (or its
    reverse) reaches the other snapshot, and that diffing the other way round exchanges the
    forward and reverse operations.
  - `scanner`, `registry`, `migration` — reading model declarations out of source text,
    reading migration files, and writing new ones.
  - `derive` — what deriving `Node` or `Edge` produces for a struct declaration.
  - `config`, `init`, `cli` — configuration defaults, the decisions of `init`, and the
    commands of the command line.
- `tests/` — tests of the library.
- `app/` — the I/O around it: the clap command line, files, prompts, database executors,
  serde forms of the library's types, and the derive expansions as token transformations.
