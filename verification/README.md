# pkdump-db

The decisions behind PokeDumpster's SQLite persistence layer, verified with
Verus.

- `src/` — the library. Every function is verified against its contract:
  tenant paths and ids, the user registry and its identity bindings, schema
  version gating, the clock timestamps come from, CSV and JSON import and
  export, catalog resolution of imported rows, the binder and bundle pages,
  prices, orders, the sealed shelf, and the catalog convergence
  fingerprint. Laws that span several functions are public proof functions
  named `lemma_*`.
- `app/` — the storage edge: SQLite connections, the environment, the wall
  clock's thread-local state and the JSON envelope's serialisation (its
  floats). It reads what the library needs, calls it, and writes what it
  decides. Parsing the import files' text belongs to a sibling crate that
  is not part of this build, so the import functions there start from
  parsed rows.
- `tests/` — tests of the library on concrete values.

Floating-point values (prices, multipliers) cross into the library as the
bit patterns of their `f64`s; text formatting of floats stays in `app/`.
