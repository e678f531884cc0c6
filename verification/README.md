# ndc-postgres

The core of a data connector for PostgreSQL: the translation of queries and insert mutations to SQL
statements, and the commands of its CLI. It is written in Verus: what each function returns is
stated beside it and proved.

## Layout

- `src/translation/helpers.rs`: lookups in the metadata, and the state of a translation, which hands
  out table aliases and keeps the native query calls.
- `src/translation/query/`: queries.
  - `selection.rs` says which select statement a list of fields stands for. `fields.rs` builds it.
  - `root.rs` builds the rows query, the aggregates query and the from clause.
  - `depth.rs` and `extent.rs` are about how deep a translation goes, and whether it ends.
  - `laws.rs` and `scope.rs` state what holds of every translation: its columns, the uniqueness of
    its table aliases, the tables that it refers to.
- `src/translation/mutation/insert.rs`: generated insert mutations.
- `src/translation/translators.rs`: what the user of the library supplies (orders, predicates,
  relationships, aggregates, values).
- `src/cli.rs`: the plan that carries a command out, and the connector metadata.
- `src/sql/`, `src/metadata.rs`, `src/models.rs`, `src/json.rs`: statements, metadata, requests,
  documents.
- `src/string_map.rs`: maps by strings, in the order of the strings.
- `app/`: the CLI's work on files, and conversions of documents.

## What is trusted

`src/translation/query/field_map.rs` declares `indexmap::IndexMap` and three of its functions, with
the contracts that the proofs rest on.
