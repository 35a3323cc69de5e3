# notes_api

A small REST service for notes, tags and categories, backed by PostgreSQL.
The decisions the service makes are a Verus-verified library; the HTTP and
database plumbing around it is ordinary Rust.

## Layout

- `src/` — the verified library.
  - `text.rs`: string operations (trim, split, join, search, replace,
    decimal formatting), each specified over `Seq<char>`.
  - `utils/querys.rs`: what a listing query string asks for — free-text
    search clause, `WHERE` conditions, paging, sorting, column selection.
  - `utils/statements.rs`: SQL statements built from templates and those
    answers: listings, `SET` clauses of updates, placeholder lists.
  - `module/*/models.rs`: the records, how a database row becomes one for a
    given column list, and its JSON object (an `ordermap::OrderMap`).
  - `module/*/controller.rs`: the planning side of each endpoint.
  - `json.rs`: JSON values, the ordered map and JSON column checks, with the
    trusted items that reach `ordermap` and `serde_json`.
  - `migrations.rs`: splitting migration scripts into statements.
  - `laws.rs`: properties across functions, proved.
- `tests/` — tests of the library on concrete values.
- `app/` — the server: configuration, routing, handlers that run the planned
  statements, serde copies of the records, and the migration runner
  (`notes_api migrate NAME...`).
