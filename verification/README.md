# datafusion_pg_catalog

PostgreSQL's system catalog for a SQL engine. Clients of PostgreSQL ask `pg_catalog` and
`information_schema` what a server holds before they do anything else, and they ask in
PostgreSQL's own SQL. This library answers: it rewrites such queries into SQL that the engine can
plan, decides which queries touch the catalog, keeps the rows that describe user databases,
schemas, tables, views, indexes and constraints, and turns results into what goes over the wire.

The library is verified with Verus. What each function returns or changes is stated in its
contract, and what holds of several functions together stands beside them as public proof
functions.

## Layout

- `src/sql/`: SQL texts as trees, the traversals, and the rewrites. `laws.rs` holds what is true
  of every rewrite, and `restoring.rs` what becomes of a text whose columns were named afresh.
- `src/router.rs`: which queries touch the catalog, and how unqualified names are resolved.
- `src/catalog/`: the catalog tables, user objects in them, lazy sources, and the merge of a
  source's rows with the built-in ones. `laws.rs` holds what registering and unregistering keep,
  and `histories.rs` what holds of several of these in a row.
- `src/server/`: statements that the server answers itself, values on the wire, and the record
  of queries.
- `src/binary.rs`, `src/bytes.rs`: catalog files.
- `src/resolvers.rs`, `src/scans.rs`, `src/correlated.rs`: functions whose answers come from the
  application, the record of scans, and plan rules.
- `src/args.rs`, `src/sqlite.rs`: the command line, and a SQLite database as a source.
- `tests/`: the library on concrete values.
- `app/`: the program around the library: DataFusion sessions, the server and a prompt.

## What is not proved

SQL texts are parsed and printed by `sqlparser`, JSON texts are written by `serde_json`, instants
by `chrono`, and password answers are computed by `pgwire`. The functions that call them are
marked `external_body`; the comment above each says what is taken for granted. Contracts speak of
what a parser or printer returns by name (`parsed_statements`, `printed_statement` and the like),
so they are exact in what is done with a tree and silent about the grammar.
