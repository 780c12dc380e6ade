# datafusion-table-providers-quack

DataFusion tables over DuckDB's Quack remote protocol, with the decisions proved in
[Verus](https://github.com/verus-lang/verus).

- `src/` is the verified library:
  - `pool` reads the parameters of a connection pool, and holds the pool;
  - `conn` writes the statements that a connection sends and judges the replies;
  - `schema_lookup` is the lookup of a table's schema, step by step;
  - `batch` reads the first column of a result as text;
  - `table_reference` reads and writes qualified table names;
  - `duration` writes spans of time for logs;
  - `secrets` keeps parameter values out of logs;
  - `text` holds the operations on text that the others are stated over;
  - the crate root reads `CREATE EXTERNAL TABLE` statements.
- `tests/` runs the library together with the real outside crates.
- `app/` is the asynchronous half: it opens sessions, awaits replies and implements
  DataFusion's traits. It decides nothing that the library can decide.

What is believed of the outside crates stands in the contracts of the functions and
types marked `external_body`, `external_type_specification` and
`assume_specification`; the doc comment of each names the outside function.
