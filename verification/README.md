# tidb_lake

A verified library for collecting the system tables of TiDB clusters and writing
them to Delta Lake tables, and the Vector components around it.

- `src/` holds the library. Every function states in its contract what it returns
  or changes, and Verus proves it.
  - `system_tables`: the configuration of the source, the collectors (by SQL
    queries and by coprocessor requests, with the codec of the rows), and the
    controller that starts and stops a collector for each instance.
  - `deltalake`: the schema of a table, the columns of a batch of events, the steps
    by which a batch is written, and the routing of events to tables.
  - `mocked_topsql`: made-up events about statements, for tests of a pipeline.
  - `text`, `bytes`, `string_map`, `value`, `clock`, `random`: what these build on.
- `app/` is ordinary Rust: configuration files, connections, timers, and the
  conversions from and to the types of Vector, Arrow, sqlx and tonic. It needs
  Vector and the generated messages of the coprocessor interface.
- `tests/` runs the library on concrete values.

Doubles are held by their bits in the library; where a double has to be computed,
the library hands over what it is computed from. Text is held as sequences of
characters, maps as lists of entries in the order of insertion.

Contracts that are believed and not proved stand on the few functions marked
`external_body`, and on `String::push`. Each names the function of the standard
library, of chrono or of rand that it calls.
