# tracker_db

The storage logic of a BitTorrent tracker's database connector, verified with Verus.

- `src/info_hash.rs`: info hashes, their lower-case hexadecimal text, and decoding
  of hash columns (text through `hex::decode`, or raw bytes).
- `src/decimal.rs`: decimal text of the integers written into statements.
- `src/config.rs`: engines, table and column names, configuration.
- `src/queries.rs`: every SQL statement, per engine, as a specification and a builder.
- `src/rows.rs`: decoding of the rows a load reads back, and the law that a
  load reads back what a save wrote.
- `src/transaction.rs`: the decisions of a save transaction (begin, statements,
  commit, give up at the first failure) and their laws.
- `src/connector.rs`: the connector: engine state, setup statements, load queries,
  row decoding and save plans.
- `app/`: the connection pools (sqlx), the async loops that run what the
  library decides, and logging.
