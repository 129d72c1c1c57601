# barq_memory

A memory engine for AI agents, written in Verus: typed memories with
temporal validity, supersession history, scope isolation, deduplication,
conflict resolution, episodes, an entity graph, governed reads with an
audit trail, retention sweeps, procedures and goals with checked
lifecycles, and at-rest encryption.

Every function in `src/` carries a contract over a mathematical model of
its types (records as `RecordView`s, stores as sequences of records,
working memory as entries with expiry instants) and is proved by Verus.
Calls into outside crates (clock, UUIDs, SHA-256, AES-256-GCM) stand
behind small trusted wrappers whose contracts name or bound what the
crate returns.

Layout:

- `src/` — the verified library, one module per concern (`taxonomy`,
  `scope`, `record`, `store`, `engine`, `dedup`, `conflict`, `lifecycle`,
  ...). Public proof functions named `lemma_*` state the library's laws.
- `tests/` — executable tests against the library.
- `app/` — serde copies of the configuration and wire types, and a
  printable error type, for programs that read configuration files or
  report errors.

Instants are milliseconds since the Unix epoch; scores (confidence,
importance, similarity) are integers in millionths.
