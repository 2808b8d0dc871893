# memory_core

The decision logic of an agent memory service, verified with Verus: search-query
validation, hybrid (semantic + BM25 + recency) scoring and ranking with weight
re-normalization when a retrieval path is down, filter rules, the checks and shaping of the
MCP tool calls, JSON-schema normalization, and the configuration and request building of the
extraction/embedding model client.

Scores and weights are held in millionths (`i64`); a user-supplied fraction that is NaN or
infinite is `Fraction::NaN`, `Fraction::PosInf` or `Fraction::NegInf`, and thresholds compare
against these as floating-point numbers do.

## Layout

- `src/` — the verified library.
  - `query.rs` — search queries, hybrid weights and their validation.
  - `retrieval.rs` — filters, score fusion, ranking and the search plan; the laws of the ranking.
  - `server.rs` — the MCP tool inputs, their checks, `min_score` and compact results.
  - `schema.rs` — a JSON tree and the normalization of boolean sub-schemas.
  - `llm_client.rs` — client settings from the environment, mock answers, request building and
    the reading of answers.
  - `memory.rs`, `scheduler.rs`, `error.rs`, `fixed.rs`, `text.rs` — the types and helpers
    these rest on.
- `tests/` — tests of the library on concrete values.
- `app/` — the I/O around it: HTTP calls to the models, the search pipeline with its
  retrieval services, the decay timer, and the MCP server over stdio.
