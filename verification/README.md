# memory_mcp

The decision core of a memory and code-intelligence server, written in Verus:
every function in `src/` carries a contract that Verus proves.

- `src/types.rs` — index status and its lifecycle states (structural, semantic, projection).
- `src/contracts.rs`, `src/surfaces.rs` — export contracts and response summaries.
- `src/projection.rs` — project projections and graph exports.
- `src/learning.rs` — learning records: kinds, statuses, the promotion ladder,
  updates, supersession, soft removal, legacy migration and search filters.
- `src/bootstrap.rs` — bootstrap selection under a token budget, audits and observation tallies.
- `src/indexing.rs` — indexing jobs: admission, resumption, cancellation, progress and diagnostics.
- `src/code.rs` — project resolution for code tools, serving generations, freshness, symbol search and graph routing.
- `src/search.rs`, `src/tokens.rs` — code search: identifier tokens, symbol probes, hit merging and ranking evidence.
- `src/graph.rs` — nodes and edges of the graphs that ranking and community detection walk.
- `src/order.rs`, `src/text.rs`, `src/handler.rs` — stable ordering, text helpers and request parameters.

`app/` holds what stays outside verification: floating-point scores and
percentages computed from the library's evidence, and JSON rendering.
