# axiom_core

A typed relational-algebra AST whose constructors are verified with Verus.

Every value of the library is built through a checked constructor: identifiers,
schemas, rows, bounded collections, expressions, predicates, paths and operator
nodes. Each constructor states, over the mathematical views of its inputs,
exactly which inputs it admits, which error it returns otherwise, and what it
builds. Operator nodes compute their output schema once, and each operator's
contract gives that schema (or the error) as a function of the input headers.

## Layout

- `src/` — the verified library.
  - `identifier.rs`, `limit.rs`, `limits.rs`, `refine.rs`: refined scalars and
    the bounded, duplicate-free collection rules they share.
  - `schema.rs`, `ty.rs`, `row.rs`, `source.rs`: types, headers, values, rows and
    relation sources; a memory source carries rows proved to match its schema.
  - `expression.rs`, `infer.rs`, `canonical.rs`, `constraint.rs`: expressions,
    type inference, value/row type checks, canonical predicates and constraints.
  - `op_enums.rs`, `order.rs`, `join.rs`, `path.rs`, `op.rs`: operator parts and
    the schema-aware operator constructors.
  - `laws.rs`: properties that relate several constructors or state when a
    constructor succeeds: joins, projection (valid and idempotent), nest then
    unnest, unnest splicing, summarisation, rename round trips, and the least
    duplicate position a schema reports.
- `tests/` — executable tests of the library.
- `app/` — `thiserror` companions of the library's error enums, with
  conversions in both directions.
