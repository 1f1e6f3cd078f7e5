# essential_node

The verified core of an Essential node, written in Verus.

- `src/` is the library, verified by Verus; where a function's result
  depends on other holders of a shared queue or semaphore it has no contract
  on that result. It covers the keys of the state and registries (`key`, `registry`), the state
  of contracts and how a solution set's mutations change it (`merkle`), the
  reading of predicates and programs from the registries and the checking of
  solution sets (`validate`), the node's decisions on blocks, errors, state
  ranges and its database configuration (`node`), the relayer's checks on the
  blocks it syncs and the framing of the event stream it reads (`relayer`), the content addresses of blocks and solution sets
  (`node::address`), and a pool of database connections (`pool`).
- Calls into outside crates (hashing and encoding of the essential types,
  SQLite, the connection queue and semaphore) go through small trusted
  wrappers, each with a doc comment that says what its contract claims.
- `tests/` exercises the library on concrete values.
- `app/` is the ordinary Rust around it: opening database connections, async
  access to the pool, the relayer's HTTP event stream and database writes, and
  the big bang block check.

What is not here: the node's driver of validation (the loop that reads the
next block, runs `validate_inner` with a predicate checker over the database,
and records the outcome), the syncing of contracts, dry runs of blocks and
solution sets, the block and validation streams, and the node's `run`. The
library holds the decisions these make (`node::blocks::validation_step`,
`node::validate::validate_inner`, `validate::check_solution_set`, the error
handling of `node::error`). The state reads they need come through
`validate::QueryStateExcl`, whose implementations state what they read in
spec functions: so an implementation over the database belongs with the
verified code, and is not here either.
