# sangha

A session coordination service for coding agents: sessions register and
heartbeat, claim advisory locks on resources, and broadcast messages to the
other sessions of their project. It is served over MCP (stdio or HTTP) and
keeps its state in a SQLite file.

## Layout

- `src/` — the library, verified with Verus:
  - `db.rs` — the store (sessions, locks, inbox, read marks) with its
    invariant, a mathematical model of every operation, and the operations
    proved against it;
  - `laws.rs` — properties across operations: mutual exclusion of locks,
    renewal, release undoing a claim, cascades on unregister, pruning,
    read marks, auto-extension;
  - `server.rs` — one client connection: identity binding and the tools;
  - `tools/` — argument validation and the tool handlers;
  - `identity.rs`, `config.rs`, `error.rs`, `ttl.rs`, `util.rs`, `cli.rs`,
    `text.rs`, `order.rs`, `clock.rs` — the rest of the logic and its
    supporting definitions.
- `app/` — the program: command line, environment, SQLite persistence, the
  MCP transport and JSON.
- `tests/` — tests of the library.
