# actual_mcp

Read-only access to a self-hosted Actual Budget, for MCP clients. The library
holds everything that decides or computes: configuration, the sync protocol,
applying edits to the local copy, the queries and the tools. Each function
states in its contract what it does, and Verus proves it.

- `src/actual` reads the server's answers: Protobuf messages, snapshots, the
  list of budgets.
- `src/store` keeps the local copy: a batch of edits and the clock move in one
  transaction, or not at all.
- `src/queries` asks the local copy: accounts, categories, transactions, the
  monthly budget, and what a loosely typed name means.
- `src/mcp` holds the tools and decides when to refresh.
- `app` is the program around it: HTTP, files, JSON and the MCP server.

SQLite (`rusqlite`), Protobuf fields (`prost`) and zip archives (`zip`) are
called through small wrappers whose contracts are believed; their comments say
what is claimed. What SQLite answers to a statement is not modelled: contracts
say which statement is put to it, with which values, what is made of the rows
that come back, and which refusal a failure passes on.
