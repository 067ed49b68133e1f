# mcp2cli-rs

A minimal, stateless command-line client for MCP (Model Context Protocol) servers and
OpenAPI services, whose core is proved correct with Verus.

- `src/` is the verified library: reading the command line (`cli`), the error kinds and
  exit codes (`error`), HTTP authentication and server-sent events (`http`), MCP endpoints
  and JSON-RPC replies (`mcp`), OpenAPI operations, schemas and call URLs (`openapi`), the
  printed manifests and responses (`output`), map-like pair lists (`pairs`) and text
  primitives (`text`). `outside` holds the calls into `serde_json`, `urlencoding` and `url`
  with the contracts that the proofs rely on.
- `app/` is the program around it: command-line parsing with clap, the network and process
  I/O with reqwest and tokio, and JSON (de)serialization with serde.
- `tests/` runs the library on concrete inputs.

Exit codes: 0 success, 1 CLI error, 2 network error, 3 protocol error, 4 execution error.
