# turbomcp_wasm

The logic of the TurboMCP WebAssembly bindings — MCP servers on edge
runtimes, and MCP clients in the browser and on WASI — written in Verus, with
each public function's behaviour stated in its contract and proved.

## Layout

- `src/` — the verified library.
  - `text.rs`, `table.rs` — strings as character sequences, and the keyed
    table the registries are built on.
  - `jsonrpc.rs`, `event_stream.rs`, `client_http.rs` — JSON-RPC framing,
    Server-Sent Events (reading and writing), and what the HTTP clients
    share.
  - `auth/` — JWK sets and their cache, and the OAuth 2.1 provider's types
    and crypto (PKCE, token hashing).
  - `wasm_server/` — the server side: the HTTP edge (origin guard, prechecks,
    CORS), the tool/resource/prompt registry, composition under prefixes,
    visibility by tag, the Streamable HTTP session store and its replay,
    per-session state, and the Durable Object protocols.
  - `wasi/`, `browser.rs`, `testing.rs` — the WASI and browser clients'
    request logic, and a client for testing servers in-process.
- `app/` — what runs around the library: clocks, and the serde forms of
  the library's types used on the wire.
- `tests/` — tests of the library through its public API.

Calls into `serde_json`, `sha2`, `base64` and `url` stand behind small
trusted wrappers, each documented with what its contract claims.
