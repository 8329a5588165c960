//! Verified core of the TurboMCP WebAssembly bindings.
use vstd::prelude::*;

pub mod auth;
pub mod browser;
pub mod client_http;
pub mod event_stream;
pub mod jsonrpc;
pub mod server_args;
pub mod table;
pub mod testing;
pub mod text;
pub mod wasi;
pub mod wasm_server;

verus! {

/// Version of the TurboMCP WASM bindings.
pub const VERSION: &'static str = "3.5.0";

/// MCP protocol version supported.
pub const PROTOCOL_VERSION: &'static str = "2025-11-25";

} // verus!
