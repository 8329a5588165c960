//! The MCP server for WASM environments: its HTTP edge, session state,
//! visibility rules, composition and Durable Object protocols.
pub mod auth_middleware;
pub mod composite;
pub mod context;
pub mod durable_objects;
pub mod endpoint;
pub mod error_codes;
pub mod handler;
pub mod headers;
pub mod origin;
pub mod rich_context;
pub mod server;
pub mod streamable;
pub mod tag_table;
pub mod visibility;
