//! JSON-RPC 2.0 error codes.
use vstd::prelude::*;

verus! {

/// Invalid JSON was received.
pub const PARSE_ERROR: i32 = -32700;

/// The JSON sent is not a valid request object.
pub const INVALID_REQUEST: i32 = -32600;

/// The method does not exist or is not available.
pub const METHOD_NOT_FOUND: i32 = -32601;

/// Invalid method parameters.
pub const INVALID_PARAMS: i32 = -32602;

/// Authentication required or refused: an implementation-defined server
/// error, in the range JSON-RPC reserves for those.
pub const AUTHENTICATION_ERROR: i32 = -32001;

/// Internal JSON-RPC error.
pub const INTERNAL_ERROR: i32 = -32603;

} // verus!
