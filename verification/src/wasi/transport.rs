//! Transport errors and JSON-RPC envelopes of the WASI client.
use vstd::prelude::*;

use crate::text::{decimal, decimal_string, owned, push_str, signed_decimal, signed_decimal_string};

verus! {

/// Error of a transport operation.
#[derive(Debug)]
pub enum TransportError {
    /// I/O error during read or write.
    Io(String),
    /// JSON serialisation or deserialisation error.
    Json(String),
    /// HTTP error with status code and message.
    Http {
        /// HTTP status code.
        status: u16,
        /// Error message.
        message: String,
    },
    /// Connection error.
    Connection(String),
    /// Timeout.
    Timeout,
    /// Protocol error (an invalid JSON-RPC response).
    Protocol(String),
}

/// How a transport error reads.
pub open spec fn transport_message(e: TransportError) -> Seq<char> {
    match e {
        TransportError::Io(m) => "I/O error: "@ + m@,
        TransportError::Json(m) => "JSON error: "@ + m@,
        TransportError::Http { status, message } => "HTTP "@ + decimal(status as nat) + ": "@
            + message@,
        TransportError::Connection(m) => "Connection error: "@ + m@,
        TransportError::Timeout => "Operation timed out"@,
        TransportError::Protocol(m) => "Protocol error: "@ + m@,
    }
}

impl TransportError {
    /// The error as text.
    pub fn to_string(&self) -> (r: String)
        ensures
            r@ == transport_message(*self),
    {
        match self {
            TransportError::Io(m) => {
                let mut r = owned("I/O error: ");
                push_str(&mut r, m.as_str());
                r
            },
            TransportError::Json(m) => {
                let mut r = owned("JSON error: ");
                push_str(&mut r, m.as_str());
                r
            },
            TransportError::Http { status, message } => {
                let mut r = owned("HTTP ");
                let d = decimal_string(*status as u64);
                push_str(&mut r, d.as_str());
                push_str(&mut r, ": ");
                push_str(&mut r, message.as_str());
                r
            },
            TransportError::Connection(m) => {
                let mut r = owned("Connection error: ");
                push_str(&mut r, m.as_str());
                r
            },
            TransportError::Timeout => owned("Operation timed out"),
            TransportError::Protocol(m) => {
                let mut r = owned("Protocol error: ");
                push_str(&mut r, m.as_str());
                r
            },
        }
    }
}

/// A JSON-RPC 2.0 request.
#[derive(Debug)]
pub struct JsonRpcRequest<P> {
    /// Always `"2.0"`.
    pub jsonrpc: &'static str,
    /// Request id.
    pub id: u64,
    /// Method name.
    pub method: String,
    /// Parameters, left out of the message when absent.
    pub params: Option<P>,
}

impl<P> JsonRpcRequest<P> {
    /// A request `id` calling `method` with `params`.
    pub fn new(id: u64, method: &str, params: Option<P>) -> (r: Self)
        ensures
            r.jsonrpc@ == "2.0"@,
            r.id == id,
            r.method@ == method@,
            r.params == params,
    {
        JsonRpcRequest { jsonrpc: "2.0", id, method: owned(method), params }
    }
}

/// A JSON-RPC 2.0 notification (no id).
#[derive(Debug)]
pub struct JsonRpcNotification<P> {
    /// Always `"2.0"`.
    pub jsonrpc: &'static str,
    /// Method name.
    pub method: String,
    /// Parameters, left out of the message when absent.
    pub params: Option<P>,
}

impl<P> JsonRpcNotification<P> {
    /// A notification of `method` with `params`.
    pub fn new(method: &str, params: Option<P>) -> (r: Self)
        ensures
            r.jsonrpc@ == "2.0"@,
            r.method@ == method@,
            r.params == params,
    {
        JsonRpcNotification { jsonrpc: "2.0", method: owned(method), params }
    }
}

/// A JSON-RPC 2.0 error object.
#[derive(Debug)]
pub struct JsonRpcError {
    /// Error code.
    pub code: i32,
    /// Error message.
    pub message: String,
}

/// A JSON-RPC 2.0 response.
#[derive(Debug)]
pub struct JsonRpcResponse<R> {
    /// Protocol version.
    pub jsonrpc: String,
    /// Id of the request answered.
    pub id: Option<u64>,
    /// Result, on success.
    pub result: Option<R>,
    /// Error, on failure.
    pub error: Option<JsonRpcError>,
}

impl<R> JsonRpcResponse<R> {
    /// The result, or the error the response carries: an error object wins
    /// over a result, and a response with neither is a protocol error.
    pub fn into_result(self) -> (r: Result<R, TransportError>)
        ensures
            match self.error {
                Some(e) => r matches Err(TransportError::Protocol(m)) && m@ == "JSON-RPC error "@
                    + signed_decimal(e.code as int) + ": "@ + e.message@,
                None => match self.result {
                    Some(v) => r == Ok::<R, TransportError>(v),
                    None => r matches Err(TransportError::Protocol(m)) && m@
                        == "Missing result in response"@,
                },
            },
    {
        match self.error {
            Some(e) => {
                let mut m = owned("JSON-RPC error ");
                let c = signed_decimal_string(e.code as i64);
                push_str(&mut m, c.as_str());
                push_str(&mut m, ": ");
                push_str(&mut m, e.message.as_str());
                Err(TransportError::Protocol(m))
            },
            None => match self.result {
                Some(v) => Ok(v),
                None => Err(TransportError::Protocol(owned("Missing result in response"))),
            },
        }
    }
}

} // verus!
