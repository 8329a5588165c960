//! JSON-RPC framing: what the top level of a message holds, and the error
//! message a server answers with when no request could be read.
use vstd::prelude::*;

use serde_json::Value;

use crate::text::{decimal, decimal_string, owned, push_str};

verus! {

/// The top level of a JSON text, as far as JSON-RPC framing looks at it.
#[derive(Debug, Clone)]
pub struct JsonShape {
    /// Whether it is an object; the members below are those of an object.
    pub is_object: bool,
    /// Whether it has a `method` member.
    pub has_method: bool,
    /// Its `method` member, when that is a string.
    pub method: Option<String>,
    /// Its `jsonrpc` member, when that is a string.
    pub jsonrpc: Option<String>,
    /// Whether it has an `id` member.
    pub has_id: bool,
    /// Its `id` member, when that is an integer that fits a `u64`.
    pub id: Option<u64>,
    /// Its `id` member, when that is an integer that fits an `i64`.
    pub id_signed: Option<i64>,
    /// Whether its `id` member is a string.
    pub id_is_text: bool,
    /// Whether it has a `result` member.
    pub has_result: bool,
    /// Whether it has an `error` member.
    pub has_error: bool,
}

/// The top level of a JSON text, as values.
pub struct JsonShapeView {
    /// Whether it is an object.
    pub is_object: bool,
    /// Whether it has a `method` member.
    pub has_method: bool,
    /// Its `method` member, when a string.
    pub method: Option<Seq<char>>,
    /// Its `jsonrpc` member, when a string.
    pub jsonrpc: Option<Seq<char>>,
    /// Whether it has an `id` member.
    pub has_id: bool,
    /// Its `id`, when an integer that fits a `u64`.
    pub id: Option<u64>,
    /// Its `id`, when an integer that fits an `i64`.
    pub id_signed: Option<i64>,
    /// Whether its `id` is a string.
    pub id_is_text: bool,
    /// Whether it has a `result` member.
    pub has_result: bool,
    /// Whether it has an `error` member.
    pub has_error: bool,
}

/// The view of an optional string.
pub open spec fn opt_chars(s: Option<String>) -> Option<Seq<char>> {
    match s {
        Some(v) => Some(v@),
        None => None,
    }
}

impl View for JsonShape {
    type V = JsonShapeView;

    open spec fn view(&self) -> JsonShapeView {
        JsonShapeView {
            is_object: self.is_object,
            has_method: self.has_method,
            method: opt_chars(self.method),
            jsonrpc: opt_chars(self.jsonrpc),
            has_id: self.has_id,
            id: self.id,
            id_signed: self.id_signed,
            id_is_text: self.id_is_text,
            has_result: self.has_result,
            has_error: self.has_error,
        }
    }
}

/// What reading the JSON text `text` gives: its shape, or the parser's
/// account of why it is not JSON.
pub uninterp spec fn json_reading(text: Seq<char>) -> Result<JsonShapeView, Seq<char>>;

/// The shape of the JSON text `text`, or `None` when it is not JSON.
pub open spec fn json_shape(text: Seq<char>) -> Option<JsonShapeView> {
    match json_reading(text) {
        Ok(s) => Some(s),
        Err(_) => None,
    }
}

/// Parse `text` with `serde_json::from_str` into a `serde_json::Value`
/// and look at its members with `Value::get` (which finds none in anything
/// but an object), `Value::as_str`, `Value::is_string`, `Value::as_u64` and
/// `Value::as_i64`; a
/// text that does not parse gives the error's `Display` text.
///
/// Trusted: the result is `json_reading(text)`, the same for the same text
/// (the parser and its error messages depend on the text alone).
#[verifier::external_body]
pub(crate) fn read_json_shape(text: &str) -> (r: Result<JsonShape, String>)
    ensures
        match r {
            Ok(shape) => json_reading(text@) == Ok::<JsonShapeView, Seq<char>>(shape@),
            Err(m) => json_reading(text@) == Err::<JsonShapeView, Seq<char>>(m@),
        },
{
    let v = match serde_json::from_str::<Value>(text) { Ok(v) => v, Err(e) => return Err(e.to_string()) };
    let (method, id) = (v.get("method"), v.get("id"));
    Ok(JsonShape {
        is_object: v.is_object(),
        has_method: method.is_some(),
        method: method.and_then(Value::as_str).map(String::from),
        jsonrpc: v.get("jsonrpc").and_then(Value::as_str).map(String::from),
        has_id: id.is_some(),
        id: id.and_then(Value::as_u64),
        id_signed: id.and_then(Value::as_i64),
        id_is_text: id.is_some_and(Value::is_string),
        has_result: v.get("result").is_some(),
        has_error: v.get("error").is_some(),
    })
}

/// `text` as a JSON string literal: quoted, with `"`, `\` and control
/// characters escaped.
pub uninterp spec fn json_string(text: Seq<char>) -> Seq<char>;

/// Serialise `text` with `serde_json::to_string`.
///
/// Trusted: what it gives is `json_string(text)`, the same for the same
/// text. serde_json cannot fail on a string (it writes the escaped text
/// into a `Vec`), so the empty text that would stand for a failure is
/// never given.
#[verifier::external_body]
fn quote_json(text: &str) -> (r: String)
    ensures
        r@ == json_string(text@),
{
    serde_json::to_string(text).unwrap_or_default()
}

/// An integer as JSON writes it.
pub open spec fn signed_decimal(n: int) -> Seq<char> {
    if n < 0 {
        "-"@ + decimal((-n) as nat)
    } else {
        decimal(n as nat)
    }
}

/// The error message with `id: null` (no id of the message it answers
/// could be trusted) for `code` and `message`.
pub open spec fn spec_error_message(code: int, message: Seq<char>) -> Seq<char> {
    "{\"jsonrpc\":\"2.0\",\"id\":null,\"error\":{\"code\":"@ + signed_decimal(code)
        + ",\"message\":"@ + json_string(message) + "}}"@
}

/// An `i32` as JSON writes it.
fn signed_string(n: i32) -> (r: String)
    ensures
        r@ == signed_decimal(n as int),
{
    if n < 0 {
        let m: i64 = n as i64;
        let magnitude: u64 = (0 - m) as u64;
        let mut r = owned("-");
        let d = decimal_string(magnitude);
        push_str(&mut r, d.as_str());
        proof {
            reveal_strlit("-");
        }
        r
    } else {
        let m: u64 = n as u64;
        decimal_string(m)
    }
}

/// The JSON-RPC error message with `id: null` that answers a message no
/// request could be read from.
pub fn error_message(code: i32, message: &str) -> (r: String)
    ensures
        r@ == spec_error_message(code as int, message@),
{
    let q = quote_json(message);
    let mut r = owned("{\"jsonrpc\":\"2.0\",\"id\":null,\"error\":{\"code\":");
    let c = signed_string(code);
    push_str(&mut r, c.as_str());
    push_str(&mut r, ",\"message\":");
    push_str(&mut r, q.as_str());
    push_str(&mut r, "}}");
    r
}

} // verus!
