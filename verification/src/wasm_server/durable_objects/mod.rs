//! Durable Object protocols: the requests each store sends, the instance
//! each goes to, and how a reply is read.
//!
//! Every command is a POST to `https://do-internal{path}` on the stub of
//! the instance named by a key; the reply's status and body decide what
//! the caller gets.
use vstd::prelude::*;

use crate::text::{chars_of, decimal, decimal_string, owned, push_str, string_of, trim, trim_chars};

pub mod rate_limiter;
pub mod session_store;
pub mod state_store;
pub mod token_store;

verus! {

/// The error `serde_json` reports.
#[verifier::external_type_specification]
#[verifier::external_body]
pub struct ExJsonError(serde_json::Error);

/// The URL a command to a Durable Object goes to.
pub open spec fn spec_do_url(path: Seq<char>) -> Seq<char> {
    "https://do-internal"@ + path
}

/// The URL of the command at `path`.
pub fn do_url(path: &str) -> (r: String)
    ensures
        r@ == spec_do_url(path@),
{
    let mut r = owned("https://do-internal");
    push_str(&mut r, path);
    r
}

/// How a store error reads: `None` for a missing environment, else a
/// label and the underlying message.
pub open spec fn store_error_message(e: Option<(&'static str, &str)>) -> Seq<char> {
    match e {
        None => "No environment set"@,
        Some((label, m)) => label@ + m@,
    }
}

/// The text of a store error; see [`store_error_message`].
pub fn store_error_text(e: Option<(&'static str, &str)>) -> (r: String)
    ensures
        r@ == store_error_message(e),
{
    match e {
        None => owned("No environment set"),
        Some((label, m)) => {
            let mut r = owned(label);
            push_str(&mut r, m);
            r
        },
    }
}

/// A command for a Durable Object: the instance it goes to, the route, and
/// the body.
#[derive(Debug)]
pub struct DoCall<B> {
    /// Name the instance is derived from.
    pub key: String,
    /// Route within the object.
    pub path: &'static str,
    /// Request body.
    pub body: B,
}

/// Why a Durable Object's reply could not be used.
#[derive(Debug)]
pub enum DoReplyError {
    /// The object answered with a non-2xx status.
    Status(String),
    /// The body was not the JSON the caller expected.
    Body(serde_json::Error),
}

/// The first `n` characters of `s`.
pub open spec fn take(s: Seq<char>, n: nat) -> Seq<char> {
    if s.len() <= n {
        s
    } else {
        s.subrange(0, n as int)
    }
}

/// How a failing status is reported: the status and the start of the body.
pub open spec fn status_message(status: u16, body: Seq<char>) -> Seq<char> {
    "Durable Object answered HTTP "@ + decimal(status as nat) + ": "@ + take(body, 200)
}

/// The JSON text a reply body stands for: an empty (or blank) body reads
/// as `null`.
pub open spec fn reply_json(body: Seq<char>) -> Seq<char> {
    if trim(body).len() == 0 {
        "null"@
    } else {
        body
    }
}

/// Read a Durable Object's reply: a non-2xx status fails whatever the body
/// says; otherwise the JSON text to decode.
pub fn reply_body(status: u16, body: &str) -> (r: Result<String, DoReplyError>)
    ensures
        !(200 <= status < 300) ==> (r matches Err(DoReplyError::Status(m)) && m@ == status_message(
            status,
            body@,
        )),
        200 <= status < 300 ==> (r matches Ok(t) && t@ == reply_json(body@)),
{
    let chars = chars_of(body);
    if !(200 <= status && status < 300) {
        let n = if chars.len() <= 200 {
            chars.len()
        } else {
            200
        };
        let head = string_of(&chars, 0, n);
        let mut m = owned("Durable Object answered HTTP ");
        let d = decimal_string(status as u64);
        push_str(&mut m, d.as_str());
        push_str(&mut m, ": ");
        push_str(&mut m, head.as_str());
        proof {
            assert(chars@.subrange(0, n as int) =~= take(body@, 200));
        }
        return Err(DoReplyError::Status(m));
    }
    let t = trim_chars(&chars);
    if t.len() == 0 {
        Ok(owned("null"))
    } else {
        Ok(owned(body))
    }
}

/// Whether `serde_json` reads `text` as one JSON value (well-formed, and
/// nested no deeper than its recursion limit allows).
pub uninterp spec fn json_valid(text: Seq<char>) -> bool;

/// Check that `text` is one JSON value, with `serde_json`.
///
/// Trusted: whether parsing into `serde::de::IgnoredAny` succeeds is a
/// function of the text alone (named `json_valid`); nothing is claimed of
/// the error.
#[verifier::external_body]
fn check_json(text: &str) -> (r: Result<(), serde_json::Error>)
    ensures
        r is Ok <==> json_valid(text@),
{
    serde_json::from_str::<serde::de::IgnoredAny>(text).map(|_| ())
}

/// The reply to a command whose body carries nothing: any JSON will do.
#[derive(Debug, Clone, Copy, Default)]
pub struct Ack;

/// Read the reply to a write: a 2xx status with any JSON body (an empty
/// one included) acknowledges it.
pub fn decode_ack(status: u16, body: &str) -> (r: Result<Ack, DoReplyError>)
    ensures
        !(200 <= status < 300) ==> (r matches Err(DoReplyError::Status(m)) && m@ == status_message(
            status,
            body@,
        )),
        200 <= status < 300 ==> (r is Ok <==> json_valid(reply_json(body@))),
        200 <= status < 300 && !json_valid(reply_json(body@)) ==> r matches Err(DoReplyError::Body(_)),
{
    let text = match reply_body(status, body) {
        Ok(t) => t,
        Err(e) => return Err(e),
    };
    match check_json(text.as_str()) {
        Ok(()) => Ok(Ack),
        Err(e) => Err(DoReplyError::Body(e)),
    }
}

} // verus!
