//! What the WASI and browser clients share about speaking Streamable HTTP.
use vstd::prelude::*;

use crate::event_stream::{event_stream_data, stream_events};
use crate::jsonrpc::{json_reading, json_shape, read_json_shape, JsonShape};
use crate::text::{before, decimal, decimal_string, lower, owned, push_str, trim, views};
use crate::wasm_server::endpoint::{is_stable_version, media_type_is, stable_versions};

verus! {

/// `Accept` for every POST: a client must accept both forms of answer.
pub const ACCEPT: &'static str = "application/json, text/event-stream";

/// Header carrying the session id a server issued at `initialize`.
pub const SESSION_ID_HEADER: &'static str = "Mcp-Session-Id";

/// Header carrying the negotiated protocol version after `initialize`.
pub const PROTOCOL_VERSION_HEADER: &'static str = "MCP-Protocol-Version";

/// Whether a reply's `Content-Type` announces an SSE stream.
pub open spec fn event_stream_content_type(content_type: Option<Seq<char>>) -> bool {
    match content_type {
        Some(v) => lower(trim(before(v, ';'))) == "text/event-stream"@,
        None => false,
    }
}

/// Whether a reply's `Content-Type` announces an SSE stream (parameters
/// and case aside); otherwise its body is the JSON response itself.
pub fn is_event_stream(content_type: Option<&str>) -> (r: bool)
    ensures
        r == event_stream_content_type(opt_view(content_type)),
{
    match content_type {
        Some(v) => media_type_is(v, "text/event-stream"),
        None => false,
    }
}

/// Check the version a server answered `initialize` with: a client that
/// cannot speak it disconnects rather than carry on.
pub fn check_negotiated_version(version: &str) -> (r: Result<(), String>)
    ensures
        stable_versions().contains(version@) ==> r is Ok,
        !stable_versions().contains(version@) ==> (r matches Err(m) && m@
            == "Server negotiated unsupported protocol version '"@ + version@ + "'"@),
{
    if is_stable_version(version) {
        Ok(())
    } else {
        let mut m = owned("Server negotiated unsupported protocol version '");
        push_str(&mut m, version);
        push_str(&mut m, "'");
        Err(m)
    }
}

/// Whether the message `text` is the response to request `id`: JSON, with
/// no `method`, and with `id` equal to it.
pub open spec fn answers(text: Seq<char>, id: u64) -> bool {
    json_shape(text) matches Some(s) && !s.has_method && s.id == Some(id)
}

/// Why an SSE body gave no response to request `id`.
pub open spec fn no_response_message(id: u64) -> Seq<char> {
    "SSE stream ended without a response to request "@ + decimal(id as nat)
}

/// Find the JSON-RPC response to request `id` in a POST's reply body, as
/// JSON text. A JSON body is the response itself. An SSE body may carry
/// notifications and server requests ahead of the response: the first
/// event whose data answers `id` is taken.
pub fn response_message(content_type: Option<&str>, body: &str, id: u64) -> (r: Result<String, String>)
    ensures
        !event_stream_content_type(opt_view(content_type)) ==> match r {
            Ok(t) => t@ == body@ && json_shape(body@) is Some,
            Err(m) => json_reading(body@) matches Err(reason) && m@ == "Invalid JSON response: "@
                + reason,
        },
        event_stream_content_type(opt_view(content_type)) ==> match r {
            Ok(t) => exists|i: int|
                0 <= i < stream_events(body@).len() && stream_events(body@)[i] == t@ && answers(
                    t@,
                    id,
                ) && forall|j: int| 0 <= j < i ==> !answers(#[trigger] stream_events(body@)[j], id),
            Err(m) => m@ == no_response_message(id) && forall|i: int|
                0 <= i < stream_events(body@).len() ==> !answers(
                    #[trigger] stream_events(body@)[i],
                    id,
                ),
        },
{
    if !is_event_stream(content_type) {
        return match read_json_shape(body) {
            Ok(_) => Ok(owned(body)),
            Err(e) => {
                let mut m = owned("Invalid JSON response: ");
                push_str(&mut m, e.as_str());
                Err(m)
            },
        };
    }
    let events = event_stream_data(body);
    let ghost evs = stream_events(body@);
    let mut i: usize = 0;
    while i < events.len()
        invariant
            i <= events@.len(),
            views(events@) == evs,
            evs == stream_events(body@),
            event_stream_content_type(opt_view(content_type)),
            forall|j: int| 0 <= j < i ==> !answers(#[trigger] evs[j], id),
        decreases events.len() - i,
    {
        assert(evs[i as int] == events@[i as int]@);
        match read_json_shape(events[i].as_str()) {
            Ok(JsonShape { has_method: false, id: Some(n), .. }) => {
                if n == id {
                    let t = owned(events[i].as_str());
                    assert(answers(evs[i as int], id));
                    return Ok(t);
                }
            },
            _ => {},
        }
        i = i + 1;
    }
    let mut m = owned("SSE stream ended without a response to request ");
    let d = decimal_string(id);
    push_str(&mut m, d.as_str());
    Err(m)
}

/// The view of an optional string.
pub open spec fn opt_view(s: Option<&str>) -> Option<Seq<char>> {
    match s {
        Some(v) => Some(v@),
        None => None,
    }
}

} // verus!
