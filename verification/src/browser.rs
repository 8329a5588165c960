//! The browser client's Fetch transport: the state it keeps between POSTs
//! and the headers each one carries. It speaks Streamable HTTP: it accepts
//! JSON or SSE answers, keeps the `Mcp-Session-Id` the server issues at
//! `initialize`, and sends it, with the negotiated `MCP-Protocol-Version`,
//! on every later request.
use vstd::prelude::*;

use crate::client_http::{ACCEPT, PROTOCOL_VERSION_HEADER, SESSION_ID_HEADER};
use crate::text::{decimal, decimal_string, owned, push_str};
use crate::wasm_server::headers::{pair_views, push_pair};

verus! {

/// HTTP transport over the Fetch API.
#[derive(Debug, Clone)]
pub struct FetchTransport {
    base_url: String,
    headers: Vec<(String, String)>,
    timeout_ms: u32,
    session_id: Option<String>,
    protocol_version: Option<String>,
}

/// The state of a Fetch transport, as values.
pub struct FetchTransportView {
    /// Endpoint URL.
    pub base_url: Seq<char>,
    /// Headers the caller added, in order.
    pub headers: Seq<(Seq<char>, Seq<char>)>,
    /// Request timeout in milliseconds.
    pub timeout_ms: u32,
    /// Session id the server issued at `initialize`.
    pub session_id: Option<Seq<char>>,
    /// Protocol version negotiated at `initialize`.
    pub protocol_version: Option<Seq<char>>,
}

/// The view of an optional string.
pub open spec fn opt_view(s: Option<String>) -> Option<Seq<char>> {
    match s {
        Some(v) => Some(v@),
        None => None,
    }
}

impl View for FetchTransport {
    type V = FetchTransportView;

    closed spec fn view(&self) -> FetchTransportView {
        FetchTransportView {
            base_url: self.base_url@,
            headers: pair_views(self.headers@),
            timeout_ms: self.timeout_ms,
            session_id: opt_view(self.session_id),
            protocol_version: opt_view(self.protocol_version),
        }
    }
}

/// Every header a POST carries: the protocol's own (JSON content, the
/// `Accept` Streamable HTTP asks for, then the session id and negotiated
/// version once there are any), then the caller's.
pub open spec fn spec_request_headers(t: FetchTransportView) -> Seq<(Seq<char>, Seq<char>)> {
    let session: Seq<(Seq<char>, Seq<char>)> = match t.session_id {
        Some(s) => seq![(SESSION_ID_HEADER@, s)],
        None => Seq::empty(),
    };
    let version: Seq<(Seq<char>, Seq<char>)> = match t.protocol_version {
        Some(v) => seq![(PROTOCOL_VERSION_HEADER@, v)],
        None => Seq::empty(),
    };
    seq![("Content-Type"@, "application/json"@), ("Accept"@, ACCEPT@)] + session + version
        + t.headers
}

impl FetchTransport {
    /// A transport to `base_url`, with a 30 s timeout and no session yet.
    pub fn new(base_url: &str) -> (r: Self)
        ensures
            r@ == (FetchTransportView {
                base_url: base_url@,
                headers: Seq::empty(),
                timeout_ms: 30000,
                session_id: None,
                protocol_version: None,
            }),
    {
        let r = FetchTransport {
            base_url: owned(base_url),
            headers: Vec::new(),
            timeout_ms: 30000,
            session_id: None,
            protocol_version: None,
        };
        assert(pair_views(r.headers@) =~= Seq::empty());
        r
    }

    /// Endpoint URL.
    pub fn base_url(&self) -> (r: &str)
        ensures
            r@ == self@.base_url,
    {
        self.base_url.as_str()
    }

    /// Request timeout in milliseconds.
    pub fn timeout_ms(&self) -> (r: u32)
        ensures
            r == self@.timeout_ms,
    {
        self.timeout_ms
    }

    /// The headers the caller added, in order.
    pub fn custom_headers(&self) -> (r: &[(String, String)])
        ensures
            pair_views(r@) == self@.headers,
    {
        self.headers.as_slice()
    }

    /// Record the protocol version negotiated at `initialize`, sent as
    /// `MCP-Protocol-Version` from then on.
    pub fn set_protocol_version(&mut self, version: &str)
        ensures
            final(self)@ == (FetchTransportView { protocol_version: Some(version@), ..old(self)@ }),
    {
        self.protocol_version = Some(owned(version));
    }

    /// The session id the server issued, if any.
    pub fn session_id(&self) -> (r: Option<String>)
        ensures
            opt_view(r) == self@.session_id,
    {
        match &self.session_id {
            Some(s) => Some(owned(s.as_str())),
            None => None,
        }
    }

    /// Keep the session id a reply issued (its `Mcp-Session-Id`); a reply
    /// without one leaves the session as it was.
    pub fn record_session_id(&mut self, issued: Option<&str>)
        ensures
            final(self)@ == (FetchTransportView {
                session_id: match issued {
                    Some(s) => Some(s@),
                    None => old(self)@.session_id,
                },
                ..old(self)@
            }),
    {
        match issued {
            Some(s) => {
                self.session_id = Some(owned(s));
            },
            None => {},
        }
    }

    /// Every header a POST carries; see [`spec_request_headers`].
    pub fn request_headers(&self) -> (r: Vec<(String, String)>)
        ensures
            pair_views(r@) == spec_request_headers(self@),
    {
        let mut r: Vec<(String, String)> = Vec::new();
        push_pair(&mut r, "Content-Type", "application/json");
        push_pair(&mut r, "Accept", ACCEPT);
        match &self.session_id {
            Some(s) => push_pair(&mut r, SESSION_ID_HEADER, s.as_str()),
            None => {},
        }
        match &self.protocol_version {
            Some(v) => push_pair(&mut r, PROTOCOL_VERSION_HEADER, v.as_str()),
            None => {},
        }
        let ghost base = pair_views(r@);
        let mut i: usize = 0;
        while i < self.headers.len()
            invariant
                i <= self.headers@.len(),
                pair_views(r@) == base + pair_views(self.headers@).subrange(0, i as int),
            decreases self.headers.len() - i,
        {
            let (k, v) = &self.headers[i];
            push_pair(&mut r, k.as_str(), v.as_str());
            i = i + 1;
            assert(pair_views(self.headers@).subrange(0, i as int) =~= pair_views(
                self.headers@,
            ).subrange(0, i - 1 as int).push((k@, v@)));
        }
        assert(pair_views(self.headers@).subrange(0, i as int) =~= pair_views(self.headers@));
        assert(pair_views(r@) =~= spec_request_headers(self@));
        r
    }

    /// Add a header to all requests.
    pub fn with_header(self, key: &str, value: &str) -> (r: Self)
        ensures
            r@ == (FetchTransportView { headers: self@.headers.push((key@, value@)), ..self@ }),
    {
        let mut s = self;
        push_pair(&mut s.headers, key, value);
        s
    }

    /// Set the request timeout in milliseconds.
    pub fn with_timeout(self, timeout_ms: u32) -> (r: Self)
        ensures
            r@ == (FetchTransportView { timeout_ms, ..self@ }),
    {
        let mut s = self;
        s.timeout_ms = timeout_ms;
        s
    }
}

/// Why a fetched reply fails the request: its status is outside
/// `200..300` (the Fetch API's `ok`).
pub open spec fn status_failure(status: u16, status_text: Seq<char>) -> Option<Seq<char>> {
    if 200 <= status < 300 {
        None
    } else {
        Some("HTTP error: "@ + decimal(status as nat) + " "@ + status_text)
    }
}

/// Check a fetched reply's status: one outside `200..300` fails the
/// request with its status and status text.
pub fn check_response_status(status: u16, status_text: &str) -> (r: Result<(), String>)
    ensures
        match status_failure(status, status_text@) {
            None => r is Ok,
            Some(m) => r matches Err(e) && e@ == m,
        },
{
    if 200 <= status && status < 300 {
        Ok(())
    } else {
        let mut m = owned("HTTP error: ");
        let d = decimal_string(status as u64);
        push_str(&mut m, d.as_str());
        push_str(&mut m, " ");
        push_str(&mut m, status_text);
        Err(m)
    }
}

} // verus!
