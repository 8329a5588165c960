//! HTTP transport of the WASI MCP client (`wasi:http/outgoing-handler`):
//! the state a client keeps between POSTs and the decisions each one takes.
use vstd::prelude::*;

use crate::client_http::{ACCEPT, PROTOCOL_VERSION_HEADER, SESSION_ID_HEADER};
use crate::text::{chars_of, decimal, decimal_string, lower, lower_chars, owned, push_str, string_of};
use crate::wasi::transport::TransportError;
use crate::wasm_server::headers::{pair_views, push_pair, HeaderMap};
use crate::wasm_server::origin::{describe_url_error, parse_url, parsed_url, UrlView};

verus! {

/// HTTP transport for WASI environments.
#[derive(Debug)]
pub struct HttpTransport {
    base_url: String,
    headers: HeaderMap,
    timeout_ms: u64,
    next_id: u64,
    is_open: bool,
    session_id: Option<String>,
    protocol_version: Option<String>,
}

/// The state of a transport, as values.
pub struct HttpTransportView {
    /// Base URL of the MCP server.
    pub base_url: Seq<char>,
    /// Custom headers sent on every request, in the order first set.
    pub headers: Seq<(Seq<char>, Seq<char>)>,
    /// Request timeout in milliseconds (0: none).
    pub timeout_ms: u64,
    /// Id the next request gets.
    pub next_id: u64,
    /// Whether the transport is open.
    pub is_open: bool,
    /// Session id the server issued at `initialize`.
    pub session_id: Option<Seq<char>>,
    /// Protocol version negotiated at `initialize`.
    pub protocol_version: Option<Seq<char>>,
}

/// The view of an optional string.
pub open spec fn opt_view(s: Option<String>) -> Option<Seq<char>> {
    match s {
        Some(v) => Some(v@),
        None => None,
    }
}

fn clone_opt(s: &Option<String>) -> (r: Option<String>)
    ensures
        opt_view(r) == opt_view(*s),
{
    match s {
        Some(v) => Some(owned(v.as_str())),
        None => None,
    }
}

impl View for HttpTransport {
    type V = HttpTransportView;

    closed spec fn view(&self) -> HttpTransportView {
        HttpTransportView {
            base_url: self.base_url@,
            headers: pair_views(self.headers@),
            timeout_ms: self.timeout_ms,
            next_id: self.next_id,
            is_open: self.is_open,
            session_id: opt_view(self.session_id),
            protocol_version: opt_view(self.protocol_version),
        }
    }
}

/// Every header a POST carries: the caller's, then `Accept`, then the
/// session id and negotiated version once there are any.
pub open spec fn spec_outgoing_headers(t: HttpTransportView) -> Seq<(Seq<char>, Seq<char>)> {
    let session: Seq<(Seq<char>, Seq<char>)> = match t.session_id {
        Some(s) => seq![(SESSION_ID_HEADER@, s)],
        None => Seq::empty(),
    };
    let version: Seq<(Seq<char>, Seq<char>)> = match t.protocol_version {
        Some(v) => seq![(PROTOCOL_VERSION_HEADER@, v)],
        None => Seq::empty(),
    };
    t.headers + seq![("Accept"@, ACCEPT@)] + session + version
}

/// The first value of `name` among `pairs`.
pub open spec fn pair_lookup(pairs: Seq<(Seq<char>, Seq<char>)>, name: Seq<char>) -> Option<
    Seq<char>,
>
    decreases pairs.len(),
{
    if pairs.len() == 0 {
        None
    } else if pairs[0].0 == name {
        Some(pairs[0].1)
    } else {
        pair_lookup(pairs.drop_first(), name)
    }
}

proof fn lemma_lookup_views(entries: Seq<(String, String)>, name: Seq<char>)
    ensures
        pair_lookup(pair_views(entries), name) == crate::wasm_server::headers::lookup(
            entries,
            name,
        ),
    decreases entries.len(),
{
    if entries.len() > 0 {
        lemma_lookup_views(entries.drop_first(), name);
        assert(pair_views(entries).drop_first() =~= pair_views(entries.drop_first()));
    }
}

/// The URL scheme of a request.
#[derive(Debug, Clone, Copy, PartialEq, Eq)]
pub enum HttpScheme {
    /// `http`
    Http,
    /// `https`
    Https,
}

/// Where a POST goes: what the outgoing request is given of the base URL.
#[derive(Debug)]
pub struct RequestTarget {
    /// Scheme, when it is HTTP(S); the runtime's default otherwise.
    pub scheme: Option<HttpScheme>,
    /// `host[:port]`, the port only when the URL names one.
    pub authority: Option<String>,
    /// Path, then `?` and the query when there is one.
    pub path_with_query: String,
}

/// The target of a POST to a parsed base URL.
pub open spec fn spec_target(u: UrlView) -> (Option<HttpScheme>, Option<Seq<char>>, Seq<char>) {
    let scheme = if u.scheme == "https"@ {
        Some(HttpScheme::Https)
    } else if u.scheme == "http"@ {
        Some(HttpScheme::Http)
    } else {
        None
    };
    let authority = match u.host_str {
        Some(h) => Some(
            match u.port {
                Some(p) => h + ":"@ + decimal(p as nat),
                None => h,
            },
        ),
        None => None,
    };
    let path = match u.query {
        Some(q) => u.path + "?"@ + q,
        None => u.path,
    };
    (scheme, authority, path)
}

/// A reply status outside `200..300` fails the request.
pub fn check_status(status: u16) -> (r: Result<(), TransportError>)
    ensures
        200 <= status < 300 ==> r is Ok,
        !(200 <= status < 300) ==> (r matches Err(TransportError::Http { status: s, message })
            && s == status && message@ == "HTTP request failed with status "@ + decimal(
            status as nat,
        )),
{
    if 200 <= status && status < 300 {
        Ok(())
    } else {
        let mut message = owned("HTTP request failed with status ");
        let d = decimal_string(status as u64);
        push_str(&mut message, d.as_str());
        Err(TransportError::Http { status, message })
    }
}

/// Header pairs with their names ASCII lower-cased.
pub open spec fn lower_names(h: Seq<(Seq<char>, Seq<char>)>) -> Seq<(Seq<char>, Seq<char>)> {
    h.map_values(|p: (Seq<char>, Seq<char>)| (lower(p.0), p.1))
}

impl HttpTransport {
    /// A transport to `base_url`: JSON content, a 30 s timeout, ids from 1,
    /// open, with no session yet.
    pub fn new(base_url: &str) -> (r: Self)
        ensures
            r@.base_url == base_url@,
            r@.headers == seq![("Content-Type"@, "application/json"@)],
            r@.timeout_ms == 30000,
            r@.next_id == 1,
            r@.is_open,
            r@.session_id is None,
            r@.protocol_version is None,
    {
        let mut headers = HeaderMap::new();
        headers.insert("Content-Type", "application/json");
        let r = HttpTransport {
            base_url: owned(base_url),
            headers,
            timeout_ms: 30000,
            next_id: 1,
            is_open: true,
            session_id: None,
            protocol_version: None,
        };
        assert(pair_views(r.headers@) =~= seq![("Content-Type"@, "application/json"@)]);
        r
    }

    /// Base URL of the MCP server.
    pub fn base_url(&self) -> (r: &str)
        ensures
            r@ == self@.base_url,
    {
        self.base_url.as_str()
    }

    /// Request timeout in milliseconds.
    pub fn timeout_ms(&self) -> (r: u64)
        ensures
            r == self@.timeout_ms,
    {
        self.timeout_ms
    }

    /// The custom header `name`, if set.
    pub fn header(&self, name: &str) -> (r: Option<&String>)
        ensures
            match r {
                Some(v) => pair_lookup(self@.headers, name@) == Some(v@),
                None => pair_lookup(self@.headers, name@) is None,
            },
    {
        proof {
            lemma_lookup_views(self.headers@, name@);
        }
        self.headers.get(name)
    }

    /// Record the protocol version negotiated at `initialize`, sent as
    /// `MCP-Protocol-Version` from then on.
    pub fn set_protocol_version(&mut self, version: &str)
        ensures
            final(self)@ == (HttpTransportView {
                protocol_version: Some(version@),
                ..old(self)@
            }),
    {
        self.protocol_version = Some(owned(version));
    }

    /// The session id the server issued, if any.
    pub fn session_id(&self) -> (r: Option<String>)
        ensures
            opt_view(r) == self@.session_id,
    {
        clone_opt(&self.session_id)
    }

    /// Keep the session id a reply issued (its `Mcp-Session-Id`); a reply
    /// without one leaves the session as it was.
    pub fn record_session_id(&mut self, issued: Option<&str>)
        ensures
            final(self)@ == (HttpTransportView {
                session_id: match issued {
                    Some(s) => Some(s@),
                    None => old(self)@.session_id,
                },
                ..old(self)@
            }),
    {
        match issued {
            Some(s) => {
                self.session_id = Some(owned(s));
            },
            None => {},
        }
    }

    /// Every header a POST carries; see [`spec_outgoing_headers`].
    pub fn outgoing_headers(&self) -> (r: Vec<(String, String)>)
        ensures
            pair_views(r@) == spec_outgoing_headers(self@),
    {
        let mut r = self.headers.pairs();
        push_pair(&mut r, "Accept", ACCEPT);
        match &self.session_id {
            Some(s) => push_pair(&mut r, SESSION_ID_HEADER, s.as_str()),
            None => {},
        }
        match &self.protocol_version {
            Some(v) => push_pair(&mut r, PROTOCOL_VERSION_HEADER, v.as_str()),
            None => {},
        }
        assert(pair_views(r@) =~= spec_outgoing_headers(self@));
        r
    }

    /// The headers as the WASI request's fields take them: those of
    /// [`Self::outgoing_headers`], in order, each name lower-cased. Field
    /// names are ASCII tokens, so ASCII lower-casing is the whole of it.
    pub fn field_entries(&self) -> (r: Vec<(String, String)>)
        ensures
            pair_views(r@) == lower_names(spec_outgoing_headers(self@)),
    {
        let h = self.outgoing_headers();
        let mut r: Vec<(String, String)> = Vec::new();
        let mut i: usize = 0;
        while i < h.len()
            invariant
                i <= h@.len(),
                pair_views(r@) == lower_names(pair_views(h@).subrange(0, i as int)),
            decreases h.len() - i,
        {
            let name = lower_chars(&chars_of(h[i].0.as_str()));
            let n = string_of(&name, 0, name.len());
            let v = owned(h[i].1.as_str());
            proof {
                assert(name@.subrange(0, name@.len() as int) =~= name@);
            }
            let ghost before = r@;
            r.push((n, v));
            proof {
                assert(pair_views(h@).subrange(0, i + 1) =~= pair_views(h@).subrange(0, i as int).push(
                    pair_views(h@)[i as int],
                ));
                assert(pair_views(r@) =~= pair_views(before).push((n@, v@)));
                assert(lower_names(pair_views(h@).subrange(0, i + 1)) =~= lower_names(
                    pair_views(h@).subrange(0, i as int),
                ).push((n@, v@)));
            }
            i = i + 1;
        }
        assert(pair_views(h@).subrange(0, h@.len() as int) =~= pair_views(h@));
        r
    }

    /// Add a custom header to all requests, replacing one of the same name.
    pub fn with_header(self, key: &str, value: &str) -> (r: Self)
        ensures
            pair_lookup(r@.headers, key@) == Some(value@),
            forall|other: Seq<char>|
                other != key@ ==> #[trigger] pair_lookup(r@.headers, other) == pair_lookup(
                    self@.headers,
                    other,
                ),
            r@.base_url == self@.base_url,
            r@.timeout_ms == self@.timeout_ms,
            r@.next_id == self@.next_id,
            r@.is_open == self@.is_open,
            r@.session_id == self@.session_id,
            r@.protocol_version == self@.protocol_version,
    {
        let mut s = self;
        s.headers.insert(key, value);
        proof {
            lemma_lookup_views(s.headers@, key@);
            assert forall|other: Seq<char>| other != key@ implies #[trigger] pair_lookup(
                s@.headers,
                other,
            ) == pair_lookup(self@.headers, other) by {
                lemma_lookup_views(s.headers@, other);
                lemma_lookup_views(self.headers@, other);
                assert(s.headers.spec_get(other) == self.headers.spec_get(other));
            }
        }
        s
    }

    /// Set the request timeout in milliseconds.
    pub fn with_timeout_ms(self, timeout_ms: u64) -> (r: Self)
        ensures
            r@ == (HttpTransportView { timeout_ms, ..self@ }),
    {
        let mut s = self;
        s.timeout_ms = timeout_ms;
        s
    }

    /// The next request id: ids count up from 1, wrapping as the counter
    /// does.
    pub fn next_request_id(&mut self) -> (r: u64)
        ensures
            r == old(self)@.next_id,
            final(self)@ == (HttpTransportView {
                next_id: (if old(self)@.next_id == u64::MAX {
                    0
                } else {
                    (old(self)@.next_id + 1) as u64
                }),
                ..old(self)@
            }),
    {
        let id = self.next_id;
        self.next_id = if id == u64::MAX {
            0
        } else {
            id + 1
        };
        id
    }

    /// Whether the transport is open.
    pub fn is_ready(&self) -> (r: bool)
        ensures
            r == self@.is_open,
    {
        self.is_open
    }

    /// Close the transport; later requests fail.
    pub fn close(&mut self) -> (r: Result<(), TransportError>)
        ensures
            r is Ok,
            final(self)@ == (HttpTransportView { is_open: false, ..old(self)@ }),
    {
        self.is_open = false;
        Ok(())
    }

    /// Fail with `Connection("Transport is closed")` once closed.
    pub fn ensure_open(&self) -> (r: Result<(), TransportError>)
        ensures
            self@.is_open ==> r is Ok,
            !self@.is_open ==> (r matches Err(TransportError::Connection(m)) && m@
                == "Transport is closed"@),
    {
        if self.is_open {
            Ok(())
        } else {
            Err(TransportError::Connection(owned("Transport is closed")))
        }
    }

    /// Begin a request: refused once closed, otherwise it takes the next id.
    pub fn start_request(&mut self) -> (r: Result<u64, TransportError>)
        ensures
            if old(self)@.is_open {
                &&& r matches Ok(id) && id == old(self)@.next_id
                &&& final(self)@ == (HttpTransportView {
                    next_id: (if old(self)@.next_id == u64::MAX {
                        0
                    } else {
                        (old(self)@.next_id + 1) as u64
                    }),
                    ..old(self)@
                })
            } else {
                &&& r matches Err(TransportError::Connection(m)) && m@ == "Transport is closed"@
                &&& final(self)@ == old(self)@
            },
    {
        match self.ensure_open() {
            Err(e) => Err(e),
            Ok(()) => Ok(self.next_request_id()),
        }
    }

    /// Where a POST goes; a base URL that does not parse is a connection
    /// error.
    pub fn request_target(&self) -> (r: Result<RequestTarget, TransportError>)
        ensures
            match parsed_url(self@.base_url) {
                Some(u) => r matches Ok(t) && (t.scheme, opt_view(t.authority), t.path_with_query@)
                    == spec_target(u),
                None => r matches Err(TransportError::Connection(m)) && m@.len() >= 13
                    && m@.subrange(0, 13) == "Invalid URL: "@,
            },
    {
        let u = match parse_url(self.base_url.as_str()) {
            Ok(u) => u,
            Err(e) => {
                let mut m = owned("Invalid URL: ");
                let d = describe_url_error(&e);
                push_str(&mut m, d.as_str());
                proof {
                    reveal_strlit("Invalid URL: ");
                    assert(m@.subrange(0, 13) =~= "Invalid URL: "@);
                }
                return Err(TransportError::Connection(m));
            },
        };
        let scheme = if crate::text::str_eq(u.scheme.as_str(), "https") {
            Some(HttpScheme::Https)
        } else if crate::text::str_eq(u.scheme.as_str(), "http") {
            Some(HttpScheme::Http)
        } else {
            None
        };
        let authority = match &u.host_str {
            Some(h) => {
                let mut a = owned(h.as_str());
                match u.port {
                    Some(p) => {
                        push_str(&mut a, ":");
                        let d = decimal_string(p as u64);
                        push_str(&mut a, d.as_str());
                    },
                    None => {},
                }
                Some(a)
            },
            None => None,
        };
        let mut path_with_query = owned(u.path.as_str());
        match &u.query {
            Some(q) => {
                push_str(&mut path_with_query, "?");
                push_str(&mut path_with_query, q.as_str());
            },
            None => {},
        }
        Ok(RequestTarget { scheme, authority, path_with_query })
    }
}

} // verus!
