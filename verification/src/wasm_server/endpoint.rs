//! The HTTP edge shared by every WASM entry point: the endpoint's policy,
//! the replies it gives before a body is dispatched, and the CORS headers
//! every reply carries.
use vstd::prelude::*;

use crate::text::{
    before, before_chars, chars_eq, chars_of, lower, lower_chars, owned, parse_unsigned,
    parse_usize, push_str, str_eq, trim, trim_chars, views,
};
use crate::jsonrpc::{error_message, json_reading, read_json_shape, spec_error_message, JsonShapeView};
use crate::wasi::http::opt_view;
use crate::wasm_server::error_codes::{INVALID_REQUEST, PARSE_ERROR};
use crate::wasm_server::headers::{pair_views, push_pair, HeaderMap};
use crate::wasm_server::origin::{check_origin, spec_check_origin};

verus! {

/// Header carrying the negotiated protocol version on every post-initialize
/// request (MCP 2025-06-18 and later).
pub const PROTOCOL_VERSION_HEADER: &'static str = "mcp-protocol-version";

/// Default request body limit (1 MiB).
pub const DEFAULT_MAX_BODY_SIZE: usize = 1048576;

/// Request headers the CORS layer lets a browser send.
pub const CORS_ALLOW_HEADERS: &'static str = "Content-Type, Accept, Authorization, X-Request-ID, Mcp-Session-Id, MCP-Protocol-Version, Last-Event-ID";

/// Response headers a browser script may read.
pub const CORS_EXPOSE_HEADERS: &'static str = "Mcp-Session-Id, WWW-Authenticate";

/// HTTP-level policy for the plain (stateless) JSON-RPC endpoint.
///
/// An `Origin` header, when a browser sends one, must name a loopback host or
/// an origin on the allowlist; requests without one are unaffected.
#[derive(Debug, Clone)]
pub struct EndpointConfig {
    /// Origins allowed in addition to loopback ones.
    pub allowed_origins: Vec<String>,
    /// Whether loopback origins are allowed. Default: `true`.
    pub allow_localhost_origins: bool,
    /// Disable origin validation entirely. Default: `false`.
    pub allow_any_origin: bool,
    /// Maximum request body in bytes. Default: 1 MiB.
    pub max_body_size: usize,
}

impl Default for EndpointConfig {
    fn default() -> (r: Self)
        ensures
            r.allowed_origins@.len() == 0,
            r.allow_localhost_origins,
            !r.allow_any_origin,
            r.max_body_size == DEFAULT_MAX_BODY_SIZE,
    {
        EndpointConfig {
            allowed_origins: Vec::new(),
            allow_localhost_origins: true,
            allow_any_origin: false,
            max_body_size: DEFAULT_MAX_BODY_SIZE,
        }
    }
}

impl EndpointConfig {
    /// Allow a browser origin, e.g. `https://app.example.com`.
    pub fn allow_origin(self, origin: &str) -> (r: Self)
        ensures
            views(r.allowed_origins@) == views(self.allowed_origins@).push(origin@),
            r.allow_localhost_origins == self.allow_localhost_origins,
            r.allow_any_origin == self.allow_any_origin,
            r.max_body_size == self.max_body_size,
    {
        let mut s = self;
        s.allowed_origins.push(owned(origin));
        proof {
            assert(views(s.allowed_origins@) =~= views(self.allowed_origins@).push(origin@));
        }
        s
    }

    /// Allow several browser origins, in order.
    pub fn allow_origins(self, origins: &[String]) -> (r: Self)
        ensures
            views(r.allowed_origins@) == views(self.allowed_origins@) + views(origins@),
            r.allow_localhost_origins == self.allow_localhost_origins,
            r.allow_any_origin == self.allow_any_origin,
            r.max_body_size == self.max_body_size,
    {
        let mut s = self;
        let mut i: usize = 0;
        while i < origins.len()
            invariant
                i <= origins@.len(),
                views(s.allowed_origins@) == views(self.allowed_origins@) + views(
                    origins@.subrange(0, i as int),
                ),
                s.allow_localhost_origins == self.allow_localhost_origins,
                s.allow_any_origin == self.allow_any_origin,
                s.max_body_size == self.max_body_size,
            decreases origins.len() - i,
        {
            let ghost before = s.allowed_origins@;
            s.allowed_origins.push(owned(origins[i].as_str()));
            proof {
                assert(views(s.allowed_origins@) =~= views(before).push(origins@[i as int]@));
                assert(views(origins@.subrange(0, i + 1)) =~= views(
                    origins@.subrange(0, i as int),
                ).push(origins@[i as int]@));
            }
            i = i + 1;
        }
        assert(origins@.subrange(0, origins@.len() as int) =~= origins@);
        s
    }

    /// Control whether loopback origins are accepted.
    pub fn allow_localhost_origins(self, allow: bool) -> (r: Self)
        ensures
            r.allowed_origins@ == self.allowed_origins@,
            r.allow_localhost_origins == allow,
            r.allow_any_origin == self.allow_any_origin,
            r.max_body_size == self.max_body_size,
    {
        let mut s = self;
        s.allow_localhost_origins = allow;
        s
    }

    /// Accept any origin.
    pub fn allow_any_origin(self, allow: bool) -> (r: Self)
        ensures
            r.allowed_origins@ == self.allowed_origins@,
            r.allow_localhost_origins == self.allow_localhost_origins,
            r.allow_any_origin == allow,
            r.max_body_size == self.max_body_size,
    {
        let mut s = self;
        s.allow_any_origin = allow;
        s
    }

    /// Set the request body limit in bytes.
    pub fn max_body_size(self, size: usize) -> (r: Self)
        ensures
            r.allowed_origins@ == self.allowed_origins@,
            r.allow_localhost_origins == self.allow_localhost_origins,
            r.allow_any_origin == self.allow_any_origin,
            r.max_body_size == size,
    {
        let mut s = self;
        s.max_body_size = size;
        s
    }
}

/// An HTTP reply before it becomes a platform response.
#[derive(Debug, Clone, PartialEq, Eq)]
pub struct Reply {
    /// HTTP status.
    pub status: u16,
    /// `Content-Type`, when there is a body.
    pub content_type: Option<&'static str>,
    /// Body.
    pub body: String,
    /// Further response headers, in order.
    pub headers: Vec<(&'static str, String)>,
}

/// A reply, as values.
pub struct ReplyView {
    /// HTTP status.
    pub status: u16,
    /// `Content-Type`.
    pub content_type: Option<Seq<char>>,
    /// Body.
    pub body: Seq<char>,
    /// Further headers.
    pub headers: Seq<(Seq<char>, Seq<char>)>,
}

/// The view of one reply header.
pub open spec fn header_view(h: (&'static str, String)) -> (Seq<char>, Seq<char>) {
    (h.0@, h.1@)
}

impl View for Reply {
    type V = ReplyView;

    open spec fn view(&self) -> ReplyView {
        ReplyView {
            status: self.status,
            content_type: match self.content_type {
                Some(c) => Some(c@),
                None => None,
            },
            body: self.body@,
            headers: self.headers@.map_values(|h: (&'static str, String)| header_view(h)),
        }
    }
}

/// A reply with no body.
pub open spec fn empty_reply(status: u16) -> ReplyView {
    ReplyView { status, content_type: None, body: Seq::empty(), headers: Seq::empty() }
}

/// An HTTP-level refusal explained in plain text.
pub open spec fn text_reply(status: u16, message: Seq<char>) -> ReplyView {
    ReplyView {
        status,
        content_type: Some("text/plain; charset=utf-8"@),
        body: message,
        headers: Seq::empty(),
    }
}

/// A JSON-RPC message, `message` being its JSON text.
pub open spec fn rpc_reply(status: u16, message: Seq<char>) -> ReplyView {
    ReplyView {
        status,
        content_type: Some("application/json"@),
        body: message,
        headers: Seq::empty(),
    }
}

/// `405` naming the allowed methods.
pub open spec fn method_not_allowed_reply(allow: Seq<char>) -> ReplyView {
    ReplyView {
        headers: seq![("Allow"@, allow)],
        ..text_reply(405, "Method not allowed"@)
    }
}

impl Reply {
    /// A JSON-RPC message, written as JSON text.
    pub fn rpc(status: u16, message: String) -> (r: Self)
        ensures
            r@ == rpc_reply(status, message@),
    {
        let r = Reply { status, content_type: Some("application/json"), body: message, headers: Vec::new() };
        assert(r@.headers =~= Seq::empty());
        r
    }

    /// No body: `202` for accepted notifications, `204` for preflight and
    /// session deletion.
    pub fn empty(status: u16) -> (r: Self)
        ensures
            r@ == empty_reply(status),
    {
        let r = Reply { status, content_type: None, body: String::new(), headers: Vec::new() };
        assert(r@.headers =~= Seq::empty());
        r
    }

    /// An HTTP-level refusal, explained in plain text.
    pub fn text(status: u16, message: &str) -> (r: Self)
        ensures
            r@ == text_reply(status, message@),
    {
        let r = Reply {
            status,
            content_type: Some("text/plain; charset=utf-8"),
            body: owned(message),
            headers: Vec::new(),
        };
        assert(r@.headers =~= Seq::empty());
        r
    }

    /// An SSE body.
    pub fn sse(body: String) -> (r: Self)
        ensures
            r@.status == 200,
            r@.content_type == Some("text/event-stream"@),
            r@.body == body@,
            r@.headers == seq![("Cache-Control"@, "no-cache"@)],
    {
        let r = Reply {
            status: 200,
            content_type: Some("text/event-stream"),
            body,
            headers: vec![("Cache-Control", owned("no-cache"))],
        };
        assert(r@.headers =~= seq![("Cache-Control"@, "no-cache"@)]);
        r
    }

    /// Add a response header.
    pub fn with_header(self, name: &'static str, value: &str) -> (r: Self)
        ensures
            r@.status == self@.status,
            r@.content_type == self@.content_type,
            r@.body == self@.body,
            r@.headers == self@.headers.push((name@, value@)),
    {
        let mut s = self;
        s.headers.push((name, owned(value)));
        assert(s@.headers =~= self@.headers.push((name@, value@)));
        s
    }

    /// `405`, which RFC 9110 requires to carry `Allow`.
    pub fn method_not_allowed(allow: &'static str) -> (r: Self)
        ensures
            r@ == method_not_allowed_reply(allow@),
    {
        let r = Reply::text(405, "Method not allowed").with_header("Allow", allow);
        assert(r@.headers =~= seq![("Allow"@, allow@)]);
        r
    }
}

/// Whether a `Content-Type` value names JSON: its media type (before any
/// `;` parameters, white space trimmed) is `application/json` in any case.
pub open spec fn json_content_type(content_type: Option<Seq<char>>) -> bool {
    match content_type {
        Some(v) => lower(trim(before(v, ';'))) == "application/json"@,
        None => false,
    }
}

/// Whether the media type of `value` is `media`, which is lower-case.
pub(crate) fn media_type_is(value: &str, media: &str) -> (r: bool)
    ensures
        r == (lower(trim(before(value@, ';'))) == media@),
{
    let chars = chars_of(value);
    let mime = lower_chars(&trim_chars(&before_chars(&chars, ';')));
    chars_eq(&mime, &chars_of(media))
}

/// Whether a `Content-Type` names JSON. A missing header is refused:
/// browsers default `fetch()` bodies to `text/plain`.
pub fn is_json_content_type(content_type: Option<&str>) -> (r: bool)
    ensures
        r == json_content_type(
            match content_type {
                Some(v) => Some(v@),
                None => None,
            },
        ),
{
    match content_type {
        Some(v) => media_type_is(v, "application/json"),
        None => false,
    }
}

/// Whether a declared `Content-Length` exceeds `max`; a value that does not
/// parse as a `usize` declares nothing.
pub open spec fn declares_too_long(length: Option<Seq<char>>, max: usize) -> bool {
    match length {
        Some(v) => match parse_unsigned(v) {
            Some(n) => n <= usize::MAX && n > max,
            None => false,
        },
        None => false,
    }
}

/// The refusals that need only the method and headers.
pub open spec fn spec_precheck(
    method: Seq<char>,
    headers: HeaderMap,
    config: EndpointConfig,
) -> Result<(), ReplyView> {
    match spec_check_origin(
        headers.spec_get("origin"@),
        views(config.allowed_origins@),
        config.allow_localhost_origins,
        config.allow_any_origin,
    ) {
        Err(reason) => Err(text_reply(403, reason)),
        Ok(()) => if method == "OPTIONS"@ {
            Err(empty_reply(204))
        } else if method != "POST"@ {
            Err(method_not_allowed_reply("POST, OPTIONS"@))
        } else if !json_content_type(headers.spec_get("content-type"@)) {
            Err(text_reply(415, "Unsupported Media Type. Use Content-Type: application/json"@))
        } else if declares_too_long(headers.spec_get("content-length"@), config.max_body_size) {
            Err(text_reply(413, "Request body too large"@))
        } else {
            Ok(())
        },
    }
}

/// The value of header `name` as a `&str`.
fn header_str<'a>(headers: &'a HeaderMap, name: &str) -> (r: Option<&'a str>)
    ensures
        match r {
            Some(v) => headers.spec_get(name@) == Some(v@),
            None => headers.spec_get(name@) is None,
        },
{
    match headers.get(name) {
        Some(v) => Some(v.as_str()),
        None => None,
    }
}

/// Checks that need only the method and headers, so a refused request is
/// turned away before its body is read.
pub fn precheck(method: &str, headers: &HeaderMap, config: &EndpointConfig) -> (r: Result<
    (),
    Reply,
>)
    ensures
        match spec_precheck(method@, *headers, *config) {
            Ok(()) => r is Ok,
            Err(e) => r matches Err(rep) && rep@ == e,
        },
{
    let origin = header_str(headers, "origin");
    let ghost o = match origin {
        Some(v) => Some(v@),
        None => None,
    };
    match check_origin(
        origin,
        config.allowed_origins.as_slice(),
        config.allow_localhost_origins,
        config.allow_any_origin,
    ) {
        Err(reason) => {
            return Err(Reply::text(403, reason.as_str()));
        },
        Ok(()) => {},
    }
    if str_eq(method, "OPTIONS") {
        return Err(Reply::empty(204));
    }
    if !str_eq(method, "POST") {
        return Err(Reply::method_not_allowed("POST, OPTIONS"));
    }
    if !is_json_content_type(header_str(headers, "content-type")) {
        return Err(
            Reply::text(415, "Unsupported Media Type. Use Content-Type: application/json"),
        );
    }
    match header_str(headers, "content-length") {
        Some(v) => match parse_usize(v) {
            Some(n) => {
                if n > config.max_body_size {
                    return Err(Reply::text(413, "Request body too large"));
                }
            },
            None => {},
        },
        None => {},
    }
    Ok(())
}

/// The body-length limit, checked again once the body has been read
/// (`length` in bytes): a chunked upload or a lying `Content-Length` is
/// caught here.
pub fn check_body_length(length: usize, max: usize) -> (r: Result<(), Reply>)
    ensures
        length > max ==> (r matches Err(rep) && rep@ == text_reply(413, "Request body too large"@)),
        length <= max ==> r is Ok,
{
    if length > max {
        Err(Reply::text(413, "Request body too large"))
    } else {
        Ok(())
    }
}

/// The protocol versions this library speaks, oldest first.
pub open spec fn stable_versions() -> Seq<Seq<char>> {
    seq!["2025-06-18"@, "2025-11-25"@]
}

/// Whether `v` is one of the stable protocol versions.
pub fn is_stable_version(v: &str) -> (r: bool)
    ensures
        r == stable_versions().contains(v@),
{
    let r = str_eq(v, "2025-06-18") || str_eq(v, "2025-11-25");
    proof {
        if stable_versions().contains(v@) {
            let i = choose|i: int| 0 <= i < 2 && stable_versions()[i] == v@;
            assert(i == 0 || i == 1);
        }
        if r {
            if v@ == "2025-06-18"@ {
                assert(stable_versions()[0] == v@);
            } else {
                assert(stable_versions()[1] == v@);
            }
        }
    }
    r
}

/// The supported versions as a message lists them.
pub open spec fn supported_list() -> Seq<char> {
    "2025-06-18, 2025-11-25"@
}

/// Why an `MCP-Protocol-Version` header value was refused.
pub open spec fn unsupported_version_message(value: Seq<char>) -> Seq<char> {
    "Unsupported MCP-Protocol-Version '"@ + value + "'; supported: "@ + supported_list()
}

/// What an `MCP-Protocol-Version` header value names: no version when
/// absent, a stable version (white space aside), or why it is refused.
pub open spec fn header_version(value: Option<Seq<char>>) -> Result<Option<Seq<char>>, Seq<char>> {
    match value {
        None => Ok(None),
        Some(v) => if stable_versions().contains(trim(v)) {
            Ok(Some(trim(v)))
        } else {
            Err(unsupported_version_message(v))
        },
    }
}

/// Parse an `MCP-Protocol-Version` header value: absent is no version, a
/// stable version (surrounding white space aside) is kept, anything else is
/// refused; the caller answers the refusal with `400 Bad Request`.
pub fn protocol_version_from_header(value: Option<&str>) -> (r: Result<Option<String>, String>)
    ensures
        match value {
            None => r == Ok::<Option<String>, String>(None),
            Some(v) => if stable_versions().contains(trim(v@)) {
                r matches Ok(Some(s)) && s@ == trim(v@)
            } else {
                r matches Err(m) && m@ == unsupported_version_message(v@)
            },
        },
{
    let v = match value {
        Some(v) => v,
        None => return Ok(None),
    };
    let chars = chars_of(v);
    let t = trim_chars(&chars);
    let trimmed = crate::text::string_of(&t, 0, t.len());
    proof {
        assert(t@.subrange(0, t@.len() as int) =~= t@);
    }
    if is_stable_version(trimmed.as_str()) {
        Ok(Some(trimmed))
    } else {
        let mut m = owned("Unsupported MCP-Protocol-Version '");
        push_str(&mut m, v);
        push_str(&mut m, "'; supported: ");
        push_str(&mut m, "2025-06-18, 2025-11-25");
        Err(m)
    }
}

/// The headers a reply goes out with, in the order they are set (a later
/// one of the same name replaces an earlier one): CORS first, unless the
/// reply refuses the origin (`403`), then `Content-Type`, then the reply's
/// own. The request `Origin` is echoed rather than answered with `*`, so a
/// credentialed request is only granted to the origin that made it.
pub open spec fn spec_response_headers(
    reply: ReplyView,
    origin: Option<Seq<char>>,
    allow_methods: Seq<char>,
) -> Seq<(Seq<char>, Seq<char>)> {
    let allow_origin: Seq<(Seq<char>, Seq<char>)> = match origin {
        Some(o) => seq![("Access-Control-Allow-Origin"@, o), ("Vary"@, "Origin"@)],
        None => seq![("Access-Control-Allow-Origin"@, "*"@)],
    };
    let cors: Seq<(Seq<char>, Seq<char>)> = if reply.status != 403 {
        allow_origin + seq![
            ("Access-Control-Allow-Methods"@, allow_methods),
            ("Access-Control-Allow-Headers"@, CORS_ALLOW_HEADERS@),
            ("Access-Control-Expose-Headers"@, CORS_EXPOSE_HEADERS@),
            ("Access-Control-Max-Age"@, "86400"@),
        ]
    } else {
        Seq::empty()
    };
    let content: Seq<(Seq<char>, Seq<char>)> = match reply.content_type {
        Some(c) => seq![("Content-Type"@, c)],
        None => Seq::empty(),
    };
    cors + content + reply.headers
}

/// Every reply but a `403` carries the CORS headers, so a browser script
/// can read it, a `401` and its challenge included: the allowed origin
/// (the request's `Origin` echoed, with `Vary: Origin`, or `*` without
/// one), methods, request headers, exposed headers and max age. A `403`,
/// which refuses the origin, is granted none of them and carries only what
/// the reply itself holds. Every reply carries its own `Content-Type` and
/// headers.
pub proof fn law_cors_spares_only_refused_origins(
    reply: ReplyView,
    origin: Option<Seq<char>>,
    allow_methods: Seq<char>,
)
    ensures
        reply.status != 403 ==> {
            let h = spec_response_headers(reply, origin, allow_methods);
            &&& h.contains(
                (
                    "Access-Control-Allow-Origin"@,
                    match origin {
                        Some(o) => o,
                        None => "*"@,
                    },
                ),
            )
            &&& origin is Some ==> h.contains(("Vary"@, "Origin"@))
            &&& h.contains(("Access-Control-Allow-Methods"@, allow_methods))
            &&& h.contains(
                (
                    "Access-Control-Allow-Headers"@,
                    "Content-Type, Accept, Authorization, X-Request-ID, Mcp-Session-Id, MCP-Protocol-Version, Last-Event-ID"@,
                ),
            )
            &&& h.contains(
                ("Access-Control-Expose-Headers"@, "Mcp-Session-Id, WWW-Authenticate"@),
            )
            &&& h.contains(("Access-Control-Max-Age"@, "86400"@))
        },
        reply.status == 403 ==> spec_response_headers(reply, origin, allow_methods) == (match reply.content_type {
            Some(c) => seq![("Content-Type"@, c)],
            None => Seq::<(Seq<char>, Seq<char>)>::empty(),
        }) + reply.headers,
        reply.content_type matches Some(c) ==> spec_response_headers(
            reply,
            origin,
            allow_methods,
        ).contains(("Content-Type"@, c)),
        forall|j: int|
            0 <= j < reply.headers.len() ==> spec_response_headers(
                reply,
                origin,
                allow_methods,
            ).contains(#[trigger] reply.headers[j]),
{
    let h = spec_response_headers(reply, origin, allow_methods);
    let allow_origin: Seq<(Seq<char>, Seq<char>)> = match origin {
        Some(o) => seq![("Access-Control-Allow-Origin"@, o), ("Vary"@, "Origin"@)],
        None => seq![("Access-Control-Allow-Origin"@, "*"@)],
    };
    let cors: Seq<(Seq<char>, Seq<char>)> = if reply.status != 403 {
        allow_origin + seq![
            ("Access-Control-Allow-Methods"@, allow_methods),
            ("Access-Control-Allow-Headers"@, CORS_ALLOW_HEADERS@),
            ("Access-Control-Expose-Headers"@, CORS_EXPOSE_HEADERS@),
            ("Access-Control-Max-Age"@, "86400"@),
        ]
    } else {
        Seq::empty()
    };
    let content: Seq<(Seq<char>, Seq<char>)> = match reply.content_type {
        Some(c) => seq![("Content-Type"@, c)],
        None => Seq::empty(),
    };
    assert(h == cors + content + reply.headers);
    let n = cors.len() + content.len();
    assert forall|j: int| 0 <= j < reply.headers.len() implies h.contains(
        #[trigger] reply.headers[j],
    ) by {
        assert(h[n + j] == reply.headers[j]);
    }
    if let Some(c) = reply.content_type {
        assert(h[cors.len() as int] == ("Content-Type"@, c));
    }
    if reply.status != 403 {
        assert(CORS_ALLOW_HEADERS@ == "Content-Type, Accept, Authorization, X-Request-ID, Mcp-Session-Id, MCP-Protocol-Version, Last-Event-ID"@);
        assert(CORS_EXPOSE_HEADERS@ == "Mcp-Session-Id, WWW-Authenticate"@);
        let a = allow_origin.len() as int;
        assert(h[0] == allow_origin[0]);
        if origin is Some {
            assert(h[1] == ("Vary"@, "Origin"@));
        }
        assert(h[a] == ("Access-Control-Allow-Methods"@, allow_methods));
        assert(h[a + 1] == ("Access-Control-Allow-Headers"@, CORS_ALLOW_HEADERS@));
        assert(h[a + 2] == ("Access-Control-Expose-Headers"@, CORS_EXPOSE_HEADERS@));
        assert(h[a + 3] == ("Access-Control-Max-Age"@, "86400"@));
    } else {
        assert(cors =~= Seq::<(Seq<char>, Seq<char>)>::empty());
        assert(h =~= content + reply.headers);
    }
}

/// The headers `reply` goes out with; see [`spec_response_headers`].
pub fn response_headers(reply: &Reply, origin: Option<&str>, allow_methods: &str) -> (r: Vec<
    (String, String),
>)
    ensures
        pair_views(r@) == spec_response_headers(
            reply@,
            match origin {
                Some(o) => Some(o@),
                None => None,
            },
            allow_methods@,
        ),
{
    let mut r: Vec<(String, String)> = Vec::new();
    if reply.status != 403 {
        match origin {
            Some(o) => {
                push_pair(&mut r, "Access-Control-Allow-Origin", o);
                push_pair(&mut r, "Vary", "Origin");
            },
            None => {
                push_pair(&mut r, "Access-Control-Allow-Origin", "*");
            },
        }
        push_pair(&mut r, "Access-Control-Allow-Methods", allow_methods);
        push_pair(&mut r, "Access-Control-Allow-Headers", CORS_ALLOW_HEADERS);
        push_pair(&mut r, "Access-Control-Expose-Headers", CORS_EXPOSE_HEADERS);
        push_pair(&mut r, "Access-Control-Max-Age", "86400");
    }
    let ghost cors = pair_views(r@);
    match reply.content_type {
        Some(c) => {
            push_pair(&mut r, "Content-Type", c);
        },
        None => {},
    }
    let ghost head = pair_views(r@);
    let mut i: usize = 0;
    while i < reply.headers.len()
        invariant
            i <= reply.headers@.len(),
            pair_views(r@) == head + reply@.headers.subrange(0, i as int),
        decreases reply.headers.len() - i,
    {
        let (name, value) = &reply.headers[i];
        push_pair(&mut r, name, value.as_str());
        i = i + 1;
        assert(head + reply@.headers.subrange(0, i as int) =~= (head + reply@.headers.subrange(
            0,
            i - 1 as int,
        )).push(reply@.headers[i - 1]));
    }
    assert(reply@.headers.subrange(0, reply@.headers.len() as int) =~= reply@.headers);
    assert(pair_views(r@) =~= spec_response_headers(
        reply@,
        match origin {
            Some(o) => Some(o@),
            None => None,
        },
        allow_methods@,
    ));
    r
}

/// What a POSTed body is.
pub enum Inbound {
    /// A request (`notification` false) or a notification (no `id`,
    /// `notification` true) calling `method`.
    Message {
        /// The method called.
        method: String,
        /// Whether it is a notification, which gets no answer.
        notification: bool,
    },
    /// A JSON-RPC response from the client. Nothing here sends requests to
    /// clients, so nothing waits for it; the transport still accepts it.
    ClientResponse,
    /// Not a message: the `400` that answers it, an error with `id: null`,
    /// since no id could be trusted.
    Invalid(Reply),
}

/// Whether a JSON value is a JSON-RPC response rather than a request: an
/// object with an `id` and a `result` or an `error`, and no `method`.
pub open spec fn is_client_response(s: JsonShapeView) -> bool {
    s.is_object && !s.has_method && s.has_id && (s.has_result || s.has_error)
}

/// Whether a message's `id` is one JSON-RPC allows: absent (a
/// notification), a string, or an integer. `null`, fractions, objects,
/// arrays and booleans are refused.
pub open spec fn valid_id(s: JsonShapeView) -> bool {
    !s.has_id || s.id_is_text || s.id_signed is Some || s.id is Some
}

/// Whether a JSON value is a JSON-RPC 2.0 request or notification: an
/// object (not a batch) with `"jsonrpc": "2.0"`, a string `method`, and a
/// valid `id` or none.
pub open spec fn is_request(s: JsonShapeView) -> bool {
    &&& s.is_object
    &&& s.jsonrpc == Some("2.0"@)
    &&& s.method is Some
    &&& valid_id(s)
}

/// The reply to a body the JSON parser refused, `reason` being the
/// parser's account of the fault.
pub open spec fn parse_error_reply(reason: Seq<char>) -> ReplyView {
    rpc_reply(400, spec_error_message(PARSE_ERROR as int, "Parse error: "@ + reason))
}

/// The reply to JSON that is neither a request nor a response.
pub open spec fn invalid_request_reply() -> ReplyView {
    rpc_reply(400, spec_error_message(INVALID_REQUEST as int, "Invalid Request"@))
}

/// What a body is, as values: the parse error, a client response, the
/// invalid request, or a message with its method and whether it is a
/// notification.
pub open spec fn spec_inbound(body: Seq<char>) -> Result<Option<(Seq<char>, bool)>, ReplyView> {
    match json_reading(body) {
        Err(reason) => Err(parse_error_reply(reason)),
        Ok(s) => if is_client_response(s) {
            Ok(None)
        } else if is_request(s) {
            Ok(Some((s.method->0, !s.has_id)))
        } else {
            Err(invalid_request_reply())
        },
    }
}

/// Tell a request body apart. Malformed JSON is a parse error (`-32700`);
/// an object with an `id` and a `result` or `error` but no `method` is a
/// response from the client; a JSON-RPC 2.0 request or notification is a
/// message; anything else (a batch array, `jsonrpc` other than `"2.0"`, a
/// `null`, fractional or structured `id`, no string `method`) is an
/// invalid request (`-32600`). Errors carry `id: null`.
pub fn parse_message(body: &str) -> (r: Inbound)
    ensures
        match spec_inbound(body@) {
            Err(rep) => r matches Inbound::Invalid(x) && x@ == rep,
            Ok(None) => r is ClientResponse,
            Ok(Some((method, notification))) => r matches Inbound::Message {
                method: m,
                notification: n,
            } && m@ == method && n == notification,
        },
{
    match read_json_shape(body) {
        Err(e) => {
            let mut m = owned("Parse error: ");
            push_str(&mut m, e.as_str());
            let message = error_message(PARSE_ERROR, m.as_str());
            Inbound::Invalid(Reply::rpc(400, message))
        },
        Ok(shape) => {
            if shape.is_object && !shape.has_method && shape.has_id && (shape.has_result
                || shape.has_error) {
                return Inbound::ClientResponse;
            }
            let id_ok = !shape.has_id || shape.id_is_text || shape.id_signed.is_some()
                || shape.id.is_some();
            let version_ok = match &shape.jsonrpc {
                Some(v) => str_eq(v.as_str(), "2.0"),
                None => false,
            };
            match shape.method {
                Some(method) => {
                    if shape.is_object && version_ok && id_ok {
                        Inbound::Message { method, notification: !shape.has_id }
                    } else {
                        invalid_request()
                    }
                },
                None => invalid_request(),
            }
        },
    }
}

/// The invalid-request reply.
fn invalid_request() -> (r: Inbound)
    ensures
        r matches Inbound::Invalid(x) && x@ == invalid_request_reply(),
{
    Inbound::Invalid(Reply::rpc(400, error_message(INVALID_REQUEST, "Invalid Request")))
}

/// A POST waiting for the admission check (authentication): it is asked
/// about `method` (`None` for a response from the client, which names no
/// method), and [`PendingAdmission::rule`] takes its ruling.
pub struct PendingAdmission {
    /// The method the admission check is asked about.
    pub method: Option<String>,
    /// The version an admitted message's answer is held to: the one the
    /// session negotiated (none: the answer as built).
    pub version: Option<String>,
}

/// What to do next with a POST.
pub enum PostStep {
    /// Answer with this reply; nothing else happens.
    Answer(Reply),
    /// Ask the admission check, once, before anything is routed.
    Admit(PendingAdmission),
    /// Route the admitted message, its answer held to this version; the
    /// answer goes to [`finish_post`].
    Route(Option<String>),
}

/// The first step of answering a POST whose body has been read: the
/// `MCP-Protocol-Version` header is checked (an unsupported one is a
/// `400`), then the body is told apart; a body that is no message is
/// answered at once, and anything else goes to the admission check.
pub fn begin_post(headers: &HeaderMap, body: &str) -> (r: PostStep)
    ensures
        match header_version(headers.spec_get("mcp-protocol-version"@)) {
            Err(m) => r matches PostStep::Answer(rep) && rep@ == text_reply(400, m),
            Ok(version) => match spec_inbound(body@) {
                Err(rep) => r matches PostStep::Answer(x) && x@ == rep,
                Ok(None) => r matches PostStep::Admit(p) && p.method is None && opt_view(p.version)
                    == version,
                Ok(Some((method, _))) => r matches PostStep::Admit(p) && opt_view(p.method) == Some(
                    method,
                ) && opt_view(p.version) == version,
            },
        },
{
    let version = match protocol_version_from_header(header_str(headers, "mcp-protocol-version")) {
        Ok(version) => version,
        Err(reason) => return PostStep::Answer(Reply::text(400, reason.as_str())),
    };
    match parse_message(body) {
        Inbound::Invalid(rep) => PostStep::Answer(rep),
        Inbound::ClientResponse => PostStep::Admit(PendingAdmission { method: None, version }),
        Inbound::Message { method, notification: _ } => PostStep::Admit(
            PendingAdmission { method: Some(method), version },
        ),
    }
}

impl PendingAdmission {
    /// The step once the admission check has ruled: a refusal is the
    /// answer, unchanged, and nothing is routed; an admitted response from
    /// the client is accepted with an empty `202`; an admitted message is
    /// routed under the version.
    pub fn rule(self, ruling: Result<(), Reply>) -> (r: PostStep)
        ensures
            match ruling {
                Err(rep) => r == PostStep::Answer(rep),
                Ok(()) => match self.method {
                    None => r matches PostStep::Answer(x) && x@ == empty_reply(202),
                    Some(_) => r == PostStep::Route(self.version),
                },
            },
    {
        match ruling {
            Err(rep) => PostStep::Answer(rep),
            Ok(()) => match self.method {
                None => PostStep::Answer(Reply::empty(202)),
                Some(_) => PostStep::Route(self.version),
            },
        }
    }
}

/// The reply to a routed message: its answer goes out as `200`; a
/// notification, which gets no answer, is an empty `202`.
pub fn finish_post(answer: Option<String>) -> (r: Reply)
    ensures
        match answer {
            Some(m) => r@ == rpc_reply(200, m@),
            None => r@ == empty_reply(202),
        },
{
    match answer {
        Some(m) => Reply::rpc(200, m),
        None => Reply::empty(202),
    }
}

} // verus!
