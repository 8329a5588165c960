//! The DNS-rebinding guard: which browser origins may reach the server.
use url::{Host, Url};
use vstd::prelude::*;

use crate::text::{str_eq, chars_of, lower, lower_chars, owned, push_str, string_of, trim, trim_bounds, views};

verus! {

/// A URL host, as the `url` crate parses it.
#[derive(Debug, Clone)]
pub enum UrlHost {
    /// A DNS domain name (punycode for special schemes), or an opaque host.
    Domain(String),
    /// An IPv4 address, by octets.
    Ipv4([u8; 4]),
    /// An IPv6 address, by 16-bit segments.
    Ipv6([u16; 8]),
}

/// A URL host, as a value.
pub enum HostView {
    /// A domain name.
    Domain(Seq<char>),
    /// An IPv4 address.
    Ipv4([u8; 4]),
    /// An IPv6 address.
    Ipv6([u16; 8]),
}

impl View for UrlHost {
    type V = HostView;

    open spec fn view(&self) -> HostView {
        match self {
            UrlHost::Domain(d) => HostView::Domain(d@),
            UrlHost::Ipv4(o) => HostView::Ipv4(*o),
            UrlHost::Ipv6(s) => HostView::Ipv6(*s),
        }
    }
}

/// The parts of a parsed URL that decide whether it is an origin.
#[derive(Debug)]
pub struct UrlParts {
    /// Scheme, lower-case.
    pub scheme: String,
    /// Host, if the URL has one.
    pub host: Option<UrlHost>,
    /// The host as the URL writes it (IPv6 in brackets), if any.
    pub host_str: Option<String>,
    /// Port, only when the URL names one other than the scheme's default.
    pub port: Option<u16>,
    /// Path.
    pub path: String,
    /// Query, if present.
    pub query: Option<String>,
    /// Fragment, if present.
    pub fragment: Option<String>,
    /// User name of the userinfo.
    pub username: String,
}

/// The parts of a parsed URL, as values.
pub struct UrlView {
    /// Scheme.
    pub scheme: Seq<char>,
    /// Host.
    pub host: Option<HostView>,
    /// The host as the URL writes it.
    pub host_str: Option<Seq<char>>,
    /// Port named by the URL (not the scheme's default).
    pub port: Option<u16>,
    /// Path.
    pub path: Seq<char>,
    /// Query.
    pub query: Option<Seq<char>>,
    /// Fragment.
    pub fragment: Option<Seq<char>>,
    /// User name.
    pub username: Seq<char>,
}

impl View for UrlParts {
    type V = UrlView;

    open spec fn view(&self) -> UrlView {
        UrlView {
            scheme: self.scheme@,
            host: match self.host {
                Some(h) => Some(h@),
                None => None,
            },
            host_str: match self.host_str {
                Some(h) => Some(h@),
                None => None,
            },
            port: self.port,
            path: self.path@,
            query: match self.query {
                Some(q) => Some(q@),
                None => None,
            },
            fragment: match self.fragment {
                Some(f) => Some(f@),
                None => None,
            },
            username: self.username@,
        }
    }
}

/// The error `url::Url::parse` reports.
#[verifier::external_type_specification]
#[verifier::external_body]
pub struct ExUrlParseError(url::ParseError);

/// What the `url` crate's parser (WHATWG URL Standard) makes of `input`.
pub uninterp spec fn parsed_url(input: Seq<char>) -> Option<UrlView>;

/// Parse `input` with `url::Url::parse` and take out its parts.
///
/// Trusted: the parts are a function of `input` alone (named
/// `parsed_url`), and the parse fails exactly where that name says it does;
/// nothing is claimed about how the parser reads the input.
#[verifier::external_body]
pub(crate) fn parse_url(input: &str) -> (r: Result<UrlParts, url::ParseError>)
    ensures
        match r {
            Ok(p) => parsed_url(input@) == Some(p@),
            Err(_) => parsed_url(input@) is None,
        },
{
    let u = Url::parse(input)?;
    Ok(UrlParts {
        host: match u.host() {
            Some(Host::Domain(d)) => Some(UrlHost::Domain(d.into())),
            Some(Host::Ipv4(ip)) => Some(UrlHost::Ipv4(ip.octets())),
            Some(Host::Ipv6(ip)) => Some(UrlHost::Ipv6(ip.segments())),
            None => None,
        },
        scheme: u.scheme().into(), host_str: u.host_str().map(Into::into), port: u.port(),
        path: u.path().into(), query: u.query().map(Into::into),
        fragment: u.fragment().map(Into::into), username: u.username().into(),
    })
}

/// The text of a `url::ParseError`, as its `Display` writes it.
///
/// Trusted: nothing is claimed of the text.
#[verifier::external_body]
pub(crate) fn describe_url_error(e: &url::ParseError) -> String {
    e.to_string()
}

/// The port the `url` crate knows as the default of a special scheme.
pub open spec fn default_port(scheme: Seq<char>) -> Option<u16> {
    if scheme == "http"@ || scheme == "ws"@ {
        Some(80)
    } else if scheme == "https"@ || scheme == "wss"@ {
        Some(443)
    } else if scheme == "ftp"@ {
        Some(21)
    } else {
        None
    }
}

/// The URL's port, or its scheme's default.
pub open spec fn port_or_known_default(u: UrlView) -> Option<u16> {
    match u.port {
        Some(p) => Some(p),
        None => default_port(u.scheme),
    }
}

/// `default_port`, computed.
pub fn known_default_port(scheme: &str) -> (r: Option<u16>)
    ensures
        r == default_port(scheme@),
{
    if str_eq(scheme, "http") || str_eq(scheme, "ws") {
        Some(80)
    } else if str_eq(scheme, "https") || str_eq(scheme, "wss") {
        Some(443)
    } else if str_eq(scheme, "ftp") {
        Some(21)
    } else {
        None
    }
}

/// An origin reduced to what identifies it: scheme, host and port.
pub struct OriginKey {
    /// Scheme, lower-case.
    pub scheme: Seq<char>,
    /// Host; a domain lower-case.
    pub host: HostView,
    /// Port (explicit or the scheme's default).
    pub port: u16,
}

/// The canonical `(scheme, host, port)` of a parsed URL, or `None` for
/// anything carrying a path, query, fragment or user name, or lacking a
/// host or port.
pub open spec fn origin_key(u: UrlView) -> Option<OriginKey> {
    if !(u.path.len() == 0 || u.path == "/"@) || u.query is Some || u.fragment is Some
        || u.username.len() != 0 {
        None
    } else {
        match (u.host, port_or_known_default(u)) {
            (Some(h), Some(port)) => Some(
                OriginKey {
                    scheme: lower(u.scheme),
                    host: match h {
                        HostView::Domain(d) => HostView::Domain(lower(d)),
                        other => other,
                    },
                    port,
                },
            ),
            _ => None,
        }
    }
}

/// The canonical origin written as `input` (surrounding white space aside).
pub open spec fn spec_canonical(input: Seq<char>) -> Option<OriginKey> {
    match parsed_url(trim(input)) {
        Some(u) => origin_key(u),
        None => None,
    }
}

/// Whether an origin names a loopback host over HTTP(S): `localhost`,
/// `127.0.0.0/8` or `::1`.
pub open spec fn is_loopback(k: OriginKey) -> bool {
    (k.scheme == "http"@ || k.scheme == "https"@) && match k.host {
        HostView::Domain(d) => d == "localhost"@,
        HostView::Ipv4(o) => o[0] == 127,
        HostView::Ipv6(s) => s[0] == 0 && s[1] == 0 && s[2] == 0 && s[3] == 0 && s[4] == 0 && s[5]
            == 0 && s[6] == 0 && s[7] == 1,
    }
}

/// The answer of the origin check.
pub open spec fn spec_check_origin(
    origin: Option<Seq<char>>,
    allowed: Seq<Seq<char>>,
    allow_localhost: bool,
    allow_any: bool,
) -> Result<(), Seq<char>> {
    if allow_any {
        Ok(())
    } else {
        match origin {
            None => Ok(()),
            Some(o) => match spec_canonical(o) {
                None => Err("Origin '"@ + o + "' is not a valid origin"@),
                Some(k) => if exists|i: int|
                    0 <= i < allowed.len() && #[trigger] spec_canonical(allowed[i]) == Some(k) {
                    Ok(())
                } else if allow_localhost && is_loopback(k) {
                    Ok(())
                } else {
                    Err("Origin '"@ + o + "' not allowed"@)
                },
            },
        }
    }
}

/// A canonical origin.
struct Canon {
    scheme: String,
    host: UrlHost,
    port: u16,
}

impl Canon {
    spec fn key(self) -> OriginKey {
        OriginKey { scheme: self.scheme@, host: self.host@, port: self.port }
    }
}

fn same_host(a: &UrlHost, b: &UrlHost) -> (r: bool)
    ensures
        r == (a@ == b@),
{
    match (a, b) {
        (UrlHost::Domain(x), UrlHost::Domain(y)) => crate::text::str_eq(x.as_str(), y.as_str()),
        (UrlHost::Ipv4(x), UrlHost::Ipv4(y)) => {
            let r = x[0] == y[0] && x[1] == y[1] && x[2] == y[2] && x[3] == y[3];
            proof {
                if r {
                    assert(x@ =~= y@);
                    assert(*x == *y);
                }
            }
            r
        },
        (UrlHost::Ipv6(x), UrlHost::Ipv6(y)) => {
            let r = x[0] == y[0] && x[1] == y[1] && x[2] == y[2] && x[3] == y[3] && x[4] == y[4]
                && x[5] == y[5] && x[6] == y[6] && x[7] == y[7];
            proof {
                if r {
                    assert(x@ =~= y@);
                    assert(*x == *y);
                }
            }
            r
        },
        _ => false,
    }
}

fn same_key(a: &Canon, b: &Canon) -> (r: bool)
    ensures
        r == (a.key() == b.key()),
{
    crate::text::str_eq(a.scheme.as_str(), b.scheme.as_str()) && same_host(&a.host, &b.host)
        && a.port == b.port
}

/// `scheme://host[:port]` reduced to its canonical parts.
fn canonical_origin(input: &str) -> (r: Option<Canon>)
    ensures
        match r {
            Some(c) => spec_canonical(input@) == Some(c.key()),
            None => spec_canonical(input@) is None,
        },
{
    let chars = chars_of(input);
    let (lo, hi) = trim_bounds(&chars);
    let trimmed = string_of(&chars, lo, hi);
    let parts = match parse_url(trimmed.as_str()) {
        Ok(p) => p,
        Err(_) => return None,
    };
    let path = chars_of(parts.path.as_str());
    let slash = path.len() == 1 && path[0] == '/';
    proof {
        reveal_strlit("/");
        if path@.len() == 1 && path@[0] == '/' {
            assert(parts.path@ =~= "/"@);
        }
        if parts.path@ == "/"@ {
            assert(path@[0] == '/');
        }
    }
    if !(path.len() == 0 || slash) || parts.query.is_some() || parts.fragment.is_some()
        || parts.username.unicode_len() != 0 {
        return None;
    }
    let host = match parts.host {
        Some(h) => h,
        None => return None,
    };
    let port = match parts.port {
        Some(p) => p,
        None => match known_default_port(parts.scheme.as_str()) {
            Some(p) => p,
            None => return None,
        },
    };
    let scheme = lower_chars(&chars_of(parts.scheme.as_str()));
    let ghost h0 = host@;
    let host = match host {
        UrlHost::Domain(d) => {
            let l = lower_chars(&chars_of(d.as_str()));
            let ld = string_of(&l, 0, l.len());
            proof {
                assert(l@.subrange(0, l@.len() as int) =~= l@);
                assert(ld@ == lower(d@));
            }
            UrlHost::Domain(ld)
        },
        other => other,
    };
    assert(host@ == match h0 {
        HostView::Domain(d) => HostView::Domain(lower(d)),
        other => other,
    });
    proof {
        assert(scheme@.subrange(0, scheme@.len() as int) =~= scheme@);
    }
    let c = Canon { scheme: string_of(&scheme, 0, scheme.len()), host, port };
    proof {
        assert(c.scheme@ =~= lower(parts.scheme@));
    }
    Some(c)
}

fn is_loopback_origin(c: &Canon) -> (r: bool)
    ensures
        r == is_loopback(c.key()),
{
    let s = c.scheme.as_str();
    if !crate::text::str_eq(s, "http") && !crate::text::str_eq(s, "https") {
        return false;
    }
    match &c.host {
        UrlHost::Domain(d) => crate::text::str_eq(d.as_str(), "localhost"),
        UrlHost::Ipv4(o) => o[0] == 127,
        UrlHost::Ipv6(x) => x[0] == 0 && x[1] == 0 && x[2] == 0 && x[3] == 0 && x[4] == 0 && x[5]
            == 0 && x[6] == 0 && x[7] == 1,
    }
}

/// Decide whether a request's `Origin` may reach the server.
///
/// An absent header passes (only browsers send one); a present one must be
/// on the allowlist or, when `allow_localhost`, name a loopback host.
/// Comparison is on the canonical `(scheme, host, port)`.
pub fn check_origin(
    origin: Option<&str>,
    allowed: &[String],
    allow_localhost: bool,
    allow_any: bool,
) -> (r: Result<(), String>)
    ensures
        match spec_check_origin(
            match origin {
                Some(o) => Some(o@),
                None => None,
            },
            views(allowed@),
            allow_localhost,
            allow_any,
        ) {
            Ok(()) => r is Ok,
            Err(m) => r matches Err(e) && e@ == m,
        },
{
    if allow_any {
        return Ok(());
    }
    let o = match origin {
        Some(o) => o,
        None => return Ok(()),
    };
    let canonical = match canonical_origin(o) {
        Some(c) => c,
        None => {
            let mut m = owned("Origin '");
            push_str(&mut m, o);
            push_str(&mut m, "' is not a valid origin");
            return Err(m);
        },
    };
    let ghost k = canonical.key();
    let mut i: usize = 0;
    while i < allowed.len()
        invariant
            i <= allowed@.len(),
            k == canonical.key(),
            spec_canonical(o@) == Some(k),
            origin == Some(o),
            !allow_any,
            forall|j: int| 0 <= j < i ==> #[trigger] spec_canonical(allowed@[j]@) != Some(k),
        decreases allowed.len() - i,
    {
        match canonical_origin(allowed[i].as_str()) {
            Some(entry) => {
                if same_key(&entry, &canonical) {
                    assert(views(allowed@)[i as int] == allowed@[i as int]@);
                    assert(spec_canonical(views(allowed@)[i as int]) == Some(k));
                    assert(spec_canonical(o@) == Some(k));
                    return Ok(());
                }
            },
            None => {},
        }
        i = i + 1;
    }
    proof {
        assert forall|j: int| 0 <= j < views(allowed@).len() implies #[trigger] spec_canonical(
            views(allowed@)[j],
        ) != Some(k) by {
            assert(views(allowed@)[j] == allowed@[j]@);
        }
    }
    if allow_localhost && is_loopback_origin(&canonical) {
        return Ok(());
    }
    let mut m = owned("Origin '");
    push_str(&mut m, o);
    push_str(&mut m, "' not allowed");
    Err(m)
}

/// With loopback origins allowed, every spelling of a loopback origin passes
/// the check, and with none allowed and no allowlist, no present origin does.
pub proof fn law_origin_guard(o: Seq<char>, allowed: Seq<Seq<char>>)
    ensures
        spec_canonical(o) matches Some(k) && is_loopback(k) ==> spec_check_origin(
            Some(o),
            allowed,
            true,
            false,
        ) is Ok,
        spec_check_origin(Some(o), Seq::empty(), false, false) is Err,
        spec_check_origin(None, allowed, false, false) is Ok,
{
}

/// Every allowlist entry admits its origin, whatever its position in the
/// list and however either is spelled: when the origin and some entry
/// have the same canonical `(scheme, host, port)`, the origin passes. And
/// an origin no entry matches passes only as loopback (when that is
/// allowed) or when the check is off; one that is no valid origin is
/// refused unless the check is off.
pub proof fn law_allowlisted_origins_pass(
    o: Seq<char>,
    allowed: Seq<Seq<char>>,
    allow_localhost: bool,
    allow_any: bool,
)
    ensures
        forall|i: int|
            0 <= i < allowed.len() && (#[trigger] spec_canonical(allowed[i])) is Some
                && spec_canonical(allowed[i]) == spec_canonical(o) ==> spec_check_origin(
                Some(o),
                allowed,
                allow_localhost,
                allow_any,
            ) is Ok,
        spec_canonical(o) matches Some(k) && !allow_any && !(allow_localhost && is_loopback(k))
            && (forall|i: int|
            0 <= i < allowed.len() ==> #[trigger] spec_canonical(allowed[i]) != Some(k))
            ==> spec_check_origin(Some(o), allowed, allow_localhost, allow_any) is Err,
        spec_canonical(o) is None && !allow_any ==> spec_check_origin(
            Some(o),
            allowed,
            allow_localhost,
            allow_any,
        ) is Err,
{
}

} // verus!
