//! Who may reach a protected server: which methods go without
//! credentials, and the challenge a refused request gets.
use vstd::prelude::*;

use crate::jsonrpc::{error_message, spec_error_message};
use crate::text::{contains_str, join, owned, push_str, views};
use crate::wasm_server::endpoint::{rpc_reply, Reply, ReplyView};
use crate::wasm_server::error_codes::AUTHENTICATION_ERROR;

verus! {

/// What to do with a request once its JSON-RPC method is known.
#[derive(Debug, Clone, Copy, PartialEq, Eq)]
pub enum Admission {
    /// A credential was presented: authenticate it.
    Authenticate,
    /// No credential, but the method needs none.
    Admit,
    /// No credential and the method needs one: refuse with `401`.
    Refuse,
}

/// The authentication policy of a protected server.
#[derive(Debug)]
pub struct AuthPolicy {
    /// Methods allowed without credentials.
    pub skip_auth_methods: Vec<String>,
    /// Protected Resource Metadata URL advertised in `WWW-Authenticate`.
    pub resource_metadata: Option<String>,
}

/// The methods allowed without credentials unless configured otherwise.
pub open spec fn default_skip() -> Seq<Seq<char>> {
    seq!["initialize"@, "notifications/initialized"@, "ping"@]
}

/// The decision for a request of `method` (`None` for a JSON-RPC response
/// from the client, never exempt).
pub open spec fn spec_admission(skip: Seq<Seq<char>>, method: Option<Seq<char>>, has_credential: bool) -> Admission {
    if has_credential {
        Admission::Authenticate
    } else if method matches Some(m) && skip.contains(m) {
        Admission::Admit
    } else {
        Admission::Refuse
    }
}

/// The `WWW-Authenticate` challenge of a `401` (RFC 6750 §3): `Bearer`,
/// then the resource metadata URL when there is one and
/// `error="invalid_token"` when a presented token was refused.
pub open spec fn spec_challenge(resource_metadata: Option<Seq<char>>, token_rejected: bool) -> Seq<char> {
    let params: Seq<Seq<char>> = match resource_metadata {
        Some(url) => seq!["resource_metadata=\""@ + url + "\""@],
        None => Seq::empty(),
    };
    let params = if token_rejected {
        params.push("error=\"invalid_token\""@)
    } else {
        params
    };
    if params.len() == 0 {
        "Bearer"@
    } else {
        "Bearer "@ + join(params, ", "@)
    }
}

/// The `401` refusing a request: a JSON-RPC error with `id: null`
/// carrying `detail`, and the `WWW-Authenticate` challenge.
pub open spec fn spec_unauthorized(
    resource_metadata: Option<Seq<char>>,
    detail: Seq<char>,
    token_rejected: bool,
) -> ReplyView {
    ReplyView {
        headers: seq![("WWW-Authenticate"@, spec_challenge(resource_metadata, token_rejected))],
        ..rpc_reply(401, spec_error_message(AUTHENTICATION_ERROR as int, detail))
    }
}

impl AuthPolicy {
    /// The default policy: `initialize`, `notifications/initialized` and
    /// `ping` need no credentials; no resource metadata.
    pub fn new() -> (r: Self)
        ensures
            views(r.skip_auth_methods@) == default_skip(),
            r.resource_metadata is None,
    {
        let v = vec![owned("initialize"), owned("notifications/initialized"), owned("ping")];
        assert(views(v@) =~= default_skip());
        AuthPolicy { skip_auth_methods: v, resource_metadata: None }
    }

    /// Allow exactly `methods` without credentials.
    pub fn skip_auth_for(self, methods: &[String]) -> (r: Self)
        ensures
            views(r.skip_auth_methods@) == views(methods@),
            r.resource_metadata == self.resource_metadata,
    {
        let mut s = self;
        s.skip_auth_methods = crate::text::clone_strings(methods);
        s
    }

    /// Also allow `method` without credentials.
    pub fn also_skip_auth_for(self, method: &str) -> (r: Self)
        ensures
            views(r.skip_auth_methods@) == views(self.skip_auth_methods@).push(method@),
            r.resource_metadata == self.resource_metadata,
    {
        let mut s = self;
        let ghost before = s.skip_auth_methods@;
        let x = owned(method);
        s.skip_auth_methods.push(x);
        proof {
            crate::text::lemma_views_push(before, x);
        }
        s
    }

    /// Advertise the Protected Resource Metadata URL (RFC 9728).
    pub fn with_resource_metadata(self, url: &str) -> (r: Self)
        ensures
            views(r.skip_auth_methods@) == views(self.skip_auth_methods@),
            r.resource_metadata matches Some(u) && u@ == url@,
    {
        let mut s = self;
        s.resource_metadata = Some(owned(url));
        s
    }

    /// What to do with a request of `method`, with or without a credential.
    pub fn admission(&self, method: Option<&str>, has_credential: bool) -> (r: Admission)
        ensures
            r == spec_admission(
                views(self.skip_auth_methods@),
                match method {
                    Some(m) => Some(m@),
                    None => None,
                },
                has_credential,
            ),
    {
        if has_credential {
            return Admission::Authenticate;
        }
        match method {
            Some(m) => {
                if contains_str(&self.skip_auth_methods, m) {
                    Admission::Admit
                } else {
                    Admission::Refuse
                }
            },
            None => Admission::Refuse,
        }
    }

    /// The `401` for a missing credential (`token_rejected` false) or a
    /// rejected one: a JSON-RPC error with `id: null` carrying `detail`,
    /// and the `WWW-Authenticate` challenge.
    pub fn unauthorized(&self, detail: &str, token_rejected: bool) -> (r: Reply)
        ensures
            r@ == spec_unauthorized(
                crate::wasi::http::opt_view(self.resource_metadata),
                detail@,
                token_rejected,
            ),
    {
        let body = error_message(AUTHENTICATION_ERROR, detail);
        let c = self.challenge(token_rejected);
        let r = Reply::rpc(401, body).with_header("WWW-Authenticate", c.as_str());
        assert(r@.headers =~= seq![("WWW-Authenticate"@, c@)]);
        r
    }

    /// The admission check's ruling on a request of `method` (`None` for a
    /// response from the client). `credential` is `None` when the request
    /// carried none, else what authenticating it gave: `Err` with the
    /// authenticator's message when it was refused. A refused credential
    /// is refused even for a method that needs none; a missing one passes
    /// only for such a method.
    pub fn rule(&self, method: Option<&str>, credential: Option<Result<(), &str>>) -> (r: Result<
        (),
        Reply,
    >)
        ensures
            match credential {
                Some(Ok(())) => r is Ok,
                Some(Err(m)) => r matches Err(x) && x@ == spec_unauthorized(
                    crate::wasi::http::opt_view(self.resource_metadata),
                    m@,
                    true,
                ),
                None => if spec_admission(
                    views(self.skip_auth_methods@),
                    match method {
                        Some(m) => Some(m@),
                        None => None,
                    },
                    false,
                ) == Admission::Admit {
                    r is Ok
                } else {
                    r matches Err(x) && x@ == spec_unauthorized(
                        crate::wasi::http::opt_view(self.resource_metadata),
                        "Authentication required"@,
                        false,
                    )
                },
            },
    {
        match credential {
            Some(Ok(())) => Ok(()),
            Some(Err(m)) => Err(self.unauthorized(m, true)),
            None => match self.admission(method, false) {
                Admission::Admit => Ok(()),
                _ => Err(self.unauthorized("Authentication required", false)),
            },
        }
    }

    /// The `WWW-Authenticate` value of a `401`; see [`spec_challenge`].
    pub fn challenge(&self, token_rejected: bool) -> (r: String)
        ensures
            r@ == spec_challenge(crate::wasi::http::opt_view(self.resource_metadata), token_rejected),
    {
        let mut params: Vec<String> = Vec::new();
        match &self.resource_metadata {
            Some(url) => {
                let mut p = owned("resource_metadata=\"");
                push_str(&mut p, url.as_str());
                push_str(&mut p, "\"");
                params.push(p);
            },
            None => {},
        }
        if token_rejected {
            params.push(owned("error=\"invalid_token\""));
        }
        let ghost ps = views(params@);
        let mut r = owned("Bearer");
        if params.len() > 0 {
            push_str(&mut r, " ");
            let j = crate::text::join_strings(params.as_slice(), ", ");
            push_str(&mut r, j.as_str());
        }
        proof {
            let expect: Seq<Seq<char>> = match crate::wasi::http::opt_view(self.resource_metadata) {
                Some(u) => seq!["resource_metadata=\""@ + u + "\""@],
                None => Seq::empty(),
            };
            let expect = if token_rejected {
                expect.push("error=\"invalid_token\""@)
            } else {
                expect
            };
            assert(ps =~= expect);
            reveal_strlit("Bearer");
            reveal_strlit("Bearer ");
            reveal_strlit(" ");
            assert("Bearer"@ + " "@ =~= "Bearer "@);
            if ps.len() > 0 {
                assert(r@ =~= "Bearer "@ + join(ps, ", "@));
            }
        }
        r
    }
}

} // verus!
