//! Core types of the OAuth 2.1 provider: clients, provider settings, error,
//! token and introspection responses.
use vstd::prelude::*;

use crate::text::{clone_strings, contains_str, join, join_strings, owned, push_str, views};

verus! {

/// OAuth 2.1 grant types.
#[derive(Debug, Clone, Copy, PartialEq, Eq, Structural, Hash)]
pub enum GrantType {
    /// Authorization code grant (RFC 6749 Section 4.1)
    AuthorizationCode,
    /// Refresh token grant (RFC 6749 Section 6)
    RefreshToken,
    /// Client credentials grant (RFC 6749 Section 4.4)
    ClientCredentials,
}

impl GrantType {
    /// The wire name of the grant type.
    pub open spec fn spec_name(self) -> Seq<char> {
        match self {
            GrantType::AuthorizationCode => "authorization_code"@,
            GrantType::RefreshToken => "refresh_token"@,
            GrantType::ClientCredentials => "client_credentials"@,
        }
    }

    /// Get the grant type as a string.
    pub fn as_str(&self) -> (r: &'static str)
        ensures
            r@ == self.spec_name(),
    {
        match self {
            GrantType::AuthorizationCode => "authorization_code",
            GrantType::RefreshToken => "refresh_token",
            GrantType::ClientCredentials => "client_credentials",
        }
    }
}

/// OAuth 2.1 response types.
#[derive(Debug, Clone, Copy, PartialEq, Eq, Structural, Hash)]
pub enum ResponseType {
    /// Authorization code response
    Code,
}

impl ResponseType {
    /// Get the response type as a string.
    pub fn as_str(&self) -> (r: &'static str)
        ensures
            r@ == "code"@,
    {
        match self {
            ResponseType::Code => "code",
        }
    }
}

/// PKCE code challenge methods (RFC 7636).
#[derive(Debug, Clone, Copy, PartialEq, Eq, Structural, Hash)]
pub enum CodeChallengeMethod {
    /// Plain (not recommended, only for legacy support)
    Plain,
    /// SHA-256 (recommended)
    S256,
}

impl CodeChallengeMethod {
    /// The wire name of the method.
    pub open spec fn spec_name(self) -> Seq<char> {
        match self {
            CodeChallengeMethod::Plain => "plain"@,
            CodeChallengeMethod::S256 => "S256"@,
        }
    }

    /// Get the method as a string.
    pub fn as_str(&self) -> (r: &'static str)
        ensures
            r@ == self.spec_name(),
    {
        match self {
            CodeChallengeMethod::Plain => "plain",
            CodeChallengeMethod::S256 => "S256",
        }
    }
}

impl Default for CodeChallengeMethod {
    fn default() -> (r: Self)
        ensures
            r == CodeChallengeMethod::S256,
    {
        CodeChallengeMethod::S256
    }
}

/// Client authentication method.
#[derive(Debug, Clone, Copy, PartialEq, Eq, Structural, Hash)]
pub enum ClientAuthMethod {
    /// No authentication (public client, requires PKCE)
    NoAuth,
    /// Client secret in POST body
    ClientSecretPost,
    /// Client secret in Authorization header (Basic auth)
    ClientSecretBasic,
}

impl Default for ClientAuthMethod {
    fn default() -> (r: Self)
        ensures
            r == ClientAuthMethod::NoAuth,
    {
        ClientAuthMethod::NoAuth
    }
}

/// Whether a configuration that does not name `pkce_required` requires PKCE.
pub fn default_pkce_required() -> (r: bool)
    ensures
        r,
{
    true
}

/// Configuration for an OAuth client.
#[derive(Debug, Clone)]
pub struct ClientConfig {
    /// Client identifier
    pub client_id: String,
    /// Client secret (for confidential clients)
    pub client_secret: Option<String>,
    /// Allowed redirect URIs
    pub redirect_uris: Vec<String>,
    /// Allowed grant types
    pub grant_types: Vec<GrantType>,
    /// Client authentication method
    pub auth_method: ClientAuthMethod,
    /// Whether PKCE is required (mandatory for public clients)
    pub pkce_required: bool,
    /// Client name (for display)
    pub name: Option<String>,
    /// Client homepage URL
    pub homepage_url: Option<String>,
    /// Allowed scopes
    pub allowed_scopes: Vec<String>,
    /// Default scopes (used when none requested)
    pub default_scopes: Vec<String>,
}

/// Whether `v` holds `g`.
fn contains_grant(v: &Vec<GrantType>, g: GrantType) -> (r: bool)
    ensures
        r == v@.contains(g),
{
    let mut i: usize = 0;
    while i < v.len()
        invariant
            i <= v.len(),
            forall|j: int| 0 <= j < i ==> v@[j] != g,
        decreases v.len() - i,
    {
        if v[i] == g {
            assert(v@[i as int] == g);
            return true;
        }
        i = i + 1;
    }
    false
}

impl ClientConfig {
    /// The grant types a new client starts with.
    pub open spec fn initial_grants() -> Seq<GrantType> {
        seq![GrantType::AuthorizationCode, GrantType::RefreshToken]
    }

    /// The scopes a client lets through from `requested`: all of them when
    /// it restricts none, else those on its allowed list, in request order.
    pub open spec fn spec_filter(allowed: Seq<Seq<char>>, requested: Seq<Seq<char>>) -> Seq<
        Seq<char>,
    > {
        if allowed.len() == 0 {
            requested
        } else {
            requested.filter(|s: Seq<char>| allowed.contains(s))
        }
    }

    /// Whether the client allows `scope`.
    pub open spec fn spec_scope_allowed(self, scope: Seq<char>) -> bool {
        self.allowed_scopes@.len() == 0 || views(self.allowed_scopes@).contains(scope)
    }

    /// Create a new public client configuration.
    ///
    /// Public clients (no secret) require PKCE for security.
    pub fn public(client_id: &str, redirect_uris: Vec<String>) -> (r: Self)
        ensures
            r.client_id@ == client_id@,
            r.client_secret.is_none(),
            r.redirect_uris == redirect_uris,
            r.grant_types@ == Self::initial_grants(),
            r.auth_method == ClientAuthMethod::NoAuth,
            r.pkce_required,
            r.name.is_none(),
            r.homepage_url.is_none(),
            r.allowed_scopes@.len() == 0,
            r.default_scopes@.len() == 0,
    {
        ClientConfig {
            client_id: owned(client_id),
            client_secret: None,
            redirect_uris,
            grant_types: vec![GrantType::AuthorizationCode, GrantType::RefreshToken],
            auth_method: ClientAuthMethod::NoAuth,
            pkce_required: true,
            name: None,
            homepage_url: None,
            allowed_scopes: Vec::new(),
            default_scopes: Vec::new(),
        }
    }

    /// Create a new confidential client configuration.
    ///
    /// Confidential clients have a secret and PKCE is optional but recommended.
    pub fn confidential(client_id: &str, client_secret: &str, redirect_uris: Vec<String>) -> (r:
        Self)
        ensures
            r.client_id@ == client_id@,
            r.client_secret matches Some(s) && s@ == client_secret@,
            r.redirect_uris == redirect_uris,
            r.grant_types@ == Self::initial_grants(),
            r.auth_method == ClientAuthMethod::ClientSecretBasic,
            !r.pkce_required,
            r.name.is_none(),
            r.homepage_url.is_none(),
            r.allowed_scopes@.len() == 0,
            r.default_scopes@.len() == 0,
    {
        ClientConfig {
            client_id: owned(client_id),
            client_secret: Some(owned(client_secret)),
            redirect_uris,
            grant_types: vec![GrantType::AuthorizationCode, GrantType::RefreshToken],
            auth_method: ClientAuthMethod::ClientSecretBasic,
            pkce_required: false,
            name: None,
            homepage_url: None,
            allowed_scopes: Vec::new(),
            default_scopes: Vec::new(),
        }
    }

    /// Add a grant type; one already allowed is not listed twice.
    pub fn with_grant_type(self, grant_type: GrantType) -> (r: Self)
        ensures
            r.grant_types@ == (if self.grant_types@.contains(grant_type) {
                self.grant_types@
            } else {
                self.grant_types@.push(grant_type)
            }),
            r == (ClientConfig { grant_types: r.grant_types, ..self }),
    {
        let mut s = self;
        if !contains_grant(&s.grant_types, grant_type) {
            s.grant_types.push(grant_type);
        }
        s
    }

    /// Set allowed scopes.
    pub fn with_allowed_scopes(self, scopes: Vec<String>) -> (r: Self)
        ensures
            r == (ClientConfig { allowed_scopes: scopes, ..self }),
    {
        let mut s = self;
        s.allowed_scopes = scopes;
        s
    }

    /// Set default scopes.
    pub fn with_default_scopes(self, scopes: Vec<String>) -> (r: Self)
        ensures
            r == (ClientConfig { default_scopes: scopes, ..self }),
    {
        let mut s = self;
        s.default_scopes = scopes;
        s
    }

    /// Set client name.
    pub fn with_name(self, name: &str) -> (r: Self)
        ensures
            r.name matches Some(n) && n@ == name@,
            r == (ClientConfig { name: r.name, ..self }),
    {
        let mut s = self;
        s.name = Some(owned(name));
        s
    }

    /// Check if a redirect URI is allowed: only an exact match is.
    pub fn is_redirect_uri_allowed(&self, uri: &str) -> (r: bool)
        ensures
            r == views(self.redirect_uris@).contains(uri@),
    {
        contains_str(&self.redirect_uris, uri)
    }

    /// Check if a grant type is allowed.
    pub fn is_grant_type_allowed(&self, grant_type: GrantType) -> (r: bool)
        ensures
            r == self.grant_types@.contains(grant_type),
    {
        contains_grant(&self.grant_types, grant_type)
    }

    /// Check if a scope is allowed: any is when the client restricts none.
    pub fn is_scope_allowed(&self, scope: &str) -> (r: bool)
        ensures
            r == self.spec_scope_allowed(scope@),
    {
        self.allowed_scopes.len() == 0 || contains_str(&self.allowed_scopes, scope)
    }

    /// Filter requested scopes to only allowed ones.
    pub fn filter_scopes(&self, requested: &[String]) -> (r: Vec<String>)
        ensures
            views(r@) == Self::spec_filter(views(self.allowed_scopes@), views(requested@)),
    {
        if self.allowed_scopes.len() == 0 {
            return clone_strings(requested);
        }
        let ghost allowed = views(self.allowed_scopes@);
        let ghost pred = |s: Seq<char>| allowed.contains(s);
        let mut r: Vec<String> = Vec::new();
        let mut i: usize = 0;
        while i < requested.len()
            invariant
                i <= requested@.len(),
                allowed == views(self.allowed_scopes@),
                pred == (|s: Seq<char>| allowed.contains(s)),
                views(r@) == views(requested@).subrange(0, i as int).filter(pred),
            decreases requested.len() - i,
        {
            let ghost before = views(requested@).subrange(0, i as int);
            let ghost x = requested@[i as int]@;
            proof {
                assert(views(requested@).subrange(0, i + 1) =~= before.push(x));
                before.lemma_filter_push(x, pred);
            }
            if contains_str(&self.allowed_scopes, requested[i].as_str()) {
                let c = requested[i].clone();
                let ghost old_r = r@;
                r.push(c);
                proof {
                    assert(views(r@) =~= views(old_r).push(x));
                }
            }
            i = i + 1;
        }
        assert(views(requested@).subrange(0, requested@.len() as int) =~= views(requested@));
        r
    }

    /// Get effective scopes: the defaults when none are requested, else the
    /// requested ones the client allows.
    pub fn effective_scopes(&self, requested: &[String]) -> (r: Vec<String>)
        ensures
            requested@.len() == 0 ==> views(r@) == views(self.default_scopes@),
            requested@.len() != 0 ==> views(r@) == Self::spec_filter(
                views(self.allowed_scopes@),
                views(requested@),
            ),
    {
        if requested.len() == 0 {
            clone_strings(self.default_scopes.as_slice())
        } else {
            self.filter_scopes(requested)
        }
    }
}

/// Every scope that `filter_scopes` lets through is one the client allows
/// and one that was requested, and every requested scope the client allows
/// is let through.
pub proof fn law_filtered_scopes_are_allowed(c: ClientConfig, requested: Seq<Seq<char>>)
    ensures
        forall|i: int|
            0 <= i < ClientConfig::spec_filter(views(c.allowed_scopes@), requested).len()
                ==> c.spec_scope_allowed(
                #[trigger] ClientConfig::spec_filter(views(c.allowed_scopes@), requested)[i],
            ) && requested.contains(
                ClientConfig::spec_filter(views(c.allowed_scopes@), requested)[i],
            ),
        forall|i: int|
            0 <= i < requested.len() && c.spec_scope_allowed(requested[i])
                ==> ClientConfig::spec_filter(views(c.allowed_scopes@), requested).contains(
                #[trigger] requested[i],
            ),
{
    let allowed = views(c.allowed_scopes@);
    let pred = |s: Seq<char>| allowed.contains(s);
    let out = ClientConfig::spec_filter(allowed, requested);
    if allowed.len() != 0 {
        assert forall|i: int| 0 <= i < out.len() implies c.spec_scope_allowed(#[trigger] out[i])
            && requested.contains(out[i]) by {
            requested.lemma_filter_pred(pred, i);
            lemma_filter_subset(requested, pred, i);
        }
        assert forall|i: int| 0 <= i < requested.len() && c.spec_scope_allowed(requested[i])
            implies out.contains(#[trigger] requested[i]) by {
            requested.lemma_filter_contains(pred, i);
        }
    } else {
        assert forall|i: int| 0 <= i < out.len() implies c.spec_scope_allowed(#[trigger] out[i])
            && requested.contains(out[i]) by {
            assert(requested[i] == out[i]);
        }
    }
}

/// An element kept by `filter` was in the original sequence.
proof fn lemma_filter_subset(s: Seq<Seq<char>>, pred: spec_fn(Seq<char>) -> bool, i: int)
    requires
        0 <= i < s.filter(pred).len(),
    ensures
        s.contains(s.filter(pred)[i]),
    decreases s.len(),
{
    reveal(Seq::filter);
    if s.len() > 0 {
        let sub = s.drop_last().filter(pred);
        if i < sub.len() {
            lemma_filter_subset(s.drop_last(), pred, i);
            let k = choose|k: int| 0 <= k < s.drop_last().len() && s.drop_last()[k] == sub[i];
            assert(s[k] == s.filter(pred)[i]);
        } else {
            assert(s.filter(pred)[i] == s.last());
            assert(s[s.len() - 1] == s.last());
        }
    }
}

/// Adding a grant type keeps the list free of repeats, and the grant is
/// allowed afterwards.
pub proof fn law_grant_types_stay_unique(grants: Seq<GrantType>, g: GrantType)
    requires
        grants.no_duplicates(),
    ensures
        ({
            let after = if grants.contains(g) {
                grants
            } else {
                grants.push(g)
            };
            after.no_duplicates() && after.contains(g)
        }),
{
    if !grants.contains(g) {
        let after = grants.push(g);
        assert(after[after.len() - 1] == g);
        assert forall|i: int, j: int|
            0 <= i < after.len() && 0 <= j < after.len() && i != j implies after[i]
            != after[j] by {
            if i == after.len() - 1 && j < grants.len() {
                assert(grants[j] == after[j]);
            } else if j == after.len() - 1 && i < grants.len() {
                assert(grants[i] == after[i]);
            }
        }
    }
}

/// Index of the first client registered under `id`, or the length when
/// there is none.
pub open spec fn client_index(s: Seq<ClientConfig>, id: Seq<char>) -> int
    decreases s.len(),
{
    if s.len() == 0 {
        0
    } else if s[0].client_id@ == id {
        0
    } else {
        1 + client_index(s.drop_first(), id)
    }
}

/// `client_index` is the first position whose client has `id`.
pub proof fn lemma_client_index(s: Seq<ClientConfig>, id: Seq<char>)
    ensures
        0 <= client_index(s, id) <= s.len(),
        forall|j: int| 0 <= j < client_index(s, id) ==> s[j].client_id@ != id,
        client_index(s, id) < s.len() ==> s[client_index(s, id)].client_id@ == id,
    decreases s.len(),
{
    if s.len() > 0 && s[0].client_id@ != id {
        lemma_client_index(s.drop_first(), id);
        let t = s.drop_first();
        assert forall|j: int| 0 <= j < client_index(s, id) implies s[j].client_id@ != id by {
            if j > 0 {
                assert(s[j] == t[j - 1]);
            }
        }
    }
}

/// `client_index` is pinned by the first position holding `id`.
proof fn lemma_client_index_at(s: Seq<ClientConfig>, id: Seq<char>, k: int)
    requires
        0 <= k <= s.len(),
        forall|j: int| 0 <= j < k ==> s[j].client_id@ != id,
        k < s.len() ==> s[k].client_id@ == id,
    ensures
        client_index(s, id) == k,
    decreases k,
{
    if k > 0 {
        let t = s.drop_first();
        assert forall|j: int| 0 <= j < k - 1 implies t[j].client_id@ != id by {
            assert(t[j] == s[j + 1]);
        }
        lemma_client_index_at(t, id, k - 1);
    }
}

/// The registry after registering `c` over `s`: the client registered
/// under the same id is replaced, else `c` is appended.
pub open spec fn registered(s: Seq<ClientConfig>, c: ClientConfig) -> Seq<ClientConfig> {
    let k = client_index(s, c.client_id@);
    if k < s.len() {
        s.update(k, c)
    } else {
        s.push(c)
    }
}

/// OAuth provider configuration.
#[derive(Debug, Clone)]
pub struct OAuthProviderConfig {
    /// Issuer identifier (e.g., "https://my-server.workers.dev")
    pub issuer: String,
    /// Authorization endpoint path (default: "/oauth/authorize")
    pub authorization_endpoint: String,
    /// Token endpoint path (default: "/oauth/token")
    pub token_endpoint: String,
    /// Revocation endpoint path (default: "/oauth/revoke")
    pub revocation_endpoint: String,
    /// Introspection endpoint path (default: "/oauth/introspect")
    pub introspection_endpoint: String,
    /// JWKS endpoint path (default: "/.well-known/jwks.json")
    pub jwks_endpoint: String,
    /// Authorization code lifetime in seconds (default: 600 = 10 minutes)
    pub authorization_code_lifetime: u64,
    /// Access token lifetime in seconds (default: 3600 = 1 hour)
    pub access_token_lifetime: u64,
    /// Refresh token lifetime in seconds (default: 2592000 = 30 days)
    pub refresh_token_lifetime: u64,
    /// Whether to issue refresh tokens (default: true)
    pub issue_refresh_tokens: bool,
    /// Token signing algorithm (default: RS256)
    pub signing_algorithm: String,
    /// Registered clients, at most one per client id
    pub clients: Vec<ClientConfig>,
    /// Supported scopes
    pub supported_scopes: Vec<String>,
}

impl OAuthProviderConfig {
    /// Whether every setting but the issuer has its default value.
    pub open spec fn has_defaults(self) -> bool {
        &&& self.authorization_endpoint@ == "/oauth/authorize"@
        &&& self.token_endpoint@ == "/oauth/token"@
        &&& self.revocation_endpoint@ == "/oauth/revoke"@
        &&& self.introspection_endpoint@ == "/oauth/introspect"@
        &&& self.jwks_endpoint@ == "/.well-known/jwks.json"@
        &&& self.authorization_code_lifetime == 600
        &&& self.access_token_lifetime == 3600
        &&& self.refresh_token_lifetime == 2592000
        &&& self.issue_refresh_tokens
        &&& self.signing_algorithm@ == "RS256"@
        &&& self.clients@.len() == 0
        &&& self.supported_scopes@.len() == 0
    }
}

impl Default for OAuthProviderConfig {
    fn default() -> (r: Self)
        ensures
            r.issuer@ == Seq::<char>::empty(),
            r.has_defaults(),
    {
        OAuthProviderConfig {
            issuer: String::new(),
            authorization_endpoint: owned("/oauth/authorize"),
            token_endpoint: owned("/oauth/token"),
            revocation_endpoint: owned("/oauth/revoke"),
            introspection_endpoint: owned("/oauth/introspect"),
            jwks_endpoint: owned("/.well-known/jwks.json"),
            authorization_code_lifetime: 600,
            access_token_lifetime: 3600,
            refresh_token_lifetime: 2592000,
            issue_refresh_tokens: true,
            signing_algorithm: owned("RS256"),
            clients: Vec::new(),
            supported_scopes: Vec::new(),
        }
    }
}

impl OAuthProviderConfig {
    /// Create a new OAuth provider configuration.
    pub fn new(issuer: &str) -> (r: Self)
        ensures
            r.issuer@ == issuer@,
            r.has_defaults(),
    {
        let mut c = OAuthProviderConfig::default();
        c.issuer = owned(issuer);
        c
    }

    /// Register a client, replacing one registered under the same id.
    pub fn with_client(self, config: ClientConfig) -> (r: Self)
        ensures
            r.clients@ == registered(self.clients@, config),
            r == (OAuthProviderConfig { clients: r.clients, ..self }),
    {
        let mut s = self;
        let ghost id = config.client_id@;
        let mut i: usize = 0;
        while i < s.clients.len()
            invariant
                i <= s.clients@.len(),
                s == self,
                id == config.client_id@,
                forall|j: int| 0 <= j < i ==> s.clients@[j].client_id@ != id,
            decreases s.clients.len() - i,
        {
            if crate::text::str_eq(s.clients[i].client_id.as_str(), config.client_id.as_str()) {
                proof {
                    lemma_client_index_at(s.clients@, id, i as int);
                }
                s.clients.set(i, config);
                return s;
            }
            i = i + 1;
        }
        proof {
            lemma_client_index_at(s.clients@, id, i as int);
        }
        s.clients.push(config);
        s
    }

    /// Set supported scopes.
    pub fn with_scopes(self, scopes: Vec<String>) -> (r: Self)
        ensures
            r == (OAuthProviderConfig { supported_scopes: scopes, ..self }),
    {
        let mut s = self;
        s.supported_scopes = scopes;
        s
    }

    /// Set access token lifetime.
    pub fn with_access_token_lifetime(self, seconds: u64) -> (r: Self)
        ensures
            r == (OAuthProviderConfig { access_token_lifetime: seconds, ..self }),
    {
        let mut s = self;
        s.access_token_lifetime = seconds;
        s
    }

    /// Set refresh token lifetime.
    pub fn with_refresh_token_lifetime(self, seconds: u64) -> (r: Self)
        ensures
            r == (OAuthProviderConfig { refresh_token_lifetime: seconds, ..self }),
    {
        let mut s = self;
        s.refresh_token_lifetime = seconds;
        s
    }

    /// Get client by ID.
    pub fn get_client(&self, client_id: &str) -> (r: Option<&ClientConfig>)
        ensures
            ({
                let k = client_index(self.clients@, client_id@);
                match r {
                    Some(c) => k < self.clients@.len() && *c == self.clients@[k],
                    None => k == self.clients@.len(),
                }
            }),
    {
        let mut i: usize = 0;
        while i < self.clients.len()
            invariant
                i <= self.clients@.len(),
                forall|j: int| 0 <= j < i ==> self.clients@[j].client_id@ != client_id@,
            decreases self.clients.len() - i,
        {
            if crate::text::str_eq(self.clients[i].client_id.as_str(), client_id) {
                proof {
                    lemma_client_index_at(self.clients@, client_id@, i as int);
                }
                return Some(&self.clients[i]);
            }
            i = i + 1;
        }
        proof {
            lemma_client_index_at(self.clients@, client_id@, i as int);
        }
        None
    }

    /// Get the full authorization endpoint URL.
    pub fn authorization_endpoint_url(&self) -> (r: String)
        ensures
            r@ == self.issuer@ + self.authorization_endpoint@,
    {
        let mut s = self.issuer.clone();
        push_str(&mut s, self.authorization_endpoint.as_str());
        s
    }

    /// Get the full token endpoint URL.
    pub fn token_endpoint_url(&self) -> (r: String)
        ensures
            r@ == self.issuer@ + self.token_endpoint@,
    {
        let mut s = self.issuer.clone();
        push_str(&mut s, self.token_endpoint.as_str());
        s
    }

    /// Get the full JWKS endpoint URL.
    pub fn jwks_endpoint_url(&self) -> (r: String)
        ensures
            r@ == self.issuer@ + self.jwks_endpoint@,
    {
        let mut s = self.issuer.clone();
        push_str(&mut s, self.jwks_endpoint.as_str());
        s
    }
}

/// A client read back right after it was registered is the one registered,
/// and registering leaves every other client id's lookup unchanged.
pub proof fn law_client_registry_read_after_write(
    s: Seq<ClientConfig>,
    c: ClientConfig,
    other: Seq<char>,
)
    requires
        other != c.client_id@,
    ensures
        client_index(registered(s, c), c.client_id@) < registered(s, c).len(),
        registered(s, c)[client_index(registered(s, c), c.client_id@)] == c,
        client_index(registered(s, c), other) < registered(s, c).len() <==> client_index(s, other)
            < s.len(),
        client_index(s, other) < s.len() ==> registered(s, c)[client_index(
            registered(s, c),
            other,
        )] == s[client_index(s, other)],
{
    let id = c.client_id@;
    let t = registered(s, c);
    let k = client_index(s, id);
    lemma_client_index(s, id);
    lemma_client_index(s, other);
    let ko = client_index(s, other);
    if k < s.len() {
        lemma_client_index_at(t, id, k);
        assert forall|j: int| 0 <= j < ko implies t[j].client_id@ != other by {
            if j == k {
                assert(t[j] == c);
            }
        }
        if ko < s.len() {
            assert(ko != k);
            lemma_client_index_at(t, other, ko);
        } else {
            assert forall|j: int| 0 <= j < t.len() implies t[j].client_id@ != other by {
                if j == k {
                    assert(t[j] == c);
                }
            }
            lemma_client_index_at(t, other, t.len() as int);
        }
    } else {
        lemma_client_index_at(t, id, k);
        if ko < s.len() {
            lemma_client_index_at(t, other, ko);
        } else {
            lemma_client_index_at(t, other, t.len() as int);
        }
    }
}

/// OAuth error response (RFC 6749 Section 5.2).
#[derive(Debug, Clone)]
pub struct OAuthError {
    /// Error code
    pub error: String,
    /// Human-readable error description
    pub error_description: Option<String>,
    /// Error URI for more information
    pub error_uri: Option<String>,
    /// State parameter (for authorization errors)
    pub state: Option<String>,
}

impl OAuthError {
    /// Whether this error carries `code` and `description`, and nothing else.
    pub open spec fn is_plain(self, code: Seq<char>, description: Seq<char>) -> bool {
        &&& self.error@ == code
        &&& self.error_description matches Some(d) && d@ == description
        &&& self.error_uri.is_none()
        &&& self.state.is_none()
    }

    fn coded(code: &str, description: &str) -> (r: Self)
        ensures
            r.is_plain(code@, description@),
    {
        OAuthError {
            error: owned(code),
            error_description: Some(owned(description)),
            error_uri: None,
            state: None,
        }
    }

    /// Create an invalid_request error.
    pub fn invalid_request(description: &str) -> (r: Self)
        ensures
            r.is_plain("invalid_request"@, description@),
    {
        Self::coded("invalid_request", description)
    }

    /// Create an unauthorized_client error.
    pub fn unauthorized_client(description: &str) -> (r: Self)
        ensures
            r.is_plain("unauthorized_client"@, description@),
    {
        Self::coded("unauthorized_client", description)
    }

    /// Create an access_denied error.
    pub fn access_denied(description: &str) -> (r: Self)
        ensures
            r.is_plain("access_denied"@, description@),
    {
        Self::coded("access_denied", description)
    }

    /// Create an unsupported_response_type error.
    pub fn unsupported_response_type(description: &str) -> (r: Self)
        ensures
            r.is_plain("unsupported_response_type"@, description@),
    {
        Self::coded("unsupported_response_type", description)
    }

    /// Create an invalid_scope error.
    pub fn invalid_scope(description: &str) -> (r: Self)
        ensures
            r.is_plain("invalid_scope"@, description@),
    {
        Self::coded("invalid_scope", description)
    }

    /// Create a server_error error.
    pub fn server_error(description: &str) -> (r: Self)
        ensures
            r.is_plain("server_error"@, description@),
    {
        Self::coded("server_error", description)
    }

    /// Create an invalid_grant error.
    pub fn invalid_grant(description: &str) -> (r: Self)
        ensures
            r.is_plain("invalid_grant"@, description@),
    {
        Self::coded("invalid_grant", description)
    }

    /// Create an invalid_client error.
    pub fn invalid_client(description: &str) -> (r: Self)
        ensures
            r.is_plain("invalid_client"@, description@),
    {
        Self::coded("invalid_client", description)
    }

    /// Create an unsupported_grant_type error.
    pub fn unsupported_grant_type(description: &str) -> (r: Self)
        ensures
            r.is_plain("unsupported_grant_type"@, description@),
    {
        Self::coded("unsupported_grant_type", description)
    }

    /// Set the state parameter.
    pub fn with_state(self, state: &str) -> (r: Self)
        ensures
            r.state matches Some(s) && s@ == state@,
            r == (OAuthError { state: r.state, ..self }),
    {
        let mut s = self;
        s.state = Some(owned(state));
        s
    }
}

/// Token response (RFC 6749 Section 5.1).
#[derive(Debug, Clone)]
pub struct TokenResponse {
    /// Access token
    pub access_token: String,
    /// Token type (always "Bearer")
    pub token_type: String,
    /// Expiration time in seconds
    pub expires_in: Option<u64>,
    /// Refresh token
    pub refresh_token: Option<String>,
    /// Granted scopes (if different from request)
    pub scope: Option<String>,
}

impl TokenResponse {
    /// Create a new bearer token response.
    pub fn new(access_token: &str) -> (r: Self)
        ensures
            r.access_token@ == access_token@,
            r.token_type@ == "Bearer"@,
            r.expires_in.is_none(),
            r.refresh_token.is_none(),
            r.scope.is_none(),
    {
        TokenResponse {
            access_token: owned(access_token),
            token_type: owned("Bearer"),
            expires_in: None,
            refresh_token: None,
            scope: None,
        }
    }

    /// Set expiration time.
    pub fn with_expires_in(self, seconds: u64) -> (r: Self)
        ensures
            r == (TokenResponse { expires_in: Some(seconds), ..self }),
    {
        let mut s = self;
        s.expires_in = Some(seconds);
        s
    }

    /// Set refresh token.
    pub fn with_refresh_token(self, token: &str) -> (r: Self)
        ensures
            r.refresh_token matches Some(t) && t@ == token@,
            r == (TokenResponse { refresh_token: r.refresh_token, ..self }),
    {
        let mut s = self;
        s.refresh_token = Some(owned(token));
        s
    }

    /// Set granted scopes, space-separated; an empty list leaves the scope
    /// as it was.
    pub fn with_scope(self, scopes: &[String]) -> (r: Self)
        ensures
            scopes@.len() == 0 ==> r == self,
            scopes@.len() != 0 ==> (r.scope matches Some(s) && s@ == join(
                views(scopes@),
                " "@,
            )),
            r == (TokenResponse { scope: r.scope, ..self }),
    {
        let mut s = self;
        if scopes.len() != 0 {
            s.scope = Some(join_strings(scopes, " "));
        }
        s
    }
}

/// Token introspection response (RFC 7662).
#[derive(Debug, Clone)]
pub struct IntrospectionResponse {
    /// Whether the token is active
    pub active: bool,
    /// Scopes
    pub scope: Option<String>,
    /// Client ID
    pub client_id: Option<String>,
    /// Subject
    pub sub: Option<String>,
    /// Expiration time
    pub exp: Option<u64>,
    /// Issued at
    pub iat: Option<u64>,
    /// Token type
    pub token_type: Option<String>,
}

impl IntrospectionResponse {
    /// Create an inactive response, which says nothing else.
    pub fn inactive() -> (r: Self)
        ensures
            !r.active,
            r.scope.is_none(),
            r.client_id.is_none(),
            r.sub.is_none(),
            r.exp.is_none(),
            r.iat.is_none(),
            r.token_type.is_none(),
    {
        IntrospectionResponse {
            active: false,
            scope: None,
            client_id: None,
            sub: None,
            exp: None,
            iat: None,
            token_type: None,
        }
    }

    /// Create an active bearer-token response.
    pub fn active(
        subject: &str,
        client_id: &str,
        scopes: &[String],
        expires_at: u64,
        issued_at: u64,
    ) -> (r: Self)
        ensures
            r.active,
            scopes@.len() == 0 ==> r.scope.is_none(),
            scopes@.len() != 0 ==> (r.scope matches Some(s) && s@ == join(
                views(scopes@),
                " "@,
            )),
            r.client_id matches Some(c) && c@ == client_id@,
            r.sub matches Some(s) && s@ == subject@,
            r.exp == Some(expires_at),
            r.iat == Some(issued_at),
            r.token_type matches Some(t) && t@ == "Bearer"@,
    {
        IntrospectionResponse {
            active: true,
            scope: if scopes.len() == 0 {
                None
            } else {
                Some(join_strings(scopes, " "))
            },
            client_id: Some(owned(client_id)),
            sub: Some(owned(subject)),
            exp: Some(expires_at),
            iat: Some(issued_at),
            token_type: Some(owned("Bearer")),
        }
    }
}

} // verus!
