//! OAuth token storage in a Durable Object. Tokens travel and are stored
//! by their hash only, never in plain text.
use vstd::prelude::*;
use vstd::string::StringSliceAdditionalSpecFns;

use crate::auth::provider::crypto::{sha256, sha256_digest};
use crate::text::{hex_bytes, hex_digit, owned, push_char};
use crate::wasm_server::durable_objects::{store_error_text, DoCall};

verus! {

/// The JSON value `serde_json` holds.
#[verifier::external_type_specification]
#[verifier::external_body]
pub struct ExJsonValue(serde_json::Value);

/// The storage key of a token: `tok_` and the lower-case hex SHA-256 of its
/// bytes. Tokens are never stored in plain text.
pub open spec fn spec_token_key(token: &str) -> Seq<char> {
    "tok_"@ + hex_bytes(sha256(token.spec_bytes()))
}

/// The storage key of a token; see [`spec_token_key`].
pub fn token_key(token: &str) -> (r: String)
    ensures
        r@ == spec_token_key(token),
{
    let digest = sha256_digest(token.as_bytes());
    let mut r = owned("tok_");
    let ghost prefix = r@;
    let mut i: usize = 0;
    while i < digest.len()
        invariant
            i <= digest@.len(),
            prefix == "tok_"@,
            r@ == prefix + hex_bytes(digest@.subrange(0, i as int)),
        decreases digest.len() - i,
    {
        let b = digest[i];
        let hi = b / 16;
        let lo = b % 16;
        let ch = if hi < 10 {
            (hi + 48) as char
        } else {
            (hi + 87) as char
        };
        let cl = if lo < 10 {
            (lo + 48) as char
        } else {
            (lo + 87) as char
        };
        assert(ch == hex_digit(hi as nat));
        assert(cl == hex_digit(lo as nat));
        push_char(&mut r, ch);
        push_char(&mut r, cl);
        proof {
            let s = digest@.subrange(0, i + 1);
            assert(s.drop_last() =~= digest@.subrange(0, i as int));
            assert(s.last() == b);
        }
        i = i + 1;
    }
    assert(digest@.subrange(0, digest@.len() as int) =~= digest@);
    r
}


/// OAuth token data stored in the Durable Object.
#[derive(Debug)]
pub struct OAuthTokenData {
    /// Token type: `authorization_code`, `access_token`, `refresh_token`.
    pub token_type: String,
    /// Client the token was issued to.
    pub client_id: String,
    /// User associated with the token.
    pub user_id: Option<String>,
    /// Session a refresh token is bound to.
    pub session_id: Option<String>,
    /// Scopes granted.
    pub scope: Option<String>,
    /// PKCE code challenge (authorization codes).
    pub code_challenge: Option<String>,
    /// PKCE code challenge method.
    pub code_challenge_method: Option<String>,
    /// Redirect URI (authorization codes).
    pub redirect_uri: Option<String>,
    /// Creation time (Unix milliseconds).
    pub created_at: u64,
    /// Expiration time (Unix milliseconds).
    pub expires_at: u64,
    /// Whether the token has been used (single-use codes).
    pub used: bool,
    /// Custom metadata.
    pub metadata: Option<serde_json::Value>,
}

impl Default for OAuthTokenData {
    fn default() -> (r: Self)
        ensures
            r.token_type@.len() == 0,
            r.client_id@.len() == 0,
            r.user_id is None,
            r.session_id is None,
            r.scope is None,
            r.code_challenge is None,
            r.code_challenge_method is None,
            r.redirect_uri is None,
            r.created_at == 0,
            r.expires_at == 0,
            !r.used,
            r.metadata is None,
    {
        OAuthTokenData {
            token_type: String::new(),
            client_id: String::new(),
            user_id: None,
            session_id: None,
            scope: None,
            code_challenge: None,
            code_challenge_method: None,
            redirect_uri: None,
            created_at: 0,
            expires_at: 0,
            used: false,
            metadata: None,
        }
    }
}

/// Token store backed by a Durable Object namespace.
#[derive(Debug)]
pub struct DurableObjectTokenStore {
    namespace: String,
}

/// Error of a token store operation.
#[derive(Debug)]
pub enum TokenStoreError {
    /// No environment has been set.
    NoEnvironment,
    /// Worker or Durable Object communication error, as reported.
    Worker(String),
    /// Serialisation error.
    Serialization(String),
    /// Deserialisation error.
    Deserialization(String),
}

/// How a token store error reads.
pub open spec fn token_store_message(e: TokenStoreError) -> Seq<char> {
    match e {
        TokenStoreError::NoEnvironment => "No environment set"@,
        TokenStoreError::Worker(m) => "Worker error: "@ + m@,
        TokenStoreError::Serialization(m) => "Serialization error: "@ + m@,
        TokenStoreError::Deserialization(m) => "Deserialization error: "@ + m@,
    }
}

impl TokenStoreError {
    /// The error as text.
    pub fn to_string(&self) -> (r: String)
        ensures
            r@ == token_store_message(*self),
    {
        store_error_text(
            match self {
                TokenStoreError::NoEnvironment => None,
                TokenStoreError::Worker(m) => Some(("Worker error: ", m.as_str())),
                TokenStoreError::Serialization(m) => Some(("Serialization error: ", m.as_str())),
                TokenStoreError::Deserialization(m) => Some(("Deserialization error: ", m.as_str())),
            },
        )
    }
}

/// Request to store a token.
#[derive(Debug)]
pub struct StoreRequest {
    /// Token type.
    pub token_type: String,
    /// Hash of the token.
    pub token_hash: String,
    /// Token data.
    pub data: OAuthTokenData,
    /// Time to expiry in milliseconds.
    pub expires_in_ms: u64,
}

/// Request naming a stored token (to read, take or delete it).
#[derive(Debug)]
pub struct GetRequest {
    /// Token type.
    pub token_type: String,
    /// Hash of the token.
    pub token_hash: String,
}

/// The token data read, if any.
#[derive(Debug)]
pub struct GetResponse {
    /// Token data, if found.
    pub data: Option<OAuthTokenData>,
}

/// Whether a token was deleted.
#[derive(Debug)]
pub struct DeleteResponse {
    /// Whether a token was deleted.
    pub deleted: bool,
}

/// Request to revoke every token of a user.
#[derive(Debug)]
pub struct RevokeAllUserRequest {
    /// User id.
    pub user_id: String,
}

/// Request to revoke every token of a client.
#[derive(Debug)]
pub struct RevokeAllClientRequest {
    /// Client id.
    pub client_id: String,
}

/// Number of tokens revoked.
#[derive(Debug)]
pub struct RevokeAllResponse {
    /// Number of tokens revoked.
    pub revoked: u64,
}

impl DurableObjectTokenStore {
    /// A store on namespace `namespace`.
    pub fn new(namespace: &str) -> (r: Self)
        ensures
            r.namespace_view() == namespace@,
    {
        DurableObjectTokenStore { namespace: owned(namespace) }
    }

    /// The namespace binding, as a value.
    pub closed spec fn namespace_view(self) -> Seq<char> {
        self.namespace@
    }

    /// The namespace binding.
    pub fn namespace(&self) -> (r: &str)
        ensures
            r@ == self.namespace_view(),
    {
        self.namespace.as_str()
    }

    /// The command storing `token` of `token_type` with `data`, to expire in
    /// `expires_in_ms`; it goes to the instance of the data's client.
    pub fn store_call(&self, token_type: &str, token: &str, data: OAuthTokenData, expires_in_ms: u64) -> (r: DoCall<StoreRequest>)
        ensures
            r.key@ == data.client_id@,
            r.path@ == "/tokens/store"@,
            r.body.token_type@ == token_type@,
            r.body.token_hash@ == spec_token_key(token),
            r.body.data == data,
            r.body.expires_in_ms == expires_in_ms,
    {
        let key = owned(data.client_id.as_str());
        DoCall {
            key,
            path: "/tokens/store",
            body: StoreRequest {
                token_type: owned(token_type),
                token_hash: token_key(token),
                data,
                expires_in_ms,
            },
        }
    }

    fn by_hash(token_type: &str, token: &str, path: &'static str) -> (r: DoCall<GetRequest>)
        ensures
            r.key@ == spec_token_key(token),
            r.path == path,
            r.body.token_type@ == token_type@,
            r.body.token_hash@ == spec_token_key(token),
    {
        let token_hash = token_key(token);
        DoCall {
            key: owned(token_hash.as_str()),
            path,
            body: GetRequest { token_type: owned(token_type), token_hash },
        }
    }

    /// The command storing authorization code `code`.
    pub fn store_code_call(&self, code: &str, data: OAuthTokenData, expires_in_ms: u64) -> (r: DoCall<
        StoreRequest,
    >)
        ensures
            r.key@ == data.client_id@,
            r.path@ == "/tokens/store"@,
            r.body.token_type@ == "code"@,
            r.body.token_hash@ == spec_token_key(code),
            r.body.data == data,
            r.body.expires_in_ms == expires_in_ms,
    {
        self.store_call("code", code, data, expires_in_ms)
    }

    /// The command taking authorization code `code` (read and delete at
    /// once: codes are single-use); it goes to the instance of its hash.
    pub fn get_and_delete_code_call(&self, code: &str) -> (r: DoCall<GetRequest>)
        ensures
            r.key@ == spec_token_key(code),
            r.path@ == "/tokens/get-and-delete"@,
            r.body.token_type@ == "code"@,
            r.body.token_hash@ == spec_token_key(code),
    {
        Self::by_hash("code", code, "/tokens/get-and-delete")
    }

    /// The command storing refresh token `token`.
    pub fn store_refresh_token_call(&self, token: &str, data: OAuthTokenData, expires_in_ms: u64) -> (r: DoCall<
        StoreRequest,
    >)
        ensures
            r.key@ == data.client_id@,
            r.path@ == "/tokens/store"@,
            r.body.token_type@ == "refresh"@,
            r.body.token_hash@ == spec_token_key(token),
            r.body.data == data,
            r.body.expires_in_ms == expires_in_ms,
    {
        self.store_call("refresh", token, data, expires_in_ms)
    }

    /// The command reading refresh token `token`.
    pub fn get_refresh_token_call(&self, token: &str) -> (r: DoCall<GetRequest>)
        ensures
            r.key@ == spec_token_key(token),
            r.path@ == "/tokens/get"@,
            r.body.token_type@ == "refresh"@,
            r.body.token_hash@ == spec_token_key(token),
    {
        Self::by_hash("refresh", token, "/tokens/get")
    }

    /// The command revoking refresh token `token`.
    pub fn revoke_refresh_token_call(&self, token: &str) -> (r: DoCall<GetRequest>)
        ensures
            r.key@ == spec_token_key(token),
            r.path@ == "/tokens/delete"@,
            r.body.token_type@ == "refresh"@,
            r.body.token_hash@ == spec_token_key(token),
    {
        Self::by_hash("refresh", token, "/tokens/delete")
    }

    /// The command revoking every token of `user_id`.
    pub fn revoke_all_for_user_call(&self, user_id: &str) -> (r: DoCall<RevokeAllUserRequest>)
        ensures
            r.key@ == user_id@,
            r.path@ == "/tokens/revoke-all-user"@,
            r.body.user_id@ == user_id@,
    {
        DoCall {
            key: owned(user_id),
            path: "/tokens/revoke-all-user",
            body: RevokeAllUserRequest { user_id: owned(user_id) },
        }
    }

    /// The command revoking every token of `client_id`.
    pub fn revoke_all_for_client_call(&self, client_id: &str) -> (r: DoCall<RevokeAllClientRequest>)
        ensures
            r.key@ == client_id@,
            r.path@ == "/tokens/revoke-all-client"@,
            r.body.client_id@ == client_id@,
    {
        DoCall {
            key: owned(client_id),
            path: "/tokens/revoke-all-client",
            body: RevokeAllClientRequest { client_id: owned(client_id) },
        }
    }
}

} // verus!
