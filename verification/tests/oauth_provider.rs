use turbomcp_wasm::auth::provider::crypto::{
    constant_time_compare, encode_token, generate_code_challenge, hash_token,
    validate_code_verifier, verify_pkce,
};
use turbomcp_wasm::auth::provider::types::{
    ClientConfig, GrantType, OAuthError, OAuthProviderConfig, TokenResponse,
};

#[test]
fn test_public_client_requires_pkce() {
    let client = ClientConfig::public(
        "my-client",
        vec!["https://app.example.com/callback".to_string()],
    );
    assert!(client.pkce_required);
    assert!(client.client_secret.is_none());
}

#[test]
fn test_confidential_client_has_secret() {
    let client = ClientConfig::confidential(
        "my-client",
        "secret123",
        vec!["https://app.example.com/callback".to_string()],
    );
    assert!(!client.pkce_required);
    assert!(client.client_secret.is_some());
}

#[test]
fn test_redirect_uri_validation() {
    let client = ClientConfig::public(
        "my-client",
        vec![
            "https://app.example.com/callback".to_string(),
            "https://app.example.com/callback2".to_string(),
        ],
    );

    assert!(client.is_redirect_uri_allowed("https://app.example.com/callback"));
    assert!(client.is_redirect_uri_allowed("https://app.example.com/callback2"));
    assert!(!client.is_redirect_uri_allowed("https://evil.com/callback"));
}

#[test]
fn test_scope_filtering() {
    let client = ClientConfig::public("my-client", vec![])
        .with_allowed_scopes(vec!["read".to_string(), "write".to_string()]);

    let filtered = client.filter_scopes(&[
        "read".to_string(),
        "admin".to_string(),
        "write".to_string(),
    ]);

    assert_eq!(filtered, vec!["read", "write"]);
}

#[test]
fn test_oauth_error_types() {
    let err = OAuthError::invalid_request("Missing client_id");
    assert_eq!(err.error, "invalid_request");

    let err = OAuthError::invalid_grant("Code expired").with_state("state123");
    assert_eq!(err.error, "invalid_grant");
    assert_eq!(err.state, Some("state123".to_string()));
}

#[test]
fn test_token_response() {
    let response = TokenResponse::new("access_token_123")
        .with_expires_in(3600)
        .with_refresh_token("refresh_token_456")
        .with_scope(&["read".to_string(), "write".to_string()]);

    assert_eq!(response.access_token, "access_token_123");
    assert_eq!(response.token_type, "Bearer");
    assert_eq!(response.expires_in, Some(3600));
    assert_eq!(
        response.refresh_token,
        Some("refresh_token_456".to_string())
    );
    assert_eq!(response.scope, Some("read write".to_string()));
}

#[test]
fn test_constant_time_compare() {
    assert!(constant_time_compare("hello", "hello"));
    assert!(!constant_time_compare("hello", "world"));
    assert!(!constant_time_compare("hello", "hell"));
    assert!(!constant_time_compare("", "hello"));
}

#[test]
fn test_validate_code_verifier() {
    assert!(validate_code_verifier(
        "dBjftJeZ4CVP-mB92K27uhbUJU1p1r_wW1gFWFOEjXk"
    ));
    assert!(validate_code_verifier(&"a".repeat(43)));
    assert!(validate_code_verifier(&"a".repeat(128)));
    assert!(!validate_code_verifier(&"a".repeat(42)));
    assert!(!validate_code_verifier(&"a".repeat(129)));
    assert!(!validate_code_verifier(&format!("{}!", "a".repeat(42))));
    assert!(!validate_code_verifier(&format!("{}@", "a".repeat(42))));
    assert!(!validate_code_verifier(&format!("{} ", "a".repeat(42))));
    assert!(validate_code_verifier(&format!("abc-._~{}", "x".repeat(39))));
}

#[test]
fn test_base64_url_encoding() {
    let data = vec![0xfb, 0xff, 0xfe];
    let encoded = encode_token(&data);
    assert!(!encoded.contains('+'));
    assert!(!encoded.contains('/'));
    assert!(!encoded.contains('='));
    assert_eq!(encoded, "-__-");
}

#[test]
fn pkce_challenge_matches_the_rfc_example() {
    // RFC 7636, appendix B.
    let verifier = "dBjftJeZ4CVP-mB92K27uhbUJU1p1r_wW1gFWFOEjXk";
    let challenge = generate_code_challenge(verifier);
    assert_eq!(challenge, "E9Melhoa2OwvFrEMTJguCHaoeK1t8URWbuGJSstw-cM");
    assert_eq!(verify_pkce(verifier, &challenge, "S256"), Ok(true));
    assert_eq!(verify_pkce(verifier, verifier, "plain"), Ok(true));
    assert_eq!(verify_pkce("wrong", &challenge, "S256"), Ok(false));
    assert!(verify_pkce(verifier, &challenge, "S512").is_err());
}

#[test]
fn token_hashes_are_stable_url_safe_base64_digests() {
    let hash1 = hash_token("secret-token-123");
    let hash2 = hash_token("secret-token-123");
    let hash3 = hash_token("different-token");
    assert_eq!(hash1, hash2);
    assert_ne!(hash1, hash3);
    // 32 bytes of digest, unpadded: 43 characters.
    assert_eq!(hash1.len(), 43);
    // SHA-256 of the empty string.
    assert_eq!(hash_token(""), "47DEQpj8HBSa-_TImW-5JCeuQeRkm5NMpJWZG3hSuFU");
}

#[test]
fn grant_types_are_not_duplicated() {
    let client = ClientConfig::public("c", vec![])
        .with_grant_type(GrantType::RefreshToken)
        .with_grant_type(GrantType::RefreshToken);
    let refresh = client
        .grant_types
        .iter()
        .filter(|g| **g == GrantType::RefreshToken)
        .count();
    assert_eq!(refresh, 1);
    assert!(client.is_grant_type_allowed(GrantType::AuthorizationCode));
}

#[test]
fn registering_a_client_again_replaces_it() {
    let config = OAuthProviderConfig::new("https://auth.example.com")
        .with_client(ClientConfig::public("a", vec!["https://one".to_string()]))
        .with_client(ClientConfig::public("a", vec!["https://two".to_string()]));
    let client = config.get_client("a").unwrap();
    assert!(client.is_redirect_uri_allowed("https://two"));
    assert!(!client.is_redirect_uri_allowed("https://one"));
    assert!(config.get_client("b").is_none());
    assert_eq!(
        config.token_endpoint_url(),
        "https://auth.example.com/oauth/token"
    );
}

#[test]
fn effective_scopes_fall_back_to_the_defaults() {
    let client = ClientConfig::public("c", vec![])
        .with_allowed_scopes(vec!["read".to_string(), "write".to_string()])
        .with_default_scopes(vec!["read".to_string()]);
    assert_eq!(client.effective_scopes(&[]), vec!["read"]);
    assert_eq!(
        client.effective_scopes(&["write".to_string(), "admin".to_string()]),
        vec!["write"]
    );
}
