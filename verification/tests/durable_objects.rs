use turbomcp_wasm::wasm_server::durable_objects::rate_limiter::{
    DurableObjectRateLimiter, RateLimitConfig, RateLimitError,
};
use turbomcp_wasm::wasm_server::durable_objects::session_store::{
    DoSessionError, DurableObjectSessionStore,
};
use turbomcp_wasm::wasm_server::durable_objects::state_store::{
    DurableObjectStateStore, StateStoreError,
};
use turbomcp_wasm::wasm_server::durable_objects::token_store::{
    DurableObjectTokenStore, OAuthTokenData, TokenStoreError,
};
use turbomcp_wasm::wasm_server::durable_objects::{decode_ack, do_url, reply_body, DoReplyError};

#[test]
fn acknowledgements_accept_whatever_the_object_answers() {
    for body in ["{}", "", "null", r#"{"ok":true}"#, "[]"] {
        assert!(decode_ack(200, body).is_ok(), "{body:?}");
    }
    assert!(decode_ack(204, "").is_ok());
}

#[test]
fn error_statuses_fail_whatever_the_body() {
    assert!(matches!(decode_ack(500, "{}"), Err(DoReplyError::Status(_))));
    assert!(matches!(reply_body(404, "null"), Err(DoReplyError::Status(_))));
    match reply_body(500, &"x".repeat(300)) {
        Err(DoReplyError::Status(m)) => {
            assert!(m.starts_with("Durable Object answered HTTP 500: "));
            assert_eq!(m.len(), "Durable Object answered HTTP 500: ".len() + 200);
        }
        _ => panic!("expected a status error"),
    }
}

#[test]
fn typed_replies_still_decode() {
    let text = reply_body(200, r#"{"session":7}"#).ok().unwrap();
    let get: serde_json::Value = serde_json::from_str(&text).unwrap();
    assert_eq!(get["session"].as_u64(), Some(7));
    assert!(matches!(decode_ack(200, "not json"), Err(DoReplyError::Body(_))));
    assert_eq!(reply_body(200, "  ").ok().unwrap(), "null");
}

#[test]
fn test_rate_limit_config_presets() {
    let per_second = RateLimitConfig::per_second(10);
    assert_eq!(per_second.limit, 10);
    assert_eq!(per_second.window_ms, 1_000);

    let per_minute = RateLimitConfig::per_minute(100);
    assert_eq!(per_minute.limit, 100);
    assert_eq!(per_minute.window_ms, 60_000);

    let per_hour = RateLimitConfig::per_hour(1000);
    assert_eq!(per_hour.limit, 1000);
    assert_eq!(per_hour.window_ms, 3_600_000);
}

#[test]
fn test_rate_limiter_creation() {
    let limiter = DurableObjectRateLimiter::new("MCP_RATE_LIMIT")
        .with_limit(50)
        .with_window_ms(30_000);

    assert_eq!(limiter.namespace(), "MCP_RATE_LIMIT");
    assert_eq!(limiter.config().limit, 50);
    assert_eq!(limiter.config().window_ms, 30_000);
}

#[test]
fn rate_checks_go_to_the_clients_instance() {
    let limiter = DurableObjectRateLimiter::new("NS").with_config(RateLimitConfig::new(5, 10));
    let call = limiter.check_call("client-1", true);
    assert_eq!(call.key, "client-1");
    assert_eq!(call.path, "/rate-limit/check");
    assert_eq!(call.body.limit, 5);
    assert_eq!(call.body.window_ms, 10);
    assert!(call.body.record);
    assert!(!limiter.check_call("client-1", false).body.record);
    assert_eq!(limiter.reset_call("client-1").path, "/rate-limit/reset");
    assert_eq!(do_url(call.path), "https://do-internal/rate-limit/check");
    let default = RateLimitConfig::default();
    assert_eq!((default.limit, default.window_ms), (100, 60_000));
}

#[test]
fn test_rate_limit_error_display() {
    let err = RateLimitError::NoEnvironment;
    assert_eq!(err.to_string(), "No environment set");
}

#[test]
fn test_session_store_creation() {
    let store = DurableObjectSessionStore::new("MCP_SESSIONS");
    assert_eq!(store.namespace(), "MCP_SESSIONS");
    let call = store.replay_call("s1", "e7");
    assert_eq!(call.key, "s1");
    assert_eq!(call.path, "/event/replay");
    assert_eq!(call.body.last_event_id, "e7");
}

#[test]
fn test_do_session_error_display() {
    let err = DoSessionError::Serialization("expected value".to_string());
    assert!(err.to_string().contains("Serialization error"));
}

#[test]
fn test_state_store_creation() {
    let store = DurableObjectStateStore::new("MCP_STATE");
    assert_eq!(store.namespace(), "MCP_STATE");
    let call = store.get_call("user-1", "history");
    assert_eq!((call.key.as_str(), call.path, call.body.key.as_str()), ("user-1", "/state/get", "history"));
    assert_eq!(store.list_call("user-1", Some("h")).body.prefix.as_deref(), Some("h"));
}

#[test]
fn test_state_store_error_display() {
    let err = StateStoreError::NoEnvironment;
    assert_eq!(err.to_string(), "No environment set");
    let err = StateStoreError::Serialization("expected value".to_string());
    assert!(err.to_string().contains("Serialization error"));
}

#[test]
fn test_token_store_creation() {
    let store = DurableObjectTokenStore::new("MCP_OAUTH_TOKENS");
    assert_eq!(store.namespace(), "MCP_OAUTH_TOKENS");
}

#[test]
fn test_token_hashing() {
    let store = DurableObjectTokenStore::new("T");
    let hash1 = store.get_refresh_token_call("secret-token-123").body.token_hash;
    let hash2 = store.get_refresh_token_call("secret-token-123").body.token_hash;
    let hash3 = store.get_refresh_token_call("different-token").body.token_hash;
    assert_eq!(hash1, hash2);
    assert_ne!(hash1, hash3);
    assert!(hash1.starts_with("tok_"));
}

#[test]
fn tokens_travel_only_as_hashes() {
    let store = DurableObjectTokenStore::new("T");
    let mut data = OAuthTokenData::default();
    data.client_id = "client-9".to_string();
    let call = store.store_code_call("the-code", data, 600_000);
    assert_eq!(call.key, "client-9");
    assert_eq!(call.path, "/tokens/store");
    assert_eq!(call.body.token_type, "code");
    assert_eq!(call.body.token_hash, turbomcp_wasm::wasm_server::durable_objects::token_store::token_key("the-code"));
    assert!(!call.body.token_hash.contains("the-code"));
    let take = store.get_and_delete_code_call("the-code");
    assert_eq!(take.key, take.body.token_hash);
    assert_eq!(take.path, "/tokens/get-and-delete");
    assert_eq!(store.revoke_refresh_token_call("r").path, "/tokens/delete");
    assert_eq!(store.revoke_all_for_user_call("u").body.user_id, "u");
}

#[test]
fn test_oauth_token_data_default() {
    let data = OAuthTokenData::default();
    assert!(data.token_type.is_empty());
    assert!(data.client_id.is_empty());
    assert!(data.user_id.is_none());
    assert!(!data.used);
}

#[test]
fn test_token_store_error_display() {
    let err = TokenStoreError::NoEnvironment;
    assert_eq!(err.to_string(), "No environment set");
}

#[test]
fn token_keys_are_prefixed_hex_digests() {
    let key = turbomcp_wasm::wasm_server::durable_objects::token_store::token_key("secret-token-123");
    assert!(key.starts_with("tok_"));
    assert_eq!(key.len(), 4 + 64);
    assert_eq!(
        turbomcp_wasm::wasm_server::durable_objects::token_store::token_key(""),
        "tok_e3b0c44298fc1c149afbf4c8996fb92427ae41e4649b934ca495991b7852b855"
    );
}
