use turbomcp_wasm::server_args::ServerArgs;
use turbomcp_wasm::wasm_server::auth_middleware::{Admission, AuthPolicy};
use turbomcp_wasm::wasm_server::composite::CompositeServer;
use turbomcp_wasm::wasm_server::context::generate_request_id;
use turbomcp_wasm::wasm_server::error_codes;
use turbomcp_wasm::wasm_server::handler::matches_template;
use turbomcp_wasm::wasm_server::rich_context::{
    active_sessions_count, cleanup_session_state, log_message, progress_message, LogLevel,
    SessionStateGuard, SessionStateStore, StateError,
};
use turbomcp_wasm::wasm_server::visibility::{ComponentFilter, VisibilityLayer};
use turbomcp_wasm::{PROTOCOL_VERSION, VERSION};

fn tags(v: &[&str]) -> Vec<String> {
    v.iter().map(|s| s.to_string()).collect()
}

#[test]
fn test_version() {
    assert!(VERSION.contains('.'), "VERSION should be semver format");
}

#[test]
fn test_protocol_version() {
    assert_eq!(PROTOCOL_VERSION, "2025-11-25");
}

#[test]
fn test_server_args_parsing() {
    let args = ServerArgs {
        name: "test".to_string(),
        version: "1.0.0".to_string(),
        description: Some("A test server".to_string()),
    };
    assert_eq!(args.name, "test");
    assert_eq!(args.version, "1.0.0");
}

#[test]
fn server_args_take_defaults_and_the_last_value() {
    let args = ServerArgs::from_pairs(&[]);
    assert_eq!(args.name, "mcp-server");
    assert_eq!(args.version, "1.0.0");
    assert!(args.description.is_none());
    let args = ServerArgs::from_pairs(&[
        ("name".to_string(), "a".to_string()),
        ("other".to_string(), "x".to_string()),
        ("name".to_string(), "b".to_string()),
        ("description".to_string(), "d".to_string()),
    ]);
    assert_eq!(args.name, "b");
    assert_eq!(args.version, "1.0.0");
    assert_eq!(args.description.as_deref(), Some("d"));
}

#[test]
fn test_json_rpc_error_codes() {
    assert_eq!(error_codes::PARSE_ERROR, -32700);
    assert_eq!(error_codes::INVALID_REQUEST, -32600);
    assert_eq!(error_codes::METHOD_NOT_FOUND, -32601);
    assert_eq!(error_codes::INVALID_PARAMS, -32602);
    assert_eq!(error_codes::INTERNAL_ERROR, -32603);
}

#[test]
fn test_template_matching_exact() {
    assert!(matches_template("file:///path/to/file", "file:///path/to/file"));
    assert!(matches_template("config://app", "config://app"));
}

#[test]
fn test_template_matching_with_params() {
    assert!(matches_template("file:///{name}", "file:///test.txt"));
    assert!(matches_template("user://{id}/profile", "user://123/profile"));
    assert!(matches_template("data://{type}/{id}", "data://users/42"));
}

#[test]
fn test_template_matching_non_matching() {
    assert!(!matches_template("file:///path", "file:///other"));
    assert!(!matches_template("file:///{name}/extra", "file:///test.txt"));
    assert!(!matches_template("http://example.com", "https://example.com"));
}

#[test]
fn test_template_matching_empty_segments() {
    assert!(!matches_template("file:///{name}", "file:///"));
    assert!(!matches_template("a/{b}/c", "a//c"));
}

#[test]
fn test_component_filter() {
    let filter = ComponentFilter::with_tags(&["admin", "dangerous"]);

    assert!(filter.matches(&["admin".to_string()]));
    assert!(filter.matches(&["dangerous".to_string()]));
    assert!(filter.matches(&["admin".to_string(), "public".to_string()]));
    assert!(!filter.matches(&["public".to_string()]));
    assert!(!filter.matches(&[]));
}

#[test]
fn test_visibility_layer_creation() {
    let layer = VisibilityLayer::new();
    assert_eq!(layer.active_sessions_count(), 0);
}

#[test]
fn test_session_enable_override() {
    let mut layer = VisibilityLayer::new().disable_tags(&["admin"]);
    layer.enable_for_session("session1", &tags(&["admin"]));
    assert_eq!(layer.active_sessions_count(), 1);
    layer.clear_session("session1");
    assert_eq!(layer.active_sessions_count(), 0);
}

#[test]
fn test_session_guard_cleanup() {
    let mut layer = VisibilityLayer::new().disable_tags(&["admin"]);
    {
        let guard = layer.session_guard("guard-session");
        layer.enable_for_session("guard-session", &tags(&["admin"]));
        layer.disable_for_session("guard-session", &tags(&["public"]));
        assert!(layer.active_sessions_count() > 0);
        assert_eq!(guard.session_id(), "guard-session");
        layer.end_session(guard);
    }
    assert_eq!(layer.active_sessions_count(), 0);
}

#[test]
fn test_active_sessions_count() {
    let mut layer = VisibilityLayer::new();
    assert_eq!(layer.active_sessions_count(), 0);
    layer.enable_for_session("session1", &tags(&["tag1"]));
    assert_eq!(layer.active_sessions_count(), 1);
    layer.disable_for_session("session2", &tags(&["tag2"]));
    assert_eq!(layer.active_sessions_count(), 2);
    layer.enable_for_session("session1", &tags(&["tag2"]));
    assert_eq!(layer.active_sessions_count(), 2);
    layer.clear_session("session1");
    assert_eq!(layer.active_sessions_count(), 1);
    layer.clear_session("session2");
    assert_eq!(layer.active_sessions_count(), 0);
}

#[test]
fn test_is_visible_basic() {
    let layer = VisibilityLayer::new();
    assert!(layer.is_visible(&tags(&["admin"]), None));
    assert!(layer.is_visible(&tags(&["public"]), None));
}

#[test]
fn test_is_visible_with_global_filter() {
    let layer = VisibilityLayer::new().disable_tags(&["admin"]);
    assert!(!layer.is_visible(&tags(&["admin"]), None));
    assert!(layer.is_visible(&tags(&["public"]), None));
}

#[test]
fn test_is_visible_with_session_override() {
    let mut layer = VisibilityLayer::new().disable_tags(&["admin"]);
    assert!(!layer.is_visible(&tags(&["admin"]), None));
    layer.enable_for_session("session1", &tags(&["admin"]));
    assert!(layer.is_visible(&tags(&["admin"]), Some("session1")));
    assert!(!layer.is_visible(&tags(&["admin"]), Some("session2")));
    assert!(!layer.is_visible(&tags(&["admin"]), None));
}

#[test]
fn test_disable_for_session() {
    let mut layer = VisibilityLayer::new();
    assert!(layer.is_visible(&tags(&["public"]), None));
    assert!(layer.is_visible(&tags(&["public"]), Some("session1")));
    layer.disable_for_session("session1", &tags(&["public"]));
    assert!(!layer.is_visible(&tags(&["public"]), Some("session1")));
    assert!(layer.is_visible(&tags(&["public"]), None));
    assert!(layer.is_visible(&tags(&["public"]), Some("session2")));
}

#[test]
fn test_enable_removes_from_disabled() {
    let mut layer = VisibilityLayer::new();
    layer.disable_for_session("session1", &tags(&["tag1"]));
    assert!(!layer.is_visible(&tags(&["tag1"]), Some("session1")));
    layer.enable_for_session("session1", &tags(&["tag1"]));
    assert!(layer.is_visible(&tags(&["tag1"]), Some("session1")));

    let mut layer2 = VisibilityLayer::new().disable_tags(&["tag1"]);
    layer2.enable_for_session("session1", &tags(&["tag1"]));
    assert!(layer2.is_visible(&tags(&["tag1"]), Some("session1")));
}

#[test]
fn test_disable_removes_from_enabled() {
    let mut layer = VisibilityLayer::new().disable_tags(&["admin"]);
    layer.enable_for_session("session1", &tags(&["admin"]));
    assert!(layer.is_visible(&tags(&["admin"]), Some("session1")));
    layer.disable_for_session("session1", &tags(&["admin"]));
    assert!(!layer.is_visible(&tags(&["admin"]), Some("session1")));
}

#[test]
fn test_get_set_state() {
    let mut store = SessionStateStore::new();
    let s = Some("test-session-1");
    assert!(store.set_state(s, "counter", &serde_json::to_string(&42i32).unwrap()));
    assert!(store.set_state(s, "name", &serde_json::to_string("Alice").unwrap()));
    let counter: Option<i32> = store
        .get_state(s, "counter")
        .map(|v| serde_json::from_str(&v).unwrap());
    assert_eq!(counter, Some(42));
    let name: Option<String> = store
        .get_state(s, "name")
        .map(|v| serde_json::from_str(&v).unwrap());
    assert_eq!(name, Some("Alice".to_string()));
    assert_eq!(store.get_state(s, "missing"), None);
    assert!(store.has_state(s, "counter"));
    assert!(!store.has_state(s, "missing"));
    assert!(store.remove_state(s, "counter"));
    assert_eq!(store.get_state(s, "counter"), None);
    assert!(!store.has_state(s, "counter"));
    store.clear_state(s);
    assert_eq!(store.get_state(s, "name"), None);
    cleanup_session_state(&mut store, "test-session-1");
    assert_eq!(active_sessions_count(&store), 0);
}

#[test]
fn test_state_without_session() {
    let mut store = SessionStateStore::new();
    assert!(!store.set_state(None, "key", "\"value\""));
    assert_eq!(store.get_state(None, "key"), None);
    assert!(!store.has_state(None, "key"));
    assert_eq!(
        store.try_set_state(None, "key", "\"value\""),
        Err(StateError::NoSessionId)
    );
    assert_eq!(store.try_get_state(None, "key"), Err(StateError::NoSessionId));
}

#[test]
fn test_state_isolation() {
    let mut store = SessionStateStore::new();
    store.set_state(Some("session-iso-1"), "value", "1");
    store.set_state(Some("session-iso-2"), "value", "2");
    assert_eq!(store.get_state(Some("session-iso-1"), "value"), Some("1".to_string()));
    assert_eq!(store.get_state(Some("session-iso-2"), "value"), Some("2".to_string()));
    assert_eq!(active_sessions_count(&store), 2);
}

#[test]
fn test_session_state_guard() {
    let mut store = SessionStateStore::new();
    let session_id = "guard-test-session";
    {
        let guard = SessionStateGuard::new(session_id);
        store.set_state(Some(session_id), "key", "\"value\"");
        assert_eq!(store.get_state(Some(session_id), "key"), Some("\"value\"".to_string()));
        assert!(active_sessions_count(&store) > 0);
        assert_eq!(guard.session_id(), session_id);
        guard.end(&mut store);
    }
    assert_eq!(store.get_state(Some(session_id), "key"), None);
}

#[test]
fn removing_state_needs_the_session_to_have_some() {
    let mut store = SessionStateStore::new();
    assert!(!store.remove_state(Some("s"), "k"));
    store.set_state(Some("s"), "k", "1");
    store.clear_state(Some("s"));
    // The session keeps its (now empty) entry.
    assert_eq!(active_sessions_count(&store), 1);
    assert!(store.remove_state(Some("s"), "other"));
    store.clear_all();
    assert_eq!(active_sessions_count(&store), 0);
}

#[test]
fn test_state_error_display() {
    assert_eq!(
        StateError::NoSessionId.to_string(),
        "no session ID set on context"
    );
    assert!(StateError::SerializationFailed("test".into())
        .to_string()
        .contains("serialization failed"));
    assert!(StateError::DeserializationFailed("test".into())
        .to_string()
        .contains("deserialization failed"));
}

#[test]
fn test_log_level_ordering() {
    assert!(LogLevel::Debug < LogLevel::Info);
    assert!(LogLevel::Info < LogLevel::Warning);
    assert!(LogLevel::Warning < LogLevel::Error);
    assert!(LogLevel::Debug.rank() < LogLevel::Error.rank());
    assert_eq!(LogLevel::Warning.label(), "WARN");
}

#[test]
fn log_and_progress_lines_read_as_before() {
    assert_eq!(log_message("req-1", "hello"), "[req-1] hello");
    assert_eq!(
        progress_message(50, 50, 100, Some("halfway")),
        "Progress: 50% (50/100) - halfway"
    );
    assert_eq!(progress_message(100, 100, 100, None), "Progress: 100% (100/100)");
}

#[test]
fn request_ids_are_hex_time_and_randomness() {
    assert_eq!(generate_request_id(255, 4096), "req-ff-1000");
    assert_eq!(generate_request_id(0, 0), "req-0-0");
}

#[test]
fn test_composite_builder() {
    let composite = CompositeServer::builder("main", "1.0.0")
        .description("Main gateway")
        .mount("weather-server", "weather")
        .mount("news-server", "news")
        .build();

    assert_eq!(composite.server_count(), 2);
    assert_eq!(composite.prefixes(), vec!["weather", "news"]);
    assert_eq!(*composite.server(1), "news-server");
}

#[test]
fn test_try_mount_duplicate_returns_error() {
    let result = CompositeServer::builder("main", "1.0.0")
        .try_mount("weather-server", "weather")
        .unwrap()
        .try_mount("weather-server", "weather");

    assert!(result.is_err());
    assert!(result.unwrap_err().contains("duplicate prefix"));
}

#[test]
fn prefixes_that_could_shadow_each_other_are_refused() {
    let builder = CompositeServer::builder("main", "1.0.0")
        .try_mount("weather-server", "a")
        .unwrap();
    let nested = builder.try_mount("news-server", "a_b");
    assert!(nested.unwrap_err().contains("nests"));

    for bad in ["", "has space", "slash/es", &"x".repeat(65)] {
        let result = CompositeServer::builder("main", "1.0.0").try_mount("weather-server", bad);
        assert!(result.is_err(), "{bad:?} should be refused");
    }
}

#[test]
fn prefixes_containing_underscores_route_correctly() {
    let composite = CompositeServer::builder("main", "1.0.0")
        .mount("weather-server", "my_weather")
        .build();
    let (mounted, rest) = composite.route("my_weather_get_forecast", "_").unwrap();
    assert_eq!(composite.prefixes()[mounted], "my_weather");
    assert_eq!(rest, "get_forecast");
    assert!(composite.route("my_get_forecast", "_").is_none());
}

#[test]
fn test_try_mount_success() {
    let composite = CompositeServer::builder("main", "1.0.0")
        .try_mount("weather-server", "weather")
        .unwrap()
        .try_mount("news-server", "news")
        .unwrap()
        .build();

    assert_eq!(composite.server_count(), 2);
}

#[test]
fn minted_names_route_back_to_their_mount() {
    let composite = CompositeServer::builder("main", "1.0.0")
        .mount(1u8, "weather")
        .mount(2u8, "news")
        .build();
    let name = CompositeServer::<u8>::prefix_name("news", "get_headlines");
    assert_eq!(name, "news_get_headlines");
    assert_eq!(composite.route(&name, "_"), Some((1, "get_headlines".to_string())));
    let uri = CompositeServer::<u8>::prefix_uri("weather", "api/forecast");
    assert_eq!(uri, "weather://api/forecast");
    assert_eq!(composite.route(&uri, "://"), Some((0, "api/forecast".to_string())));
    assert_eq!(composite.route("sports_x", "_"), None);
}

#[test]
fn prefix_refusals_explain_themselves() {
    let b = CompositeServer::<u8>::builder("main", "1.0.0");
    assert_eq!(
        b.validate_prefix(""),
        Err("prefix '' must be between 1 and 64 characters".to_string())
    );
    assert_eq!(
        b.validate_prefix("a b"),
        Err("prefix 'a b' may contain only A-Z a-z 0-9 _ - . so that the names it mints stay valid MCP tool names".to_string())
    );
    // Multi-byte characters count by bytes, as the original's length check.
    assert!(b.validate_prefix(&"é".repeat(33)).unwrap_err().contains("between 1 and 64"));
}

#[test]
fn the_skip_list_admits_only_listed_methods_without_credentials() {
    let policy = AuthPolicy::new();
    assert_eq!(policy.admission(Some("initialize"), false), Admission::Admit);
    assert_eq!(policy.admission(Some("ping"), false), Admission::Admit);
    assert_eq!(policy.admission(Some("tools/list"), false), Admission::Refuse);
    assert_eq!(policy.admission(None, false), Admission::Refuse);
    assert_eq!(policy.admission(Some("tools/list"), true), Admission::Authenticate);
    let policy = policy.skip_auth_for(&["tools/list".to_string()]).also_skip_auth_for("ping");
    assert_eq!(policy.admission(Some("initialize"), false), Admission::Refuse);
    assert_eq!(policy.admission(Some("tools/list"), false), Admission::Admit);
}

#[test]
fn challenges_name_the_resource_metadata_and_rejections() {
    let policy = AuthPolicy::new();
    assert_eq!(policy.challenge(false), "Bearer");
    assert_eq!(policy.challenge(true), "Bearer error=\"invalid_token\"");
    let policy = policy.with_resource_metadata("https://mcp.example.com/.well-known/oauth-protected-resource");
    assert_eq!(
        policy.challenge(true),
        "Bearer resource_metadata=\"https://mcp.example.com/.well-known/oauth-protected-resource\", error=\"invalid_token\""
    );
}

fn protected_policy() -> AuthPolicy {
    AuthPolicy::new()
        .with_resource_metadata("https://mcp.example.com/.well-known/oauth-protected-resource")
}

fn challenge_of(reply: &turbomcp_wasm::wasm_server::endpoint::Reply) -> &str {
    reply
        .headers
        .iter()
        .find(|(name, _)| *name == "WWW-Authenticate")
        .map(|(_, value)| value.as_str())
        .unwrap()
}

#[test]
fn missing_credential_gets_a_challenge_naming_the_resource_metadata() {
    let reply = protected_policy().rule(Some("tools/call"), None).unwrap_err();
    assert_eq!(reply.status, 401);
    assert_eq!(reply.content_type, Some("application/json"));
    assert_eq!(
        challenge_of(&reply),
        r#"Bearer resource_metadata="https://mcp.example.com/.well-known/oauth-protected-resource""#
    );
    let body: serde_json::Value = serde_json::from_str(&reply.body).unwrap();
    assert!(body["id"].is_null());
    assert_eq!(body["error"]["code"], error_codes::AUTHENTICATION_ERROR);
    assert_eq!(body["error"]["message"], "Authentication required");
}

#[test]
fn rejected_token_is_flagged_invalid_token() {
    let policy = protected_policy();
    for method in [Some("tools/call"), Some("initialize"), None] {
        let reply = policy.rule(method, Some(Err("bad signature"))).unwrap_err();
        assert_eq!(reply.status, 401);
        assert!(challenge_of(&reply).contains("error=\"invalid_token\""));
        let body: serde_json::Value = serde_json::from_str(&reply.body).unwrap();
        assert_eq!(body["error"]["message"], "bad signature");
    }
}

#[test]
fn skip_list_admits_initialize_without_credentials() {
    let policy = protected_policy();
    assert!(policy.rule(Some("initialize"), None).is_ok());
    assert!(policy.rule(Some("ping"), None).is_ok());
    assert!(policy.rule(None, None).is_err());
    assert!(policy.rule(Some("tools/call"), Some(Ok(()))).is_ok());
    let bare = AuthPolicy::new().unauthorized("no", false);
    assert_eq!(challenge_of(&bare), "Bearer");
}

#[test]
fn cleanup_forgets_one_session_and_keeps_the_others() {
    let mut store = SessionStateStore::new();
    assert!(store.set_state(Some("s1"), "k", "1"));
    assert!(store.set_state(Some("s2"), "k", "2"));
    assert_eq!(active_sessions_count(&store), 2);
    cleanup_session_state(&mut store, "s1");
    assert_eq!(active_sessions_count(&store), 1);
    assert_eq!(store.get_state(Some("s1"), "k"), None);
    assert!(!store.has_state(Some("s1"), "k"));
    assert_eq!(store.get_state(Some("s2"), "k"), Some("2".to_string()));
    cleanup_session_state(&mut store, "unknown");
    assert_eq!(active_sessions_count(&store), 1);
}
