use turbomcp_wasm::wasm_server::endpoint::DEFAULT_MAX_BODY_SIZE;
use turbomcp_wasm::wasm_server::headers::HeaderMap;
use turbomcp_wasm::wasm_server::rich_context::{active_sessions_count, SessionStateStore};
use turbomcp_wasm::event_stream::event_stream_data;
use turbomcp_wasm::wasm_server::streamable::{
    accepts, anchor_body, check_initialize, check_post_headers, check_session_method,
    check_session_version, judge_session, needs_session, replay_body, session_expired,
    MemorySessionStore, SessionFacts, SessionLookup, SessionRecord, SessionVerdict, StoredEvent,
    StreamablePolicy, ALLOWED_METHODS, DEFAULT_MAX_EVENTS_PER_SESSION, DEFAULT_MAX_SESSIONS,
};

fn headers(pairs: &[(&str, &str)]) -> HeaderMap {
    let mut map = HeaderMap::new();
    map.insert("content-type", "application/json");
    map.insert("accept", "application/json, text/event-stream");
    for (k, v) in pairs {
        map.insert(k, v);
    }
    map
}

fn event(id: &str, data: &str) -> StoredEvent {
    StoredEvent {
        id: id.to_string(),
        data: data.to_string(),
        event_type: None,
        timestamp: 0,
    }
}

fn policy() -> StreamablePolicy {
    StreamablePolicy {
        allowed_origins: Vec::new(),
        require_origin: false,
        allow_any_origin: false,
        max_body_size: DEFAULT_MAX_BODY_SIZE,
    }
}

#[test]
fn test_memory_session_store() {
    let mut store: MemorySessionStore<&str> = MemorySessionStore::new();

    store.create("mcp-1", "pending", 10);
    let session = store.get("mcp-1").unwrap();
    assert_eq!(session.session, "pending");
    assert_eq!(session.last_activity, 10);

    store.update(
        "mcp-1",
        SessionRecord {
            last_activity: 20,
            session: "active",
        },
    );
    let updated = store.get("mcp-1").unwrap();
    assert_eq!(updated.session, "active");
    assert_eq!(updated.last_activity, 20);

    store.store_event("mcp-1", event("evt-1", "data1"));
    store.store_event("mcp-1", event("evt-2", "data2"));

    let replayed = store.replay_from("mcp-1", "evt-1");
    assert_eq!(replayed.len(), 1);
    assert_eq!(replayed[0].id, "evt-2");
    assert_eq!(replayed[0].data, "data2");

    store.destroy("mcp-1");
    assert!(store.get("mcp-1").is_none());
    assert!(store.events("mcp-1").is_none());
}

#[test]
fn unknown_last_event_id_replays_nothing() {
    let mut store: MemorySessionStore<()> = MemorySessionStore::new();
    store.create("mcp-1", (), 0);
    store.store_event("mcp-1", event("evt-1", "data1"));
    assert!(store.replay_from("mcp-1", "forged").is_empty());
}

#[test]
fn memory_store_is_bounded() {
    let mut store: MemorySessionStore<()> = MemorySessionStore::new()
        .with_max_sessions(2)
        .with_max_events_per_session(2);

    store.create("first", (), 1);
    store.create("second", (), 2);
    store.create("third", (), 3);
    assert_eq!(store.len(), 2);
    assert!(store.get("third").is_some());
    assert!(store.get("first").is_none());

    for n in 0..5 {
        store.store_event("third", event(&format!("evt-{n}"), "x"));
    }
    let kept: Vec<String> = store
        .events("third")
        .unwrap()
        .iter()
        .map(|e| e.id.clone())
        .collect();
    assert_eq!(kept, ["evt-3", "evt-4"]);
}

#[test]
fn the_least_recently_active_session_is_evicted() {
    let mut store: MemorySessionStore<u8> = MemorySessionStore::new().with_max_sessions(2);
    store.create("a", 1, 100);
    store.create("b", 2, 50);
    store.update(
        "b",
        SessionRecord {
            last_activity: 200,
            session: 2,
        },
    );
    store.create("c", 3, 300);
    assert_eq!(store.len(), 2);
    assert!(store.get("a").is_none());
    assert_eq!(store.get("b").unwrap().session, 2);
    assert_eq!(store.get("c").unwrap().session, 3);
}

#[test]
fn the_default_limits() {
    assert_eq!(DEFAULT_MAX_SESSIONS, 10000);
    assert_eq!(DEFAULT_MAX_EVENTS_PER_SESSION, 100);
    let store: MemorySessionStore<()> = MemorySessionStore::new();
    assert_eq!(store.len(), 0);
    let zero: MemorySessionStore<()> = MemorySessionStore::new().with_max_sessions(0);
    assert_eq!(zero.len(), 0);
}

#[test]
fn a_store_capped_at_zero_sessions_still_keeps_one() {
    let mut store: MemorySessionStore<u8> = MemorySessionStore::new().with_max_sessions(0);
    store.create("a", 1, 1);
    store.create("b", 2, 2);
    assert_eq!(store.len(), 1);
    assert!(store.get("b").is_some());
}

#[test]
fn events_of_unknown_sessions_are_dropped() {
    let mut store: MemorySessionStore<()> = MemorySessionStore::new();
    store.store_event("ghost", event("evt-1", "x"));
    assert!(store.events("ghost").is_none());
    assert!(store.replay_from("ghost", "evt-1").is_empty());
}

#[test]
fn update_does_not_bring_a_destroyed_session_back() {
    let mut store: MemorySessionStore<u8> = MemorySessionStore::new();
    store.create("a", 1, 1);
    store.destroy("a");
    store.update(
        "a",
        SessionRecord {
            last_activity: 5,
            session: 9,
        },
    );
    assert!(store.get("a").is_none());
    assert_eq!(store.len(), 0);
}

#[test]
fn no_events_are_kept_when_the_cap_is_zero() {
    let mut store: MemorySessionStore<()> = MemorySessionStore::new().with_max_events_per_session(0);
    store.create("a", (), 1);
    store.store_event("a", event("evt-1", "x"));
    assert!(store.events("a").unwrap().is_empty());
}

#[test]
fn cleanup_sweeps_idle_sessions_and_their_state() {
    let mut store: MemorySessionStore<()> = MemorySessionStore::new();
    let mut state = SessionStateStore::new();
    store.create("old", (), 1000);
    store.create("new", (), 5000);
    store.store_event("old", event("evt-1", "x"));
    assert!(state.set_state(Some("old"), "k", "1"));
    assert!(state.set_state(Some("new"), "k", "2"));

    let swept = store.cleanup_expired(7000, 5000, &mut state);
    assert_eq!(swept, 1);
    assert!(store.get("old").is_none());
    assert!(store.events("old").is_none());
    assert!(store.get("new").is_some());
    assert_eq!(state.get_state(Some("old"), "k"), None);
    assert_eq!(state.get_state(Some("new"), "k"), Some("2".to_string()));
    assert_eq!(active_sessions_count(&state), 1);

    assert_eq!(store.cleanup_expired(7000, 5000, &mut state), 0);
}

#[test]
fn precheck_rejects_before_the_body_is_read() {
    let handler = policy();

    let put = handler.precheck("PUT", &headers(&[])).unwrap_err();
    assert_eq!(put.status, 405);
    assert!(put.headers.contains(&("Allow", ALLOWED_METHODS.to_string())));

    let evil = handler
        .precheck("POST", &headers(&[("origin", "https://evil.com")]))
        .unwrap_err();
    assert_eq!(evil.status, 403);
    assert!(handler
        .precheck("POST", &headers(&[("origin", "http://localhost:5173")]))
        .is_ok());

    let mut text = headers(&[]);
    text.insert("content-type", "text/plain");
    assert_eq!(handler.precheck("POST", &text).unwrap_err().status, 415);

    let big = headers(&[("content-length", "999999999")]);
    assert_eq!(handler.precheck("POST", &big).unwrap_err().status, 413);

    let strict = StreamablePolicy {
        require_origin: true,
        ..policy()
    };
    assert_eq!(strict.precheck("POST", &headers(&[])).unwrap_err().status, 403);

    let open = StreamablePolicy {
        allow_any_origin: true,
        ..policy()
    };
    assert!(open
        .precheck("POST", &headers(&[("origin", "https://evil.com")]))
        .is_ok());
}

#[test]
fn preflight_is_answered_before_the_body() {
    let handler = policy();
    let reply = handler.precheck("OPTIONS", &headers(&[])).unwrap_err();
    assert_eq!(reply.status, 204);
    assert!(handler.precheck("GET", &headers(&[])).is_ok());
    assert!(handler.precheck("DELETE", &headers(&[])).is_ok());
    let strict = StreamablePolicy {
        require_origin: true,
        ..policy()
    };
    let missing = strict.precheck("GET", &headers(&[])).unwrap_err();
    assert_eq!(missing.body, "Origin header required");
}

#[test]
fn accept_must_allow_the_answer() {
    assert!(accepts(&headers(&[("accept", "*/*")]), "text/event-stream"));
    assert!(accepts(
        &headers(&[("accept", "application/*")]),
        "application/json"
    ));
    assert!(!accepts(
        &headers(&[("accept", "application/json")]),
        "text/event-stream"
    ));
    assert!(!accepts(&headers(&[("accept", "text/html")]), "application/json"));
    assert!(accepts(
        &headers(&[("accept", "text/html, Application/JSON; q=0.9")]),
        "application/json"
    ));
    assert!(accepts(&HeaderMap::new(), "application/json"));
}

#[test]
fn sessions_expire_when_idle_or_old() {
    assert!(!session_expired(5000, 0, 4000, 1000, 10_000));
    assert!(session_expired(5001, 0, 4000, 1000, 10_000));
    assert!(session_expired(20_000, 0, 19_999, 1000, 10_000));
    assert!(!session_expired(100, 200, 200, 0, 0));
}

#[test]
fn protocol_version_header_must_match_the_session() {
    assert!(check_session_version(Some("2025-06-18"), Some("2025-06-18")).is_ok());
    assert!(check_session_version(Some(" 2025-06-18 "), Some("2025-06-18")).is_ok());
    assert!(check_session_version(None, Some("2025-06-18")).is_ok());
    assert!(check_session_version(Some("1999-01-01"), None).is_ok());
    let refused = check_session_version(Some("1999-01-01"), Some("2025-06-18")).unwrap_err();
    assert_eq!(refused.status, 400);
    assert_eq!(
        refused.body,
        "MCP-Protocol-Version '1999-01-01' does not match the session's '2025-06-18'"
    );
}

#[test]
fn a_resumed_stream_reads_back_its_events() {
    let events = vec![
        event("evt-1", "{\"a\":1}"),
        event("evt-2", ""),
        StoredEvent {
            id: "evt-3".to_string(),
            data: "line1\nline2".to_string(),
            event_type: Some("message".to_string()),
            timestamp: 0,
        },
    ];
    let body = replay_body(3000, &events);
    assert_eq!(
        body,
        ": connected\n\nretry: 3000\n\nid: evt-1\ndata: {\"a\":1}\n\nid: evt-3\nevent: message\ndata: line1\ndata: line2\n\n"
    );
    assert_eq!(event_stream_data(&body), ["{\"a\":1}", "line1\nline2"]);
    assert!(body.contains("retry: "));
    assert!(body.contains("id: evt-3"));
}

#[test]
fn a_fresh_stream_hands_out_an_anchor() {
    let body = anchor_body(5000, Some("evt-7"));
    assert_eq!(body, ": connected\n\nretry: 5000\n\nid: evt-7\n\n");
    let anchor = body
        .lines()
        .find_map(|line| line.strip_prefix("id: "))
        .expect("anchor id");
    assert_eq!(anchor, "evt-7");
    assert!(event_stream_data(&body).is_empty());
    assert_eq!(anchor_body(5000, None), ": connected\n\nretry: 5000\n\n");
}

#[test]
fn posts_must_accept_json_and_name_a_supported_version() {
    assert_eq!(check_post_headers(&headers(&[])).unwrap(), None);
    let html = check_post_headers(&headers(&[("accept", "text/html")])).unwrap_err();
    assert_eq!(html.status, 406);
    assert_eq!(html.body, "Accept must allow application/json");
    let old = check_post_headers(&headers(&[("mcp-protocol-version", "1999-01-01")])).unwrap_err();
    assert_eq!(old.status, 400);
    assert_eq!(
        check_post_headers(&headers(&[("mcp-protocol-version", " 2025-06-18 ")])).unwrap(),
        Some("2025-06-18".to_string())
    );
}

#[test]
fn initialize_must_not_name_a_session() {
    assert!(check_initialize(&headers(&[])).is_ok());
    let refused = check_initialize(&headers(&[("mcp-session-id", "mcp-1")])).unwrap_err();
    assert_eq!(refused.status, 400);
    assert_eq!(refused.body, "initialize must not carry Mcp-Session-Id");
}

#[test]
fn ping_is_answered_without_a_session() {
    assert!(!needs_session(true, Some("ping"), &headers(&[])));
    assert!(needs_session(true, Some("ping"), &headers(&[("mcp-session-id", "x")])));
    assert!(needs_session(true, Some("tools/list"), &headers(&[])));
    assert!(needs_session(true, None, &headers(&[])));
    assert!(!needs_session(false, Some("tools/list"), &headers(&[])));
}

fn facts(created_at: u64, last_activity: u64, accepts_requests: bool) -> SessionLookup {
    SessionLookup::Found(SessionFacts {
        created_at,
        last_activity,
        accepts_requests,
        protocol_version: Some("2025-06-18".to_string()),
    })
}

fn refused_with(v: SessionVerdict) -> (u16, String) {
    match v {
        SessionVerdict::Refuse(r) => (r.status, r.body),
        other => panic!("expected a refusal, got {other:?}"),
    }
}

#[test]
fn requests_after_initialize_need_a_live_session() {
    assert_eq!(
        refused_with(judge_session(&SessionLookup::NoHeader, 0, 1000, 5000, None)),
        (400, "Mcp-Session-Id header required".to_string())
    );
    assert_eq!(
        refused_with(judge_session(&SessionLookup::Malformed, 0, 1000, 5000, None)),
        (400, "Invalid Mcp-Session-Id header".to_string())
    );
    assert_eq!(
        refused_with(judge_session(&SessionLookup::Unknown, 0, 1000, 5000, None)),
        (404, "Session not found".to_string())
    );
    assert_eq!(
        refused_with(judge_session(&SessionLookup::StoreFailed, 0, 1000, 5000, None)),
        (500, "Session store error".to_string())
    );
    assert!(matches!(
        judge_session(&facts(0, 100, true), 500, 1000, 5000, None),
        SessionVerdict::Proceed
    ));
}

#[test]
fn idle_sessions_expire() {
    match judge_session(&facts(0, 0, true), 1500, 1000, 5000, None) {
        SessionVerdict::End(r) => {
            assert_eq!(r.status, 404);
            assert_eq!(r.body, "Session not found");
        }
        other => panic!("expected the session to end, got {other:?}"),
    }
    assert!(matches!(
        judge_session(&facts(0, 5900, true), 6000, 1000, 5000, None),
        SessionVerdict::End(_)
    ));
    assert!(matches!(
        judge_session(&facts(0, 10, false), 20, 1000, 5000, None),
        SessionVerdict::End(_)
    ));
}

#[test]
fn the_session_version_must_match_the_header() {
    let (status, body) = refused_with(judge_session(
        &facts(0, 0, true),
        10,
        1000,
        5000,
        Some("2025-11-25"),
    ));
    assert_eq!(status, 400);
    assert_eq!(
        body,
        "MCP-Protocol-Version '2025-11-25' does not match the session's '2025-06-18'"
    );
    assert!(matches!(
        judge_session(&facts(0, 0, true), 10, 1000, 5000, Some("2025-06-18")),
        SessionVerdict::Proceed
    ));
}

#[test]
fn streams_and_deletes_need_sessions() {
    let off = check_session_method("GET", false, &headers(&[])).unwrap_err();
    assert_eq!(off.status, 405);
    assert!(off.headers.contains(&("Allow", "POST, OPTIONS".to_string())));
    assert_eq!(check_session_method("DELETE", false, &headers(&[])).unwrap_err().status, 405);
    let json_only = check_session_method("GET", true, &headers(&[("accept", "application/json")]))
        .unwrap_err();
    assert_eq!(json_only.status, 406);
    assert_eq!(json_only.body, "Accept must allow text/event-stream");
    assert!(check_session_method("DELETE", true, &headers(&[("accept", "application/json")])).is_ok());
    assert!(check_session_method("GET", true, &headers(&[])).is_ok());
}
