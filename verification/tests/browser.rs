use turbomcp_wasm::browser::{check_response_status, FetchTransport};
use turbomcp_wasm::client_http::ACCEPT;

#[test]
fn test_fetch_transport_builder() {
    let transport = FetchTransport::new("https://api.example.com")
        .with_header("Authorization", "Bearer token")
        .with_timeout(60_000);

    assert_eq!(transport.base_url(), "https://api.example.com");
    assert_eq!(transport.custom_headers().len(), 1);
    assert_eq!(transport.timeout_ms(), 60_000);
}

#[test]
fn transport_posts_carry_streamable_http_headers() {
    let mut transport = FetchTransport::new("https://api.example.com");
    let before: Vec<_> = transport
        .request_headers()
        .into_iter()
        .map(|(k, _)| k)
        .collect();
    assert_eq!(before, ["Content-Type", "Accept"]);

    transport.record_session_id(Some("mcp-abc"));
    transport.set_protocol_version("2025-06-18");
    let after = transport.request_headers();
    assert!(after.contains(&("Accept".into(), ACCEPT.into())));
    assert!(after.contains(&("Mcp-Session-Id".into(), "mcp-abc".into())));
    assert!(after.contains(&("MCP-Protocol-Version".into(), "2025-06-18".into())));

    // A copy keeps the session, so the builder-style client keeps it.
    assert_eq!(transport.clone().session_id().as_deref(), Some("mcp-abc"));
}

#[test]
fn caller_headers_follow_the_protocol_ones_in_order() {
    let mut transport = FetchTransport::new("https://api.example.com")
        .with_header("X-One", "1")
        .with_header("X-Two", "2");
    transport.record_session_id(Some("s1"));
    transport.record_session_id(None);
    let names: Vec<String> = transport
        .request_headers()
        .into_iter()
        .map(|(k, _)| k)
        .collect();
    assert_eq!(names, ["Content-Type", "Accept", "Mcp-Session-Id", "X-One", "X-Two"]);
    assert_eq!(transport.session_id().as_deref(), Some("s1"));
}

#[test]
fn failed_statuses_are_reported_with_their_text() {
    assert_eq!(check_response_status(200, "OK"), Ok(()));
    assert_eq!(check_response_status(204, "No Content"), Ok(()));
    assert_eq!(
        check_response_status(404, "Not Found"),
        Err("HTTP error: 404 Not Found".to_string())
    );
    assert_eq!(
        check_response_status(503, "Service Unavailable"),
        Err("HTTP error: 503 Service Unavailable".to_string())
    );
}
