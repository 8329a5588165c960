use turbomcp_wasm::wasi::http::{check_status, HttpScheme, HttpTransport};
use turbomcp_wasm::wasi::transport::{
    JsonRpcError, JsonRpcNotification, JsonRpcRequest, JsonRpcResponse, TransportError,
};
use turbomcp_wasm::wasi::WasiRuntime;

#[test]
fn test_http_transport_creation() {
    let transport = HttpTransport::new("https://api.example.com/mcp");
    assert!(transport.is_ready());
    assert_eq!(transport.base_url(), "https://api.example.com/mcp");
}

#[test]
fn test_http_transport_with_headers() {
    let transport = HttpTransport::new("https://api.example.com/mcp")
        .with_header("Authorization", "Bearer token123")
        .with_header("X-Custom", "value");

    assert_eq!(
        transport.header("Authorization"),
        Some(&"Bearer token123".to_string())
    );
    assert_eq!(transport.header("X-Custom"), Some(&"value".to_string()));
}

#[test]
fn test_http_transport_with_timeout() {
    let transport = HttpTransport::new("https://api.example.com/mcp").with_timeout_ms(60_000);
    assert_eq!(transport.timeout_ms(), 60_000);
}

#[test]
fn test_http_transport_close() {
    let mut transport = HttpTransport::new("https://api.example.com/mcp");
    assert!(transport.is_ready());
    transport.close().unwrap();
    assert!(!transport.is_ready());
}

#[test]
fn http_posts_carry_streamable_http_headers() {
    let mut transport = HttpTransport::new("https://api.example.com/mcp");
    let names: Vec<_> = transport
        .outgoing_headers()
        .into_iter()
        .map(|(k, _)| k)
        .collect();
    assert!(names.contains(&"Accept".to_string()));
    assert!(!names.contains(&"Mcp-Session-Id".to_string()));

    transport.record_session_id(Some("mcp-abc"));
    transport.set_protocol_version("2025-06-18");
    let headers = transport.outgoing_headers();
    assert!(headers.contains(&(
        "Accept".into(),
        turbomcp_wasm::client_http::ACCEPT.into()
    )));
    assert!(headers.contains(&("Mcp-Session-Id".into(), "mcp-abc".into())));
    assert!(headers.contains(&("MCP-Protocol-Version".into(), "2025-06-18".into())));
}

#[test]
fn requests_are_numbered_and_refused_once_closed() {
    let mut transport = HttpTransport::new("https://api.example.com/mcp");
    assert_eq!(transport.start_request().ok(), Some(1));
    assert_eq!(transport.start_request().ok(), Some(2));
    transport.close().unwrap();
    match transport.start_request() {
        Err(TransportError::Connection(m)) => assert_eq!(m, "Transport is closed"),
        other => panic!("unexpected {other:?}"),
    }
    assert!(transport.ensure_open().is_err());
}

#[test]
fn a_session_id_once_issued_is_kept() {
    let mut transport = HttpTransport::new("https://api.example.com/mcp");
    assert_eq!(transport.session_id(), None);
    transport.record_session_id(Some("s1"));
    transport.record_session_id(None);
    assert_eq!(transport.session_id(), Some("s1".to_string()));
}

#[test]
fn the_target_comes_from_the_base_url() {
    let t = HttpTransport::new("https://api.example.com:8443/mcp?x=1")
        .request_target()
        .unwrap();
    assert_eq!(t.scheme, Some(HttpScheme::Https));
    assert_eq!(t.authority.as_deref(), Some("api.example.com:8443"));
    assert_eq!(t.path_with_query, "/mcp?x=1");
    let t = HttpTransport::new("http://example.com/").request_target().unwrap();
    assert_eq!(t.scheme, Some(HttpScheme::Http));
    assert_eq!(t.authority.as_deref(), Some("example.com"));
    assert_eq!(t.path_with_query, "/");
    match HttpTransport::new("not a url").request_target() {
        Err(TransportError::Connection(m)) => assert!(m.starts_with("Invalid URL: ")),
        other => panic!("unexpected {other:?}"),
    }
}

#[test]
fn non_success_statuses_fail() {
    assert!(check_status(200).is_ok());
    assert!(check_status(202).is_ok());
    match check_status(404) {
        Err(TransportError::Http { status, message }) => {
            assert_eq!(status, 404);
            assert_eq!(message, "HTTP request failed with status 404");
        }
        other => panic!("unexpected {other:?}"),
    }
}

#[test]
fn test_wasi_runtime_detect() {
    let runtime = WasiRuntime::detect();
    assert_eq!(runtime.preview_version, "2");
    assert!(runtime.name.is_none());
}

#[test]
fn test_transport_error_display() {
    let err = TransportError::Io("read failed".into());
    assert_eq!(err.to_string(), "I/O error: read failed");

    let err = TransportError::Http {
        status: 404,
        message: "Not Found".into(),
    };
    assert_eq!(err.to_string(), "HTTP 404: Not Found");

    let err = TransportError::Timeout;
    assert_eq!(err.to_string(), "Operation timed out");
}

#[test]
fn envelopes_are_jsonrpc_2() {
    let req = JsonRpcRequest::new(1, "test/method", Some(5u8));
    assert_eq!(req.jsonrpc, "2.0");
    assert_eq!(req.id, 1);
    assert_eq!(req.method, "test/method");
    assert_eq!(req.params, Some(5));
    let n: JsonRpcNotification<()> = JsonRpcNotification::new("test/notify", None);
    assert_eq!(n.jsonrpc, "2.0");
    assert!(n.params.is_none());
}

#[test]
fn responses_yield_their_result_or_their_error() {
    let ok = JsonRpcResponse { jsonrpc: "2.0".into(), id: Some(1), result: Some(7u8), error: None };
    assert_eq!(ok.into_result().unwrap(), 7);
    let err: JsonRpcResponse<u8> = JsonRpcResponse {
        jsonrpc: "2.0".into(),
        id: Some(1),
        result: Some(7),
        error: Some(JsonRpcError { code: -32601, message: "Method not found".into() }),
    };
    match err.into_result() {
        Err(TransportError::Protocol(m)) => assert_eq!(m, "JSON-RPC error -32601: Method not found"),
        other => panic!("unexpected {other:?}"),
    }
    let none: JsonRpcResponse<u8> = JsonRpcResponse { jsonrpc: "2.0".into(), id: None, result: None, error: None };
    match none.into_result() {
        Err(TransportError::Protocol(m)) => assert_eq!(m, "Missing result in response"),
        other => panic!("unexpected {other:?}"),
    }
}

#[test]
fn wasi_fields_take_lower_cased_header_names() {
    let mut transport =
        HttpTransport::new("https://api.example.com/mcp").with_header("X-Custom", "Value");
    transport.record_session_id(Some("mcp-abc"));
    let fields = transport.field_entries();
    let expected: Vec<(String, String)> = transport
        .outgoing_headers()
        .into_iter()
        .map(|(k, v)| (k.to_lowercase(), v))
        .collect();
    assert_eq!(fields, expected);
    assert!(fields.contains(&("x-custom".into(), "Value".into())));
    assert!(fields.contains(&("mcp-session-id".into(), "mcp-abc".into())));
    assert!(fields.contains(&("content-type".into(), "application/json".into())));
}
