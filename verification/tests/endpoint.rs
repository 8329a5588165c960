use turbomcp_wasm::client_http::{check_negotiated_version, is_event_stream};
use turbomcp_wasm::jsonrpc::error_message;
use turbomcp_wasm::wasm_server::error_codes::{INVALID_REQUEST, PARSE_ERROR};
use turbomcp_wasm::wasm_server::endpoint::{
    begin_post, check_body_length, finish_post, is_json_content_type, parse_message, precheck,
    protocol_version_from_header, response_headers, EndpointConfig, Inbound, PendingAdmission, PostStep, Reply,
    DEFAULT_MAX_BODY_SIZE, PROTOCOL_VERSION_HEADER,
};
use turbomcp_wasm::wasm_server::headers::HeaderMap;
use turbomcp_wasm::wasm_server::origin::check_origin;

fn json_headers() -> HeaderMap {
    let mut h = HeaderMap::new();
    h.insert("content-type", "application/json");
    h
}

#[test]
fn origin_rules_match_the_native_transport() {
    let allowed = vec!["https://app.example.com".to_string()];
    assert!(check_origin(None, &[], true, false).is_ok());
    for origin in [
        "http://localhost:3000",
        "http://127.0.0.1",
        "https://[::1]:8443",
    ] {
        assert!(
            check_origin(Some(origin), &[], true, false).is_ok(),
            "{origin}"
        );
    }
    for origin in [
        "http://localhost.evil.com",
        "http://localhost@evil.com",
        "https://evil.com",
        "null",
    ] {
        assert!(
            check_origin(Some(origin), &[], true, false).is_err(),
            "{origin}"
        );
    }
    assert!(check_origin(Some("https://App.Example.com:443"), &allowed, false, false).is_ok());
    assert!(check_origin(Some("https://other.example.com"), &allowed, false, false).is_err());
    assert!(check_origin(Some("http://localhost"), &[], false, false).is_err());
    assert!(check_origin(Some("https://evil.com"), &[], true, true).is_ok());
}

#[test]
fn refusals_name_the_origin() {
    assert_eq!(
        check_origin(Some("https://evil.com"), &[], true, false),
        Err("Origin 'https://evil.com' not allowed".to_string())
    );
    assert_eq!(
        check_origin(Some("null"), &[], true, false),
        Err("Origin 'null' is not a valid origin".to_string())
    );
    // A path makes it no origin at all.
    assert!(check_origin(Some("https://app.example.com/x"), &["https://app.example.com".to_string()], false, false).is_err());
}

#[test]
fn precheck_refuses_before_the_body_is_read() {
    let config = EndpointConfig::default();

    let mut headers = json_headers();
    headers.insert("origin", "https://evil.com");
    assert_eq!(precheck("POST", &headers, &config).unwrap_err().status, 403);

    assert_eq!(
        precheck("GET", &json_headers(), &config).unwrap_err(),
        Reply::method_not_allowed("POST, OPTIONS")
    );
    assert_eq!(
        precheck("PUT", &json_headers(), &config)
            .unwrap_err()
            .status,
        405
    );
    assert_eq!(
        precheck("OPTIONS", &json_headers(), &config).unwrap_err(),
        Reply::empty(204)
    );

    let mut headers = HeaderMap::new();
    headers.insert("content-type", "text/plain");
    assert_eq!(precheck("POST", &headers, &config).unwrap_err().status, 415);

    let mut headers = json_headers();
    headers.insert(
        "content-length",
        &(DEFAULT_MAX_BODY_SIZE + 1).to_string(),
    );
    assert_eq!(precheck("POST", &headers, &config).unwrap_err().status, 413);

    assert!(precheck("POST", &json_headers(), &config).is_ok());
}

#[test]
fn content_length_is_read_as_usize_parses_it() {
    let config = EndpointConfig::default().max_body_size(10);
    let mut headers = json_headers();
    headers.insert("content-length", "+11");
    assert_eq!(precheck("POST", &headers, &config).unwrap_err().status, 413);
    headers.insert("content-length", "10");
    assert!(precheck("POST", &headers, &config).is_ok());
    // Unparseable lengths declare nothing.
    headers.insert("content-length", " 11");
    assert!(precheck("POST", &headers, &config).is_ok());
    headers.insert("content-length", "99999999999999999999999999");
    assert!(precheck("POST", &headers, &config).is_ok());
    assert_eq!(check_body_length(11, 10).unwrap_err().status, 413);
    assert!(check_body_length(10, 10).is_ok());
}

#[test]
fn content_type_parameters_are_allowed() {
    assert!(is_json_content_type(Some(
        "application/json; charset=utf-8"
    )));
    assert!(is_json_content_type(Some("Application/JSON")));
    assert!(!is_json_content_type(Some("text/json")));
    assert!(!is_json_content_type(Some("application/jsonp")));
    assert!(!is_json_content_type(None));
}

#[test]
fn allowlist_and_localhost_switches_are_kept() {
    let config = EndpointConfig::default()
        .allow_origin("https://a.example")
        .allow_origins(&["https://b.example".to_string()])
        .allow_localhost_origins(false)
        .allow_any_origin(false);
    assert_eq!(config.allowed_origins, vec!["https://a.example", "https://b.example"]);
    assert!(!config.allow_localhost_origins);
    let mut headers = json_headers();
    headers.insert("origin", "https://b.example");
    assert!(precheck("POST", &headers, &config).is_ok());
    headers.insert("origin", "http://localhost");
    assert_eq!(precheck("POST", &headers, &config).unwrap_err().status, 403);
}

#[test]
fn unsupported_protocol_version_header_is_refused() {
    assert_eq!(protocol_version_from_header(None), Ok(None));
    assert_eq!(
        protocol_version_from_header(Some(" 2025-06-18 ")),
        Ok(Some("2025-06-18".to_string()))
    );
    assert_eq!(
        protocol_version_from_header(Some("1999-01-01")),
        Err("Unsupported MCP-Protocol-Version '1999-01-01'; supported: 2025-06-18, 2025-11-25".to_string())
    );
    assert_eq!(PROTOCOL_VERSION_HEADER, "mcp-protocol-version");
}

#[test]
fn only_supported_versions_are_accepted() {
    assert!(check_negotiated_version("2025-06-18").is_ok());
    assert!(check_negotiated_version("2025-11-25").is_ok());
    assert!(check_negotiated_version("2024-11-05").is_err());
}

#[test]
fn event_streams_are_recognised_by_media_type() {
    assert!(is_event_stream(Some("text/event-stream; charset=utf-8")));
    assert!(is_event_stream(Some("Text/Event-Stream")));
    assert!(!is_event_stream(Some("application/json")));
    assert!(!is_event_stream(None));
}

#[test]
fn cors_echoes_the_origin_and_spares_refusals() {
    let reply = Reply::text(200, "ok").with_header("X-A", "1");
    let headers = response_headers(&reply, Some("https://app.example"), "POST, OPTIONS");
    assert_eq!(headers[0], ("Access-Control-Allow-Origin".to_string(), "https://app.example".to_string()));
    assert_eq!(headers[1], ("Vary".to_string(), "Origin".to_string()));
    assert!(headers.contains(&("Access-Control-Max-Age".to_string(), "86400".to_string())));
    assert_eq!(
        headers[headers.len() - 2],
        ("Content-Type".to_string(), "text/plain; charset=utf-8".to_string())
    );
    assert_eq!(headers[headers.len() - 1], ("X-A".to_string(), "1".to_string()));

    let any = response_headers(&Reply::empty(204), None, "POST, OPTIONS");
    assert_eq!(any[0], ("Access-Control-Allow-Origin".to_string(), "*".to_string()));
    assert_eq!(any.len(), 5);

    let refused = response_headers(&Reply::text(403, "no"), Some("https://evil.com"), "POST");
    assert_eq!(
        refused,
        vec![("Content-Type".to_string(), "text/plain; charset=utf-8".to_string())]
    );
}

#[test]
fn replies_carry_what_they_were_built_with() {
    let sse = Reply::sse("data: x\n\n".to_string());
    assert_eq!(sse.status, 200);
    assert_eq!(sse.content_type, Some("text/event-stream"));
    assert_eq!(sse.headers, vec![("Cache-Control", "no-cache".to_string())]);
    let refusal = Reply::method_not_allowed("GET");
    assert_eq!(refusal.status, 405);
    assert_eq!(refusal.body, "Method not allowed");
    assert_eq!(refusal.headers, vec![("Allow", "GET".to_string())]);
}

fn body_json(reply: &Reply) -> serde_json::Value {
    serde_json::from_str(&reply.body).expect("reply body is JSON")
}

#[test]
fn malformed_json_is_a_parse_error_with_null_id() {
    let reply = match begin_post(&json_headers(), "{not json") {
        PostStep::Answer(reply) => reply,
        _ => panic!("a body that is not JSON is answered at once"),
    };
    assert_eq!(reply.status, 400);
    assert_eq!(reply.content_type, Some("application/json"));
    let body = body_json(&reply);
    assert_eq!(body["jsonrpc"], "2.0");
    assert_eq!(body["error"]["code"], -32700);
    assert!(body["error"]["message"].as_str().unwrap().starts_with("Parse error: "));
    assert!(body.as_object().unwrap().contains_key("id"));
    assert!(body["id"].is_null());
}

#[test]
fn bad_envelopes_are_invalid_requests_with_null_id() {
    for body in [
        r#"{"jsonrpc":"2.0","id":null,"method":"ping"}"#,
        r#"{"jsonrpc":"2.0","id":1.5,"method":"ping"}"#,
        r#"{"jsonrpc":"2.0","id":{"a":1},"method":"ping"}"#,
        r#"{"jsonrpc":"1.0","id":1,"method":"ping"}"#,
        r#"[{"jsonrpc":"2.0","id":1,"method":"ping"}]"#,
        r#"{"jsonrpc":"2.0","id":1}"#,
        r#"{"id":1,"method":"ping"}"#,
        r#"{"jsonrpc":"2.0","id":1,"method":7}"#,
    ] {
        let reply = match parse_message(body) {
            Inbound::Invalid(reply) => reply,
            _ => panic!("{body} is an invalid request"),
        };
        assert_eq!(reply.status, 400, "{body}");
        let json = body_json(&reply);
        assert_eq!(json["error"]["code"], -32600, "{body}");
        assert!(json["id"].is_null(), "{body}");
        assert!(matches!(begin_post(&json_headers(), body), PostStep::Answer(_)), "{body}");
    }
}

#[test]
fn client_response_is_accepted_with_an_empty_202() {
    let body = r#"{"jsonrpc":"2.0","id":7,"result":{}}"#;
    assert!(matches!(parse_message(body), Inbound::ClientResponse));
    let pending = match begin_post(&json_headers(), body) {
        PostStep::Admit(p) => p,
        _ => panic!("a client response goes to the admission check"),
    };
    assert_eq!(pending.method, None);
    match pending.rule(Ok(())) {
        PostStep::Answer(reply) => assert_eq!(reply, Reply::empty(202)),
        _ => panic!("an admitted client response is accepted"),
    }
    let error = r#"{"jsonrpc":"2.0","id":"a","error":{"code":1,"message":"m"}}"#;
    assert!(matches!(parse_message(error), Inbound::ClientResponse));
}

#[test]
fn requests_and_notifications_are_messages() {
    for (body, method, notification) in [
        (r#"{"jsonrpc":"2.0","method":"notifications/initialized"}"#, "notifications/initialized", true),
        (r#"{"jsonrpc":"2.0","id":1,"method":"ping"}"#, "ping", false),
        (r#"{"jsonrpc":"2.0","id":-3,"method":"ping"}"#, "ping", false),
        (r#"{"jsonrpc":"2.0","id":"abc","method":"tools/list","params":{}}"#, "tools/list", false),
        (r#"{"jsonrpc":"2.0","id":1,"method":"x","result":{}}"#, "x", false),
    ] {
        match parse_message(body) {
            Inbound::Message { method: m, notification: n } => {
                assert_eq!(m, method, "{body}");
                assert_eq!(n, notification, "{body}");
            }
            _ => panic!("{body} is a message"),
        }
    }
}

#[test]
fn unsupported_protocol_version_header_is_a_400() {
    let mut headers = json_headers();
    headers.insert(PROTOCOL_VERSION_HEADER, "1999-01-01");
    match begin_post(&headers, r#"{"jsonrpc":"2.0","id":1,"method":"ping"}"#) {
        PostStep::Answer(reply) => {
            assert_eq!(reply.status, 400);
            assert_eq!(
                reply.body,
                "Unsupported MCP-Protocol-Version '1999-01-01'; supported: 2025-06-18, 2025-11-25"
            );
        }
        _ => panic!("an unsupported version is refused"),
    }
}

#[test]
fn messages_go_to_admission_with_their_method_and_version() {
    let body = r#"{"jsonrpc":"2.0","id":1,"method":"tools/list"}"#;
    match begin_post(&json_headers(), body) {
        PostStep::Admit(p) => {
            assert_eq!(p.method.as_deref(), Some("tools/list"));
            assert_eq!(p.version, None);
        }
        _ => panic!("a message goes to the admission check"),
    }
    let mut headers = json_headers();
    headers.insert(PROTOCOL_VERSION_HEADER, " 2025-06-18 ");
    match begin_post(&headers, body) {
        PostStep::Admit(p) => assert_eq!(p.version.as_deref(), Some("2025-06-18")),
        _ => panic!("a supported version is carried on"),
    }
}

#[test]
fn admit_can_refuse_before_dispatch() {
    let pending = match begin_post(
        &json_headers(),
        r#"{"jsonrpc":"2.0","id":1,"method":"tools/list"}"#,
    ) {
        PostStep::Admit(p) => p,
        _ => panic!("the request goes to the admission check"),
    };
    assert_eq!(pending.method.as_deref(), Some("tools/list"));
    let refusal = Reply::text(401, "no");
    match pending.rule(Err(refusal.clone())) {
        PostStep::Answer(reply) => {
            assert_eq!(reply.status, 401);
            assert_eq!(reply, refusal);
        }
        _ => panic!("a refusal is answered and nothing is routed"),
    }
}

#[test]
fn admitted_messages_are_routed_and_answered() {
    let pending = PendingAdmission {
        method: Some("ping".to_string()),
        version: Some("2025-06-18".to_string()),
    };
    match pending.rule(Ok(())) {
        PostStep::Route(version) => assert_eq!(version.as_deref(), Some("2025-06-18")),
        _ => panic!("an admitted message is routed"),
    }
    let answer = r#"{"jsonrpc":"2.0","id":1,"result":{}}"#.to_string();
    let reply = finish_post(Some(answer.clone()));
    assert_eq!(reply, Reply::rpc(200, answer.clone()));
    assert_eq!(reply.status, 200);
    assert_eq!(reply.content_type, Some("application/json"));
    assert_eq!(reply.body, answer);
    assert_eq!(finish_post(None), Reply::empty(202));
}

#[test]
fn error_messages_escape_their_text() {
    let m = error_message(INVALID_REQUEST, "bad \"id\"\n");
    assert_eq!(
        m,
        "{\"jsonrpc\":\"2.0\",\"id\":null,\"error\":{\"code\":-32600,\"message\":\"bad \\\"id\\\"\\n\"}}"
    );
    let v: serde_json::Value = serde_json::from_str(&error_message(PARSE_ERROR, "x")).unwrap();
    assert_eq!(v["error"]["code"], -32700);
    assert_eq!(v["error"]["message"], "x");
}
