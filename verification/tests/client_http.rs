use serde_json::Value;
use turbomcp_wasm::client_http::response_message;
use turbomcp_wasm::event_stream::event_stream_data;

fn json(text: &str) -> Value {
    serde_json::from_str(text).unwrap()
}

#[test]
fn json_bodies_are_the_response() {
    let message = response_message(
        Some("application/json"),
        r#"{"jsonrpc":"2.0","id":3,"result":{}}"#,
        3,
    )
    .unwrap();
    assert_eq!(json(&message)["id"], 3);
}

#[test]
fn sse_bodies_yield_the_response_past_other_messages() {
    let body = [
        ": connected\n\n",
        "id: 1\ndata: {\"jsonrpc\":\"2.0\",\"method\":\"notifications/progress\",\"params\":{}}\n\n",
        "id: 2\ndata: {\"jsonrpc\":\"2.0\",\"id\":99,\"method\":\"sampling/createMessage\"}\n\n",
        "id: 3\ndata: {\"jsonrpc\":\"2.0\",\"id\":7,\"result\":{\"ok\":true}}",
    ]
    .concat();
    let body = body.as_str();
    let message = response_message(Some("text/event-stream; charset=utf-8"), body, 7).unwrap();
    assert_eq!(json(&message)["result"]["ok"], true);

    assert!(response_message(Some("text/event-stream"), body, 8).is_err());
}

#[test]
fn a_body_that_is_not_json_is_refused() {
    let err = response_message(Some("application/json"), "not json", 1).unwrap_err();
    assert!(err.starts_with("Invalid JSON response: "));
    let err = response_message(None, "", 1).unwrap_err();
    assert!(err.starts_with("Invalid JSON response: "));
}

#[test]
fn a_stream_without_the_response_names_the_request() {
    let body = "data: {\"jsonrpc\":\"2.0\",\"id\":\"7\",\"result\":{}}\n\n";
    assert_eq!(
        response_message(Some("text/event-stream"), body, 7).unwrap_err(),
        "SSE stream ended without a response to request 7"
    );
    assert_eq!(
        response_message(Some("text/event-stream"), "", 12).unwrap_err(),
        "SSE stream ended without a response to request 12"
    );
}

#[test]
fn the_first_answer_wins() {
    let body = "data: {\"id\":5,\"result\":1}\n\ndata: {\"id\":5,\"result\":2}\n\n";
    let message = response_message(Some("text/event-stream"), body, 5).unwrap();
    assert_eq!(json(&message)["result"], 1);
}

#[test]
fn events_gather_their_data_lines() {
    let body = "event: message\r\ndata: a\r\ndata:b\r\n\r\n: comment\n\nid: 9\n\ndata\rdata:  c\r";
    assert_eq!(event_stream_data(body), ["a\nb", "\n c"]);
}

#[test]
fn events_need_a_blank_line_or_the_end() {
    assert_eq!(event_stream_data("data: x\ndata: y"), ["x\ny"]);
    assert_eq!(event_stream_data("data: x\n\ndata: y\n"), ["x", "y"]);
    assert!(event_stream_data("").is_empty());
    assert!(event_stream_data("retry: 10\n\n").is_empty());
    assert_eq!(event_stream_data("data:\n\n"), [""]);
}
