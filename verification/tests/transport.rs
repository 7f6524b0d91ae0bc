use homepage::error::{McpClientError, TransportError};
use homepage::json::Json;
use homepage::transport::events::{Afterwards, Dialect, Listener};
use homepage::transport::http::{HeadOutcome, HttpTransport};
use homepage::transport::sse::SseTransport;
use homepage::transport::{
    collect_headers, find_header, HttpMethod, ResponseHead, ServerEvent, TransportType,
};

fn json(text: &str) -> Json {
    Json::parse(text.as_bytes()).unwrap()
}

/// The bytes of a document as they go over the wire.
fn bytes(text: &str) -> Vec<u8> {
    let value: serde_json::Value = serde_json::from_str(text).unwrap();
    serde_json::to_vec(&value).unwrap()
}

fn chunks(data: Vec<Vec<u8>>) -> Vec<Result<Vec<u8>, String>> {
    data.into_iter().map(Ok).collect()
}

fn member<'a>(json: &'a Json, path: &[&str]) -> &'a Json {
    path.iter().fold(json, |j, key| j.get(key).unwrap())
}

fn text(s: &str) -> Json {
    Json::Text(s.to_string())
}

fn number(s: &str) -> Json {
    Json::Number(s.to_string())
}

fn connection_message(e: McpClientError) -> String {
    match e {
        McpClientError::Transport(TransportError::ConnectionFailed(m)) => m,
        other => panic!("unexpected error: {other:?}"),
    }
}

fn http_message(e: McpClientError) -> String {
    match e {
        McpClientError::Transport(TransportError::Http(m)) => m,
        other => panic!("unexpected error: {other:?}"),
    }
}

fn sse_message(e: McpClientError) -> String {
    match e {
        McpClientError::Transport(TransportError::Sse(m)) => m,
        other => panic!("unexpected error: {other:?}"),
    }
}

#[test]
fn test_http_transport_creation() {
    let transport = HttpTransport::new("http://localhost:8080/mcp").unwrap();
    assert_eq!(transport.transport_type(), TransportType::Http);
    assert!(!transport.is_connected());
}

#[test]
fn test_invalid_url() {
    let result = HttpTransport::new("invalid-url");
    assert!(result.is_err());
    assert_eq!(connection_message(result.unwrap_err()), "Invalid URL: relative URL without a base");
    assert!(HttpTransport::with_client("invalid-url").is_err());
}

#[test]
fn test_invalid_scheme() {
    let result = HttpTransport::new("ftp://localhost:8080/mcp");
    assert!(result.is_err());
    assert_eq!(connection_message(result.unwrap_err()), "Invalid scheme for HTTP transport: ftp");
    // A client of the caller's own may know more schemes.
    assert!(HttpTransport::with_client("ftp://localhost:8080/mcp").is_ok());
}

#[test]
fn http_test_connect_sets_connected_flag() {
    let mut transport = HttpTransport::new("http://localhost:8080/mcp").unwrap();
    assert!(!transport.is_connected());
    transport.connect().unwrap();
    assert!(transport.is_connected());
}

#[test]
fn test_connection_info() {
    let transport = HttpTransport::new("https://example.com:8443/mcp/endpoint").unwrap();
    let info = transport.connection_info();

    assert_eq!(info.transport_type, TransportType::Http);
    assert_eq!(info.endpoint, "https://example.com:8443/mcp/endpoint");
    assert!(!info.connected);

    assert_eq!(*member(&info.metadata, &["scheme"]), text("https"));
    assert_eq!(*member(&info.metadata, &["host"]), text("example.com"));
    assert_eq!(*member(&info.metadata, &["port"]), number("8443"));
    assert_eq!(*member(&info.metadata, &["path"]), text("/mcp/endpoint"));
}

#[test]
fn test_request_id_generation() {
    let mut transport = HttpTransport::new("http://localhost:8080/mcp").unwrap();

    let id1 = transport.next_request_id();
    let id2 = transport.next_request_id();

    assert_ne!(id1, id2);
    assert!(id1.starts_with("req_"));
    assert!(id2.starts_with("req_"));
    assert_eq!((id1.as_str(), id2.as_str()), ("req_0", "req_1"));

    transport.request_counter = u64::MAX;
    assert_eq!(transport.next_request_id(), "req_18446744073709551615");
    assert_eq!(transport.next_request_id(), "req_0");
}

#[test]
fn test_handle_byte_stream_single_response() {
    let mut transport = HttpTransport::new("http://localhost:8080/mcp").unwrap();

    // Create a single JSON response
    let response_bytes = bytes(r#"{"jsonrpc": "2.0", "id": 1, "result": {"tools": []}}"#);

    // Create stream with single chunk
    let stream = chunks(vec![response_bytes]);

    // Process the stream
    let result = transport.test_handle_byte_stream(&stream).result.unwrap();

    assert_eq!(*member(&result, &["jsonrpc"]), text("2.0"));
    assert_eq!(*member(&result, &["id"]), number("1"));
    assert!(result.get("result").is_some());
    assert_eq!(transport.statistics().responses_received, 1);
}

#[test]
fn test_handle_byte_stream_chunked_response() {
    let mut transport = HttpTransport::new("http://localhost:8080/mcp").unwrap();

    // Create a response that will be split across chunks
    let response_bytes = bytes(
        r#"{"jsonrpc": "2.0", "id": 2,
            "result": {"tools": [{"name": "calculator", "description": "A calculator tool"}]}}"#,
    );

    // Split the response into multiple chunks to test streaming
    let chunk1 = response_bytes[..20].to_vec();
    let chunk2 = response_bytes[20..40].to_vec();
    let chunk3 = response_bytes[40..].to_vec();

    let stream = chunks(vec![chunk1, chunk2, chunk3]);

    // Process the stream
    let result = transport.test_handle_byte_stream(&stream).result.unwrap();

    assert_eq!(*member(&result, &["jsonrpc"]), text("2.0"));
    assert_eq!(*member(&result, &["id"]), number("2"));
    assert!(result.get("result").is_some());
}

#[test]
fn test_handle_byte_stream_with_progress_notifications() {
    let mut transport = HttpTransport::new("http://localhost:8080/mcp").unwrap();

    // Create progress notification followed by final response
    let progress1 = r#"{"jsonrpc": "2.0", "method": "notifications/progress",
        "params": {"progressToken": "test_progress", "progress": 50, "total": 100}}"#;
    let progress2 = r#"{"jsonrpc": "2.0", "method": "notifications/progress",
        "params": {"progressToken": "test_progress", "progress": 100, "total": 100}}"#;
    let final_response = r#"{"jsonrpc": "2.0", "id": 3, "result": {"success": true}}"#;

    // Create separate chunks for each frame
    let stream = chunks(vec![bytes(progress1), bytes(progress2), bytes(final_response)]);

    // Start event listener to capture progress notifications
    assert!(transport.start_event_listener().is_empty());

    // Process the stream (should return final response)
    let outcome = transport.test_handle_byte_stream(&stream);
    let result = outcome.result.unwrap();

    // Verify final response
    assert_eq!(*member(&result, &["jsonrpc"]), text("2.0"));
    assert_eq!(*member(&result, &["id"]), number("3"));
    assert_eq!(*member(&result, &["result", "success"]), Json::Bool(true));

    // Verify progress notifications were captured
    assert_eq!(outcome.forwarded.len(), 2);
    let ServerEvent::Notification(first) = &outcome.forwarded[0] else {
        panic!("not a notification");
    };
    assert_eq!(*member(first, &["params", "progress"]), number("50"));
    assert!(transport.queued_events.is_empty());
}

#[test]
fn test_progress_event_queue_replay() {
    let mut transport = HttpTransport::new("http://localhost:8080/mcp").unwrap();

    // Create progress notifications that arrive BEFORE starting event listener
    let progress1 = r#"{"jsonrpc": "2.0", "method": "notifications/progress",
        "params": {"progressToken": "early_progress", "progress": 25, "total": 100}}"#;
    let progress2 = r#"{"jsonrpc": "2.0", "method": "notifications/progress",
        "params": {"progressToken": "early_progress", "progress": 75, "total": 100}}"#;
    let final_response = r#"{"jsonrpc": "2.0", "id": 4, "result": {"queued_events_test": true}}"#;

    // Create separate chunks for each frame
    let stream = chunks(vec![bytes(progress1), bytes(progress2), bytes(final_response)]);

    // Process stream WITHOUT starting event listener first
    // This should queue the progress notifications
    let outcome = transport.test_handle_byte_stream(&stream);
    let result = outcome.result.unwrap();
    assert!(outcome.forwarded.is_empty());

    // Verify final response
    assert_eq!(*member(&result, &["jsonrpc"]), text("2.0"));
    assert_eq!(*member(&result, &["id"]), number("4"));
    assert_eq!(*member(&result, &["result", "queued_events_test"]), Json::Bool(true));

    // NOW start event listener - should replay queued events
    let events = transport.start_event_listener();
    assert!(events.get(0).is_some(), "Should replay first queued event");
    assert!(events.get(1).is_some(), "Should replay second queued event");

    // Verify no more events (queue should be empty after replay)
    assert!(events.get(2).is_none(), "Should not have any more events after replay");
    assert!(transport.start_event_listener().is_empty());

    // What a listener leaves unheard waits for the next one.
    transport.listener_lost(events);
    assert_eq!(transport.start_event_listener().len(), 2);
}

#[test]
fn a_stream_reads_the_same_however_it_is_cut() {
    let whole: Vec<u8> = [
        r#"{"method": "a", "params": "}{"} {"method": "b"}"#,
        "\n[1, 2]\n\"text\" {\"id\": 1}",
        r#"{"id": 1, "result": {"x": "y"}} {"id": 2, "result": 0}"#,
    ]
    .concat()
    .into_bytes();
    let read = |pieces: Vec<Vec<u8>>| {
        let mut transport = HttpTransport::new("http://localhost/mcp").unwrap();
        transport.start_event_listener();
        let outcome = transport.test_handle_byte_stream(&chunks(pieces));
        (format!("{:?}", outcome.forwarded), format!("{:?}", outcome.result))
    };
    let at_once = read(vec![whole.clone()]);
    assert!(at_once.0.contains("\"a\"") && at_once.0.contains("\"b\""));
    assert!(at_once.1.contains("\"y\""));
    for cut in 1..whole.len() {
        assert_eq!(read(vec![whole[..cut].to_vec(), whole[cut..].to_vec()]), at_once);
    }
    assert_eq!(read(whole.iter().map(|b| vec![*b]).collect()), at_once);
}

#[test]
fn the_documents_of_a_stream_decide_however_it_is_cut() {
    let notes = r#"{"method": "a"} {"other": 1}{"id": 4, "method": "b"} "#;
    let failure = r#"{"id": 1, "error": "no"}"#;
    for (end, message) in [("\n", "Stream ended without final result"), (failure, "Server error: \"no\"")] {
        let whole = format!("{notes}{end}").into_bytes();
        for cut in 0..=whole.len() {
            let mut transport = HttpTransport::new("http://localhost/mcp").unwrap();
            let outcome = transport.test_handle_byte_stream(&chunks(vec![whole[..cut].to_vec(), whole[cut..].to_vec()]));
            assert_eq!(http_message(outcome.result.unwrap_err()), message);
            assert!(outcome.forwarded.is_empty());
            let methods: Vec<String> = transport.queued_events.iter().map(|e| format!("{e:?}")).collect();
            assert_eq!(methods.len(), 2);
            assert!(methods[0].contains("\"a\"") && methods[1].contains("\"b\""));
            assert_eq!(transport.stats.responses_received, 0);
        }
    }
}

#[test]
fn a_number_may_grow_but_into_no_other_document() {
    let found = |text: &str| Json::parse_frame(text.as_bytes()).map(|f| (f.json, f.consumed));
    assert_eq!(found("12"), Some((number("12"), 2)));
    assert_eq!(found("123"), Some((number("123"), 3)));
    assert_eq!(found("12{}"), Some((number("12"), 2)));
    assert_eq!(found("12 {}"), Some((number("12"), 2)));
    assert_eq!(found("1true"), None);
    assert_eq!(found(" \"a\" x"), Some((text("a"), 4)));
    assert_eq!(found(" \"a"), None);
    assert_eq!(found(" \n"), None);
    assert_eq!(found(""), None);
}

#[test]
fn a_stream_can_end_in_other_ways() {
    let mut transport = HttpTransport::new("http://localhost/mcp").unwrap();
    let error = chunks(vec![bytes(r#"{"id": 1, "error": {"code": -32601, "message": "no"}}"#)]);
    let e = transport.test_handle_byte_stream(&error).result.unwrap_err();
    assert_eq!(http_message(e), r#"Server error: {"code":-32601,"message":"no"}"#);
    assert_eq!(transport.stats.errors, 1);
    assert_eq!(
        transport.stats.last_error.as_deref(),
        Some(r#"JSON-RPC error: {"code":-32601,"message":"no"}"#)
    );

    let e = transport.test_handle_byte_stream(&chunks(vec![b"{\"id\": 1, ".to_vec()])).result.unwrap_err();
    assert_eq!(http_message(e), "Stream ended without final result");
    let e = transport.test_handle_byte_stream(&Vec::new()).result.unwrap_err();
    assert_eq!(http_message(e), "Stream ended without final result");

    let broken = vec![Ok(b"{\"method\": 1}".to_vec()), Err("reset".to_string()), Ok(b"{}".to_vec())];
    let outcome = transport.test_handle_byte_stream(&broken);
    assert_eq!(http_message(outcome.result.unwrap_err()), "Stream error: reset");
    assert_eq!(transport.queued_events.len(), 1);
    assert_eq!(transport.stats.responses_received, 0);
}

#[test]
fn requests_are_prepared_with_headers_and_an_id() {
    let mut transport = HttpTransport::new("http://localhost/mcp").unwrap();
    let e = transport.send_request(json("{\"method\": \"ping\"}")).unwrap_err();
    assert_eq!(connection_message(e), "Not connected");
    assert_eq!(transport.stats.requests_sent, 0);
    let e = transport.send_request(json("[]")).unwrap_err();
    assert_eq!(connection_message(e), "Not connected");

    transport.connect().unwrap();
    let prepared = transport.send_request(json("{\"method\": \"ping\"}")).unwrap();
    assert_eq!(prepared.method, HttpMethod::Post);
    assert_eq!(prepared.url, "http://localhost/mcp");
    assert_eq!(prepared.body.as_ref().unwrap().get("id"), Some(&text("req_0")));
    assert_eq!(prepared.body.as_ref().unwrap().get("method"), Some(&text("ping")));
    let names: Vec<&str> = prepared.headers.iter().map(|(name, _)| name.as_str()).collect();
    assert_eq!(names, ["Content-Type", "Accept", "MCP-Protocol-Version"]);
    assert_eq!(prepared.headers[1].1, "application/json, text/event-stream");
    assert_eq!(prepared.headers[2].1, "2025-11-25");

    // A request keeps an identifier of its own.
    transport.set_session_id("s1".to_string());
    let prepared = transport.send_request(json("{\"id\": 7}")).unwrap();
    assert_eq!(prepared.body.as_ref().unwrap().get("id"), Some(&number("7")));
    assert_eq!(prepared.headers[3], ("Mcp-Session-Id".to_string(), "s1".to_string()));
    assert_eq!(transport.request_counter, 1);
    assert_eq!(transport.stats.requests_sent, 2);

    let prepared = transport.send_notification(json("{\"method\": \"n\"}")).unwrap();
    assert!(prepared.body.as_ref().unwrap().get("id").is_none());
    assert_eq!(prepared.headers.len(), 3);
    let prepared = transport.send_delete("s2").unwrap();
    assert_eq!(prepared.method, HttpMethod::Delete);
    assert_eq!(prepared.headers[2].1, "s2");
    transport.deleted().unwrap();
    assert_eq!(transport.stats.responses_received, 1);

    assert_eq!(transport.health_check().unwrap().get("method"), Some(&text("ping")));
    assert!(matches!(transport.disconnect(), None));
    assert!(transport.health_check().is_none());
    assert!(transport.listen_request().is_none());
}

fn head(status: u16, status_text: &str, headers: &[(&str, &[u8])]) -> ResponseHead {
    ResponseHead {
        status,
        status_text: status_text.to_string(),
        headers: headers.iter().map(|(name, value)| (name.to_string(), value.to_vec())).collect(),
    }
}

#[test]
fn heads_decide_how_an_answer_is_read() {
    let mut transport = HttpTransport::new("http://localhost/mcp").unwrap();
    let good = head(200, "200 OK", &[("content-type", b"application/json; charset=utf-8"), ("mcp-session-id", b"abc")]);
    assert!(matches!(transport.handle_head(&good, "send_request"), HeadOutcome::ReadStream));
    assert_eq!(transport.session_id.as_deref(), Some("abc"));

    let events = head(200, "200 OK", &[("content-type", b"text/event-stream")]);
    let HeadOutcome::Failed(e) = transport.handle_head(&events, "send_request") else {
        panic!("not failed");
    };
    assert_eq!(http_message(e), "Unexpected SSE response in send_request");
    let html = head(200, "200 OK", &[("content-type", b"text/html")]);
    let HeadOutcome::Failed(e) = transport.handle_head(&html, "send_request") else {
        panic!("not failed");
    };
    assert_eq!(http_message(e), "Unsupported content type: text/html");
    assert_eq!(transport.session_id.as_deref(), Some("abc"));

    let refused = head(401, "401 Unauthorized", &[("mcp-session-id", b"other")]);
    assert!(matches!(transport.handle_head(&refused, "send_request"), HeadOutcome::ReadReason));
    assert_eq!(transport.session_id.as_deref(), Some("abc"));
    let e = transport.refused("401 Unauthorized", Some("who?".to_string()));
    assert_eq!(http_message(e), "HTTP error 401 Unauthorized: who?");
    assert_eq!(transport.stats.last_error.as_deref(), Some("HTTP 401 Unauthorized: who?"));
    let e = transport.refused("500 Internal Server Error", None);
    assert_eq!(http_message(e), "HTTP error 500 Internal Server Error: Unknown error");
    assert_eq!(transport.stats.errors, 2);

    assert_eq!(http_message(HttpTransport::unsent("request", "x")), "Failed to send request: x");
    assert!(HttpTransport::notified(204, "204 No Content", None).is_ok());
    let e = HttpTransport::notified(400, "400 Bad Request", None).unwrap_err();
    assert_eq!(http_message(e), "Notification failed with status 400 Bad Request: Unknown error");
}

#[test]
fn headers_are_texts_by_name() {
    let headers = vec![
        ("a".to_string(), b"1".to_vec()),
        ("b".to_string(), vec![0xff]),
        ("a".to_string(), b"2".to_vec()),
        ("b".to_string(), b"late".to_vec()),
    ];
    assert_eq!(find_header(&headers, "a").as_deref(), Some("1"));
    // The first header of a name decides, even if it is no text.
    assert_eq!(find_header(&headers, "b"), None);
    assert_eq!(find_header(&headers, "c"), None);
    let map = collect_headers(&headers);
    assert_eq!(map.get("a").map(|s| s.as_str()), Some("2"));
    assert_eq!(map.get("b").map(|s| s.as_str()), Some("late"));
    assert_eq!(map.len(), 2);
    let h = head(200, "200 OK", &[("x", b"y")]);
    let response = HttpTransport::with_headers(&h, Ok(json("{}"))).unwrap();
    assert_eq!(response.headers.get("x").map(|s| s.as_str()), Some("y"));
}

#[test]
fn test_sse_transport_creation() {
    let transport = SseTransport::new("http://localhost:8080/mcp").unwrap();
    assert_eq!(transport.transport_type(), TransportType::Sse);
    assert!(!transport.is_connected());
    assert_eq!(transport.sse_endpoint.to_string(), "http://localhost:8080/mcp/sse");
    assert_eq!(SseTransport::new("http://localhost/mcp//?a=b#c").unwrap().sse_endpoint, "http://localhost/mcp/sse?a=b#c");
    assert_eq!(connection_message(SseTransport::new("ws://x/").unwrap_err()), "Invalid scheme for SSE transport: ws");
    assert_eq!(
        connection_message(SseTransport::new("").unwrap_err()),
        "Invalid URL: relative URL without a base"
    );
    let made = SseTransport::new_if_short("http://localhost/mcp").unwrap().unwrap();
    assert_eq!(made.sse_endpoint, "http://localhost/mcp/sse");
    assert!(SseTransport::new_if_short("ws://x/").unwrap().is_err());
    let mut made = made;
    assert_eq!(connection_message(made.send_request(json("[]")).unwrap_err()), "Not connected");
}

#[test]
fn sse_test_connect_sets_connected_flag() {
    let mut transport = SseTransport::new("http://localhost:8080/mcp").unwrap();
    assert!(!transport.is_connected());
    transport.connect().unwrap();
    assert!(transport.is_connected());
}

#[test]
fn test_sse_event_parsing() {
    // Test notification event
    let event_text = "event: notification\ndata: {\"method\":\"test\",\"params\":{}}";
    let event = SseTransport::parse_sse_event(event_text).unwrap();
    let ServerEvent::Notification(json) = event else {
        panic!("Expected notification event, got: {:?}", event);
    };
    assert_eq!(*member(&json, &["method"]), text("test"));

    // Test heartbeat event
    let heartbeat_text = "event: heartbeat\ndata: ping";
    let heartbeat = SseTransport::parse_sse_event(heartbeat_text).unwrap();
    assert!(matches!(heartbeat, ServerEvent::Heartbeat));

    // Test multiline data
    let multiline_text = "event: notification\ndata: {\ndata:   \"method\": \"test\"\ndata: }";
    let multiline_event = SseTransport::parse_sse_event(multiline_text).unwrap();
    let ServerEvent::Notification(json) = multiline_event else {
        panic!("Expected notification event, got: {:?}", multiline_event);
    };
    assert_eq!(*member(&json, &["method"]), text("test"));
}

#[test]
fn test_custom_endpoints() {
    let transport =
        SseTransport::with_endpoints("http://localhost:8080/mcp", "http://localhost:8080/events").unwrap();

    assert_eq!(transport.endpoint.text, "http://localhost:8080/mcp");
    assert_eq!(transport.sse_endpoint.to_string(), "http://localhost:8080/events");

    let e = SseTransport::with_endpoints("http://localhost", "x").unwrap_err();
    assert_eq!(connection_message(e), "Invalid SSE URL: relative URL without a base");
    let e = SseTransport::with_endpoints("x", "http://localhost").unwrap_err();
    assert_eq!(connection_message(e), "Invalid URL: relative URL without a base");
}

#[test]
fn sse_events_go_by_their_names() {
    let parse = SseTransport::parse_sse_event;
    assert!(matches!(parse("event: request\ndata: {\"id\":1}"), Some(ServerEvent::Request(_))));
    assert!(matches!(parse("data: {\"id\":1}"), Some(ServerEvent::Notification(_))));
    assert!(matches!(parse("event: ping\ndata: x"), Some(ServerEvent::Heartbeat)));
    assert!(parse("event: ping").is_none());
    assert!(parse("event: other\ndata: {}").is_none());
    assert!(parse("event: notification\ndata: {").is_none());
    assert!(parse("event: request\ndata: nope").is_none());
    assert!(parse("data: nope").is_none());
    assert!(parse(": comment").is_none());
    assert!(parse("data:{}").is_none());
    // The last name counts, wherever it stands.
    assert!(matches!(parse("event: other\ndata: {}\nevent: request"), Some(ServerEvent::Request(_))));
}

#[test]
fn sse_answers_are_documents() {
    let mut transport = SseTransport::new("http://localhost/mcp").unwrap();
    let answer = transport.handle_response(200, "200 OK", Ok("{\"a\":1}".to_string())).unwrap();
    assert_eq!(*member(&answer, &["a"]), number("1"));
    assert_eq!(transport.stats.responses_received, 1);
    let e = transport.handle_response(200, "200 OK", Ok("{".to_string())).unwrap_err();
    assert_eq!(sse_message(e), "Invalid JSON response: EOF while parsing an object at line 1 column 1");
    let e = transport.handle_response(200, "200 OK", Err("cut".to_string())).unwrap_err();
    assert_eq!(sse_message(e), "Failed to read response: cut");
    assert_eq!(transport.stats.errors, 0);
    let e = transport.handle_response(404, "404 Not Found", Ok("gone".to_string())).unwrap_err();
    assert_eq!(sse_message(e), "HTTP error 404 Not Found: gone");
    let e = transport.handle_response(404, "404 Not Found", Err("cut".to_string())).unwrap_err();
    assert_eq!(sse_message(e), "HTTP error 404 Not Found: Unknown error");
    assert_eq!(transport.stats.last_error.as_deref(), Some("HTTP 404 Not Found: Unknown error"));
    assert_eq!(transport.stats.errors, 2);

    let h = head(404, "404 Not Found", &[("x", b"y")]);
    let response = SseTransport::handle_response_with_headers(&h, Ok("[]".to_string())).unwrap();
    assert_eq!(response.headers.get("x").map(|s| s.as_str()), Some("y"));
    assert_eq!(response.body, Json::Array(Vec::new()));
    let e = SseTransport::handle_response_with_headers(&h, Err("cut".to_string())).err().unwrap();
    assert_eq!(http_message(e), "Failed to read response: cut");

    transport.connect().unwrap();
    let prepared = transport.send_request(json("null")).unwrap();
    assert_eq!(prepared.body.unwrap().get("id"), Some(&text("req_0")));
    assert_eq!(prepared.headers[1].1, "application/json");
    let plain = transport.send_request_with_headers(json("{}")).unwrap();
    assert_eq!(plain.body, Some(Json::Object(Vec::new())));
    assert_eq!(transport.stats.requests_sent, 1);
    assert_eq!(transport.listen_request().url, "http://localhost/mcp/sse");
    transport.event_received();
    assert_eq!(transport.statistics().events_received, 1);
    transport.start_event_listener();
    assert!(matches!(transport.disconnect(), Some(ServerEvent::ConnectionLost)));
    let info = transport.connection_info();
    assert_eq!(*member(&info.metadata, &["port"]), Json::Null);
    assert_eq!(*member(&info.metadata, &["main_endpoint"]), text("http://localhost/mcp"));
}

#[test]
fn listeners_hear_whole_events() {
    let mut listener = Listener::new(Dialect::Streamable);
    let step = listener.answered(200, "200 OK");
    assert!(step.events.is_empty() && step.next == Afterwards::Read);
    let step = listener.received(b"id: 1\ndata: {\"method\":\"a\"}\n");
    assert!(step.events.is_empty());
    let step = listener.received(b"\ndata: {\"id\":1}\n\ndata: 5\n\ndata: no\n\nrest");
    assert_eq!(step.events.len(), 3);
    assert!(matches!(&step.events[0], ServerEvent::Notification(j) if j.get("method").is_some()));
    assert!(matches!(&step.events[1], ServerEvent::Request(_)));
    assert!(matches!(&step.events[2], ServerEvent::Notification(Json::Number(_))));
    assert_eq!(listener.buffer, "rest");

    let step = listener.broken("x");
    assert_eq!(step.next, Afterwards::Reconnect { seconds: 2 });
    assert_eq!(step.events.len(), 1);
    let step = listener.ended();
    assert!(matches!(step.events[0], ServerEvent::ConnectionLost));
    let step = listener.answered(503, "503 Service Unavailable");
    assert!(matches!(&step.events[0], ServerEvent::Error(m) if m == "HTTP 503 Service Unavailable"));
    assert_eq!(step.next, Afterwards::Reconnect { seconds: 5 });
    let step = listener.unreachable("no route");
    assert!(matches!(&step.events[0], ServerEvent::Error(m) if m == "no route"));
    assert!(listener.stops_unheard(&ServerEvent::ConnectionLost));
    assert!(listener.stops_closed());
    assert!(!listener.counts(&ServerEvent::Heartbeat));
    // A new connection starts with nothing left over.
    listener.answered(200, "200 OK");
    assert_eq!(listener.buffer, "");
}

#[test]
fn separate_endpoints_have_listeners_of_their_own() {
    let mut listener = Listener::new(Dialect::Separate);
    listener.answered(200, "200 OK");
    let step = listener.received(b"event: heartbeat\ndata: x\n\nevent: other\ndata: x\n\n");
    assert_eq!(step.events.len(), 1);
    let step = listener.broken("reset");
    assert!(matches!(&step.events[0], ServerEvent::Error(m) if m == "SSE stream error: reset"));
    assert!(matches!(step.events[1], ServerEvent::ConnectionLost));
    assert_eq!(step.next, Afterwards::Reconnect { seconds: 5 });
    assert_eq!(listener.ended().next, Afterwards::Reconnect { seconds: 5 });
    let step = listener.answered(404, "404 Not Found");
    assert!(matches!(&step.events[0], ServerEvent::Error(m) if m == "SSE error: 404 Not Found"));
    let step = listener.unreachable("x");
    assert!(matches!(&step.events[0], ServerEvent::Error(m) if m == "SSE connection failed: x"));
    assert!(!listener.stops_unheard(&ServerEvent::ConnectionLost));
    assert!(!listener.stops_unheard(&ServerEvent::Error(String::new())));
    assert!(listener.stops_unheard(&ServerEvent::Heartbeat));
    assert!(!listener.stops_closed());
    assert!(listener.counts(&ServerEvent::Heartbeat));
    assert!(listener.counts(&ServerEvent::Notification(json("{}"))));
    assert!(listener.counts(&ServerEvent::Request(json("{}"))));
    assert!(!listener.counts(&ServerEvent::ConnectionLost));
    assert!(!listener.counts(&ServerEvent::Error(String::new())));
}

#[test]
fn chunks_cut_between_characters_are_heard_like_the_whole() {
    let whole = "data: \"ä\"\n\ndata: {\"method\":\"ö\"}\n\ndata: 1";
    let hear = |pieces: &[&[u8]]| {
        let mut listener = Listener::new(Dialect::Streamable);
        let mut heard = Vec::new();
        for piece in pieces {
            heard.extend(listener.received(piece).events);
        }
        (format!("{heard:?}"), listener.buffer)
    };
    let at_once = hear(&[whole.as_bytes()]);
    for (cut, _) in whole.char_indices() {
        assert_eq!(hear(&[&whole.as_bytes()[..cut], &whole.as_bytes()[cut..]]), at_once);
    }
    // Within a character the two halves are decoded apart.
    let inside = whole.find('ä').unwrap() + 1;
    assert_ne!(hear(&[&whole.as_bytes()[..inside], &whole.as_bytes()[inside..]]), at_once);
}
