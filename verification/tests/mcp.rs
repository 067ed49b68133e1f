use mcp2cli_rs::error::{step_failure, AppError, ErrorKind, Failure};
use mcp2cli_rs::http::{
    auth_header, event_stream_payload, header_names_match, is_event_stream, request_headers,
    status_failure,
};
use mcp2cli_rs::mcp::{
    call_params, call_response, check_reply_line, request_failure, single_request, RpcParams, content_entry, mcp_manifest, reply_result, status_error,
    stdio_source, JsonRpcError, JsonRpcResponse, McpContent, McpHttpClient, McpSseClient,
    McpTool, ResourceContents, RpcCall, StdioSession, Transport,
};
use mcp2cli_rs::output::{Content, InputSchema, Payload, Protocol};

fn reply(id: u64, result: Option<&str>, error: Option<(i64, &str)>) -> JsonRpcResponse {
    JsonRpcResponse {
        id,
        result: result.map(|s| s.to_string()),
        error: error.map(|(code, m)| JsonRpcError { code, message: m.to_string() }),
    }
}

fn message(e: AppError) -> (u8, String) {
    match e {
        AppError::Cli(m) => (1, m),
        AppError::Network(m) => (2, m),
        AppError::Protocol(m) => (3, m),
        AppError::Execution(m) => (4, m),
    }
}

#[test]
fn results_of_replies() {
    let r = reply_result(Transport::Http, RpcCall::ListTools, 1, reply(1, Some("{\"tools\":[]}"), None));
    assert_eq!(r.unwrap(), "{\"tools\":[]}");
    let r = reply_result(Transport::Http, RpcCall::ListTools, 1, reply(99, Some("[]"), None));
    assert_eq!(r.unwrap(), "[]");
    let e = reply_result(Transport::Http, RpcCall::ListTools, 1, reply(1, None, Some((-32601, "no"))));
    assert_eq!(message(e.unwrap_err()), (3, "JSON-RPC error -32601: no".to_string()));
    let e = reply_result(Transport::Http, RpcCall::CallTool, 1, reply(1, None, Some((5, "bad"))));
    assert_eq!(message(e.unwrap_err()), (4, "JSON-RPC error 5: bad".to_string()));
    let e = reply_result(Transport::Sse, RpcCall::ListTools, 1, reply(9, None, Some((-1, "x"))));
    assert_eq!(message(e.unwrap_err()), (3, "JSON-RPC -1: x".to_string()));
    let e = reply_result(Transport::Sse, RpcCall::CallTool, 1, reply(1, None, Some((2, "y"))));
    assert_eq!(message(e.unwrap_err()), (4, "JSON-RPC 2: y".to_string()));
    let e = reply_result(Transport::Http, RpcCall::CallTool, 1, reply(1, None, None));
    assert_eq!(message(e.unwrap_err()), (3, "Empty result".to_string()));
}

#[test]
fn stdio_sessions_number_requests() {
    let mut s = StdioSession::new();
    assert_eq!(s.last_request_id(), 0);
    assert_eq!(s.next_request_id(), 1);
    let r = s.request(RpcParams::ListTools);
    assert_eq!((r.jsonrpc.as_str(), r.id, r.method.as_str()), ("2.0", 2, "tools/list"));
    assert_eq!(s.last_request_id(), 2);
    let e = s.reply(RpcCall::ListTools, reply(1, Some("{}"), None));
    assert_eq!(message(e.unwrap_err()), (3, "Request ID mismatch: expected 2, got 1".to_string()));
    let e = s.reply(RpcCall::ListTools, reply(2, None, Some((7, "z"))));
    assert_eq!(message(e.unwrap_err()), (4, "JSON-RPC error 7: z".to_string()));
    assert_eq!(s.reply(RpcCall::CallTool, reply(2, Some("{}"), None)).unwrap(), "{}");
    assert!(check_reply_line("{}\n").is_ok());
    assert_eq!(message(check_reply_line("").unwrap_err()), (3, "Empty response from server".to_string()));
}

#[test]
fn failed_statuses() {
    assert_eq!(status_failure("500 Internal Server Error", "oops"), "HTTP 500 Internal Server Error: oops");
    assert_eq!(message(status_error(RpcCall::ListTools, "401 Unauthorized", "")), (3, "HTTP 401 Unauthorized: ".to_string()));
    assert_eq!(message(status_error(RpcCall::CallTool, "404 Not Found", "x")), (4, "HTTP 404 Not Found: x".to_string()));
}

#[test]
fn authentication_headers() {
    assert_eq!(
        auth_header(Some("k".into()), Some("t".into())),
        Some(("X-API-Key".to_string(), "k".to_string()))
    );
    assert_eq!(
        auth_header(None, Some("t".into())),
        Some(("authorization".to_string(), "Bearer t".to_string()))
    );
    assert_eq!(auth_header(None, None), None);
}

#[test]
fn event_streams() {
    assert!(is_event_stream("text/event-stream; charset=utf-8"));
    assert!(!is_event_stream("application/json"));
    let body = "id:1\r\nevent:message\r\ndata: {\"jsonrpc\":\"2.0\",\"id\":1}  \r\n\r\n";
    assert_eq!(event_stream_payload(body).unwrap(), "{\"jsonrpc\":\"2.0\",\"id\":1}");
    assert_eq!(event_stream_payload("data:data:x").unwrap(), "x");
    assert_eq!(event_stream_payload("event:x\n data:y").map_err(message).unwrap_err(), (3, "No data line in SSE response".to_string()));
    assert!(event_stream_payload("").is_err());
}

#[test]
fn endpoints() {
    let c = McpHttpClient::new("http://example.com", 30).unwrap();
    assert_eq!(c.base_url(), "http://example.com/");
    assert_eq!(c.timeout_secs(), 30);
    assert!(c.request_headers(None, None).is_empty());
    let c = McpHttpClient::new_with_headers(
        "http://h/mcp",
        5,
        &vec![("A".into(), "b".into()), ("C".into(), "d".into()), ("A".into(), "e".into())],
    )
    .unwrap();
    assert_eq!(
        c.request_headers(None, None),
        vec![("A".to_string(), "e".to_string()), ("C".to_string(), "d".to_string())]
    );
    let e = McpHttpClient::new("not a url", 30).unwrap_err();
    assert_eq!(message(e), (2, "relative URL without a base".to_string()));
    let mut s = McpSseClient::new("http://h:8080/sse?x=1", 10).unwrap();
    assert_eq!(s.sse_endpoint(), "http://h:8080/sse?x=1");
    assert_eq!(s.timeout_secs(), 10);
    assert_eq!(message(s.message_endpoint().unwrap_err()), (3, "Not connected".to_string()));
    s.connect();
    assert_eq!(s.message_endpoint().unwrap(), "http://h:8080/message?x=1");
    assert!(McpSseClient::new("::", 1).is_err());
}

#[test]
fn contents_and_manifests() {
    match content_entry(McpContent::Resource {
        resource: ResourceContents { uri: "file:///a".into(), text: None, mime_type: None },
    }) {
        Content::Text { text } => assert_eq!(text, "Resource: file:///a"),
        _ => panic!("expected text"),
    }
    let r = call_response(
        "echo".to_string(),
        vec![
            McpContent::Text { text: "hi".into() },
            McpContent::Image { data: "AAA".into(), mime_type: "image/png".into() },
            McpContent::Resource {
                resource: ResourceContents { uri: "u".into(), text: Some("body".into()), mime_type: None },
            },
        ],
    );
    assert!(r.success);
    assert_eq!(r.tool, "echo");
    let c = r.content.unwrap();
    assert!(matches!(&c[0], Content::Text { text } if text == "hi"));
    assert!(matches!(&c[1], Content::Image { data, mime_type } if data == "AAA" && mime_type == "image/png"));
    assert!(matches!(&c[2], Content::Text { text } if text == "body"));
    let m = mcp_manifest(
        "http://h/mcp".to_string(),
        vec![McpTool { name: "t".into(), description: None, input_schema: "{}".into() }],
    );
    assert_eq!(m.protocol, Protocol::Mcp);
    assert_eq!(m.version, Some("2024-11-05".to_string()));
    assert_eq!(m.tools[0].name, "t");
    assert_eq!(m.tools[0].original_name, Some("t".to_string()));
    assert_eq!(m.tools[0].description, "");
    assert!(matches!(&m.tools[0].input_schema, InputSchema::Json(s) if s == "{}"));
    assert_eq!(stdio_source("npx server"), "stdio: npx server");
}

#[test]
fn failures_of_requests() {
    let f = |s: &str| Failure::Other(s.to_string());
    assert_eq!(message(request_failure(RpcCall::ListTools, f("x"))), (3, "x".to_string()));
    assert_eq!(message(request_failure(RpcCall::CallTool, f("y"))), (4, "y".to_string()));
    let sent = Failure::App(AppError::Network("connection refused".into()));
    assert_eq!(message(request_failure(RpcCall::ListTools, sent)), (2, "Network Error: connection refused".to_string()));
    let sent = Failure::App(AppError::Network("timed out".into()));
    assert_eq!(message(request_failure(RpcCall::CallTool, sent)), (2, "Network Error: timed out".to_string()));
    let reply = Failure::App(AppError::Execution("JSON-RPC error 1: x".into()));
    assert_eq!(
        message(request_failure(RpcCall::ListTools, reply)),
        (3, "Execution Error: JSON-RPC error 1: x".to_string())
    );
    let reply = Failure::App(AppError::Protocol("Empty result".into()));
    assert_eq!(
        message(request_failure(RpcCall::CallTool, reply)),
        (4, "Protocol Error: Empty result".to_string())
    );
}

#[test]
fn unknown_commands_and_network_failures_keep_their_codes() {
    let e = step_failure(ErrorKind::Execution, Failure::App(AppError::Cli("Operation 'x' not found".into())));
    assert_eq!(message(e), (1, "CLI Error: Operation 'x' not found".to_string()));
    let e = step_failure(ErrorKind::Execution, Failure::App(AppError::Network("Request failed: x".into())));
    assert_eq!(message(e), (2, "Network Error: Request failed: x".to_string()));
    let e = step_failure(
        ErrorKind::Network,
        Failure::App(AppError::Network("SSE connection failed: refused".into())),
    );
    assert_eq!(e.display(), "Network Error: Network Error: SSE connection failed: refused");
    let e = step_failure(ErrorKind::Execution, Failure::Other("bad method".into()));
    assert_eq!(message(e), (4, "bad method".to_string()));
}

#[test]
fn requests_and_headers() {
    let r = single_request(RpcParams::ListTools);
    assert_eq!((r.jsonrpc.as_str(), r.id, r.method.as_str()), ("2.0", 1, "tools/list"));
    let p = call_params("echo".to_string(), &vec![("a".into(), "1".into()), ("b".into(), "x".into())]);
    let r = single_request(p);
    assert_eq!(r.method, "tools/call");
    match r.params {
        RpcParams::CallTool { name, arguments } => {
            assert_eq!(name, "echo");
            assert!(matches!(&arguments[0], (k, Payload::Json(t)) if k == "a" && t == "1"));
            assert!(matches!(&arguments[1], (k, Payload::Text(t)) if k == "b" && t == "x"));
        }
        _ => panic!("expected a call"),
    }
    let custom = vec![("Authorization".to_string(), "Bearer A".to_string())];
    assert_eq!(request_headers(&custom, None, Some("B".into())), custom);
    let custom = vec![("x-API-key".to_string(), "k1".to_string())];
    assert_eq!(request_headers(&custom, Some("k2".into()), None), custom);
    let custom = vec![("Accept-Language".to_string(), "en".to_string())];
    assert_eq!(
        request_headers(&custom, None, Some("B".into())),
        vec![
            ("Accept-Language".to_string(), "en".to_string()),
            ("authorization".to_string(), "Bearer B".to_string())
        ]
    );
    assert!(header_names_match("AUTHORIZATION", "authorization"));
    assert!(!header_names_match("authorizatio", "authorization"));
    let s = McpSseClient::new_with_headers(
        "http://127.0.0.1:8080/sse",
        30,
        &vec![("Authorization".to_string(), "Bearer t".to_string())],
    )
    .unwrap();
    assert_eq!(
        s.request_headers(None, None),
        vec![("Authorization".to_string(), "Bearer t".to_string())]
    );
}

#[test]
fn payload_follows_the_parse_result() {
    assert!(matches!(Payload::from_parse("1".to_string(), true), Payload::Json(t) if t == "1"));
    assert!(matches!(Payload::from_parse("1".to_string(), false), Payload::Text(t) if t == "1"));
    assert!(matches!(Payload::json_or_text("{\"a\":1}".to_string()), Payload::Json(_)));
    assert!(matches!(Payload::json_or_text("hello".to_string()), Payload::Text(t) if t == "hello"));
}
