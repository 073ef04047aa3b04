use serde_json::Value;
use zeroclaw::failure::McpFailure;
use zeroclaw::protocol::{JsonRpcError, JsonRpcResponse};
use zeroclaw::response::{parse_jsonrpc_response_text, read_posted_response, SseResponseReader};
use zeroclaw::sse_stream::{message_payload_text, SseEvent, SseLineBuffer};
use zeroclaw::sse_text::{extract_json_from_sse_text, looks_like_sse_text};

fn decode_value(value: &Value) -> Option<JsonRpcResponse> {
    let members = value.as_object()?;
    let error = match members.get("error") {
        Some(error) => Some(JsonRpcError {
            code: error.get("code")?.as_i64()? as i32,
            message: error.get("message")?.as_str()?.to_string(),
            data: error.get("data").cloned(),
        }),
        None => None,
    };
    Some(JsonRpcResponse {
        jsonrpc: members.get("jsonrpc")?.as_str()?.to_string(),
        id: members.get("id").cloned(),
        result: members.get("result").cloned(),
        error,
    })
}

fn decode(text: &str) -> Option<JsonRpcResponse> {
    decode_value(&serde_json::from_str(text).ok()?)
}

#[test]
fn test_extract_json_from_sse_data_no_space() {
    let input = "data:{\"jsonrpc\":\"2.0\",\"result\":{}}\n\n";
    let extracted = extract_json_from_sse_text(input);
    let _: JsonRpcResponse = decode(extracted.as_ref()).unwrap();
}

#[test]
fn test_extract_json_from_sse_with_event_and_id() {
    let input = "id: 1\nevent: message\ndata: {\"jsonrpc\":\"2.0\",\"result\":{}}\n\n";
    let extracted = extract_json_from_sse_text(input);
    let _: JsonRpcResponse = decode(extracted.as_ref()).unwrap();
}

#[test]
fn test_extract_json_from_sse_multiline_data() {
    let input = "event: message\ndata: {\ndata:   \"jsonrpc\": \"2.0\",\ndata:   \"result\": {}\ndata: }\n\n";
    let extracted = extract_json_from_sse_text(input);
    let _: JsonRpcResponse = decode(extracted.as_ref()).unwrap();
}

#[test]
fn test_extract_json_from_sse_skips_bom_and_leading_whitespace() {
    let input = "\u{feff}\n\n  data: {\"jsonrpc\":\"2.0\",\"result\":{}}\n\n";
    let extracted = extract_json_from_sse_text(input);
    let _: JsonRpcResponse = decode(extracted.as_ref()).unwrap();
}

#[test]
fn test_extract_json_from_sse_uses_last_event_with_data() {
    let input =
        ": keep-alive\n\nid: 1\nevent: message\ndata: {\"jsonrpc\":\"2.0\",\"result\":{}}\n\n";
    let extracted = extract_json_from_sse_text(input);
    let _: JsonRpcResponse = decode(extracted.as_ref()).unwrap();
}

#[test]
fn test_parse_jsonrpc_response_text_handles_plain_json() {
    let parsed =
        parse_jsonrpc_response_text("{\"jsonrpc\":\"2.0\",\"id\":1,\"result\":{}}", &decode)
            .expect("plain JSON response should parse");
    assert_eq!(parsed.id, Some(Value::from(1)));
    assert!(parsed.error.is_none());
}

#[test]
fn test_parse_jsonrpc_response_text_handles_sse_framed_json() {
    let sse = "event: message\ndata: {\"jsonrpc\":\"2.0\",\"id\":2,\"result\":{\"ok\":true}}\n\n";
    let parsed =
        parse_jsonrpc_response_text(sse, &decode).expect("SSE-framed JSON response should parse");
    assert_eq!(parsed.id, Some(Value::from(2)));
    assert_eq!(
        parsed
            .result
            .as_ref()
            .and_then(|v| v.get("ok"))
            .and_then(|v| v.as_bool()),
        Some(true)
    );
}

#[test]
fn test_parse_jsonrpc_response_text_rejects_empty_payload() {
    assert!(parse_jsonrpc_response_text(" \n\t ", &decode).is_err());
}

#[test]
fn looks_like_sse_text_detects_data_prefix() {
    assert!(looks_like_sse_text("data:{\"jsonrpc\":\"2.0\"}"));
}

#[test]
fn looks_like_sse_text_detects_event_prefix() {
    assert!(looks_like_sse_text("event: message\ndata: {}"));
}

#[test]
fn looks_like_sse_text_detects_embedded_data_line() {
    assert!(looks_like_sse_text("id: 1\ndata:{\"x\":1}"));
}

#[test]
fn looks_like_sse_text_plain_json_is_not_sse() {
    assert!(!looks_like_sse_text(
        "{\"jsonrpc\":\"2.0\",\"id\":1,\"result\":{}}"
    ));
}

#[test]
fn extract_json_skips_comment_lines() {
    let input = ": keep-alive\ndata: {\"jsonrpc\":\"2.0\",\"result\":{}}\n\n";
    let extracted = extract_json_from_sse_text(input);
    let v: Value = serde_json::from_str(extracted.as_ref()).unwrap();
    assert_eq!(v["jsonrpc"], "2.0");
}

#[test]
fn extract_json_empty_input_returns_empty_trimmed() {
    let result = extract_json_from_sse_text("   ");
    assert!(result.as_ref().trim().is_empty());
}

#[test]
fn extract_json_plain_json_returned_unchanged() {
    let input = "{\"jsonrpc\":\"2.0\",\"result\":{}}";
    let extracted = extract_json_from_sse_text(input);
    // No SSE framing, extracted as-is (trimmed)
    assert_eq!(extracted.as_ref(), input);
}

#[test]
fn parse_jsonrpc_response_rejects_whitespace_only() {
    assert!(parse_jsonrpc_response_text("   \n\t  ", &decode).is_err());
}

#[test]
fn parse_jsonrpc_response_with_error_result() {
    let json = r#"{"jsonrpc":"2.0","id":1,"error":{"code":-32601,"message":"not found"}}"#;
    let resp = parse_jsonrpc_response_text(json, &decode).unwrap();
    assert!(resp.error.is_some());
    assert_eq!(resp.error.unwrap().code, -32601);
}

#[test]
fn data_lines_are_joined_and_the_last_event_counts() {
    assert_eq!(
        extract_json_from_sse_text("data: a\ndata:  b\r\r\n\r\ndata:c\ndata: d").as_ref(),
        "c\nd"
    );
    assert_eq!(extract_json_from_sse_text("data: one\n\n:\n\nevent: x\n\n").as_ref(), "one");
    assert_eq!(extract_json_from_sse_text("data: a\ndata:\n\n").as_ref(), "a");
    assert_eq!(extract_json_from_sse_text("\u{feff}\u{feff} x \n").as_ref(), "x");
}

#[test]
fn a_framed_body_is_read_like_a_plain_one() {
    let plain = "{\"jsonrpc\":\"2.0\",\n\"id\":5}";
    let framed = "data: {\"jsonrpc\":\"2.0\",\ndata: \"id\":5}\n\n";
    for body in [plain, framed] {
        let response = parse_jsonrpc_response_text(body, &decode).unwrap();
        assert_eq!(response.id, Some(Value::from(5)));
        let posted = read_posted_response(body, &decode).unwrap();
        assert_eq!(posted.id, Some(Value::from(5)));
    }
}

#[test]
fn bodies_without_a_response_fail_by_their_kind() {
    assert!(matches!(
        parse_jsonrpc_response_text("\n", &decode),
        Err(McpFailure::NoResponse)
    ));
    match parse_jsonrpc_response_text(" data: nonsense\n", &decode) {
        Err(McpFailure::InvalidResponse { text }) => assert_eq!(text, " data: nonsense\n"),
        other => panic!("{other:?}"),
    }
    assert!(read_posted_response("  ", &decode).is_none());
    assert!(read_posted_response("nonsense", &decode).is_none());
}

#[test]
fn an_event_line_alone_marks_a_reply_but_not_a_posted_one() {
    // The data line is indented, so that only the event line marks the body.
    let body = "event: message\n  data: {\"jsonrpc\":\"2.0\",\"id\":1}";
    assert!(looks_like_sse_text(body));
    let response = parse_jsonrpc_response_text(body, &decode).unwrap();
    assert_eq!(response.id, Some(Value::from(1)));
    let seen = |text: &str| {
        assert_eq!(text, body);
        decode(text)
    };
    assert!(read_posted_response(body, &seen).is_none());
}

#[test]
fn only_the_last_data_of_a_body_counts() {
    let body = "id: 1\ndata: {\ndata: }\n\n";
    let plain = extract_json_from_sse_text(body);
    assert_eq!(plain.as_ref(), "{\n}");
    for earlier in ["", "data: old", "\u{feff}event: x\ndata: old", "text\n: c"] {
        let whole = format!("{earlier}\n\n{body}");
        assert_eq!(extract_json_from_sse_text(&whole), plain);
    }
    for more in ["", ": ping", ": ping\n\n: pong\n\n", "event: x\nid: 2\n"] {
        let whole = format!("{body}\n{more}");
        assert_eq!(extract_json_from_sse_text(&whole), plain);
    }
    let crlf = body.replace('\n', "\r\n");
    assert_eq!(extract_json_from_sse_text(&crlf), plain);
}

fn events(lines: &[&str]) -> Vec<SseEvent> {
    let mut buffer = SseLineBuffer::new();
    let mut ended = Vec::new();
    for line in lines {
        if let Some(event) = buffer.feed(line) {
            ended.push(event);
        }
    }
    ended
}

#[test]
fn written_events_are_read_back() {
    let ended = events(&["event:  endpoint ", "id: 7", "data: a\r", "data:b", ""]);
    assert_eq!(ended.len(), 1);
    assert_eq!(ended[0].event.as_deref(), Some("endpoint"));
    assert_eq!(ended[0].id.as_deref(), Some("7"));
    assert_eq!(ended[0].data, "a\nb");
}

#[test]
fn comments_and_empty_lines_end_no_event() {
    assert!(events(&["", "\r", ": data", "retry: 3", ""]).is_empty());
    let with = events(&["data: x", ": ping", "other: y", "", "id: 2", ""]);
    let without = events(&["data: x", "", "id: 2", ""]);
    assert_eq!(with.len(), 2);
    for (a, b) in with.iter().zip(&without) {
        assert_eq!(a.event, b.event);
        assert_eq!(a.id, b.id);
        assert_eq!(a.data, b.data);
    }
    assert_eq!(with[0].data, "x");
    assert_eq!(with[1].id.as_deref(), Some("2"));
}

#[test]
fn only_messages_with_data_carry_a_payload() {
    let event = |name: Option<&str>, data: &str| SseEvent {
        event: name.map(str::to_string),
        id: None,
        data: data.to_string(),
    };
    assert_eq!(message_payload_text(&event(None, " {} ")).as_deref(), Some("{}"));
    assert_eq!(
        message_payload_text(&event(Some("MESSAGE"), "data: [1]")).as_deref(),
        Some("[1]")
    );
    assert_eq!(message_payload_text(&event(Some("Endpoint"), "/x")), None);
    assert_eq!(message_payload_text(&event(Some("mcp-endpoint"), "/x")), None);
    assert_eq!(message_payload_text(&event(Some("ping"), "{}")), None);
    assert_eq!(message_payload_text(&event(None, " \n ")), None);
}

#[test]
fn the_first_response_of_a_stream_is_read() {
    let mut reader = SseResponseReader::new();
    let lines = [
        "event: endpoint",
        "data: /messages",
        "",
        "data: not json",
        "",
        "event: message",
        "data: {\"jsonrpc\":\"2.0\",",
        "data: \"id\":3}",
    ];
    for line in lines {
        assert!(reader.read_line(line, &decode).is_none());
    }
    let response = reader.read_line("", &decode).unwrap();
    assert_eq!(response.id, Some(Value::from(3)));
    assert!(reader.read_line("", &decode).is_none());

    let all = [&lines[..], &["", "data: {\"jsonrpc\":\"2.0\",\"id\":4}", ""]].concat();
    let mut reader = SseResponseReader::new();
    let first = all.iter().find_map(|line| reader.read_line(line, &decode));
    let of_events = events(&all)
        .iter()
        .find_map(|event| decode(&message_payload_text(event)?));
    assert_eq!(first.unwrap().id, Some(Value::from(3)));
    assert_eq!(of_events.unwrap().id, Some(Value::from(3)));
}
