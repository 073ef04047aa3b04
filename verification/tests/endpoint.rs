use zeroclaw::endpoint::{derive_message_url, parse_endpoint_from_data};

#[test]
fn derive_message_url_replaces_sse_segment_with_messages() {
    let url = derive_message_url("http://localhost:3000/mcp/sse", "messages");
    assert_eq!(url, Some("http://localhost:3000/mcp/messages".to_string()));
}

#[test]
fn derive_message_url_appends_when_no_sse_segment() {
    let url = derive_message_url("http://localhost:3000/mcp", "messages");
    assert_eq!(url, Some("http://localhost:3000/mcp/messages".to_string()));
}

#[test]
fn derive_message_url_returns_none_for_invalid_url() {
    let url = derive_message_url("not-a-url", "messages");
    assert!(url.is_none());
}

#[test]
fn derive_message_url_message_path_variant() {
    let url = derive_message_url("http://localhost:3000/mcp/sse", "message");
    assert_eq!(url, Some("http://localhost:3000/mcp/message".to_string()));
}

#[test]
fn parse_endpoint_absolute_http_url_returned_as_is() {
    let result = parse_endpoint_from_data("http://base/sse", "http://other/messages");
    assert_eq!(result, Some("http://other/messages".to_string()));
}

#[test]
fn parse_endpoint_absolute_https_url_returned_as_is() {
    let result = parse_endpoint_from_data("https://base/sse", "https://other/messages");
    assert_eq!(result, Some("https://other/messages".to_string()));
}

#[test]
fn parse_endpoint_relative_path_resolved_against_base() {
    let result = parse_endpoint_from_data("http://localhost:3000/sse", "/messages");
    assert_eq!(result, Some("http://localhost:3000/messages".to_string()));
}

#[test]
fn parse_endpoint_json_object_with_endpoint_key() {
    let json_data = r#"{"endpoint":"/messages"}"#;
    let result = parse_endpoint_from_data("http://localhost:3000/sse", json_data);
    assert_eq!(result, Some("http://localhost:3000/messages".to_string()));
}

#[test]
fn slashes_queries_and_roots_are_kept_apart() {
    assert_eq!(
        derive_message_url("http://h/mcp//?key=1", "messages").as_deref(),
        Some("http://h/mcp/messages?key=1")
    );
    assert_eq!(
        derive_message_url("http://h/sse/", "messages").as_deref(),
        Some("http://h/sse/messages")
    );
    assert_eq!(
        derive_message_url("http://h", "messages").as_deref(),
        Some("http://h/messages")
    );
    assert_eq!(
        derive_message_url("http://h/sse", "messages").as_deref(),
        Some("http://h/messages")
    );
    assert_eq!(
        derive_message_url("http://u:p@h:81/sse?q=1#f", "messages").as_deref(),
        Some("http://u:p@h:81/messages?q=1#f")
    );
    assert_eq!(
        derive_message_url("http://h/a b", "m \u{e9}").as_deref(),
        Some("http://h/a%20b/m%20%C3%A9")
    );
    assert_eq!(derive_message_url("mailto:a@b", "messages"), None);
}

#[test]
fn endpoints_are_named_resolved_or_refused() {
    let base = "http://h/a/sse";
    assert_eq!(
        parse_endpoint_from_data(base, "messages?id=1").as_deref(),
        Some("http://h/a/messages?id=1")
    );
    assert_eq!(
        parse_endpoint_from_data(base, r#"{"endpoint":"https://o/m"}"#).as_deref(),
        Some("https://o/m")
    );
    assert_eq!(
        parse_endpoint_from_data(base, r#"{"endpoint":"{\"endpoint\":\"/m\"}"}"#).as_deref(),
        Some("http://h/m")
    );
    assert_eq!(parse_endpoint_from_data(base, r#"{"endpoint":7}"#), None);
    assert_eq!(parse_endpoint_from_data(base, r#"{"other":"/m"}"#), None);
    assert_eq!(parse_endpoint_from_data(base, "{broken"), None);
    assert_eq!(parse_endpoint_from_data("no url", "/m"), None);
    assert_eq!(parse_endpoint_from_data("no url", "http://o").as_deref(), Some("http://o"));
}
