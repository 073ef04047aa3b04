use serde_json::Value;
use zeroclaw::protocol::{JsonRpcRequest, TOOLS_CALL_METHOD};
use zeroclaw::timeouts::{
    http_request_timeout_secs, http_sse_read_timeout_secs, DEFAULT_HTTP_REQUEST_TIMEOUT_SECS,
    RECV_TIMEOUT_SECS,
};

fn empty() -> Value {
    Value::Object(Default::default())
}

#[test]
fn http_request_timeout_defaults_non_tool_requests_to_legacy_value() {
    let request = JsonRpcRequest::new(1, "initialize", empty());
    assert_eq!(
        http_request_timeout_secs(&request, None),
        Some(DEFAULT_HTTP_REQUEST_TIMEOUT_SECS)
    );
}

#[test]
fn http_request_timeout_does_not_shorten_non_tool_requests_from_tool_config() {
    let request = JsonRpcRequest::new(1, "tools/list", empty());
    assert_eq!(
        http_request_timeout_secs(&request, Some(5)),
        Some(DEFAULT_HTTP_REQUEST_TIMEOUT_SECS)
    );
}

#[test]
fn http_request_timeout_honors_configured_tool_call_timeout_above_legacy_value() {
    let request = JsonRpcRequest::new(1, TOOLS_CALL_METHOD, empty());
    assert_eq!(
        http_request_timeout_secs(&request, Some(DEFAULT_HTTP_REQUEST_TIMEOUT_SECS + 60)),
        Some(DEFAULT_HTTP_REQUEST_TIMEOUT_SECS + 60)
    );
}

#[test]
fn http_request_timeout_leaves_default_tool_call_budget_to_client_wrapper() {
    let request = JsonRpcRequest::new(1, TOOLS_CALL_METHOD, empty());
    assert_eq!(http_request_timeout_secs(&request, None), None);
}

#[test]
fn http_sse_read_timeout_defaults_non_tool_requests_to_recv_timeout() {
    let request = JsonRpcRequest::new(1, "initialize", empty());
    assert_eq!(
        http_sse_read_timeout_secs(&request, None),
        Some(RECV_TIMEOUT_SECS)
    );
}

#[test]
fn http_sse_read_timeout_honors_configured_tool_call_timeout() {
    let request = JsonRpcRequest::new(1, TOOLS_CALL_METHOD, empty());
    assert_eq!(
        http_sse_read_timeout_secs(&request, Some(DEFAULT_HTTP_REQUEST_TIMEOUT_SECS + 60)),
        Some(DEFAULT_HTTP_REQUEST_TIMEOUT_SECS + 60)
    );
}

#[test]
fn http_sse_read_timeout_leaves_default_tool_call_budget_to_client_wrapper() {
    let request = JsonRpcRequest::new(1, TOOLS_CALL_METHOD, empty());
    assert_eq!(http_sse_read_timeout_secs(&request, None), None);
}

#[test]
fn requests_carry_their_parts() {
    let request = JsonRpcRequest::new(u64::MAX, "tools/list", empty());
    assert_eq!(request.jsonrpc, "2.0");
    assert_eq!(request.id, Some(Value::from(u64::MAX)));
    assert_eq!(request.method, "tools/list");
    assert_eq!(request.params, Some(empty()));
    assert_eq!(http_request_timeout_secs(&request, Some(9)), Some(120));
    assert_eq!(http_sse_read_timeout_secs(&request, Some(9)), Some(30));
    assert_eq!(TOOLS_CALL_METHOD, "tools/call");
}
