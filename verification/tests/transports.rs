use reqwest::header::{HeaderMap, HeaderName, HeaderValue};
use serde_json::Value;
use zeroclaw::config::{McpServerConfig, McpTransport};
use zeroclaw::failure::{McpFailure, McpTransportError};
use zeroclaw::http::MCP_SESSION_ID_HEADER;
use zeroclaw::http_transport::{HttpNext, HttpTransport};
use zeroclaw::protocol::{JsonRpcRequest, JsonRpcResponse};
use zeroclaw::sse_transport::SseTransport;
use zeroclaw::stdio_transport::{StdioNext, StdioTransport, MAX_LINE_BYTES, RECV_TIMEOUT_NANOS};
use zeroclaw::timeouts::DEFAULT_HTTP_REQUEST_TIMEOUT_SECS;
use zeroclaw::transport::{
    ca_file, create_transport, create_transport_with, ChildState, McpTransportConn, Transport,
};

const CA_PEM: &str = "-----BEGIN CERTIFICATE-----
MIICGzCCAaGgAwIBAgIQQdKd0XLq7qeAwSxs6S+HUjAKBggqhkjOPQQDAzBPMQsw
CQYDVQQGEwJVUzEpMCcGA1UEChMgSW50ZXJuZXQgU2VjdXJpdHkgUmVzZWFyY2gg
R3JvdXAxFTATBgNVBAMTDElTUkcgUm9vdCBYMjAeFw0yMDA5MDQwMDAwMDBaFw00
MDA5MTcxNjAwMDBaME8xCzAJBgNVBAYTAlVTMSkwJwYDVQQKEyBJbnRlcm5ldCBT
ZWN1cml0eSBSZXNlYXJjaCBHcm91cDEVMBMGA1UEAxMMSVNSRyBSb290IFgyMHYw
EAYHKoZIzj0CAQYFK4EEACIDYgAEzZvVn4CDCuwJSvMWSj5cz3es3mcFDR0HttwW
+1qLFNvicWDEukWVEYmO6gbf9yoWHKS5xcUy4APgHoIYOIvXRdgKam7mAHf7AlF9
ItgKbppbd9/w+kHsOdx1ymgHDB/qo0IwQDAOBgNVHQ8BAf8EBAMCAQYwDwYDVR0T
AQH/BAUwAwEB/zAdBgNVHQ4EFgQUfEKWrt5LSDv6kviejM9ti6lyN5UwCgYIKoZI
zj0EAwMDaAAwZQIwe3lORlCEwkSHRhtFcP9Ymd70/aTSVaYgLXTWNLxBo1BfASdW
tL4ndQavEi51mI38AjEAi/V3bNTIZargCyzuFJ0nN6T5U6VR5CmD1/iQMVtCnwr1
/q4AaOeMSQ+2b1tbFfLn
-----END CERTIFICATE-----
";

fn empty() -> Value {
    Value::Object(Default::default())
}

fn http_config() -> McpServerConfig {
    McpServerConfig {
        name: "test-http".into(),
        transport: McpTransport::Http,
        url: Some("http://localhost/mcp".into()),
        ..Default::default()
    }
}

fn header_map(entries: &[(&'static str, &'static str)]) -> HeaderMap {
    let mut headers = HeaderMap::new();
    for (name, value) in entries {
        headers.insert(
            HeaderName::from_static(name),
            HeaderValue::from_static(value),
        );
    }
    headers
}

fn decode(text: &str) -> Option<JsonRpcResponse> {
    let value: Value = serde_json::from_str(text).ok()?;
    Some(JsonRpcResponse {
        jsonrpc: value.get("jsonrpc")?.as_str()?.to_string(),
        id: value.get("id").cloned(),
        result: value.get("result").cloned(),
        error: None,
    })
}

#[test]
fn test_transport_default_is_stdio() {
    let config = McpServerConfig::default();
    assert_eq!(config.transport, McpTransport::Stdio);
}

#[test]
fn test_http_transport_requires_url() {
    let config = McpServerConfig {
        name: "test".into(),
        transport: McpTransport::Http,
        ..Default::default()
    };
    assert!(HttpTransport::new(&config, None).is_err());
}

#[test]
fn test_sse_transport_requires_url() {
    let config = McpServerConfig {
        name: "test".into(),
        transport: McpTransport::Sse,
        ..Default::default()
    };
    assert!(SseTransport::new(&config, None).is_err());
}

#[test]
fn remote_transports_without_custom_ca_build_unchanged() {
    let http = McpServerConfig {
        name: "test-http".into(),
        transport: McpTransport::Http,
        url: Some("https://localhost/mcp".into()),
        ..Default::default()
    };
    let sse = McpServerConfig {
        name: "test-sse".into(),
        transport: McpTransport::Sse,
        url: Some("https://localhost/sse".into()),
        ..Default::default()
    };
    assert!(HttpTransport::new(&http, None).is_ok());
    assert!(SseTransport::new(&sse, None).is_ok());
}

#[test]
fn remote_transports_with_custom_ca_reject_plaintext_configured_url() {
    for transport in [McpTransport::Http, McpTransport::Sse] {
        let config = McpServerConfig {
            name: "internal".into(),
            transport,
            url: Some("http://internal.example/mcp".into()),
            tls_ca_cert_path: Some("/etc/zeroclaw/internal-ca.pem".into()),
            ..Default::default()
        };
        let error = create_transport(&config, Some(CA_PEM.as_bytes().to_vec()))
            .err()
            .expect("custom CA must reject a plaintext configured URL");
        let message = error.message();
        assert!(message.contains("internal"));
        assert!(message.contains("requires an HTTPS configured remote URL"));
        assert!(message.contains("refusing plaintext transport"));
    }
}

#[test]
fn remote_transport_rejects_relative_custom_ca_path() {
    let config = McpServerConfig {
        name: "internal".into(),
        transport: McpTransport::Http,
        url: Some("https://localhost/mcp".into()),
        tls_ca_cert_path: Some("internal-ca.pem".into()),
        ..Default::default()
    };
    let error = HttpTransport::new(&config, None)
        .err()
        .expect("relative path must fail");
    let message = error.message();
    assert!(message.contains("internal"));
    assert!(message.contains("must be absolute"));
}

#[test]
fn both_remote_transports_fail_closed_for_missing_custom_ca() {
    for transport in [McpTransport::Http, McpTransport::Sse] {
        let config = McpServerConfig {
            name: "internal".into(),
            transport,
            url: Some("https://localhost/mcp".into()),
            tls_ca_cert_path: Some("/nonexistent/zeroclaw-internal-ca.pem".into()),
            ..Default::default()
        };
        let error = create_transport(&config, None)
            .err()
            .expect("missing CA must fail");
        let message = error.message();
        assert!(message.contains("internal"));
        assert!(message.contains("/nonexistent/zeroclaw-internal-ca.pem"));
        assert!(!message.contains("BEGIN CERTIFICATE"));
    }
}

#[test]
fn remote_transport_fails_closed_for_invalid_custom_ca() {
    let path = "/etc/zeroclaw/internal-ca.pem";
    let config = McpServerConfig {
        name: "internal".into(),
        transport: McpTransport::Http,
        url: Some("https://localhost/mcp".into()),
        tls_ca_cert_path: Some(path.into()),
        ..Default::default()
    };
    let error = HttpTransport::new(&config, Some(b"not a certificate".to_vec()))
        .err()
        .expect("invalid CA must fail");
    let message = error.message();
    assert!(message.contains("internal"));
    assert!(message.contains(path));
    assert!(!message.contains("not a certificate"));
}

#[test]
fn http_transport_stores_configured_tool_timeout() {
    let config = McpServerConfig {
        name: "test-http".into(),
        transport: McpTransport::Http,
        url: Some("http://localhost/mcp".into()),
        tool_timeout_secs: Some(DEFAULT_HTTP_REQUEST_TIMEOUT_SECS + 60),
        ..Default::default()
    };
    let transport = HttpTransport::new(&config, None).expect("build transport");
    assert_eq!(
        transport.tool_timeout_secs,
        Some(DEFAULT_HTTP_REQUEST_TIMEOUT_SECS + 60)
    );
}

#[test]
fn sse_transport_stores_configured_tool_timeout() {
    let config = McpServerConfig {
        name: "test-sse".into(),
        transport: McpTransport::Sse,
        url: Some("http://localhost/sse".into()),
        tool_timeout_secs: Some(DEFAULT_HTTP_REQUEST_TIMEOUT_SECS + 60),
        ..Default::default()
    };
    let transport = SseTransport::new(&config, None).expect("build transport");
    assert_eq!(
        transport.tool_timeout_secs,
        Some(DEFAULT_HTTP_REQUEST_TIMEOUT_SECS + 60)
    );
}

#[test]
fn http_transport_updates_session_id_from_response_headers() {
    let mut transport = HttpTransport::new(&http_config(), None).expect("build transport");

    let mut headers = HeaderMap::new();
    headers.insert(
        HeaderName::from_static("mcp-session-id"),
        HeaderValue::from_static("session-abc"),
    );
    transport.update_session_id_from_headers(&headers);
    assert_eq!(transport.session_id.as_deref(), Some("session-abc"));
}

#[test]
fn http_transport_injects_session_id_header_when_available() {
    let mut transport = HttpTransport::new(&http_config(), None).expect("build transport");
    transport.session_id = Some("session-xyz".to_string());

    let mut headers = Vec::new();
    transport.apply_session_header(&mut headers);
    assert_eq!(
        headers
            .iter()
            .find(|(name, _)| name == MCP_SESSION_ID_HEADER)
            .map(|(_, value)| value.as_str()),
        Some("session-xyz")
    );
}

#[test]
fn create_transport_http_without_url_fails() {
    let config = McpServerConfig {
        name: "test-http".into(),
        transport: McpTransport::Http,
        ..Default::default()
    };
    assert!(create_transport(&config, None).is_err());
}

#[test]
fn create_transport_sse_without_url_fails() {
    let config = McpServerConfig {
        name: "test-sse".into(),
        transport: McpTransport::Sse,
        ..Default::default()
    };
    assert!(create_transport(&config, None).is_err());
}

#[test]
fn create_transport_http_with_url_succeeds() {
    let config = McpServerConfig {
        name: "test-http".into(),
        transport: McpTransport::Http,
        url: Some("http://localhost:9999/mcp".into()),
        ..Default::default()
    };
    // Build should succeed even if server isn't running
    assert!(create_transport(&config, None).is_ok());
}

#[test]
fn create_transport_sse_with_url_succeeds() {
    let config = McpServerConfig {
        name: "test-sse".into(),
        transport: McpTransport::Sse,
        url: Some("http://localhost:9999/sse".into()),
        ..Default::default()
    };
    assert!(create_transport(&config, None).is_ok());
}

#[test]
fn http_transport_ignores_empty_session_id_header() {
    let mut transport = HttpTransport::new(&http_config(), None).expect("build transport");
    let mut headers = HeaderMap::new();
    headers.insert(
        HeaderName::from_static("mcp-session-id"),
        HeaderValue::from_static("   "),
    );
    transport.update_session_id_from_headers(&headers);
    // Whitespace-only session id should not be stored
    assert!(transport.session_id.is_none());
}

#[test]
fn http_transport_no_session_header_leaves_none() {
    let transport = HttpTransport::new(&http_config(), None).expect("build transport");
    assert!(transport.session_id.is_none());
}

#[test]
fn http_transport_apply_session_header_noop_when_no_session() {
    let transport = HttpTransport::new(&http_config(), None).expect("build transport");
    let mut headers = Vec::new();
    transport.apply_session_header(&mut headers);
    assert!(headers.iter().all(|(name, _)| name != MCP_SESSION_ID_HEADER));
}

#[test]
fn http_transport_reset_clears_session_id() {
    let mut transport = HttpTransport::new(&http_config(), None).expect("build transport");
    transport.session_id = Some("stale-session".into());
    transport.reset();
    assert!(transport.session_id.is_none());
}

#[test]
fn http_transport_maps_404_to_stale_session() {
    let mut transport = HttpTransport::new(&http_config(), None).expect("build transport");
    // A 404 only signals a stale session when the request carried a session id.
    transport.session_id = Some("sess-1".into());
    let req = JsonRpcRequest::new(1, "tools/call", empty());
    match transport.on_reply(&req, 404, &HeaderMap::new()) {
        HttpNext::Fail {
            failure:
                McpFailure::Recoverable {
                    error: McpTransportError::StaleSession { status },
                },
        } => assert_eq!(status, 404),
        _ => panic!("expected StaleSession"),
    }
}

#[test]
fn http_transport_404_without_session_is_plain_error() {
    // No session id was ever issued (stateless server, or a misconfigured url):
    // a 404 here is a missing endpoint, not a stale session — it must NOT map to
    // StaleSession (which would make a caller burn a wasted reconnect).
    let mut transport = HttpTransport::new(&http_config(), None).expect("build transport");
    assert!(transport.session_id.is_none());
    let req = JsonRpcRequest::new(1, "tools/call", empty());
    match transport.on_reply(&req, 404, &HeaderMap::new()) {
        HttpNext::Fail { failure } => {
            assert!(
                !matches!(
                    failure,
                    McpFailure::Recoverable {
                        error: McpTransportError::StaleSession { .. }
                    }
                ),
                "sessionless 404 must not be classified as StaleSession, got: {failure:?}"
            );
            assert!(
                failure.message().contains("MCP server returned HTTP 404"),
                "got: {failure:?}"
            );
        }
        _ => panic!("404 should error"),
    }
}

#[test]
fn a_custom_ca_is_read_checked_and_kept() {
    let path = "/etc/zeroclaw/internal-ca.pem";
    for transport in [McpTransport::Http, McpTransport::Sse] {
        let config = McpServerConfig {
            name: "internal".into(),
            transport,
            url: Some("https://localhost/mcp".into()),
            tls_ca_cert_path: Some(path.into()),
            ..Default::default()
        };
        assert_eq!(ca_file(&config, transport).unwrap().as_deref(), Some(path));
        let two = format!("{CA_PEM}{CA_PEM}").into_bytes();
        match create_transport_with(&config, true, Some(two)).unwrap() {
            Transport::Http { transport } => assert_eq!(transport.ca_certificates.len(), 2),
            Transport::Sse { transport } => {
                assert_eq!(transport.ca_certificates.len(), 2);
                assert!(transport.require_https);
            }
            Transport::Stdio { .. } => panic!("a remote transport is configured"),
        }
        assert!(matches!(
            create_transport_with(&config, false, Some(CA_PEM.as_bytes().to_vec())),
            Err(McpFailure::CaPathNotAbsolute { .. })
        ));
        assert!(matches!(
            create_transport_with(&config, true, None),
            Err(McpFailure::CaUnreadable { .. })
        ));
        assert!(matches!(
            create_transport_with(&config, true, Some(Vec::new())),
            Err(McpFailure::CaEmpty { .. })
        ));
        let broken = b"-----BEGIN CERTIFICATE-----\n*\n-----END CERTIFICATE-----\n".to_vec();
        assert!(matches!(
            create_transport_with(&config, true, Some(broken)),
            Err(McpFailure::CaInvalid { .. })
        ));
    }
}

#[test]
fn only_a_configuration_in_order_has_a_file_to_read() {
    let mut config = http_config();
    assert_eq!(ca_file(&config, McpTransport::Http).unwrap(), None);
    config.tls_ca_cert_path = Some("/ca.pem".into());
    assert!(matches!(
        ca_file(&config, McpTransport::Http),
        Err(McpFailure::PlaintextRefused { .. })
    ));
    config.url = Some("localhost".into());
    assert!(matches!(
        ca_file(&config, McpTransport::Http),
        Err(McpFailure::InvalidUrl { .. })
    ));
    config.url = Some("HTTPS://localhost".into());
    config.tls_ca_cert_path = Some(String::new());
    assert!(matches!(
        ca_file(&config, McpTransport::Http),
        Err(McpFailure::CaPathNotAbsolute { .. })
    ));
    config.url = None;
    assert!(matches!(
        ca_file(&config, McpTransport::Sse),
        Err(McpFailure::UrlRequired { transport: McpTransport::Sse })
    ));
}

#[test]
fn a_post_request_carries_the_headers_in_their_order() {
    let mut config = http_config();
    config.headers = vec![
        ("Authorization".into(), "t".into()),
        ("X-Other".into(), "v".into()),
    ];
    let mut transport = HttpTransport::new(&config, None).unwrap();
    let request = JsonRpcRequest::new(1, "tools/list", empty());
    let post = transport.post(&request, "{}");
    assert_eq!(post.url, "http://localhost/mcp");
    assert_eq!(post.body.as_deref(), Some("{}"));
    assert_eq!(post.timeout_secs, Some(120));
    let pair = |name: &str, value: &str| (name.to_string(), value.to_string());
    assert_eq!(
        post.headers,
        vec![
            pair("Content-Type", "application/json"),
            pair("Authorization", "t"),
            pair("X-Other", "v"),
            pair("Accept", "application/json, text/event-stream"),
        ]
    );

    transport.session_id = Some("s".into());
    transport.headers = vec![pair("ACCEPT", "a"), pair("content-type", "c")];
    assert_eq!(
        transport.post(&request, "{}").headers,
        vec![
            pair("ACCEPT", "a"),
            pair("content-type", "c"),
            pair("Mcp-Session-Id", "s"),
        ]
    );
}

#[test]
fn replies_lead_to_what_comes_next() {
    let mut config = http_config();
    config.tool_timeout_secs = Some(7);
    let mut transport = HttpTransport::new(&config, None).unwrap();
    let stream = header_map(&[
        ("content-type", "Text/Event-Stream; charset=utf-8"),
        ("mcp-session-id", " s1 "),
    ]);
    let call = JsonRpcRequest::new(1, "tools/call", empty());
    let list = JsonRpcRequest::new(2, "tools/list", empty());
    assert!(matches!(
        transport.on_reply(&call, 200, &stream),
        HttpNext::ReadStream { timeout_secs: Some(7) }
    ));
    assert_eq!(transport.session_id.as_deref(), Some("s1"));
    assert!(matches!(
        transport.on_reply(&list, 299, &stream),
        HttpNext::ReadStream { timeout_secs: Some(30) }
    ));
    let plain = header_map(&[("content-type", "application/json")]);
    assert!(matches!(transport.on_reply(&list, 200, &plain), HttpNext::ReadText));
    assert_eq!(transport.session_id.as_deref(), Some("s1"));

    let mut notification = JsonRpcRequest::new(0, "notifications/initialized", empty());
    notification.id = None;
    match transport.on_reply(&notification, 202, &stream) {
        HttpNext::Done { response } => {
            assert_eq!(response.jsonrpc, "2.0");
            assert!(response.id.is_none() && response.result.is_none() && response.error.is_none());
        }
        _ => panic!("a notification is done once it is accepted"),
    }
    for (status, stale) in [(410, true), (404, true), (405, false), (500, false), (199, false)] {
        match transport.on_reply(&list, status, &plain) {
            HttpNext::Fail { failure } => {
                assert_eq!(matches!(failure, McpFailure::Recoverable { .. }), stale)
            }
            _ => panic!("{status} should fail"),
        }
    }
    assert!(matches!(
        transport.on_stream(None),
        Err(McpFailure::NoResponseInStream)
    ));
    assert!(transport.on_stream(decode("{\"jsonrpc\":\"2.0\"}")).is_ok());
}

#[test]
fn a_local_server_gets_lines_and_gives_lines() {
    let config = McpServerConfig {
        name: "local".into(),
        command: "server".into(),
        args: vec!["--stdio".into(), "-v".into()],
        env: vec![("KEY".into(), "value".into())],
        ..Default::default()
    };
    let transport = match create_transport(&config, None) {
        Ok(Transport::Stdio { transport }) => transport,
        _ => panic!("a local transport is configured"),
    };
    assert_eq!(transport.server_name, "local");
    assert_eq!(transport.command, "server");
    assert_eq!(transport.args, vec!["--stdio".to_string(), "-v".to_string()]);
    assert_eq!(transport.env, vec![("KEY".to_string(), "value".to_string())]);
    assert_eq!(transport.send_raw("{}"), "{}\n");

    let request = JsonRpcRequest::new(1, "tools/list", empty());
    assert!(matches!(transport.after_send(&request), StdioNext::Receive));
    let mut notification = request.clone();
    notification.id = None;
    assert!(matches!(
        transport.after_send(&notification),
        StdioNext::Done { outcome: Ok(_) }
    ));

    assert!(matches!(
        transport.on_line(Some("{\"jsonrpc\":\"2.0\"}"), &decode),
        StdioNext::Receive
    ));
    match transport.on_line(Some("{\"jsonrpc\":\"2.0\",\"id\":1}"), &decode) {
        StdioNext::Done { outcome: Ok(response) } => {
            assert_eq!(response.id, Some(Value::from(1)))
        }
        _ => panic!("a response ends the wait"),
    }
    match transport.on_line(Some("nonsense"), &decode) {
        StdioNext::Done { outcome: Err(failure) } => {
            assert_eq!(failure.message(), "invalid JSON-RPC response: nonsense")
        }
        _ => panic!("a line that is no response fails"),
    }
    assert!(matches!(
        transport.on_line(None, &decode),
        StdioNext::Done { outcome: Err(McpFailure::StdoutClosed) }
    ));
}

#[test]
fn lines_may_be_four_megabytes_long() {
    let transport = StdioTransport::new(&McpServerConfig::default());
    assert_eq!(MAX_LINE_BYTES, 4 * 1024 * 1024);
    let fits = "ü".repeat(MAX_LINE_BYTES / 2);
    assert_eq!(transport.recv_raw(Some(&fits)).unwrap(), fits);
    let long = format!("{fits}x");
    match transport.recv_raw(Some(&long)) {
        Err(failure) => {
            assert_eq!(failure.message(), "MCP response too large: 4194305 bytes")
        }
        Ok(_) => panic!("the line is too long"),
    }
}

#[test]
fn the_wait_for_a_line_ends() {
    let transport = StdioTransport::new(&McpServerConfig::default());
    assert_eq!(transport.time_left(0).unwrap(), 30_000_000_000);
    assert_eq!(transport.time_left(29_999_999_999).unwrap(), 1);
    assert!(matches!(
        transport.time_left(u128::from(RECV_TIMEOUT_NANOS)),
        Err(McpFailure::ResponseTimeout)
    ));
    assert!(transport.time_left(u128::MAX).is_err());
}

#[test]
fn only_a_process_that_runs_is_alive() {
    let local = StdioTransport::new(&McpServerConfig::default());
    let http = HttpTransport::new(&http_config(), None).unwrap();
    let sse = SseTransport::new(&http_config(), None).unwrap();
    for child in [ChildState::Running, ChildState::Exited, ChildState::Unknown] {
        assert_eq!(local.health_check(child), child == ChildState::Running);
        assert!(http.health_check(child));
        assert!(sse.health_check(child));
    }
}

#[test]
fn the_first_line_that_is_no_notification_decides() {
    let transport = StdioTransport::new(&McpServerConfig::default());
    let note = Some("{\"jsonrpc\":\"2.0\"}");
    let answer = Some("{\"jsonrpc\":\"2.0\",\"id\":1}");
    let decide = |lines: &[Option<&str>]| {
        lines.iter().find_map(|line| match transport.on_line(*line, &decode) {
            StdioNext::Receive => None,
            StdioNext::Done { outcome } => Some(outcome),
        })
    };
    assert!(decide(&[note, note]).is_none());
    assert!(matches!(decide(&[note, answer, None, Some("x")]), Some(Ok(_))));
    assert!(matches!(
        decide(&[note, Some("x"), answer]),
        Some(Err(McpFailure::InvalidResponse { .. }))
    ));
    assert!(matches!(decide(&[None, answer]), Some(Err(McpFailure::StdoutClosed))));
}
