use reqwest::header::{HeaderMap, HeaderName, HeaderValue};
use serde_json::Value;
use zeroclaw::config::{McpServerConfig, McpTransport};
use zeroclaw::failure::{McpFailure, McpTransportError};
use zeroclaw::protocol::{JsonRpcRequest, JsonRpcResponse};
use zeroclaw::sse_exchange::{await_outcome, SseAction, SseEnd, SseExchange};
use zeroclaw::sse_shared::{handle_sse_event, SseEffect, SseSharedState, SseStreamReader};
use zeroclaw::sse_transport::{
    SseStreamState, SseTransport, ENDPOINT_POLLS, ENDPOINT_POLL_MILLIS,
};
use zeroclaw::transport::McpTransportConn;

const CA_PEM: &str = "-----BEGIN CERTIFICATE-----
MIICGzCCAaGgAwIBAgIQQdKd0XLq7qeAwSxs6S+HUjAKBggqhkjOPQQDAzBPMQsw
CQYDVQQGEwJVUzEpMCcGA1UEChMgSW50ZXJuZXQgU2VjdXJpdHkgUmVzZWFyY2gg
R3JvdXAxFTATBgNVBAMTDElTUkcgUm9vdCBYMjAeFw0yMDA5MDQwMDAwMDBaFw00
MDA5MTcxNjAwMDBaME8xCzAJBgNVBAYTAlVTMSkwJwYDVQQKEyBJbnRlcm5ldCBT
ZWN1cml0eSBSZXNlYXJjaCBHcm91cDEVMBMGA1UEAxMMSVNSRyBSb290IFgyMHYw
EAYHKoZIzj0CAQYFK4EEACIDYgAEzZvVn4CDCuwJSvMWSj5cz3es3mcFDR0HttwW
+1qLFNvicWDEukWVEYmO6gbf9yoWHKS5xcUy4APgHoIYOIvXRdgKam7mAHf7AlF9
ItgKbppbd9/w+kHsOdx1ymgHDB/qo0IwQDAOBgNVHQ8BAf8EBAMCAQYwDwYDVR0T
AQH/BAUwAwEB/zAdBgNVHQ4EFgQUfEKWrt5LSDv6kviejM9ti6lyN5UwCgYIKoZI
zj0EAwMDaAAwZQIwe3lORlCEwkSHRhtFcP9Ymd70/aTSVaYgLXTWNLxBo1BfASdW
tL4ndQavEi51mI38AjEAi/V3bNTIZargCyzuFJ0nN6T5U6VR5CmD1/iQMVtCnwr1
/q4AaOeMSQ+2b1tbFfLn
-----END CERTIFICATE-----
";

fn empty() -> Value {
    Value::Object(Default::default())
}

fn decode_value(value: &Value) -> Option<JsonRpcResponse> {
    Some(JsonRpcResponse {
        jsonrpc: value.get("jsonrpc")?.as_str()?.to_string(),
        id: value.get("id").cloned(),
        result: value.get("result").cloned(),
        error: None,
    })
}

fn decode(text: &str) -> Option<JsonRpcResponse> {
    decode_value(&serde_json::from_str(text).ok()?)
}

fn transport() -> SseTransport {
    let config = McpServerConfig {
        name: "test-sse".into(),
        transport: McpTransport::Sse,
        url: Some("http://localhost:1/sse".into()),
        ..Default::default()
    };
    SseTransport::new(&config, None).expect("build transport")
}

fn event_stream() -> HeaderMap {
    let mut headers = HeaderMap::new();
    headers.insert(
        HeaderName::from_static("content-type"),
        HeaderValue::from_static("text/event-stream"),
    );
    headers
}

/// Begins an exchange in which a derived URL stands beside that of the stream.
fn begin(
    transport: &SseTransport,
    shared: &mut SseSharedState<&'static str>,
    request: &JsonRpcRequest,
) -> SseExchange {
    let (url, from_endpoint) = transport.get_message_url(shared).unwrap();
    transport.begin(request, "body", &url, from_endpoint, shared, "waiter")
}

fn posted_url(action: SseAction) -> String {
    match action {
        SseAction::Post { request } => request.url,
        _ => panic!("a POST request is due"),
    }
}

#[test]
fn custom_ca_rejects_plaintext_endpoint_advertised_by_https_sse_stream() {
    let config = McpServerConfig {
        name: "internal".into(),
        transport: McpTransport::Sse,
        url: Some("https://internal.example/sse".into()),
        tls_ca_cert_path: Some("/etc/zeroclaw/internal-ca.pem".into()),
        ..Default::default()
    };
    let mut transport = SseTransport::new(&config, Some(CA_PEM.as_bytes().to_vec()))
        .expect("HTTPS SSE transport should build");
    let mut shared: SseSharedState<()> = SseSharedState::new();

    let _ = handle_sse_event(
        &transport.sse_url,
        &mut shared,
        Some("endpoint"),
        "http://internal.example/messages",
        &decode_value,
    );
    transport.stream_state = SseStreamState::Unsupported;

    let request = JsonRpcRequest::new(1, "initialize", empty());
    assert!(transport.ensure_connected(false).is_none());
    let (url, from_endpoint) = transport.get_message_url(&mut shared).unwrap();
    let mut exchange = transport.begin(&request, "{}", &url, from_endpoint, &mut shared, ());
    let error = match exchange.advance() {
        SseAction::Fail { failure } => failure,
        _ => panic!("custom CA must reject a plaintext advertised endpoint"),
    };
    let message = error.message();
    assert!(message.contains("internal"));
    assert!(message.contains("requires an HTTPS SSE message endpoint"));
    assert!(message.contains("refusing plaintext transport"));
}

#[test]
fn sse_transport_reset_clears_session_and_endpoint_state() {
    let mut transport = transport();
    let mut shared: SseSharedState<u8> = SseSharedState::new();
    transport.stream_state = SseStreamState::Connected;
    shared.message_url = Some("http://localhost:1/messages".into());
    shared.message_url_from_endpoint = true;
    shared.pending.insert(7, 0);

    transport.reset();
    shared.reset();

    assert_eq!(transport.stream_state, SseStreamState::Unknown);
    assert!(shared.message_url.is_none());
    assert!(!shared.message_url_from_endpoint);
    assert!(shared.pending.is_empty());
}

#[test]
fn the_stream_is_asked_for_until_the_server_settles_it() {
    let mut transport = transport();
    transport.headers = vec![("X-Key".into(), "k".into())];
    let get = transport.ensure_connected(false).expect("the stream is not open yet");
    assert_eq!(get.url, "http://localhost:1/sse");
    assert!(get.body.is_none() && get.timeout_secs.is_none());
    let pair = |name: &str, value: &str| (name.to_string(), value.to_string());
    assert_eq!(
        get.headers,
        vec![
            pair("Cache-Control", "no-cache"),
            pair("X-Key", "k"),
            pair("Accept", "application/json, text/event-stream"),
        ]
    );

    assert!(transport.ensure_connected(true).is_none());
    assert_eq!(transport.stream_state, SseStreamState::Connected);
    match transport.on_connect_reply(500, &event_stream()) {
        Err(failure) => {
            assert_eq!(failure.message(), "MCP server returned HTTP 500 Internal Server Error")
        }
        Ok(_) => panic!("500 is a failure"),
    }
    assert_eq!(transport.stream_state, SseStreamState::Connected);
    transport.reset();
    assert!(transport.on_connect_reply(200, &event_stream()).unwrap());
    assert_eq!(transport.stream_state, SseStreamState::Connected);
    for (status, headers) in [
        (404, event_stream()),
        (405, event_stream()),
        (200, HeaderMap::new()),
    ] {
        transport.reset();
        assert!(!transport.on_connect_reply(status, &headers).unwrap());
        assert_eq!(transport.stream_state, SseStreamState::Unsupported);
        assert!(transport.ensure_connected(false).is_none());
        assert!(transport.ensure_connected(true).is_none());
        assert_eq!(transport.stream_state, SseStreamState::Unsupported);
    }
}

#[test]
fn the_message_url_is_derived_once_and_then_kept() {
    let mut transport = transport();
    let mut shared: SseSharedState<u8> = SseSharedState::new();
    let derived = ("http://localhost:1/messages".to_string(), false);
    assert_eq!(transport.get_message_url(&mut shared).unwrap(), derived);
    assert_eq!(shared.message_url.as_deref(), Some("http://localhost:1/messages"));
    transport.sse_url = "http://other/".into();
    assert_eq!(transport.get_message_url(&mut shared).unwrap(), derived);
    shared.message_url = Some("http://announced/".into());
    shared.message_url_from_endpoint = true;
    for _ in 0..2 {
        assert_eq!(
            transport.get_message_url(&mut shared).unwrap(),
            ("http://announced/".to_string(), true)
        );
    }
    shared.reset();
    transport.sse_url = "mailto:x".into();
    assert!(matches!(
        transport.get_message_url(&mut shared),
        Err(McpFailure::InvalidSseUrl)
    ));
}

#[test]
fn the_endpoint_is_looked_for_three_times() {
    let mut transport = transport();
    let mut shared: SseSharedState<u8> = SseSharedState::new();
    assert_eq!((ENDPOINT_POLLS, ENDPOINT_POLL_MILLIS), (3, 300));
    assert!(!transport.wait_for_endpoint("u".into(), false).poll(&shared));
    transport.stream_state = SseStreamState::Connected;
    assert!(!transport.wait_for_endpoint("u".into(), true).poll(&shared));

    let mut wait = transport.wait_for_endpoint("derived".into(), false);
    for _ in 0..3 {
        assert!(wait.poll(&shared));
    }
    assert!(!wait.poll(&shared));
    assert_eq!((wait.message_url.as_str(), wait.from_endpoint), ("derived", false));

    let mut wait = transport.wait_for_endpoint("derived".into(), false);
    assert!(wait.poll(&shared));
    shared.message_url = Some("http://announced".into());
    shared.message_url_from_endpoint = true;
    assert!(!wait.poll(&shared));
    assert_eq!((wait.message_url.as_str(), wait.from_endpoint), ("http://announced", true));
    assert!(!wait.poll(&shared));
}

#[test]
fn a_refused_first_url_gives_way_to_the_second() {
    let mut transport = transport();
    transport.stream_state = SseStreamState::Connected;
    let mut shared = SseSharedState::new();
    let request = JsonRpcRequest::new(4, "tools/list", empty());
    let mut exchange = begin(&transport, &mut shared, &request);
    assert_eq!(shared.pending.get(&4), Some(&"waiter"));
    match exchange.advance() {
        SseAction::Post { request } => {
            assert_eq!(request.url, "http://localhost:1/sse");
            assert_eq!(request.body.as_deref(), Some("body"));
            assert_eq!(request.timeout_secs, Some(120));
            assert_eq!(request.headers.len(), 2);
        }
        _ => panic!("a POST request is due"),
    }
    let second = posted_url(exchange.on_reply(405, &HeaderMap::new()));
    assert_eq!(second, "http://localhost:1/messages");
    assert!(matches!(
        exchange.on_reply(404, &HeaderMap::new()),
        SseAction::Settle
    ));
    match exchange.settle(&mut shared) {
        SseEnd::Done {
            outcome:
                Err(McpFailure::Recoverable {
                    error: McpTransportError::StaleSession { status },
                }),
        } => assert_eq!(status, 404),
        _ => panic!("both URLs refused the request"),
    }
    assert!(shared.pending.is_empty());
}

#[test]
fn an_announced_url_comes_first_and_may_be_the_only_one() {
    let mut transport = transport();
    transport.stream_state = SseStreamState::Connected;
    let mut shared: SseSharedState<u8> = SseSharedState::new();
    let request = JsonRpcRequest::new(4, "tools/list", empty());
    let mut exchange = transport.begin(&request, "b", "http://m/", true, &mut shared, 0);
    assert_eq!(posted_url(exchange.advance()), "http://m/");
    assert_eq!(
        posted_url(exchange.on_reply(404, &HeaderMap::new())),
        "http://localhost:1/sse"
    );

    let own = transport.sse_url.clone();
    let mut exchange = transport.begin(&request, "b", &own, true, &mut shared, 0);
    assert_eq!(posted_url(exchange.advance()), own);
    assert!(matches!(
        exchange.on_reply(200, &event_stream()),
        SseAction::ReadStream { limit_secs: None }
    ));
    assert!(matches!(
        exchange.on_reply(404, &HeaderMap::new()),
        SseAction::Settle
    ));
}

#[test]
fn the_first_reply_is_given_three_seconds() {
    let transport = transport();
    let mut shared = SseSharedState::new();
    let request = JsonRpcRequest::new(4, "tools/list", empty());
    let mut exchange = begin(&transport, &mut shared, &request);
    assert!(shared.pending.is_empty());
    let _ = exchange.advance();
    assert!(matches!(
        exchange.on_reply(200, &event_stream()),
        SseAction::ReadStream { limit_secs: Some(3) }
    ));
    assert!(matches!(
        exchange.on_reply(200, &HeaderMap::new()),
        SseAction::ReadText { limit_secs: Some(3) }
    ));
    assert_eq!(posted_url(exchange.on_timeout()), "http://localhost:1/messages");
    assert!(matches!(
        exchange.on_reply(200, &HeaderMap::new()),
        SseAction::ReadText { limit_secs: None }
    ));
    assert!(matches!(exchange.on_text("  ", &decode), SseAction::Settle));
    assert!(matches!(
        exchange.settle(&mut shared),
        SseEnd::Done { outcome: Err(McpFailure::NoResponse) }
    ));
}

#[test]
fn a_response_in_a_reply_leaves_nobody_waiting() {
    let mut transport = transport();
    transport.stream_state = SseStreamState::Connected;
    let mut shared = SseSharedState::new();
    shared.register(9, "other");
    let request = JsonRpcRequest::new(4, "tools/list", empty());
    let mut exchange = begin(&transport, &mut shared, &request);
    let _ = exchange.advance();
    let _ = exchange.on_reply(200, &HeaderMap::new());
    let body = "data: {\"jsonrpc\":\"2.0\",\"id\":4}\n\n";
    assert!(matches!(exchange.on_text(body, &decode), SseAction::Settle));
    match exchange.settle(&mut shared) {
        SseEnd::Done { outcome: Ok(response) } => assert_eq!(response.id, Some(Value::from(4))),
        _ => panic!("the reply held the response"),
    }
    assert_eq!(shared.pending.len(), 1);
    assert_eq!(shared.pending.get(&9), Some(&"other"));
}

#[test]
fn a_response_in_the_stream_is_awaited_and_delivered() {
    let mut transport = transport();
    transport.stream_state = SseStreamState::Connected;
    let mut shared = SseSharedState::new();
    let request = JsonRpcRequest::new(4, "tools/list", empty());
    let mut exchange = begin(&transport, &mut shared, &request);
    let _ = exchange.advance();
    let _ = exchange.on_reply(202, &event_stream());
    assert!(matches!(exchange.on_stream(None), SseAction::Settle));
    assert!(matches!(exchange.settle(&mut shared), SseEnd::AwaitResponse));
    assert_eq!(shared.pending.len(), 1);

    let data = "{\"jsonrpc\":\"2.0\",\"id\":4,\"result\":1}";
    match handle_sse_event(&transport.sse_url, &mut shared, None, data, &decode_value) {
        SseEffect::Deliver { sender, response } => {
            assert_eq!(sender, "waiter");
            assert_eq!(response.result, Some(Value::from(1)));
            assert!(await_outcome(Some(response)).is_ok());
        }
        _ => panic!("somebody waits for the response"),
    }
    assert!(matches!(
        handle_sse_event(&transport.sse_url, &mut shared, None, data, &decode_value),
        SseEffect::Unmatched { id: 4 }
    ));
    match await_outcome(None) {
        Err(failure) => assert_eq!(failure.message(), "MCP transport connection closed"),
        Ok(_) => panic!("the stream was closed"),
    }
}

#[test]
fn notifications_and_failures_settle_a_request() {
    let mut transport = transport();
    transport.stream_state = SseStreamState::Connected;
    let mut shared = SseSharedState::new();
    let mut notification = JsonRpcRequest::new(0, "notifications/initialized", empty());
    notification.id = None;
    let mut exchange = begin(&transport, &mut shared, &notification);
    assert!(shared.pending.is_empty());
    let _ = exchange.advance();
    assert!(matches!(
        exchange.on_reply(202, &event_stream()),
        SseAction::Settle
    ));
    match exchange.settle(&mut shared) {
        SseEnd::Done { outcome: Ok(response) } => assert!(response.id.is_none()),
        _ => panic!("the notification was accepted"),
    }

    let request = JsonRpcRequest::new(4, "tools/list", empty());
    let exchange = begin(&transport, &mut shared, &request);
    assert!(matches!(
        exchange.settle(&mut shared),
        SseEnd::Done { outcome: Err(McpFailure::RequestNotSent) }
    ));

    for (status, stale) in [(410, true), (500, false), (403, false)] {
        let mut exchange = begin(&transport, &mut shared, &request);
        let _ = exchange.advance();
        assert!(matches!(
            exchange.on_reply(status, &HeaderMap::new()),
            SseAction::Settle
        ));
        match exchange.settle(&mut shared) {
            SseEnd::Done { outcome: Err(failure) } => {
                assert_eq!(matches!(failure, McpFailure::Recoverable { .. }), stale)
            }
            _ => panic!("{status} is a failure"),
        }
        assert!(shared.pending.is_empty());
    }
}

#[test]
fn a_request_without_a_number_is_not_awaited() {
    let mut transport = transport();
    transport.stream_state = SseStreamState::Connected;
    let mut shared = SseSharedState::new();
    let mut request = JsonRpcRequest::new(0, "tools/list", empty());
    request.id = Some(Value::from("a"));
    let mut exchange = begin(&transport, &mut shared, &request);
    assert!(shared.pending.is_empty());
    let _ = exchange.advance();
    let _ = exchange.on_reply(200, &HeaderMap::new());
    let _ = exchange.on_text("", &decode);
    assert!(matches!(
        exchange.settle(&mut shared),
        SseEnd::Done { outcome: Err(McpFailure::NoResponse) }
    ));
}

#[test]
fn events_announce_deliver_or_do_nothing() {
    let url = "http://localhost:1/sse";
    let mut shared: SseSharedState<u8> = SseSharedState::new();
    shared.register(1, 10);
    let mut handle = |event: Option<&str>, data: &str| {
        let effect = handle_sse_event(url, &mut shared, event, data, &decode_value);
        let waiting = shared.pending.len();
        (effect, shared.endpoint(), waiting)
    };
    let ignored = [
        (Some("endpoint"), "  "),
        (Some("endpoint"), "{\"none\":1}"),
        (Some("ping"), "{\"jsonrpc\":\"2.0\",\"id\":1}"),
        (None, "no json"),
        (None, "{\"no\":\"response\"}"),
        (Some("message"), "{\"jsonrpc\":\"2.0\"}"),
        (Some("message"), "{\"jsonrpc\":\"2.0\",\"id\":\"1\"}"),
    ];
    for (event, data) in ignored {
        let (effect, endpoint, waiting) = handle(event, data);
        assert!(matches!(effect, SseEffect::Ignored));
        assert_eq!((endpoint, waiting), (None, 1));
    }
    let (effect, endpoint, waiting) = handle(Some("MCP-Endpoint"), " /messages?s=1 ");
    assert!(matches!(effect, SseEffect::EndpointAnnounced));
    assert_eq!(endpoint.as_deref(), Some("http://localhost:1/messages?s=1"));
    assert_eq!(waiting, 1);
    let (effect, endpoint, waiting) = handle(Some("Message"), "{\"jsonrpc\":\"2.0\",\"id\":1}");
    assert!(matches!(effect, SseEffect::Deliver { sender: 10, .. }));
    assert!(endpoint.is_some());
    assert_eq!(waiting, 0);
}

#[test]
fn a_closed_stream_lets_everyone_go() {
    let mut shared: SseSharedState<u8> = SseSharedState::new();
    shared.register(1, 10);
    shared.register(2, 20);
    shared.register(2, 21);
    assert_eq!(shared.unregister(3), None);
    shared.message_url = Some("http://m".into());
    let waiting = shared.close_stream();
    assert_eq!(waiting.len(), 2);
    assert_eq!(waiting.get(&2), Some(&21));
    assert!(shared.pending.is_empty());
    assert_eq!(shared.message_url.as_deref(), Some("http://m"));
    assert_eq!(shared.endpoint(), None);
}

#[test]
fn the_stream_is_read_line_by_line() {
    let mut reader = SseStreamReader::new("http://localhost:1/sse");
    let mut shared: SseSharedState<u8> = SseSharedState::new();
    shared.register(5, 50);
    let lines = ["event: endpoint\r", "data: /m\r", ": ping", "\r", "", "data: {\"jsonrpc\":"];
    let mut announced = 0;
    for line in lines {
        match reader.on_line(line, &mut shared, &decode_value) {
            SseEffect::Ignored => {}
            SseEffect::EndpointAnnounced => announced += 1,
            _ => panic!("no response has arrived yet"),
        }
    }
    assert_eq!(announced, 1);
    assert_eq!(shared.endpoint().as_deref(), Some("http://localhost:1/m"));
    assert!(matches!(
        reader.on_line("data: \"2.0\", \"id\": 5}", &mut shared, &decode_value),
        SseEffect::Ignored
    ));
    assert!(matches!(
        reader.on_line("", &mut shared, &decode_value),
        SseEffect::Deliver { sender: 50, .. }
    ));
    assert!(shared.pending.is_empty());
}

#[test]
fn steps_keep_the_request_and_come_to_an_end() {
    let mut transport = transport();
    transport.stream_state = SseStreamState::Connected;
    let mut shared = SseSharedState::new();
    let request = JsonRpcRequest::new(4, "tools/list", empty());
    let mut exchange = begin(&transport, &mut shared, &request);
    let mut action = exchange.advance();
    let mut posts = 0;
    let mut reads = 0;
    loop {
        assert_eq!(exchange.body, "body");
        assert_eq!(exchange.pending_id, Some(4));
        assert_eq!(exchange.targets.len(), 2);
        action = match action {
            SseAction::Post { .. } => {
                posts += 1;
                exchange.on_reply(200, &HeaderMap::new())
            }
            SseAction::ReadStream { .. } | SseAction::ReadText { .. } => {
                reads += 1;
                exchange.on_timeout()
            }
            SseAction::Settle => break,
            SseAction::Fail { .. } => panic!("nothing is refused"),
        };
    }
    assert_eq!((posts, reads), (2, 2));
    assert!(matches!(exchange.settle(&mut shared), SseEnd::AwaitResponse));
}
