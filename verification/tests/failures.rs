use reqwest::Url;
use zeroclaw::config::McpTransport;
use zeroclaw::failure::{McpFailure, McpTransportError};
use zeroclaw::tls::{ca_certificates, decide_redirect, require_https_url, RedirectDecision};

#[test]
fn failures_have_their_words() {
    let server = || "s".to_string();
    let path = || "/ca.pem".to_string();
    let target = || "configured remote URL".to_string();
    let cases = vec![
        (
            McpFailure::UrlRequired { transport: McpTransport::Http },
            "URL required for HTTP transport",
        ),
        (
            McpFailure::UrlRequired { transport: McpTransport::Sse },
            "URL required for SSE transport",
        ),
        (
            McpFailure::InvalidUrl { server: server(), target: target() },
            "MCP server `s`: invalid configured remote URL URL",
        ),
        (
            McpFailure::PlaintextRefused { server: server(), target: target() },
            "MCP server `s`: tls_ca_cert_path requires an HTTPS configured remote URL; \
             refusing plaintext transport",
        ),
        (
            McpFailure::CaPathNotAbsolute { server: server(), path: path() },
            "MCP server `s`: TLS CA certificate path must be absolute: `/ca.pem`",
        ),
        (
            McpFailure::CaUnreadable { server: server(), path: path() },
            "MCP server `s`: cannot read TLS CA certificate at `/ca.pem`",
        ),
        (
            McpFailure::CaInvalid { server: server(), path: path() },
            "MCP server `s`: invalid PEM CA certificate at `/ca.pem`",
        ),
        (
            McpFailure::CaEmpty { server: server(), path: path() },
            "MCP server `s`: CA certificate file `/ca.pem` contained no certificates",
        ),
        (McpFailure::InvalidSseUrl, "invalid SSE URL"),
        (
            McpFailure::HttpStatus { status: 503 },
            "MCP server returned HTTP 503 Service Unavailable",
        ),
        (
            McpFailure::HttpStatus { status: 299 },
            "MCP server returned HTTP 299 <unknown status code>",
        ),
        (McpFailure::NoResponse, "MCP server returned no response"),
        (
            McpFailure::NoResponseInStream,
            "MCP server returned no response in SSE stream",
        ),
        (
            McpFailure::InvalidResponse { text: "x".into() },
            "invalid JSON-RPC response: x",
        ),
        (McpFailure::RequestNotSent, "MCP request not sent"),
        (
            McpFailure::ResponseTooLarge { bytes: 4_194_305 },
            "MCP response too large: 4194305 bytes",
        ),
        (McpFailure::ResponseTimeout, "timeout waiting for MCP response"),
        (McpFailure::StdoutClosed, "MCP server closed stdout"),
        (
            McpFailure::Recoverable { error: McpTransportError::StaleSession { status: 410 } },
            "MCP session is stale (HTTP 410)",
        ),
        (
            McpFailure::Recoverable { error: McpTransportError::TransportClosed },
            "MCP transport connection closed",
        ),
    ];
    for (failure, words) in cases {
        assert_eq!(failure.message(), words);
    }
    assert_eq!(
        McpTransportError::StaleSession { status: 0 }.message(),
        "MCP session is stale (HTTP 0)"
    );
}

#[test]
fn only_https_urls_pass() {
    assert!(require_https_url("s", "https://h/x", "t").is_ok());
    assert!(require_https_url("s", "HTTPS://h", "t").is_ok());
    assert!(matches!(
        require_https_url("s", "http://h", "t"),
        Err(McpFailure::PlaintextRefused { .. })
    ));
    match require_https_url("s", "h", "SSE message endpoint") {
        Err(failure) => assert_eq!(
            failure.message(),
            "MCP server `s`: invalid SSE message endpoint URL"
        ),
        Ok(()) => panic!("a relative reference is no URL"),
    }
}

#[test]
fn redirects_stay_on_https_and_come_to_an_end() {
    let https = Url::parse("https://h").unwrap();
    let http = Url::parse("http://h").unwrap();
    assert!(matches!(decide_redirect("s", 0, &https), RedirectDecision::Follow));
    assert!(matches!(decide_redirect("s", 9, &https), RedirectDecision::Follow));
    let words = |decision: RedirectDecision| match decision {
        RedirectDecision::Stop { message } => message,
        RedirectDecision::Follow => panic!("the redirect is refused"),
    };
    assert_eq!(
        words(decide_redirect("s", 10, &https)),
        "MCP server `s`: too many redirects"
    );
    assert_eq!(
        words(decide_redirect("s", 1, &http)),
        "MCP server `s`: tls_ca_cert_path forbids redirecting to plaintext"
    );
    assert_eq!(
        words(decide_redirect("s", 10, &http)),
        "MCP server `s`: too many redirects"
    );
}

#[test]
fn certificate_files_must_hold_certificates() {
    assert!(matches!(
        ca_certificates("s", "/ca.pem", None),
        Err(McpFailure::CaUnreadable { .. })
    ));
    assert!(matches!(
        ca_certificates("s", "/ca.pem", Some(b"text".to_vec())),
        Err(McpFailure::CaEmpty { .. })
    ));
    let one = b"-----BEGIN CERTIFICATE-----\nMIIB\n-----END CERTIFICATE-----\n".to_vec();
    assert_eq!(ca_certificates("s", "/ca.pem", Some(one)).unwrap().len(), 1);
}
