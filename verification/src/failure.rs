//! What can go wrong between the client and an MCP server.
use vstd::prelude::*;

use crate::config::McpTransport;
use crate::http::{display_status, status_line};
use crate::text::{decimal, to_decimal};

verus! {

/// Transport-level failures that are recoverable by reconnecting, that is by resetting the session
/// and running the MCP handshake again, rather than by reporting them to the caller. Distinct from
/// a tool or application error, which must be reported as it is and never retried.
#[derive(Debug, Clone, Copy, PartialEq, Eq, Structural)]
pub enum McpTransportError {
    /// The server no longer recognizes our session, typically after it restarted. Comes from HTTP
    /// 404 and 410 replies.
    StaleSession { status: u16 },
    /// The underlying stream or connection dropped before a response arrived.
    TransportClosed,
}

impl McpTransportError {
    /// The words of the error.
    pub open spec fn words(self) -> Seq<char> {
        match self {
            McpTransportError::StaleSession { status } => "MCP session is stale (HTTP "@ + decimal(
                status as nat,
            ) + ")"@,
            McpTransportError::TransportClosed => "MCP transport connection closed"@,
        }
    }

    /// The words of the error.
    pub fn message(&self) -> (text: String)
        ensures
            text@ == self.words(),
    {
        match self {
            McpTransportError::StaleSession { status } => {
                let mut text = "MCP session is stale (HTTP ".to_string();
                text.append(to_decimal(*status as u64).as_str());
                text.append(")");
                text
            },
            McpTransportError::TransportClosed => "MCP transport connection closed".to_string(),
        }
    }
}

/// Why a transport could not be made, or a request not be answered.
#[derive(Debug, Clone)]
pub enum McpFailure {
    /// A remote transport has no URL.
    UrlRequired { transport: McpTransport },
    /// A URL that must use HTTPS is no URL at all.
    InvalidUrl { server: String, target: String },
    /// A URL that must use HTTPS does not.
    PlaintextRefused { server: String, target: String },
    /// The path of the certificate file is relative.
    CaPathNotAbsolute { server: String, path: String },
    /// The certificate file cannot be read.
    CaUnreadable { server: String, path: String },
    /// The certificate file holds something that is no certificate.
    CaInvalid { server: String, path: String },
    /// The certificate file holds no certificate.
    CaEmpty { server: String, path: String },
    /// The URL of the event stream cannot be turned into one for messages.
    InvalidSseUrl,
    /// The server replied with a status that reports no success.
    HttpStatus { status: u16 },
    /// The server replied with an empty body.
    NoResponse,
    /// The event stream of a reply held no response.
    NoResponseInStream,
    /// The text of a response is no JSON-RPC response.
    InvalidResponse { text: String },
    /// No request was sent.
    RequestNotSent,
    /// The line of a response is too long.
    ResponseTooLarge { bytes: usize },
    /// No response came in time.
    ResponseTimeout,
    /// The server closed its output.
    StdoutClosed,
    /// The connection can be set up anew.
    Recoverable { error: McpTransportError },
}

/// What a transport is called.
pub open spec fn transport_words(transport: McpTransport) -> Seq<char> {
    match transport {
        McpTransport::Stdio => "stdio"@,
        McpTransport::Http => "HTTP"@,
        McpTransport::Sse => "SSE"@,
    }
}

/// What a transport is called.
fn transport_name(transport: McpTransport) -> (name: &'static str)
    ensures
        name@ == transport_words(transport),
{
    match transport {
        McpTransport::Stdio => "stdio",
        McpTransport::Http => "HTTP",
        McpTransport::Sse => "SSE",
    }
}

/// A text made of four parts.
fn concat4(a: &str, b: &str, c: &str, d: &str) -> (text: String)
    ensures
        text@ == a@ + b@ + c@ + d@,
{
    let mut text = a.to_string();
    text.append(b);
    text.append(c);
    text.append(d);
    text
}

impl McpFailure {
    /// Whether the status of a failed reply is one that HTTP knows: a number of three digits.
    pub open spec fn has_http_status(self) -> bool {
        self matches McpFailure::HttpStatus { status } ==> 100 <= status <= 999
    }

    /// The words of the failure.
    pub open spec fn words(self) -> Seq<char> {
        match self {
            McpFailure::UrlRequired { transport } => "URL required for "@ + transport_words(
                transport,
            ) + " transport"@,
            McpFailure::InvalidUrl { server, target } => "MCP server `"@ + server@
                + "`: invalid "@ + (target@ + " URL"@),
            McpFailure::PlaintextRefused { server, target } => "MCP server `"@ + server@
                + "`: tls_ca_cert_path requires an HTTPS "@ + (target@
                + "; refusing plaintext transport"@),
            McpFailure::CaPathNotAbsolute { server, path } => "MCP server `"@ + server@
                + "`: TLS CA certificate path must be absolute: `"@ + (path@ + "`"@),
            McpFailure::CaUnreadable { server, path } => "MCP server `"@ + server@
                + "`: cannot read TLS CA certificate at `"@ + (path@ + "`"@),
            McpFailure::CaInvalid { server, path } => "MCP server `"@ + server@
                + "`: invalid PEM CA certificate at `"@ + (path@ + "`"@),
            McpFailure::CaEmpty { server, path } => "MCP server `"@ + server@
                + "`: CA certificate file `"@ + (path@ + "` contained no certificates"@),
            McpFailure::InvalidSseUrl => "invalid SSE URL"@,
            McpFailure::HttpStatus { status } => "MCP server returned HTTP "@ + status_line(status),
            McpFailure::NoResponse => "MCP server returned no response"@,
            McpFailure::NoResponseInStream => "MCP server returned no response in SSE stream"@,
            McpFailure::InvalidResponse { text } => "invalid JSON-RPC response: "@ + text@,
            McpFailure::RequestNotSent => "MCP request not sent"@,
            McpFailure::ResponseTooLarge { bytes } => "MCP response too large: "@ + decimal(
                bytes as nat,
            ) + " bytes"@,
            McpFailure::ResponseTimeout => "timeout waiting for MCP response"@,
            McpFailure::StdoutClosed => "MCP server closed stdout"@,
            McpFailure::Recoverable { error } => error.words(),
        }
    }

    /// The words of the failure.
    pub fn message(&self) -> (text: String)
        requires
            self.has_http_status(),
        ensures
            text@ == self.words(),
            self matches McpFailure::HttpStatus { status } ==> ("MCP server returned HTTP "@
                + decimal(status as nat) + " "@).is_prefix_of(text@),
    {
        match self {
            McpFailure::UrlRequired { transport } => "URL required for ".to_string().concat(
                transport_name(*transport),
            ).concat(" transport"),
            McpFailure::InvalidUrl { server, target } => concat4(
                "MCP server `",
                server.as_str(),
                "`: invalid ",
                target.clone().concat(" URL").as_str(),
            ),
            McpFailure::PlaintextRefused { server, target } => concat4(
                "MCP server `",
                server.as_str(),
                "`: tls_ca_cert_path requires an HTTPS ",
                target.clone().concat("; refusing plaintext transport").as_str(),
            ),
            McpFailure::CaPathNotAbsolute { server, path } => concat4(
                "MCP server `",
                server.as_str(),
                "`: TLS CA certificate path must be absolute: `",
                path.clone().concat("`").as_str(),
            ),
            McpFailure::CaUnreadable { server, path } => concat4(
                "MCP server `",
                server.as_str(),
                "`: cannot read TLS CA certificate at `",
                path.clone().concat("`").as_str(),
            ),
            McpFailure::CaInvalid { server, path } => concat4(
                "MCP server `",
                server.as_str(),
                "`: invalid PEM CA certificate at `",
                path.clone().concat("`").as_str(),
            ),
            McpFailure::CaEmpty { server, path } => concat4(
                "MCP server `",
                server.as_str(),
                "`: CA certificate file `",
                path.clone().concat("` contained no certificates").as_str(),
            ),
            McpFailure::InvalidSseUrl => "invalid SSE URL".to_string(),
            McpFailure::HttpStatus { status } => {
                let line = display_status(*status);
                proof {
                    let head = "MCP server returned HTTP "@;
                    let number = decimal(*status as nat) + " "@;
                    assert(head + decimal(*status as nat) + " "@ =~= head + number);
                    assert((head + line@).take((head + number).len() as int) =~= head + line@.take(
                        number.len() as int,
                    ));
                }
                "MCP server returned HTTP ".to_string().concat(line.as_str())
            },
            McpFailure::NoResponse => "MCP server returned no response".to_string(),
            McpFailure::NoResponseInStream => {
                "MCP server returned no response in SSE stream".to_string()
            },
            McpFailure::InvalidResponse { text } => "invalid JSON-RPC response: ".to_string().concat(
                text.as_str(),
            ),
            McpFailure::RequestNotSent => "MCP request not sent".to_string(),
            McpFailure::ResponseTooLarge { bytes } => "MCP response too large: ".to_string().concat(
                to_decimal(*bytes as u64).as_str(),
            ).concat(" bytes"),
            McpFailure::ResponseTimeout => "timeout waiting for MCP response".to_string(),
            McpFailure::StdoutClosed => "MCP server closed stdout".to_string(),
            McpFailure::Recoverable { error } => error.message(),
        }
    }
}

/// A failure that belongs to a server names it, and one about a file or a purpose names that, whatever
/// they are called.
pub proof fn law_failures_name_what_they_are_about(server: String, detail: String)
    ensures
        (McpFailure::InvalidUrl { server, target: detail }).words() == "MCP server `"@ + server@
            + "`: invalid "@ + (detail@ + " URL"@),
        (McpFailure::PlaintextRefused { server, target: detail }).words() == "MCP server `"@ + server@
            + "`: tls_ca_cert_path requires an HTTPS "@ + (detail@
            + "; refusing plaintext transport"@),
        (McpFailure::CaPathNotAbsolute { server, path: detail }).words() == "MCP server `"@ + server@
            + "`: TLS CA certificate path must be absolute: `"@ + (detail@ + "`"@),
        (McpFailure::CaUnreadable { server, path: detail }).words() == "MCP server `"@ + server@
            + "`: cannot read TLS CA certificate at `"@ + (detail@ + "`"@),
        (McpFailure::CaInvalid { server, path: detail }).words() == "MCP server `"@ + server@
            + "`: invalid PEM CA certificate at `"@ + (detail@ + "`"@),
        (McpFailure::CaEmpty { server, path: detail }).words() == "MCP server `"@ + server@
            + "`: CA certificate file `"@ + (detail@ + "` contained no certificates"@),
        (McpFailure::InvalidResponse { text: detail }).words() == "invalid JSON-RPC response: "@
            + detail@,
{
}

/// A failure with a number tells it in decimal, whatever it is.
pub proof fn law_failures_tell_their_numbers(status: u16, bytes: usize)
    ensures
        (McpFailure::HttpStatus { status }).words() == "MCP server returned HTTP "@ + status_line(
            status,
        ),
        (McpFailure::ResponseTooLarge { bytes }).words() == "MCP response too large: "@ + decimal(
            bytes as nat,
        ) + " bytes"@,
        (McpTransportError::StaleSession { status }).words() == "MCP session is stale (HTTP "@
            + decimal(status as nat) + ")"@,
        (McpFailure::Recoverable {
            error: McpTransportError::StaleSession { status },
        }).words() == "MCP session is stale (HTTP "@ + decimal(status as nat) + ")"@,
{
}

/// The words of the failures that are about nothing in particular, and of those that name the kind of
/// transport.
pub proof fn law_other_failures_have_their_words(transport: McpTransport)
    ensures
        (McpFailure::UrlRequired { transport }).words() == (match transport {
            McpTransport::Stdio => "URL required for stdio transport"@,
            McpTransport::Http => "URL required for HTTP transport"@,
            McpTransport::Sse => "URL required for SSE transport"@,
        }),
        McpFailure::InvalidSseUrl.words() == "invalid SSE URL"@,
        McpFailure::NoResponse.words() == "MCP server returned no response"@,
        McpFailure::NoResponseInStream.words() == "MCP server returned no response in SSE stream"@,
        McpFailure::RequestNotSent.words() == "MCP request not sent"@,
        McpFailure::ResponseTimeout.words() == "timeout waiting for MCP response"@,
        McpFailure::StdoutClosed.words() == "MCP server closed stdout"@,
        (McpFailure::Recoverable { error: McpTransportError::TransportClosed }).words()
            == "MCP transport connection closed"@,
{
    reveal_strlit("URL required for ");
    reveal_strlit("stdio");
    reveal_strlit("HTTP");
    reveal_strlit("SSE");
    reveal_strlit(" transport");
    reveal_strlit("URL required for stdio transport");
    reveal_strlit("URL required for HTTP transport");
    reveal_strlit("URL required for SSE transport");
}

} // verus!
