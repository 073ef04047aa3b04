//! The transport by HTTP POST requests.
use reqwest::header::{HeaderMap, HeaderValue};
use reqwest::Certificate;
use vstd::prelude::*;

use crate::config::{has_distinct_keys, McpServerConfig, McpTransport};
use crate::failure::{McpFailure, McpTransportError};
use crate::http::{
    add_accept, add_header, copy_headers, find_header, has_event_stream, header_text, header_texts,
    is_event_stream, is_success, media_type_and, post_headers, unless_named, HttpRequest,
    MCP_SESSION_ID_HEADER,
};
use crate::protocol::{JsonRpcRequest, JsonRpcResponse};
use crate::sse_stream::text_of;
use crate::text::{trim, trimmed};
use crate::tls::pem_certificates;
use crate::timeouts::{
    budget, http_request_timeout_secs, http_sse_read_timeout_secs,
    DEFAULT_HTTP_REQUEST_TIMEOUT_SECS, RECV_TIMEOUT_SECS,
};
use crate::transport::{
    bytes_of, ca_path_is_absolute, is_answer_on_ca_path, is_remote_opening,
    may_have_absolute_ca_path, open_remote, ChildState, McpTransportConn,
};

verus! {

/// The transport by HTTP POST requests.
pub struct HttpTransport {
    /// Where requests go.
    pub url: String,
    /// The time that a tool call may take, in seconds. Other requests keep the default request
    /// timeout and the short timeout for event streams; where none is configured, the caller limits
    /// tool calls.
    pub tool_timeout_secs: Option<u64>,
    /// The certificates to trust besides the system's.
    pub ca_certificates: Vec<Certificate>,
    /// The configured headers, each with its value.
    pub headers: Vec<(String, String)>,
    /// The session that the server gave out, if it did.
    pub session_id: Option<String>,
}

/// What to do about a reply.
pub enum HttpNext {
    /// Report a failure.
    Fail { failure: McpFailure },
    /// Report a response.
    Done { response: JsonRpcResponse },
    /// Read the event stream of the reply for the first response, in the time given.
    ReadStream { timeout_secs: Option<u64> },
    /// Read the body of the reply as a whole.
    ReadText,
}

/// The session after a reply: the one that the reply names, unless that is blank.
pub open spec fn session_after(
    session: Option<Seq<char>>,
    headers: HeaderMap<HeaderValue>,
) -> Option<Seq<char>> {
    match header_text(headers, MCP_SESSION_ID_HEADER@) {
        Some(text) => if trimmed(text).len() > 0 {
            Some(trimmed(text))
        } else {
            session
        },
        None => session,
    }
}

/// The failure that a status gives, if any. Where the request was part of a session, the statuses
/// 404 and 410 say that the server has forgotten it.
pub open spec fn status_failure(has_session: bool, status: u16) -> Option<McpFailure> {
    if is_success(status) {
        None
    } else if has_session && (status == 404 || status == 410) {
        Some(McpFailure::Recoverable { error: McpTransportError::StaleSession { status } })
    } else {
        Some(McpFailure::HttpStatus { status })
    }
}

/// Whether `next` is what to do about a reply.
pub open spec fn is_next(
    next: HttpNext,
    has_session: bool,
    tool_timeout_secs: Option<u64>,
    request: JsonRpcRequest,
    status: u16,
    headers: HeaderMap<HeaderValue>,
) -> bool {
    match status_failure(has_session, status) {
        Some(failure) => next == (HttpNext::Fail { failure }),
        None => if request.id is None {
            next matches HttpNext::Done { response } && response.is_acknowledgement()
        } else if is_event_stream(headers) {
            next == (HttpNext::ReadStream {
                timeout_secs: budget(request, tool_timeout_secs, RECV_TIMEOUT_SECS),
            })
        } else {
            next is ReadText
        },
    }
}

impl HttpTransport {
    /// No header is configured twice.
    pub open spec fn wf(self) -> bool {
        has_distinct_keys(self.headers@)
    }

    /// Whether `outcome` is the transport of a configuration, or the failure of the latter.
    pub open spec fn is_setup(
        outcome: Result<Self, McpFailure>,
        config: McpServerConfig,
        ca_path_is_absolute: bool,
        ca_pem: Option<Seq<u8>>,
    ) -> bool {
        match outcome {
            Ok(transport) => {
                &&& is_remote_opening(
                    Ok((transport.url@, transport.ca_certificates@)),
                    config,
                    McpTransport::Http,
                    ca_path_is_absolute,
                    ca_pem,
                )
                &&& transport.tool_timeout_secs == config.tool_timeout_secs
                &&& header_texts(transport.headers@) == header_texts(config.headers@)
                &&& transport.session_id is None
            },
            Err(failure) => is_remote_opening(
                Err(failure),
                config,
                McpTransport::Http,
                ca_path_is_absolute,
                ca_pem,
            ),
        }
    }

    /// The transport of a configuration, given whether the path of its certificate file is
    /// absolute, and the bytes of that file.
    pub fn prepare(
        config: &McpServerConfig,
        ca_path_is_absolute: bool,
        ca_pem: Option<Vec<u8>>,
    ) -> (outcome: Result<Self, McpFailure>)
        ensures
            Self::is_setup(outcome, *config, ca_path_is_absolute, bytes_of(ca_pem)),
            config.wf() ==> (outcome matches Ok(transport) ==> transport.wf()),
    {
        match open_remote(config, McpTransport::Http, ca_path_is_absolute, ca_pem) {
            Ok((url, ca_certificates)) => {
                let headers = copy_headers(&config.headers);
                Ok(
                    HttpTransport {
                        url,
                        tool_timeout_secs: config.tool_timeout_secs,
                        ca_certificates,
                        headers,
                        session_id: None,
                    },
                )
            },
            Err(failure) => Err(failure),
        }
    }

    /// The transport of a configuration. `ca_pem` holds the bytes of the configured certificate file;
    /// `None` means that it could not be read, or that there is none.
    pub fn new(config: &McpServerConfig, ca_pem: Option<Vec<u8>>) -> (outcome: Result<
        Self,
        McpFailure,
    >)
        ensures
            exists|absolute: bool| #[trigger]
                Self::is_setup(outcome, *config, absolute, bytes_of(ca_pem))
                    && is_answer_on_ca_path(absolute, *config) && (absolute
                    ==> may_have_absolute_ca_path(*config)),
    {
        let absolute = ca_path_is_absolute(config);
        let ghost bytes = bytes_of(ca_pem);
        let outcome = Self::prepare(config, absolute, ca_pem);
        assert(Self::is_setup(outcome, *config, absolute, bytes));
        outcome
    }

    /// Adds the session to the headers of a request, if there is one.
    pub fn apply_session_header(&self, headers: &mut Vec<(String, String)>)
        ensures
            header_texts(final(headers)@) == header_texts(old(headers)@) + (match text_of(
                self.session_id,
            ) {
                Some(id) => seq![(MCP_SESSION_ID_HEADER@, id)],
                None => Seq::empty(),
            }),
    {
        if let Some(id) = &self.session_id {
            add_header(headers, MCP_SESSION_ID_HEADER, id.as_str());
            assert(header_texts(headers@) =~= header_texts(old(headers)@) + seq![
                (MCP_SESSION_ID_HEADER@, id@),
            ]);
        } else {
            assert(header_texts(headers@) =~= header_texts(old(headers)@) + Seq::empty());
        }
    }

    /// Takes over the session that a reply names. A blank one is passed over.
    pub fn update_session_id_from_headers(&mut self, headers: &HeaderMap<HeaderValue>)
        ensures
            text_of(final(self).session_id) == session_after(text_of(old(self).session_id), *headers),
            final(self).url == old(self).url,
            final(self).tool_timeout_secs == old(self).tool_timeout_secs,
            final(self).ca_certificates == old(self).ca_certificates,
            final(self).headers == old(self).headers,
    {
        if let Some(text) = find_header(headers, MCP_SESSION_ID_HEADER) {
            let id = trim(text);
            if !id.is_empty() {
                self.session_id = Some(id.to_string());
            }
        }
    }

    /// The POST request that carries a JSON-RPC request, whose text is `body`.
    pub fn post(&self, request: &JsonRpcRequest, body: &str) -> (post: HttpRequest)
        ensures
            post.url@ == self.url@,
            text_of(post.body) == Some(body@),
            header_texts(post.headers@) == post_headers(
                header_texts(self.headers@),
                text_of(self.session_id),
            ),
            post.timeout_secs == budget(
                *request,
                self.tool_timeout_secs,
                DEFAULT_HTTP_REQUEST_TIMEOUT_SECS,
            ),
    {
        let mut headers = media_type_and(&self.headers);
        self.apply_session_header(&mut headers);
        add_accept(&mut headers, &self.headers);
        HttpRequest {
            url: self.url.clone(),
            body: Some(body.to_string()),
            headers,
            timeout_secs: http_request_timeout_secs(request, self.tool_timeout_secs),
        }
    }

    /// Takes the status and the headers of a reply, and decides what to do about it.
    pub fn on_reply(
        &mut self,
        request: &JsonRpcRequest,
        status: u16,
        headers: &HeaderMap<HeaderValue>,
    ) -> (next: HttpNext)
        ensures
            is_next(
                next,
                old(self).session_id is Some,
                old(self).tool_timeout_secs,
                *request,
                status,
                *headers,
            ),
            text_of(final(self).session_id) == (if is_success(status) {
                session_after(text_of(old(self).session_id), *headers)
            } else {
                text_of(old(self).session_id)
            }),
            final(self).url == old(self).url,
            final(self).tool_timeout_secs == old(self).tool_timeout_secs,
            final(self).ca_certificates == old(self).ca_certificates,
            final(self).headers == old(self).headers,
    {
        if !(200 <= status && status < 300) {
            if self.session_id.is_some() && (status == 404 || status == 410) {
                return HttpNext::Fail {
                    failure: McpFailure::Recoverable {
                        error: McpTransportError::StaleSession { status },
                    },
                };
            }
            return HttpNext::Fail { failure: McpFailure::HttpStatus { status } };
        }
        self.update_session_id_from_headers(headers);
        if request.id.is_none() {
            return HttpNext::Done { response: JsonRpcResponse::acknowledgement() };
        }
        if has_event_stream(headers) {
            HttpNext::ReadStream {
                timeout_secs: http_sse_read_timeout_secs(request, self.tool_timeout_secs),
            }
        } else {
            HttpNext::ReadText
        }
    }

    /// The outcome of a request whose reply was an event stream, once that is read.
    pub fn on_stream(&self, response: Option<JsonRpcResponse>) -> (outcome: Result<
        JsonRpcResponse,
        McpFailure,
    >)
        ensures
            match response {
                Some(r) => outcome == Ok::<JsonRpcResponse, McpFailure>(r),
                None => outcome == Err::<JsonRpcResponse, McpFailure>(
                    McpFailure::NoResponseInStream,
                ),
            },
    {
        match response {
            Some(r) => Ok(r),
            None => Err(McpFailure::NoResponseInStream),
        }
    }
}

impl McpTransportConn for HttpTransport {
    open spec fn holds_session(&self) -> bool {
        self.session_id is Some
    }

    open spec fn is_alive(&self, child: ChildState) -> bool {
        true
    }

    fn reset(&mut self)
        ensures
            final(self).session_id is None,
            final(self).url == old(self).url,
            final(self).tool_timeout_secs == old(self).tool_timeout_secs,
            final(self).ca_certificates == old(self).ca_certificates,
            final(self).headers == old(self).headers,
    {
        self.session_id = None;
    }

    fn health_check(&self, child: ChildState) -> (alive: bool) {
        true
    }
}

/// The statuses 404 and 410 report a stale session exactly where the request was part of one; to a
/// request without a session they are failures like any other.
pub proof fn law_stale_only_within_a_session(has_session: bool, status: u16)
    ensures
        status_failure(has_session, status) matches Some(McpFailure::Recoverable { .. }) <==> (
        has_session && (status == 404 || status == 410)),
        !has_session && !is_success(status) ==> status_failure(has_session, status) == Some(
            McpFailure::HttpStatus { status },
        ),
{
}

/// A session is never blank, and no reply takes one away.
pub proof fn law_sessions_are_kept_and_never_blank(
    session: Option<Seq<char>>,
    headers: HeaderMap<HeaderValue>,
)
    ensures
        session is Some ==> session_after(session, headers) is Some,
        (session is Some ==> session->0.len() > 0) ==> (session_after(session, headers) is Some
            ==> session_after(session, headers)->0.len() > 0),
{
}

/// The session after a reply is the one that the reply names, without white space at its ends, in
/// place of any other; a reply that names none, or a blank one, leaves it as it was.
pub proof fn law_replies_name_the_session(
    session: Option<Seq<char>>,
    headers: HeaderMap<HeaderValue>,
    text: Seq<char>,
)
    ensures
        header_text(headers, "Mcp-Session-Id"@) is None ==> session_after(session, headers)
            == session,
        header_text(headers, "Mcp-Session-Id"@) == Some(text) && trimmed(text).len() == 0
            ==> session_after(session, headers) == session,
        header_text(headers, "Mcp-Session-Id"@) == Some(text) && trimmed(text).len() > 0
            ==> session_after(session, headers) == Some(trimmed(text)),
{
}

/// Every status has its outcome: those from 200 to 299 none; 404 and 410 within a session that it is
/// stale; and all others that they failed, with their number.
pub proof fn law_every_status_has_its_outcome(has_session: bool, status: u16)
    ensures
        200 <= status <= 299 ==> status_failure(has_session, status) is None,
        (status == 404 || status == 410) && has_session ==> status_failure(has_session, status)
            == Some(McpFailure::Recoverable { error: McpTransportError::StaleSession { status } }),
        !(200 <= status <= 299) && !((status == 404 || status == 410) && has_session)
            ==> status_failure(has_session, status) == Some(McpFailure::HttpStatus { status }),
{
}

/// What to do about a reply: its failure is reported, whatever it carries; a notification is done once
/// it is accepted; and the response to any other request is read from the event stream or from the
/// text, whatever the request and whatever its identifier.
pub proof fn law_every_reply_has_its_next(
    next: HttpNext,
    has_session: bool,
    tool_timeout_secs: Option<u64>,
    request: JsonRpcRequest,
    status: u16,
    headers: HeaderMap<HeaderValue>,
)
    requires
        is_next(next, has_session, tool_timeout_secs, request, status, headers),
    ensures
        next is Fail <==> !(200 <= status <= 299),
        next matches HttpNext::Fail { failure } ==> Some(failure) == status_failure(
            has_session,
            status,
        ),
        next is Done <==> 200 <= status <= 299 && request.id is None,
        next matches HttpNext::Done { response } ==> response.jsonrpc@ == "2.0"@ && response.id
            is None && response.result is None && response.error is None,
        next is ReadStream <==> 200 <= status <= 299 && request.id is Some && is_event_stream(
            headers,
        ),
        next matches HttpNext::ReadStream { timeout_secs } ==> timeout_secs == (if request.method@
            == "tools/call"@ {
            tool_timeout_secs
        } else {
            Some(30u64)
        }),
        next is ReadText <==> 200 <= status <= 299 && request.id is Some && !is_event_stream(
            headers,
        ),
{
}

/// Everything of a configuration that a transport needs is taken over: its headers in their order and
/// its time for tool calls. There is no session yet.
pub proof fn law_configurations_are_taken_over(
    transport: HttpTransport,
    config: McpServerConfig,
    ca_path_is_absolute: bool,
    ca_pem: Option<Seq<u8>>,
)
    requires
        HttpTransport::is_setup(Ok(transport), config, ca_path_is_absolute, ca_pem),
    ensures
        transport.url@ == config.url->0@,
        transport.tool_timeout_secs == config.tool_timeout_secs,
        transport.headers@.len() == config.headers@.len(),
        forall|i: int|
            0 <= i < config.headers@.len() ==> (#[trigger] transport.headers@[i]).0@
                == config.headers@[i].0@ && transport.headers@[i].1@ == config.headers@[i].1@,
        transport.session_id is None,
        config.tls_ca_cert_path is None ==> transport.ca_certificates@.len() == 0,
        config.tls_ca_cert_path is Some ==> ca_pem is Some && pem_certificates(ca_pem->0) == Some(
            transport.ca_certificates@,
        ) && transport.ca_certificates@.len() > 0,
{
    let here = header_texts(transport.headers@);
    let there = header_texts(config.headers@);
    assert(here.len() == transport.headers@.len() && there.len() == config.headers@.len());
    assert forall|i: int| 0 <= i < config.headers@.len() implies (
    #[trigger] transport.headers@[i]).0@ == config.headers@[i].0@ && transport.headers@[i].1@
        == config.headers@[i].1@ by {
        assert(here[i] == (transport.headers@[i].0@, transport.headers@[i].1@));
        assert(there[i] == (config.headers@[i].0@, config.headers@[i].1@));
    }
}

/// Whatever is posted goes to the URL of the server with the body as it is. A tool call has the
/// configured time, and any other request two minutes. Within a session the identifier goes with it,
/// and outside one no header is added that is not the same for every request.
pub proof fn law_what_is_posted(
    transport: &HttpTransport,
    request: &JsonRpcRequest,
    body: &str,
    post: HttpRequest,
)
    requires
        call_ensures(HttpTransport::post, (transport, request, body), post),
    ensures
        post.url@ == transport.url@,
        post.body matches Some(text) && text@ == body@,
        request.method@ == "tools/call"@ ==> post.timeout_secs == transport.tool_timeout_secs,
        request.method@ != "tools/call"@ ==> post.timeout_secs == Some(120u64),
        transport.session_id matches Some(id) ==> header_texts(post.headers@).contains(
            ("Mcp-Session-Id"@, id@),
        ),
        transport.session_id is None ==> header_texts(post.headers@) == post_headers(
            header_texts(transport.headers@),
            None,
        ),
{
    let configured = header_texts(transport.headers@);
    if let Some(id) = transport.session_id {
        let entry = ("Mcp-Session-Id"@, id@);
        let front = unless_named(configured, "Content-Type"@, "application/json"@) + configured;
        assert(header_texts(post.headers@)[front.len() as int] == entry);
    }
}

/// A stream gives the response that came out of it, and fails where none did.
pub proof fn law_what_a_stream_gives(
    transport: &HttpTransport,
    response: Option<JsonRpcResponse>,
    outcome: Result<JsonRpcResponse, McpFailure>,
)
    requires
        call_ensures(HttpTransport::on_stream, (transport, response), outcome),
    ensures
        outcome is Ok <==> response is Some,
        outcome matches Ok(r) ==> response == Some(r),
        outcome matches Err(failure) ==> failure is NoResponseInStream,
{
}

/// Only a success that names a session changes the session, to the name without white space round it;
/// and nothing else of the transport changes.
pub proof fn law_only_a_success_names_a_session(
    transport: &mut HttpTransport,
    request: &JsonRpcRequest,
    status: u16,
    headers: &HeaderMap<HeaderValue>,
    next: HttpNext,
)
    requires
        call_ensures(HttpTransport::on_reply, (transport, request, status, headers), next),
    ensures
        !(200 <= status <= 299) || header_text(*headers, "Mcp-Session-Id"@) is None ==> text_of(
            final(transport).session_id,
        ) == text_of(old(transport).session_id),
        200 <= status <= 299 ==> (header_text(*headers, "Mcp-Session-Id"@) matches Some(text)
            ==> text_of(final(transport).session_id) == (if trimmed(text).len() > 0 {
            Some(trimmed(text))
        } else {
            text_of(old(transport).session_id)
        })),
        final(transport).url == old(transport).url,
        final(transport).headers == old(transport).headers,
        final(transport).tool_timeout_secs == old(transport).tool_timeout_secs,
        final(transport).ca_certificates == old(transport).ca_certificates,
{
}

/// A reset forgets the session and nothing else.
pub proof fn law_a_reset_forgets_the_session(transport: &mut HttpTransport)
    requires
        call_ensures(<HttpTransport as McpTransportConn>::reset, (transport,), ()),
    ensures
        final(transport).session_id is None,
        final(transport).url == old(transport).url,
        final(transport).headers == old(transport).headers,
        final(transport).tool_timeout_secs == old(transport).tool_timeout_secs,
        final(transport).ca_certificates == old(transport).ca_certificates,
{
}

} // verus!
