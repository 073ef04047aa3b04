//! The transport by HTTP POST requests whose responses come in a stream of server-sent events.
use reqwest::header::{HeaderMap, HeaderValue};
use reqwest::Certificate;
use vstd::prelude::*;

use crate::config::{has_distinct_keys, McpServerConfig, McpTransport};
use crate::endpoint::{derive_message_url, derived_url};
use crate::failure::McpFailure;
use crate::http::{
    add_accept, add_header, add_headers, copy_headers, has_event_stream, header_texts,
    is_event_stream, is_success, stream_headers, HttpRequest,
};
use crate::json::{as_u64, json_u64};
use crate::protocol::JsonRpcRequest;
use crate::sse_exchange::{post_targets, SseExchange};
use crate::sse_shared::SseSharedState;
use crate::sse_stream::text_of;
use crate::text::{same, texts};
use crate::tls::{is_https, pem_certificates};
use crate::timeouts::{
    budget, http_request_timeout_secs, DEFAULT_HTTP_REQUEST_TIMEOUT_SECS,
};
use crate::transport::{
    bytes_of, ca_path_is_absolute, is_answer_on_ca_path, is_remote_opening,
    may_have_absolute_ca_path, open_remote, ChildState, McpTransportConn,
};

verus! {

/// What is known of the server's event stream.
#[derive(Debug, Clone, Copy, PartialEq, Eq, Structural)]
pub enum SseStreamState {
    /// Nothing yet.
    Unknown,
    /// It is open.
    Connected,
    /// The server has none.
    Unsupported,
}

/// The transport by HTTP POST requests whose responses come in a stream of server-sent events.
pub struct SseTransport {
    /// The URL of the event stream.
    pub sse_url: String,
    /// The server's name, for messages.
    pub server_name: String,
    /// The time that a tool call may take, in seconds.
    pub tool_timeout_secs: Option<u64>,
    /// The certificates to trust besides the system's.
    pub ca_certificates: Vec<Certificate>,
    /// The configured headers, each with its value.
    pub headers: Vec<(String, String)>,
    /// Whether messages may be posted to HTTPS URLs only.
    pub require_https: bool,
    /// What is known of the server's event stream.
    pub stream_state: SseStreamState,
}

/// How often the endpoint is looked for before messages go to a derived URL.
pub const ENDPOINT_POLLS: u32 = 3;

/// The time between two looks for the endpoint, in milliseconds.
pub const ENDPOINT_POLL_MILLIS: u64 = 300;

/// Looks for the endpoint that the server announces, for a while.
pub struct EndpointWait {
    /// Where messages are posted, as far as is known.
    pub message_url: String,
    /// Whether the server announced that URL.
    pub from_endpoint: bool,
    /// How many looks are left.
    pub polls_left: u32,
}

impl EndpointWait {
    /// Looks once. Returns whether to wait and look again.
    pub fn poll<T>(&mut self, shared: &SseSharedState<T>) -> (again: bool)
        ensures
            again == (old(self).polls_left > 0 && shared.announced() is None),
            if old(self).polls_left == 0 {
                *final(self) == *old(self)
            } else {
                match shared.announced() {
                    Some(url) => {
                        &&& final(self).message_url@ == url
                        &&& final(self).from_endpoint
                        &&& final(self).polls_left == 0
                    },
                    None => {
                        &&& final(self).message_url == old(self).message_url
                        &&& final(self).from_endpoint == old(self).from_endpoint
                        &&& final(self).polls_left == old(self).polls_left - 1
                    },
                }
            },
    {
        if self.polls_left == 0 {
            return false;
        }
        match shared.endpoint() {
            Some(url) => {
                self.message_url = url;
                self.from_endpoint = true;
                self.polls_left = 0;
                false
            },
            None => {
                self.polls_left = self.polls_left - 1;
                true
            },
        }
    }
}

/// The state of a stream after the reply to the request for it, or the failure that the reply
/// gives. A server that answers 404 or 405, or with something else than an event stream, has none.
pub open spec fn stream_after_reply(status: u16, headers: HeaderMap<HeaderValue>) -> Result<
    SseStreamState,
    McpFailure,
> {
    if status == 404 || status == 405 {
        Ok(SseStreamState::Unsupported)
    } else if !is_success(status) {
        Err(McpFailure::HttpStatus { status })
    } else if is_event_stream(headers) {
        Ok(SseStreamState::Connected)
    } else {
        Ok(SseStreamState::Unsupported)
    }
}

impl SseTransport {
    /// Whether two states of a transport differ in what is known of the stream at most.
    pub open spec fn same_but_stream(self, other: Self) -> bool {
        self == (SseTransport { stream_state: self.stream_state, ..other })
    }

    /// No header is configured twice.
    pub open spec fn wf(self) -> bool {
        has_distinct_keys(self.headers@)
    }

    /// Whether `outcome` is the transport of a configuration, or the failure of the latter.
    pub open spec fn is_setup(
        outcome: Result<Self, McpFailure>,
        config: McpServerConfig,
        ca_path_is_absolute: bool,
        ca_pem: Option<Seq<u8>>,
    ) -> bool {
        match outcome {
            Ok(transport) => {
                &&& is_remote_opening(
                    Ok((transport.sse_url@, transport.ca_certificates@)),
                    config,
                    McpTransport::Sse,
                    ca_path_is_absolute,
                    ca_pem,
                )
                &&& transport.server_name@ == config.name@
                &&& transport.tool_timeout_secs == config.tool_timeout_secs
                &&& header_texts(transport.headers@) == header_texts(config.headers@)
                &&& transport.require_https == (config.tls_ca_cert_path is Some)
                &&& transport.stream_state == SseStreamState::Unknown
            },
            Err(failure) => is_remote_opening(
                Err(failure),
                config,
                McpTransport::Sse,
                ca_path_is_absolute,
                ca_pem,
            ),
        }
    }

    /// The transport of a configuration, given whether the path of its certificate file is
    /// absolute, and the bytes of that file.
    pub fn prepare(
        config: &McpServerConfig,
        ca_path_is_absolute: bool,
        ca_pem: Option<Vec<u8>>,
    ) -> (outcome: Result<Self, McpFailure>)
        ensures
            Self::is_setup(outcome, *config, ca_path_is_absolute, bytes_of(ca_pem)),
            config.wf() ==> (outcome matches Ok(transport) ==> transport.wf()),
    {
        match open_remote(config, McpTransport::Sse, ca_path_is_absolute, ca_pem) {
            Ok((sse_url, ca_certificates)) => {
                let headers = copy_headers(&config.headers);
                Ok(
                    SseTransport {
                        sse_url,
                        server_name: config.name.clone(),
                        tool_timeout_secs: config.tool_timeout_secs,
                        ca_certificates,
                        headers,
                        require_https: config.tls_ca_cert_path.is_some(),
                        stream_state: SseStreamState::Unknown,
                    },
                )
            },
            Err(failure) => Err(failure),
        }
    }

    /// The transport of a configuration. `ca_pem` holds the bytes of the configured certificate file;
    /// `None` means that it could not be read, or that there is none.
    pub fn new(config: &McpServerConfig, ca_pem: Option<Vec<u8>>) -> (outcome: Result<
        Self,
        McpFailure,
    >)
        ensures
            exists|absolute: bool| #[trigger]
                Self::is_setup(outcome, *config, absolute, bytes_of(ca_pem))
                    && is_answer_on_ca_path(absolute, *config) && (absolute
                    ==> may_have_absolute_ca_path(*config)),
    {
        let absolute = ca_path_is_absolute(config);
        let ghost bytes = bytes_of(ca_pem);
        let outcome = Self::prepare(config, absolute, ca_pem);
        assert(Self::is_setup(outcome, *config, absolute, bytes));
        outcome
    }

    /// The GET request that opens the event stream, unless there is nothing to open: the server has
    /// no stream, or its reader is still at work.
    pub fn ensure_connected(&mut self, reader_alive: bool) -> (request: Option<HttpRequest>)
        ensures
            final(self).same_but_stream(*old(self)),
            if old(self).stream_state == SseStreamState::Unsupported {
                &&& request is None
                &&& final(self).stream_state == SseStreamState::Unsupported
            } else if reader_alive {
                &&& request is None
                &&& final(self).stream_state == SseStreamState::Connected
            } else {
                &&& final(self).stream_state == old(self).stream_state
                &&& request matches Some(get) && {
                    &&& get.url@ == old(self).sse_url@
                    &&& get.body is None
                    &&& header_texts(get.headers@) == stream_headers(
                        header_texts(old(self).headers@),
                    )
                    &&& get.timeout_secs is None
                }
            },
    {
        if self.stream_state == SseStreamState::Unsupported {
            return None;
        }
        if reader_alive {
            self.stream_state = SseStreamState::Connected;
            return None;
        }
        let mut headers: Vec<(String, String)> = Vec::new();
        add_header(&mut headers, "Cache-Control", "no-cache");
        assert(header_texts(headers@) =~= seq![("Cache-Control"@, "no-cache"@)]);
        add_headers(&mut headers, &self.headers);
        add_accept(&mut headers, &self.headers);
        Some(HttpRequest { url: self.sse_url.clone(), body: None, headers, timeout_secs: None })
    }

    /// Takes the reply to the request for the event stream. Returns whether to read the stream.
    pub fn on_connect_reply(&mut self, status: u16, headers: &HeaderMap<HeaderValue>) -> (outcome:
        Result<bool, McpFailure>)
        ensures
            final(self).same_but_stream(*old(self)),
            match stream_after_reply(status, *headers) {
                Ok(state) => {
                    &&& outcome == Ok::<bool, McpFailure>(state == SseStreamState::Connected)
                    &&& final(self).stream_state == state
                },
                Err(failure) => {
                    &&& outcome == Err::<bool, McpFailure>(failure)
                    &&& final(self).stream_state == old(self).stream_state
                },
            },
    {
        if status == 404 || status == 405 {
            self.stream_state = SseStreamState::Unsupported;
            return Ok(false);
        }
        if !(200 <= status && status < 300) {
            return Err(McpFailure::HttpStatus { status });
        }
        if !has_event_stream(headers) {
            self.stream_state = SseStreamState::Unsupported;
            return Ok(false);
        }
        self.stream_state = SseStreamState::Connected;
        Ok(true)
    }

    /// Whether asking where messages are posted leads to `after` and `outcome`: a known URL is given
    /// as it is, and any other is derived from that of the event stream, and recorded.
    pub open spec fn gives_message_url<T>(
        self,
        before: SseSharedState<T>,
        after: SseSharedState<T>,
        outcome: Result<(String, bool), McpFailure>,
    ) -> bool {
        match text_of(before.message_url) {
            Some(known) => {
                &&& outcome matches Ok((url, announced)) && url@ == known && announced
                    == before.message_url_from_endpoint
                &&& after == before
            },
            None => match derived_url(self.sse_url@, "messages"@) {
                Some(derived) => {
                    &&& outcome matches Ok((url, announced)) && url@ == derived && !announced
                    &&& text_of(after.message_url) == Some(derived)
                    &&& !after.message_url_from_endpoint
                    &&& after.pending == before.pending
                },
                None => {
                    &&& outcome matches Err(McpFailure::InvalidSseUrl)
                    &&& after == before
                },
            },
        }
    }

    /// Where messages are posted, and whether the server announced it. A URL that is not known yet
    /// is derived from that of the event stream, and recorded. A stream whose URL gives none for the
    /// path `messages` gives none for any other.
    pub fn get_message_url<T>(&self, shared: &mut SseSharedState<T>) -> (outcome: Result<
        (String, bool),
        McpFailure,
    >)
        ensures
            self.gives_message_url(*old(shared), *final(shared), outcome),
    {
        if let Some(url) = &shared.message_url {
            return Ok((url.clone(), shared.message_url_from_endpoint));
        }
        match derive_message_url(self.sse_url.as_str(), "messages") {
            Some(derived) => {
                shared.message_url = Some(derived.clone());
                shared.message_url_from_endpoint = false;
                Ok((derived, false))
            },
            None => Err(McpFailure::InvalidSseUrl),
        }
    }

    /// Begins to look for the endpoint: for a while, if the stream is open and the server has not
    /// announced one yet, and not at all otherwise.
    pub fn wait_for_endpoint(&self, message_url: String, from_endpoint: bool) -> (wait:
        EndpointWait)
        ensures
            wait.message_url == message_url,
            wait.from_endpoint == from_endpoint,
            wait.polls_left == (if self.stream_state == SseStreamState::Connected
                && !from_endpoint {
                ENDPOINT_POLLS
            } else {
                0
            }),
    {
        let polls_left: u32 = if self.stream_state == SseStreamState::Connected && !from_endpoint {
            ENDPOINT_POLLS
        } else {
            0
        };
        EndpointWait { message_url, from_endpoint, polls_left }
    }

    /// The identifier under which the response to a request is awaited in the stream, if it is.
    pub open spec fn awaited_id(self, request: JsonRpcRequest) -> Option<u64> {
        if self.stream_state == SseStreamState::Connected {
            request.numeric_id()
        } else {
            None
        }
    }

    /// Begins to send a request, whose text is `body`. If the stream is open and the request has a
    /// number for its identifier, `sender` is entered for the response.
    pub fn begin<T>(
        &self,
        request: &JsonRpcRequest,
        body: &str,
        message_url: &str,
        from_endpoint: bool,
        shared: &mut SseSharedState<T>,
        sender: T,
    ) -> (exchange: SseExchange)
        ensures
            exchange.wf(),
            exchange.server_name@ == self.server_name@,
            exchange.require_https == self.require_https,
            header_texts(exchange.headers@) == header_texts(self.headers@),
            exchange.timeout_secs == budget(
                *request,
                self.tool_timeout_secs,
                DEFAULT_HTTP_REQUEST_TIMEOUT_SECS,
            ),
            exchange.body@ == body@,
            exchange.wants_response == (request.id is Some),
            texts(exchange.targets@) == post_targets(self.sse_url@, message_url@, from_endpoint),
            exchange.pending_id == self.awaited_id(*request),
            exchange.posted == 0,
            exchange.direct is None,
            exchange.last_status is None,
            final(shared).message_url == old(shared).message_url,
            final(shared).message_url_from_endpoint == old(shared).message_url_from_endpoint,
            final(shared).pending@ == (match self.awaited_id(*request) {
                Some(id) => old(shared).pending@.insert(id, sender),
                None => old(shared).pending@,
            }),
    {
        let headers = copy_headers(&self.headers);
        let id: Option<u64> = match &request.id {
            Some(value) => as_u64(value),
            None => None,
        };
        let mut pending_id: Option<u64> = None;
        if self.stream_state == SseStreamState::Connected {
            if let Some(number) = id {
                shared.register(number, sender);
                pending_id = Some(number);
            }
        }
        let mut targets: Vec<String> = Vec::new();
        if from_endpoint {
            targets.push(message_url.to_string());
        } else {
            targets.push(self.sse_url.clone());
        }
        if !same(message_url, self.sse_url.as_str()) {
            if from_endpoint {
                targets.push(self.sse_url.clone());
            } else {
                targets.push(message_url.to_string());
            }
        }
        assert(texts(targets@) =~= post_targets(self.sse_url@, message_url@, from_endpoint));
        SseExchange {
            server_name: self.server_name.clone(),
            require_https: self.require_https,
            headers,
            timeout_secs: http_request_timeout_secs(request, self.tool_timeout_secs),
            body: body.to_string(),
            wants_response: request.id.is_some(),
            targets,
            pending_id,
            posted: 0,
            direct: None,
            last_status: None,
        }
    }
}

impl McpTransportConn for SseTransport {
    open spec fn holds_session(&self) -> bool {
        self.stream_state != SseStreamState::Unknown
    }

    open spec fn is_alive(&self, child: ChildState) -> bool {
        true
    }

    fn reset(&mut self)
        ensures
            final(self).same_but_stream(*old(self)),
            final(self).stream_state == SseStreamState::Unknown,
    {
        self.stream_state = SseStreamState::Unknown;
    }

    fn health_check(&self, child: ChildState) -> (alive: bool) {
        true
    }
}

/// With a certificate file configured, a transport posts to HTTPS URLs only: the URL of its event
/// stream uses HTTPS, and it holds every other to that.
pub proof fn law_custom_ca_holds_for_every_url(
    transport: SseTransport,
    config: McpServerConfig,
    ca_path_is_absolute: bool,
    ca_pem: Option<Seq<u8>>,
)
    requires
        SseTransport::is_setup(Ok(transport), config, ca_path_is_absolute, ca_pem),
        config.tls_ca_cert_path is Some,
    ensures
        is_https(transport.sse_url@),
        transport.require_https,
{
}

/// Asked twice in a row where messages are posted, a transport gives the same answer, and the second
/// time nothing changes.
pub proof fn law_the_message_url_is_given_again<T>(
    transport: SseTransport,
    before: SseSharedState<T>,
    between: SseSharedState<T>,
    after: SseSharedState<T>,
    first: Result<(String, bool), McpFailure>,
    second: Result<(String, bool), McpFailure>,
)
    requires
        transport.gives_message_url(before, between, first),
        transport.gives_message_url(between, after, second),
    ensures
        after == between,
        match first {
            Ok((url, announced)) => second matches Ok((u, a)) && u@ == url@ && a == announced,
            Err(failure) => second == Err::<(String, bool), McpFailure>(failure),
        },
{
}

/// A URL that the server announced is never replaced by a derived one.
pub proof fn law_an_announced_url_is_kept<T>(
    transport: SseTransport,
    before: SseSharedState<T>,
    after: SseSharedState<T>,
    outcome: Result<(String, bool), McpFailure>,
    url: Seq<char>,
)
    requires
        transport.gives_message_url(before, after, outcome),
        before.announced() == Some(url),
    ensures
        outcome matches Ok((u, announced)) && u@ == url && announced,
        after == before,
{
}

/// A reply settles whether there is an event stream: there is one exactly where the reply succeeds and
/// carries it.
pub proof fn law_a_reply_settles_whether_there_is_a_stream(
    status: u16,
    headers: HeaderMap<HeaderValue>,
)
    ensures
        stream_after_reply(status, headers) matches Ok(state) ==> state != SseStreamState::Unknown,
        stream_after_reply(status, headers) == Ok::<SseStreamState, McpFailure>(
            SseStreamState::Connected,
        ) <==> is_success(status) && is_event_stream(headers),
{
}

/// What each reply to the request for a stream says: 404 and 405 that there is none; any other status
/// beyond success that it failed; and success that there is one exactly where it carries one.
pub proof fn law_what_a_stream_reply_says(status: u16, headers: HeaderMap<HeaderValue>)
    ensures
        status == 404 || status == 405 ==> stream_after_reply(status, headers) == Ok::<
            SseStreamState,
            McpFailure,
        >(SseStreamState::Unsupported),
        !(200 <= status <= 299) && status != 404 && status != 405 ==> stream_after_reply(
            status,
            headers,
        ) == Err::<SseStreamState, McpFailure>(McpFailure::HttpStatus { status }),
        200 <= status <= 299 && is_event_stream(headers) ==> stream_after_reply(status, headers)
            == Ok::<SseStreamState, McpFailure>(SseStreamState::Connected),
        200 <= status <= 299 && !is_event_stream(headers) ==> stream_after_reply(status, headers)
            == Ok::<SseStreamState, McpFailure>(SseStreamState::Unsupported),
{
}

/// A response is awaited in the stream exactly where the stream is open and the request has a number,
/// whatever else the request is.
pub proof fn law_what_is_awaited_in_the_stream(
    transport: SseTransport,
    request: JsonRpcRequest,
    n: u64,
)
    ensures
        transport.awaited_id(request) == Some(n) <==> transport.stream_state
            == SseStreamState::Connected && (request.id matches Some(value) && json_u64(value)
            == Some(n)),
{
}

/// Where nothing is known yet the URL derived from that of the stream is given and recorded, and where
/// there is none the URL of the stream is refused; nobody who waits is touched.
pub proof fn law_unknown_message_urls_are_derived<T>(
    transport: SseTransport,
    before: SseSharedState<T>,
    after: SseSharedState<T>,
    outcome: Result<(String, bool), McpFailure>,
)
    requires
        transport.gives_message_url(before, after, outcome),
        before.message_url is None,
    ensures
        outcome is Ok <==> derived_url(transport.sse_url@, "messages"@) is Some,
        outcome matches Ok((url, announced)) ==> !announced && derived_url(
            transport.sse_url@,
            "messages"@,
        ) == Some(url@) && (after.message_url matches Some(known) && known@ == url@)
            && !after.message_url_from_endpoint,
        outcome matches Err(failure) ==> failure is InvalidSseUrl && after == before,
        after.pending == before.pending,
{
}

/// Everything of a configuration that a transport needs is taken over: its name, its headers in their
/// order, its time for tool calls, and whether HTTPS is required. Nothing is known of the stream yet.
pub proof fn law_configurations_are_taken_over(
    transport: SseTransport,
    config: McpServerConfig,
    ca_path_is_absolute: bool,
    ca_pem: Option<Seq<u8>>,
)
    requires
        SseTransport::is_setup(Ok(transport), config, ca_path_is_absolute, ca_pem),
    ensures
        transport.sse_url@ == config.url->0@,
        transport.server_name@ == config.name@,
        transport.tool_timeout_secs == config.tool_timeout_secs,
        transport.headers@.len() == config.headers@.len(),
        forall|i: int|
            0 <= i < config.headers@.len() ==> (#[trigger] transport.headers@[i]).0@
                == config.headers@[i].0@ && transport.headers@[i].1@ == config.headers@[i].1@,
        transport.require_https <==> config.tls_ca_cert_path is Some,
        transport.stream_state == SseStreamState::Unknown,
        config.tls_ca_cert_path is None ==> transport.ca_certificates@.len() == 0,
        config.tls_ca_cert_path is Some ==> ca_pem is Some && pem_certificates(ca_pem->0) == Some(
            transport.ca_certificates@,
        ) && transport.ca_certificates@.len() > 0,
{
    let here = header_texts(transport.headers@);
    let there = header_texts(config.headers@);
    assert(here.len() == transport.headers@.len() && there.len() == config.headers@.len());
    assert forall|i: int| 0 <= i < config.headers@.len() implies (
    #[trigger] transport.headers@[i]).0@ == config.headers@[i].0@ && transport.headers@[i].1@
        == config.headers@[i].1@ by {
        assert(here[i] == (transport.headers@[i].0@, transport.headers@[i].1@));
        assert(there[i] == (config.headers@[i].0@, config.headers@[i].1@));
    }
}

/// The announcement of an endpoint is waited for only in an open stream and only where there was none
/// yet, three times for three tenths of a second; until it comes the URL stays what it is.
pub proof fn law_announcements_are_waited_for(
    transport: &SseTransport,
    message_url: String,
    from_endpoint: bool,
    wait: EndpointWait,
)
    requires
        call_ensures(
            SseTransport::wait_for_endpoint,
            (transport, message_url, from_endpoint),
            wait,
        ),
    ensures
        wait.message_url@ == message_url@,
        wait.from_endpoint == from_endpoint,
        wait.polls_left > 0 <==> transport.stream_state is Connected && !from_endpoint,
        wait.polls_left > 0 ==> wait.polls_left * ENDPOINT_POLL_MILLIS == 900
            && ENDPOINT_POLL_MILLIS == 300,
{
}

/// A request begins with nothing posted, with the body and the headers as they are, and with its URLs;
/// its sender waits exactly where the stream is open and the request has a number, and nobody else is
/// touched.
pub proof fn law_how_a_request_begins<T>(
    transport: &SseTransport,
    request: &JsonRpcRequest,
    body: &str,
    message_url: &str,
    from_endpoint: bool,
    shared: &mut SseSharedState<T>,
    sender: T,
    exchange: SseExchange,
    other: u64,
)
    requires
        call_ensures(
            SseTransport::begin::<T>,
            (transport, request, body, message_url, from_endpoint, shared, sender),
            exchange,
        ),
    ensures
        exchange.posted == 0 && exchange.direct is None && exchange.last_status is None,
        exchange.body@ == body@,
        exchange.wants_response <==> request.id is Some,
        exchange.require_https == transport.require_https,
        exchange.server_name@ == transport.server_name@,
        exchange.targets@.len() == (if message_url@ == transport.sse_url@ {
            1int
        } else {
            2
        }),
        exchange.targets@[0]@ == (if from_endpoint {
            message_url@
        } else {
            transport.sse_url@
        }),
        message_url@ != transport.sse_url@ ==> exchange.targets@[1]@ == (if from_endpoint {
            transport.sse_url@
        } else {
            message_url@
        }),
        request.method@ == "tools/call"@ ==> exchange.timeout_secs == transport.tool_timeout_secs,
        request.method@ != "tools/call"@ ==> exchange.timeout_secs == Some(120u64),
        transport.stream_state is Connected ==> (request.id matches Some(value) ==> (json_u64(
            value,
        ) matches Some(id) ==> exchange.pending_id == Some(id)
            && final(shared).pending@.contains_key(id) && final(shared).pending@[id] == sender)),
        !(transport.stream_state is Connected) || request.id is None ==> exchange.pending_id is None
            && final(shared).pending@ == old(shared).pending@,
        exchange.pending_id != Some(other) ==> final(shared).pending@.contains_key(other)
            == old(shared).pending@.contains_key(other) && final(shared).pending@[other]
            == old(shared).pending@[other],
{
    let targets = texts(exchange.targets@);
    assert(targets.len() == exchange.targets@.len());
    assert(targets[0] == exchange.targets@[0]@);
    if targets.len() > 1 {
        assert(targets[1] == exchange.targets@[1]@);
    }
}

/// A stream is asked for unless there is known to be none or one is being read; the request goes to
/// the URL of the stream, without a body or a limit of time.
pub proof fn law_when_a_stream_is_asked_for(
    transport: &mut SseTransport,
    reader_alive: bool,
    request: Option<HttpRequest>,
)
    requires
        call_ensures(SseTransport::ensure_connected, (transport, reader_alive), request),
    ensures
        request is Some <==> !(old(transport).stream_state is Unsupported) && !reader_alive,
        request matches Some(get) ==> get.url@ == old(transport).sse_url@ && get.body is None
            && get.timeout_secs is None && header_texts(get.headers@) == stream_headers(
            header_texts(old(transport).headers@),
        ),
        final(transport).stream_state == (if reader_alive && !(
        old(transport).stream_state is Unsupported) {
            SseStreamState::Connected
        } else {
            old(transport).stream_state
        }),
        final(transport).sse_url == old(transport).sse_url,
        final(transport).headers == old(transport).headers,
        final(transport).server_name == old(transport).server_name,
        final(transport).tool_timeout_secs == old(transport).tool_timeout_secs,
        final(transport).require_https == old(transport).require_https,
        final(transport).ca_certificates == old(transport).ca_certificates,
{
}

/// A reply to the request for a stream opens it exactly where it is a success that carries one; a
/// failed reply leaves the transport as it is.
pub proof fn law_what_opens_a_stream(
    transport: &mut SseTransport,
    status: u16,
    headers: &HeaderMap<HeaderValue>,
    outcome: Result<bool, McpFailure>,
)
    requires
        call_ensures(SseTransport::on_connect_reply, (transport, status, headers), outcome),
    ensures
        outcome == Ok::<bool, McpFailure>(true) <==> 200 <= status <= 299 && is_event_stream(
            *headers,
        ),
        outcome is Err <==> !(200 <= status <= 299) && status != 404 && status != 405,
        outcome matches Err(failure) ==> failure == (McpFailure::HttpStatus { status })
            && final(transport).stream_state == old(transport).stream_state,
        outcome matches Ok(open) ==> final(transport).stream_state == (if open {
            SseStreamState::Connected
        } else {
            SseStreamState::Unsupported
        }),
        final(transport).sse_url == old(transport).sse_url,
        final(transport).headers == old(transport).headers,
{
}

/// While an announcement is waited for, each look that finds none takes one look away, and the first
/// that finds one ends the waiting with its URL; afterwards nothing changes any more.
pub proof fn law_how_an_announcement_is_waited_for<T>(
    wait: &mut EndpointWait,
    shared: &SseSharedState<T>,
    again: bool,
)
    requires
        call_ensures(EndpointWait::poll::<T>, (wait, shared), again),
    ensures
        old(wait).polls_left == 0 ==> !again && *final(wait) == *old(wait),
        old(wait).polls_left > 0 && shared.message_url_from_endpoint ==> (
        shared.message_url matches Some(url) ==> !again && final(wait).message_url@ == url@
            && final(wait).from_endpoint && final(wait).polls_left == 0),
        old(wait).polls_left > 0 && !shared.message_url_from_endpoint ==> again
            && final(wait).message_url == old(wait).message_url && final(wait).from_endpoint
            == old(wait).from_endpoint && final(wait).polls_left + 1 == old(wait).polls_left,
{
}

/// A reset forgets whether there is a stream and nothing else.
pub proof fn law_a_reset_forgets_the_stream(transport: &mut SseTransport)
    requires
        call_ensures(<SseTransport as McpTransportConn>::reset, (transport,), ()),
    ensures
        final(transport).stream_state is Unknown,
        final(transport).sse_url == old(transport).sse_url,
        final(transport).server_name == old(transport).server_name,
        final(transport).headers == old(transport).headers,
        final(transport).tool_timeout_secs == old(transport).tool_timeout_secs,
        final(transport).require_https == old(transport).require_https,
        final(transport).ca_certificates == old(transport).ca_certificates,
{
}

} // verus!
