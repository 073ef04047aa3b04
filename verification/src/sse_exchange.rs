//! One request over the SSE transport, from the first POST to its outcome.
use reqwest::header::{HeaderMap, HeaderValue};
use vstd::prelude::*;

use crate::failure::{McpFailure, McpTransportError};
use crate::http::{
    add_accept, has_event_stream, header_texts, is_event_stream, is_success, media_type_and,
    post_headers, HttpRequest,
};
use crate::protocol::JsonRpcResponse;
use crate::response::{decodes_any, decodes_to, read_posted_response};
use crate::sse_shared::SseSharedState;
use crate::sse_stream::text_of;
use crate::sse_text::posted_payload;
use crate::text::texts;
use crate::tls::{https_failure, is_https, require_https_url};

verus! {

/// One request over the SSE transport. It is posted to a first URL and, where that one does not
/// serve it, to a second; its response comes in a reply or in the event stream.
pub struct SseExchange {
    /// The server's name, for messages.
    pub server_name: String,
    /// Whether the request may be posted to HTTPS URLs only.
    pub require_https: bool,
    /// The configured headers, each with its value.
    pub headers: Vec<(String, String)>,
    /// The time that a POST request may take, in seconds.
    pub timeout_secs: Option<u64>,
    /// The text of the request.
    pub body: String,
    /// Whether the request asks for a response, being no notification.
    pub wants_response: bool,
    /// The URLs to post to, in their order.
    pub targets: Vec<String>,
    /// The identifier under which the response is awaited in the event stream, if it is.
    pub pending_id: Option<u64>,
    /// How many of the URLs have been posted to.
    pub posted: usize,
    /// The response that came in a reply.
    pub direct: Option<JsonRpcResponse>,
    /// The status of the last reply.
    pub last_status: Option<u16>,
}

/// What to do next about a request.
pub enum SseAction {
    /// Send a POST request, and hand in the reply.
    Post { request: HttpRequest },
    /// Read the event stream of the reply for the first response, in the time given.
    ReadStream { limit_secs: Option<u64> },
    /// Read the body of the reply as a whole, in the time given.
    ReadText { limit_secs: Option<u64> },
    /// Settle the request.
    Settle,
    /// Report a failure.
    Fail { failure: McpFailure },
}

/// How a request is settled.
pub enum SseEnd {
    /// Report the outcome.
    Done { outcome: Result<JsonRpcResponse, McpFailure> },
    /// Wait for the response in the event stream.
    AwaitResponse,
}

/// What the URL of a POST request is called in a failure.
pub const MESSAGE_ENDPOINT: &'static str = "SSE message endpoint";

/// The time for the reply of the first of two URLs, in seconds.
pub const FIRST_REPLY_SECS: u64 = 3;

/// The URLs to post to, in their order: that of the event stream and that for messages, the latter
/// first if the server announced it. If they are the same there is one.
pub open spec fn post_targets(
    sse_url: Seq<char>,
    message_url: Seq<char>,
    from_endpoint: bool,
) -> Seq<Seq<char>> {
    if message_url == sse_url {
        seq![sse_url]
    } else if from_endpoint {
        seq![message_url, sse_url]
    } else {
        seq![sse_url, message_url]
    }
}

/// How a request is settled: by the response of a reply; or else by the failure of the last reply;
/// or else by the event stream, if the response is awaited there.
pub open spec fn settlement(
    direct: Option<JsonRpcResponse>,
    last_status: Option<u16>,
    awaited: bool,
) -> SseEnd {
    match (direct, last_status) {
        (Some(response), _) => SseEnd::Done { outcome: Ok(response) },
        (None, None) => SseEnd::Done { outcome: Err(McpFailure::RequestNotSent) },
        (None, Some(status)) => if !is_success(status) {
            if status == 404 || status == 410 {
                SseEnd::Done {
                    outcome: Err(
                        McpFailure::Recoverable {
                            error: McpTransportError::StaleSession { status },
                        },
                    ),
                }
            } else {
                SseEnd::Done { outcome: Err(McpFailure::HttpStatus { status }) }
            }
        } else if awaited {
            SseEnd::AwaitResponse
        } else {
            SseEnd::Done { outcome: Err(McpFailure::NoResponse) }
        },
    }
}

/// Whether the one who waits for a response in the event stream is struck out when a request is
/// settled: it came in a reply, or the last reply failed.
pub open spec fn stops_waiting(direct: Option<JsonRpcResponse>, last_status: Option<u16>) -> bool {
    direct is Some || (last_status is Some && !is_success(last_status->0))
}

impl SseExchange {
    /// There are one or two URLs, and no more are posted to than there are.
    pub open spec fn wf(self) -> bool {
        &&& 1 <= self.targets@.len() <= 2
        &&& self.posted <= self.targets@.len()
    }

    /// Whether a reply may be given up in favour of another URL.
    pub open spec fn may_turn(self) -> bool {
        self.posted == 1 && self.targets@.len() == 2
    }

    /// The time for a reply: limited where another URL is left.
    pub open spec fn reply_limit(self) -> Option<u64> {
        if self.may_turn() {
            Some(FIRST_REPLY_SECS)
        } else {
            None
        }
    }

    /// Whether `request` posts the request to `url`.
    pub open spec fn is_post(self, request: HttpRequest, url: Seq<char>) -> bool {
        &&& request.url@ == url
        &&& text_of(request.body) == Some(self.body@)
        &&& header_texts(request.headers@) == post_headers(header_texts(self.headers@), None)
        &&& request.timeout_secs == self.timeout_secs
    }

    /// Whether going on to the next URL leads to `after` and `action`: a POST request to it, a
    /// failure if it must use HTTPS and does not, and the settlement if no URL is left.
    pub open spec fn goes_on(self, after: Self, action: SseAction) -> bool {
        if self.posted < self.targets@.len() {
            let url = self.targets@[self.posted as int]@;
            if self.require_https && !is_https(url) {
                &&& after == self
                &&& action matches SseAction::Fail { failure } && https_failure(
                    Some(failure),
                    self.server_name@,
                    url,
                    MESSAGE_ENDPOINT@,
                )
            } else {
                &&& after == (SseExchange { posted: (self.posted + 1) as usize, ..self })
                &&& action matches SseAction::Post { request } && self.is_post(request, url)
            }
        } else {
            &&& after == self
            &&& action is Settle
        }
    }

    /// Whether a reply leads to `after` and `action`. A first URL that answers 404 or 405 is left
    /// for the next; any other failure, and the acceptance of a notification, settle the request;
    /// and otherwise the reply is read.
    pub open spec fn takes_reply(
        self,
        after: Self,
        action: SseAction,
        status: u16,
        headers: HeaderMap<HeaderValue>,
    ) -> bool {
        let noted = SseExchange { last_status: Some(status), ..self };
        if (status == 404 || status == 405) && self.posted == 1 {
            noted.goes_on(after, action)
        } else if !is_success(status) {
            after == noted && action is Settle
        } else if !self.wants_response {
            &&& action is Settle
            &&& after.direct matches Some(response) && response.is_acknowledgement()
            &&& after == (SseExchange { direct: after.direct, ..noted })
        } else if is_event_stream(headers) {
            after == noted && action == (SseAction::ReadStream { limit_secs: self.reply_limit() })
        } else {
            after == noted && action == (SseAction::ReadText { limit_secs: self.reply_limit() })
        }
    }

    /// Whether the response in a reply, if there was any, leads to `after` and `action`.
    pub open spec fn takes_response(
        self,
        after: Self,
        action: SseAction,
        response: Option<JsonRpcResponse>,
    ) -> bool {
        &&& action is Settle
        &&& after == (if response is Some {
            SseExchange { direct: response, ..self }
        } else {
            self
        })
    }

    /// Goes on to the next URL.
    pub fn advance(&mut self) -> (action: SseAction)
        requires
            old(self).wf(),
        ensures
            final(self).wf(),
            old(self).goes_on(*final(self), action),
    {
        if self.posted >= self.targets.len() {
            return SseAction::Settle;
        }
        let url: String = self.targets[self.posted].clone();
        if self.require_https {
            match require_https_url(self.server_name.as_str(), url.as_str(), MESSAGE_ENDPOINT) {
                Ok(_) => {},
                Err(failure) => {
                    return SseAction::Fail { failure };
                },
            }
        }
        let mut headers = media_type_and(&self.headers);
        add_accept(&mut headers, &self.headers);
        assert(header_texts(headers@) =~= post_headers(header_texts(self.headers@), None));
        self.posted = self.posted + 1;
        SseAction::Post {
            request: HttpRequest {
                url,
                body: Some(self.body.clone()),
                headers,
                timeout_secs: self.timeout_secs,
            },
        }
    }

    /// Takes the status and the headers of a reply.
    pub fn on_reply(&mut self, status: u16, headers: &HeaderMap<HeaderValue>) -> (action: SseAction)
        requires
            old(self).wf(),
        ensures
            final(self).wf(),
            old(self).takes_reply(*final(self), action, status, *headers),
    {
        self.last_status = Some(status);
        if (status == 404 || status == 405) && self.posted == 1 {
            return self.advance();
        }
        if !(200 <= status && status < 300) {
            return SseAction::Settle;
        }
        if !self.wants_response {
            self.direct = Some(JsonRpcResponse::acknowledgement());
            return SseAction::Settle;
        }
        let limit_secs: Option<u64> = if self.posted == 1 && self.targets.len() == 2 {
            Some(FIRST_REPLY_SECS)
        } else {
            None
        };
        if has_event_stream(headers) {
            SseAction::ReadStream { limit_secs }
        } else {
            SseAction::ReadText { limit_secs }
        }
    }

    /// Takes the first response in the event stream of a reply, if there was any.
    pub fn on_stream(&mut self, response: Option<JsonRpcResponse>) -> (action: SseAction)
        requires
            old(self).wf(),
        ensures
            final(self).wf(),
            old(self).takes_response(*final(self), action, response),
    {
        if response.is_some() {
            self.direct = response;
        }
        SseAction::Settle
    }

    /// Takes the body of a reply; one that could not be read counts as empty. A body that holds no
    /// response leaves the request to the event stream.
    pub fn on_text<D: Fn(&str) -> Option<JsonRpcResponse>>(&mut self, text: &str, decode: &D) -> (
    action: SseAction)
        requires
            old(self).wf(),
            decodes_any(*decode),
        ensures
            final(self).wf(),
            match posted_payload(text@) {
                None => old(self).takes_response(*final(self), action, None),
                Some(payload) => exists|response: Option<JsonRpcResponse>|
                    decodes_to(*decode, payload, response) && #[trigger] old(self).takes_response(
                        *final(self),
                        action,
                        response,
                    ),
            },
    {
        let response = read_posted_response(text, decode);
        self.on_stream(response)
    }

    /// Takes that a reply did not come to its end in time.
    pub fn on_timeout(&mut self) -> (action: SseAction)
        requires
            old(self).wf(),
        ensures
            final(self).wf(),
            old(self).goes_on(*final(self), action),
    {
        self.advance()
    }

    /// Settles the request.
    pub fn settle<T>(self, shared: &mut SseSharedState<T>) -> (end: SseEnd)
        ensures
            end == settlement(self.direct, self.last_status, self.pending_id is Some),
            final(shared).message_url == old(shared).message_url,
            final(shared).message_url_from_endpoint == old(shared).message_url_from_endpoint,
            final(shared).pending@ == (match self.pending_id {
                Some(id) => if stops_waiting(self.direct, self.last_status) {
                    old(shared).pending@.remove(id)
                } else {
                    old(shared).pending@
                },
                None => old(shared).pending@,
            }),
    {
        if let Some(id) = self.pending_id {
            if self.direct.is_some() {
                let _ = shared.unregister(id);
            } else if let Some(status) = self.last_status {
                if !(200 <= status && status < 300) {
                    let _ = shared.unregister(id);
                }
            }
        }
        if let Some(response) = self.direct {
            return SseEnd::Done { outcome: Ok(response) };
        }
        match self.last_status {
            None => SseEnd::Done { outcome: Err(McpFailure::RequestNotSent) },
            Some(status) => {
                if !(200 <= status && status < 300) {
                    if status == 404 || status == 410 {
                        return SseEnd::Done {
                            outcome: Err(
                                McpFailure::Recoverable {
                                    error: McpTransportError::StaleSession { status },
                                },
                            ),
                        };
                    }
                    return SseEnd::Done { outcome: Err(McpFailure::HttpStatus { status }) };
                }
                if self.pending_id.is_some() {
                    SseEnd::AwaitResponse
                } else {
                    SseEnd::Done { outcome: Err(McpFailure::NoResponse) }
                }
            },
        }
    }
}

/// The outcome of waiting for a response in the event stream; `None` means that the stream was
/// closed before it arrived.
pub fn await_outcome(delivered: Option<JsonRpcResponse>) -> (outcome: Result<
    JsonRpcResponse,
    McpFailure,
>)
    ensures
        match delivered {
            Some(response) => outcome == Ok::<JsonRpcResponse, McpFailure>(response),
            None => outcome == Err::<JsonRpcResponse, McpFailure>(
                McpFailure::Recoverable { error: McpTransportError::TransportClosed },
            ),
        },
{
    match delivered {
        Some(response) => Ok(response),
        None => Err(McpFailure::Recoverable { error: McpTransportError::TransportClosed }),
    }
}

/// Whether two states of a request differ in its progress at most.
pub open spec fn same_request(a: SseExchange, b: SseExchange) -> bool {
    b == (SseExchange {
        posted: b.posted,
        direct: b.direct,
        last_status: b.last_status,
        ..a
    })
}

/// Where HTTPS is required, nothing is posted to any other URL, whatever the server announced and
/// whichever step leads there.
pub proof fn law_nothing_is_posted_in_plaintext(
    before: SseExchange,
    after: SseExchange,
    request: HttpRequest,
    status: u16,
    headers: HeaderMap<HeaderValue>,
)
    requires
        before.require_https,
        before.goes_on(after, SseAction::Post { request }) || before.takes_reply(
            after,
            SseAction::Post { request },
            status,
            headers,
        ),
    ensures
        is_https(request.url@),
{
}

/// Every POST request goes to the next URL, so that none is posted to twice, and there are at most
/// two.
pub proof fn law_each_url_is_posted_to_once(
    before: SseExchange,
    after: SseExchange,
    request: HttpRequest,
    status: u16,
    headers: HeaderMap<HeaderValue>,
)
    requires
        before.wf(),
        before.goes_on(after, SseAction::Post { request }) || before.takes_reply(
            after,
            SseAction::Post { request },
            status,
            headers,
        ),
    ensures
        after.posted == before.posted + 1,
        after.posted <= 2,
        request.url@ == texts(before.targets@)[before.posted as int],
        after.targets == before.targets,
{
}

/// The second URL is posted to only where the first did not serve the request: it answered 404 or
/// 405, or its reply did not come to its end in time.
pub proof fn law_a_reply_turns_to_the_second_url_only_if_refused(
    before: SseExchange,
    after: SseExchange,
    action: SseAction,
    status: u16,
    headers: HeaderMap<HeaderValue>,
)
    requires
        before.wf(),
        before.takes_reply(after, action, status, headers),
    ensures
        action is Post ==> (status == 404 || status == 405) && before.posted == 1,
        (action is ReadStream || action is ReadText) ==> is_success(status) && before.wants_response,
{
}

/// No step changes the request, and none forgets a response.
pub proof fn law_steps_keep_the_request(
    before: SseExchange,
    after: SseExchange,
    action: SseAction,
    status: u16,
    headers: HeaderMap<HeaderValue>,
    response: Option<JsonRpcResponse>,
)
    requires
        before.goes_on(after, action) || before.takes_reply(after, action, status, headers)
            || before.takes_response(after, action, response),
    ensures
        same_request(before, after),
        before.direct is Some ==> after.direct is Some,
        before.last_status is Some ==> after.last_status is Some,
{
}

/// An upper bound on the steps that are left of a request, once `action` is what to do next.
pub open spec fn steps_left(exchange: SseExchange, action: SseAction) -> int {
    let urls_left = exchange.targets@.len() - exchange.posted;
    match action {
        SseAction::Post { .. } => 2 * urls_left + 2,
        SseAction::ReadStream { .. } => 2 * urls_left + 1,
        SseAction::ReadText { .. } => 2 * urls_left + 1,
        SseAction::Settle => 0,
        SseAction::Fail { .. } => 0,
    }
}

/// Every request comes to its end, whatever the replies: after a POST request its reply, and after
/// reading a reply what was read or that it took too long, leave fewer steps than before, and there
/// are four at most behind the first POST request.
pub proof fn law_every_request_comes_to_its_end(
    before: SseExchange,
    asked: SseAction,
    after: SseExchange,
    action: SseAction,
    status: u16,
    headers: HeaderMap<HeaderValue>,
    response: Option<JsonRpcResponse>,
)
    requires
        before.wf(),
        before.posted >= 1,
        match asked {
            SseAction::Post { .. } => before.takes_reply(after, action, status, headers),
            SseAction::ReadStream { .. } => before.goes_on(after, action) || before.takes_response(
                after,
                action,
                response,
            ),
            SseAction::ReadText { .. } => before.goes_on(after, action) || before.takes_response(
                after,
                action,
                response,
            ),
            _ => false,
        },
    ensures
        0 <= steps_left(after, action) < steps_left(before, asked) <= 4,
        after.wf(),
        after.posted >= 1,
{
}

/// A request whose response is awaited in the event stream leaves nobody waiting once it is settled
/// for good, and stays awaited exactly as long as it is not: with a reply at hand, the settlement is
/// final exactly where the one who waits is struck out.
pub proof fn law_settled_requests_leave_nobody_waiting<T>(
    waiting: Map<u64, T>,
    id: u64,
    sender: T,
    direct: Option<JsonRpcResponse>,
    last_status: Option<u16>,
)
    requires
        last_status is Some,
    ensures
        settlement(direct, last_status, true) is Done <==> stops_waiting(direct, last_status),
        waiting.insert(id, sender).remove(id) == waiting.remove(id),
        !waiting.insert(id, sender).remove(id).contains_key(id),
{
    assert(waiting.insert(id, sender).remove(id) =~= waiting.remove(id));
}

/// A response in a reply is the outcome, whatever the status of the last reply.
pub proof fn law_a_response_in_a_reply_is_the_outcome(
    response: JsonRpcResponse,
    last_status: Option<u16>,
    awaited: bool,
)
    ensures
        settlement(Some(response), last_status, awaited) == (SseEnd::Done { outcome: Ok(response) }),
{
}

/// A request is posted to the URL for messages and to that of the stream, each once, and to no other;
/// the one that the server announced comes first, and that of the stream before a derived one.
pub proof fn law_where_a_request_is_posted(
    sse_url: Seq<char>,
    message_url: Seq<char>,
    from_endpoint: bool,
    url: Seq<char>,
)
    ensures
        post_targets(sse_url, message_url, from_endpoint).contains(url) <==> url == sse_url || url
            == message_url,
        post_targets(sse_url, message_url, from_endpoint).no_duplicates(),
        post_targets(sse_url, message_url, from_endpoint).first() == (if from_endpoint {
            message_url
        } else {
            sse_url
        }),
{
    let targets = post_targets(sse_url, message_url, from_endpoint);
    assert(targets[0] == sse_url || targets[0] == message_url);
    if message_url != sse_url {
        assert(targets[1] == sse_url || targets[1] == message_url);
        assert(targets.contains(targets[0]) && targets.contains(targets[1]));
    } else {
        assert(targets.contains(targets[0]));
    }
}

/// How every request is settled: a response in a reply is the outcome; without any reply it was not
/// sent; 404 and 410 say that the session is stale, and any other status beyond success that it
/// failed; and after success the response is awaited in the stream, or there is none.
pub proof fn law_how_requests_are_settled(
    direct: Option<JsonRpcResponse>,
    last_status: Option<u16>,
    awaited: bool,
)
    ensures
        direct matches Some(response) ==> settlement(direct, last_status, awaited) == (
        SseEnd::Done { outcome: Ok(response) }),
        direct is None && last_status is None ==> settlement(direct, last_status, awaited) == (
        SseEnd::Done { outcome: Err(McpFailure::RequestNotSent) }),
        direct is None ==> (last_status matches Some(status) ==> {
            &&& status == 404 || status == 410 ==> settlement(direct, last_status, awaited) == (
            SseEnd::Done {
                outcome: Err(
                    McpFailure::Recoverable { error: McpTransportError::StaleSession { status } },
                ),
            })
            &&& !(200 <= status <= 299) && status != 404 && status != 410 ==> settlement(
                direct,
                last_status,
                awaited,
            ) == (SseEnd::Done { outcome: Err(McpFailure::HttpStatus { status }) })
            &&& 200 <= status <= 299 && awaited ==> settlement(direct, last_status, awaited)
                is AwaitResponse
            &&& 200 <= status <= 299 && !awaited ==> settlement(direct, last_status, awaited) == (
            SseEnd::Done { outcome: Err(McpFailure::NoResponse) })
        }),
        stops_waiting(direct, last_status) <==> direct is Some || (last_status matches Some(status)
            && !(200 <= status <= 299)),
{
}

/// What each reply leads to: from the first URL 404 and 405 lead on; any other failure settles the
/// request, and so does the acceptance of a notification; and the response to any other request is
/// read, from a stream or a text, in three seconds where another URL is left and without a limit
/// where none is. The status is noted in every case.
pub proof fn law_what_each_reply_leads_to(
    before: SseExchange,
    after: SseExchange,
    action: SseAction,
    status: u16,
    headers: HeaderMap<HeaderValue>,
)
    requires
        before.wf(),
        before.posted >= 1,
        before.takes_reply(after, action, status, headers),
    ensures
        after.last_status == Some(status),
        (status == 404 || status == 405) && before.posted == 1 ==> {
            &&& before.targets@.len() == 1 ==> action is Settle
            &&& before.targets@.len() == 2 && !before.require_https ==> action is Post
            &&& after.direct == before.direct
        },
        !(200 <= status <= 299) && !((status == 404 || status == 405) && before.posted == 1)
            ==> action is Settle && after.direct == before.direct && after.posted == before.posted,
        200 <= status <= 299 && !before.wants_response ==> action is Settle && (
        after.direct matches Some(response) && response.jsonrpc@ == "2.0"@ && response.id is None
            && response.result is None && response.error is None),
        200 <= status <= 299 && before.wants_response ==> {
            let limit_secs = if before.posted == 1 && before.targets@.len() == 2 {
                Some(3u64)
            } else {
                None
            };
            &&& is_event_stream(headers) ==> action == (SseAction::ReadStream { limit_secs })
            &&& !is_event_stream(headers) ==> action == (SseAction::ReadText { limit_secs })
            &&& after.direct == before.direct && after.posted == before.posted
        },
{
}

/// Going on posts the same body with the same headers and the same time to the next URL, as long as
/// there is one that may be posted to.
pub proof fn law_going_on_posts_to_the_next_url(
    before: SseExchange,
    after: SseExchange,
    action: SseAction,
)
    requires
        before.wf(),
        before.goes_on(after, action),
    ensures
        before.posted == before.targets@.len() ==> action is Settle && after == before,
        before.posted < before.targets@.len() && !before.require_https ==> (
        action matches SseAction::Post { request } && request.url@
            == before.targets@[before.posted as int]@ && (request.body matches Some(body) && body@
            == before.body@) && header_texts(request.headers@) == post_headers(
            header_texts(before.headers@),
            None,
        ) && request.timeout_secs == before.timeout_secs),
        before.posted < before.targets@.len() && before.require_https && is_https(
            before.targets@[before.posted as int]@,
        ) ==> action is Post,
        before.posted < before.targets@.len() && before.require_https && !is_https(
            before.targets@[before.posted as int]@,
        ) ==> action is Fail && after == before,
        action matches SseAction::Fail { failure } ==> https_failure(
            Some(failure),
            before.server_name@,
            before.targets@[before.posted as int]@,
            "SSE message endpoint"@,
        ),
        action is Post ==> after.posted == before.posted + 1 && after.direct == before.direct
            && after.last_status == before.last_status,
{
}

/// A response that was read is the one that is kept, whatever it holds; without one nothing changes.
/// Either way the request is settled.
pub proof fn law_read_responses_are_kept(
    before: SseExchange,
    after: SseExchange,
    action: SseAction,
    response: Option<JsonRpcResponse>,
)
    requires
        before.takes_response(after, action, response),
    ensures
        action is Settle,
        response is Some ==> after.direct == response,
        response is None ==> after == before,
{
}

/// Who waits in the stream gets the response that is delivered, and learns of the end of the stream
/// where none is.
pub proof fn law_what_comes_of_waiting(
    delivered: Option<JsonRpcResponse>,
    outcome: Result<JsonRpcResponse, McpFailure>,
)
    requires
        call_ensures(await_outcome, (delivered,), outcome),
    ensures
        outcome is Ok <==> delivered is Some,
        outcome matches Ok(response) ==> delivered == Some(response),
        outcome matches Err(failure) ==> (failure matches McpFailure::Recoverable { error }
            && error is TransportClosed),
{
}

/// A request that is settled without waiting leaves nobody behind under its number, one that goes on
/// waiting is left as it is, and everyone else goes on waiting either way.
pub proof fn law_settling_touches_one_waiter<T>(
    exchange: SseExchange,
    shared: &mut SseSharedState<T>,
    end: SseEnd,
    other: u64,
)
    requires
        call_ensures(SseExchange::settle::<T>, (exchange, shared), end),
    ensures
        exchange.direct matches Some(response) ==> end == (SseEnd::Done { outcome: Ok(response) }),
        exchange.pending_id matches Some(id) ==> {
            &&& end is Done ==> !final(shared).pending@.contains_key(id)
                || exchange.last_status is None
            &&& end is AwaitResponse ==> final(shared).pending@ == old(shared).pending@
        },
        exchange.pending_id != Some(other) ==> final(shared).pending@.contains_key(other)
            == old(shared).pending@.contains_key(other) && final(shared).pending@[other]
            == old(shared).pending@[other],
        final(shared).message_url == old(shared).message_url,
        final(shared).message_url_from_endpoint == old(shared).message_url_from_endpoint,
{
}

} // verus!
