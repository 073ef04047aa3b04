//! The transport to a local process.
use vstd::prelude::*;
use vstd::string::StringSliceAdditionalSpecFns;

use crate::config::{has_distinct_keys, McpServerConfig};
use crate::failure::McpFailure;
use crate::http::{copy_headers, header_texts};
use crate::protocol::{JsonRpcRequest, JsonRpcResponse};
use crate::response::{decode_text, decodes_any, decodes_to};
use crate::text::texts;
use crate::timeouts::RECV_TIMEOUT_SECS;
use crate::transport::{ChildState, McpTransportConn};

verus! {

/// Maximum bytes for a single JSON-RPC response: 4 MB.
pub const MAX_LINE_BYTES: usize = 4_194_304;

/// The number of nanoseconds in which a response must come.
pub const RECV_TIMEOUT_NANOS: u64 = 30_000_000_000;

/// The transport to a local process: which program to run, and with what.
pub struct StdioTransport {
    /// The server's name, for messages.
    pub server_name: String,
    /// The program.
    pub command: String,
    /// Its arguments.
    pub args: Vec<String>,
    /// Its additional environment variables, each with its value.
    pub env: Vec<(String, String)>,
}

/// What to do next about a request.
pub enum StdioNext {
    /// Wait for a line of the server's output.
    Receive,
    /// Report the outcome.
    Done { outcome: Result<JsonRpcResponse, McpFailure> },
}

/// The failure of a line of the server's output, if any: there is none because the output is
/// closed, or it is too long.
pub open spec fn line_failure(line: Option<&str>) -> Option<McpFailure> {
    match line {
        None => Some(McpFailure::StdoutClosed),
        Some(text) => if text.spec_bytes().len() as usize > MAX_LINE_BYTES {
            Some(McpFailure::ResponseTooLarge { bytes: text.spec_bytes().len() as usize })
        } else {
            None
        },
    }
}

/// Whether a line of the server's output is a notification: a message that has no identifier.
pub open spec fn is_notification<D: Fn(&str) -> Option<JsonRpcResponse>>(
    decode: D,
    line: Option<&str>,
) -> bool {
    line_failure(line) is None && exists|notification: JsonRpcResponse|
        notification.id is None && #[trigger] decodes_to(decode, line->0@, Some(notification))
}

/// Whether `next` is what to do about a line of the server's output: a notification is passed over,
/// and any other line is the outcome, be it a failure, a response or nonsense.
pub open spec fn takes_line<D: Fn(&str) -> Option<JsonRpcResponse>>(
    decode: D,
    line: Option<&str>,
    next: StdioNext,
) -> bool {
    match line_failure(line) {
        Some(failure) => next == (StdioNext::Done { outcome: Err(failure) }),
        None => match next {
            StdioNext::Receive => is_notification(decode, line),
            StdioNext::Done { outcome: Ok(response) } => response.id is Some && decodes_to(
                decode,
                line->0@,
                Some(response),
            ),
            StdioNext::Done { outcome: Err(failure) } => {
                &&& decodes_to(decode, line->0@, None)
                &&& failure matches McpFailure::InvalidResponse { text } && text@ == line->0@
            },
        },
    }
}

/// Whether `next` is what to do after a list of lines, taken one by one until an outcome is reached.
pub open spec fn takes_lines<D: Fn(&str) -> Option<JsonRpcResponse>>(
    decode: D,
    lines: Seq<Option<&str>>,
    next: StdioNext,
) -> bool
    decreases lines.len(),
{
    if lines.len() == 0 {
        next is Receive
    } else {
        ||| {
            &&& next is Done
            &&& takes_lines(decode, lines.drop_last(), next)
        }
        ||| {
            &&& takes_lines(decode, lines.drop_last(), StdioNext::Receive)
            &&& takes_line(decode, lines.last(), next)
        }
    }
}

impl StdioTransport {
    /// No environment variable is given twice.
    pub open spec fn wf(self) -> bool {
        has_distinct_keys(self.env@)
    }

    /// Whether the transport runs the program of a configuration.
    pub open spec fn is_made_from(self, config: McpServerConfig) -> bool {
        &&& self.server_name@ == config.name@
        &&& self.command@ == config.command@
        &&& texts(self.args@) == texts(config.args@)
        &&& header_texts(self.env@) == header_texts(config.env@)
    }

    /// The transport to the program of a configuration.
    pub fn new(config: &McpServerConfig) -> (transport: Self)
        ensures
            transport.is_made_from(*config),
            config.wf() ==> transport.wf(),
    {
        let env = copy_headers(&config.env);
        let mut args: Vec<String> = Vec::new();
        let mut i: usize = 0;
        while i < config.args.len()
            invariant
                i <= config.args@.len(),
                texts(args@) == texts(config.args@).take(i as int),
            decreases config.args@.len() - i,
        {
            let ghost before = texts(args@);
            args.push(config.args[i].clone());
            assert(texts(args@) =~= before.push(config.args@[i as int]@));
            i = i + 1;
            assert(texts(args@) =~= texts(config.args@).take(i as int));
        }
        assert(texts(config.args@).take(i as int) == texts(config.args@));
        StdioTransport {
            server_name: config.name.clone(),
            command: config.command.clone(),
            args,
            env,
        }
    }

    /// What is written to the server's input for one message: the message on a line of its own.
    pub fn send_raw(&self, line: &str) -> (frame: String)
        ensures
            frame@ == line@ + "\n"@,
    {
        line.to_string().concat("\n")
    }

    /// What to do once a request is written: a notification is answered at once, and for any other
    /// request a response must come.
    pub fn after_send(&self, request: &JsonRpcRequest) -> (next: StdioNext)
        ensures
            match next {
                StdioNext::Receive => request.id is Some,
                StdioNext::Done { outcome } => request.id is None && (outcome matches Ok(response)
                    && response.is_acknowledgement()),
            },
    {
        if request.id.is_none() {
            StdioNext::Done { outcome: Ok(JsonRpcResponse::acknowledgement()) }
        } else {
            StdioNext::Receive
        }
    }

    /// The nanoseconds left to wait for a response, once some have passed.
    pub fn time_left(&self, elapsed_nanos: u128) -> (left: Result<u64, McpFailure>)
        ensures
            match left {
                Ok(nanos) => elapsed_nanos < RECV_TIMEOUT_NANOS && nanos == RECV_TIMEOUT_NANOS
                    - elapsed_nanos,
                Err(failure) => elapsed_nanos >= RECV_TIMEOUT_NANOS
                    && failure is ResponseTimeout,
            },
            RECV_TIMEOUT_NANOS == RECV_TIMEOUT_SECS * 1_000_000_000,
    {
        if elapsed_nanos >= RECV_TIMEOUT_NANOS as u128 {
            Err(McpFailure::ResponseTimeout)
        } else {
            Ok(RECV_TIMEOUT_NANOS - elapsed_nanos as u64)
        }
    }

    /// Takes a line of the server's output; `None` means that the output is closed.
    pub fn recv_raw<'a>(&self, line: Option<&'a str>) -> (outcome: Result<&'a str, McpFailure>)
        ensures
            match outcome {
                Ok(text) => line_failure(line) is None && line == Some(text),
                Err(failure) => line_failure(line) == Some(failure),
            },
    {
        match line {
            None => Err(McpFailure::StdoutClosed),
            Some(text) => {
                if text.len() > MAX_LINE_BYTES {
                    Err(McpFailure::ResponseTooLarge { bytes: text.len() })
                } else {
                    Ok(text)
                }
            },
        }
    }

    /// What to do about a line of the server's output while a response is awaited. A notification
    /// of the server is passed over.
    pub fn on_line<D: Fn(&str) -> Option<JsonRpcResponse>>(
        &self,
        line: Option<&str>,
        decode: &D,
    ) -> (next: StdioNext)
        requires
            decodes_any(*decode),
        ensures
            takes_line(*decode, line, next),
    {
        let text = match self.recv_raw(line) {
            Ok(text) => text,
            Err(failure) => {
                return StdioNext::Done { outcome: Err(failure) };
            },
        };
        match decode_text(decode, text) {
            None => StdioNext::Done {
                outcome: Err(McpFailure::InvalidResponse { text: text.to_string() }),
            },
            Some(response) => {
                if response.id.is_none() {
                    StdioNext::Receive
                } else {
                    StdioNext::Done { outcome: Ok(response) }
                }
            },
        }
    }
}

impl McpTransportConn for StdioTransport {
    open spec fn holds_session(&self) -> bool {
        false
    }

    /// Only a process that is known to run counts as alive.
    open spec fn is_alive(&self, child: ChildState) -> bool {
        child == ChildState::Running
    }

    fn reset(&mut self)
        ensures
            *final(self) == *old(self),
    {
    }

    fn health_check(&self, child: ChildState) -> (alive: bool) {
        child == ChildState::Running
    }
}

/// Over a list of lines the first that is no notification decides: the outcome is that of a line
/// before which there are notifications only, whatever comes behind it, and as long as there is no
/// outcome every line was a notification.
pub proof fn law_first_line_that_is_no_notification_decides<
    D: Fn(&str) -> Option<JsonRpcResponse>,
>(decode: D, lines: Seq<Option<&str>>, next: StdioNext)
    requires
        takes_lines(decode, lines, next),
    ensures
        match next {
            StdioNext::Done { .. } => exists|k: int|
                {
                    &&& 0 <= k < lines.len()
                    &&& takes_line(decode, #[trigger] lines[k], next)
                    &&& forall|j: int| 0 <= j < k ==> is_notification(decode, #[trigger] lines[j])
                },
            StdioNext::Receive => forall|j: int|
                0 <= j < lines.len() ==> is_notification(decode, #[trigger] lines[j]),
        },
    decreases lines.len(),
{
    if lines.len() > 0 {
        let front = lines.drop_last();
        let n = lines.len() - 1;
        if takes_lines(decode, front, StdioNext::Receive) && takes_line(
            decode,
            lines.last(),
            next,
        ) {
            law_first_line_that_is_no_notification_decides(decode, front, StdioNext::Receive);
            assert forall|j: int| 0 <= j < n implies is_notification(
                decode,
                #[trigger] lines[j],
            ) by {
                assert(front[j] == lines[j]);
            }
            assert(takes_line(decode, lines[n], next));
        } else {
            law_first_line_that_is_no_notification_decides(decode, front, next);
            let k = choose|k: int|
                {
                    &&& 0 <= k < front.len()
                    &&& takes_line(decode, #[trigger] front[k], next)
                    &&& forall|j: int| 0 <= j < k ==> is_notification(decode, #[trigger] front[j])
                };
            assert(lines[k] == front[k]);
            assert forall|j: int| 0 <= j < k implies is_notification(
                decode,
                #[trigger] lines[j],
            ) by {
                assert(front[j] == lines[j]);
            }
        }
    }
}

/// A line is too long exactly beyond four megabytes, and the failure tells its length; a missing line
/// says that the output is closed.
pub proof fn law_lines_fail_by_their_length(line: Option<&str>)
    ensures
        line is None <==> line_failure(line) matches Some(McpFailure::StdoutClosed),
        line matches Some(text) ==> (line_failure(line) is None <==> text.spec_bytes().len() as usize
            <= 4 * 1024 * 1024),
        line_failure(line) matches Some(McpFailure::ResponseTooLarge { bytes }) ==> bytes
            == line->0.spec_bytes().len() as usize && bytes > 4 * 1024 * 1024,
{
}

/// Of a line that can be read, what the decoder makes of it decides: a response with an identifier,
/// whatever else it holds, is the outcome; a message without one is passed over; and what is no
/// message fails with its text.
pub proof fn law_lines_by_what_they_hold<D: Fn(&str) -> Option<JsonRpcResponse>>(
    decode: D,
    line: Option<&str>,
    next: StdioNext,
)
    requires
        takes_line(decode, line, next),
        line_failure(line) is None,
    ensures
        (forall|d: Option<JsonRpcResponse>| #[trigger]
            decodes_to(decode, line->0@, d) ==> (d matches Some(r) && r.id is Some)) ==> (
        next matches StdioNext::Done { outcome: Ok(response) } && decodes_to(
            decode,
            line->0@,
            Some(response),
        )),
        (forall|d: Option<JsonRpcResponse>| #[trigger]
            decodes_to(decode, line->0@, d) ==> (d matches Some(r) && r.id is None))
            ==> next is Receive,
        (forall|d: Option<JsonRpcResponse>| #[trigger]
            decodes_to(decode, line->0@, d) ==> d is None) ==> (next matches StdioNext::Done {
            outcome: Err(McpFailure::InvalidResponse { text }),
        } && text@ == line->0@),
{
    if let StdioNext::Receive = next {
        let notification = choose|notification: JsonRpcResponse|
            notification.id is None && #[trigger] decodes_to(
                decode,
                line->0@,
                Some(notification),
            );
        assert(decodes_to(decode, line->0@, Some(notification)));
    }
}

/// The time that has gone by and the time that is left make half a minute; after that there is none.
pub proof fn law_time_runs_out(
    transport: &StdioTransport,
    elapsed_nanos: u128,
    left: Result<u64, McpFailure>,
)
    requires
        call_ensures(StdioTransport::time_left, (transport, elapsed_nanos), left),
    ensures
        left is Ok <==> elapsed_nanos < 30 * 1_000_000_000,
        left matches Ok(nanos) ==> nanos + elapsed_nanos == 30 * 1_000_000_000,
        left matches Err(failure) ==> failure is ResponseTimeout,
{
}

/// A request is awaited exactly if it has an identifier; any other is taken for accepted once sent.
pub proof fn law_what_is_awaited(
    transport: &StdioTransport,
    request: &JsonRpcRequest,
    next: StdioNext,
)
    requires
        call_ensures(StdioTransport::after_send, (transport, request), next),
    ensures
        next is Receive <==> request.id is Some,
        request.id is None ==> (next matches StdioNext::Done { outcome: Ok(response) }
            && response.jsonrpc@ == "2.0"@ && response.id is None && response.result is None
            && response.error is None),
{
}

/// A message is sent as one line: the text and the end of the line.
pub proof fn law_messages_are_sent_as_lines(transport: &StdioTransport, line: &str, frame: String)
    requires
        call_ensures(StdioTransport::send_raw, (transport, line), frame),
    ensures
        frame@.len() == line@.len() + 1,
        frame@.last() == '\n',
        frame@.drop_last() == line@,
{
    reveal_strlit("\n");
    assert(frame@.drop_last() =~= line@);
}

} // verus!
