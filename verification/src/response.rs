//! Responses, once their text is found: what a decoder makes of it decides.
use vstd::prelude::*;

use crate::failure::McpFailure;
use crate::protocol::JsonRpcResponse;
use crate::sse_stream::{
    event_ended, event_lines, events_of, fields_after, fields_after_all, is_endpoint_name,
    is_message_name, law_an_empty_line_ends_the_event, law_identifiers_change_nothing_else,
    law_messages_hand_over_their_data, lemma_event_arrives, lemma_events_of_first_lines,
    lemma_line_of_event, lines_without_cr, message_payload, message_payload_text, no_fields,
    without_cr, EventText, FieldText, SseLineBuffer,
};
use crate::sse_text::{
    event_data, extracted_json, into_string, is_line, last_event_data, posted_payload,
    posted_payload_text, response_payload, response_payload_text,
};
use crate::text::{
    ascii_lowered, joined, lemma_one_piece, lemma_trimmed_back_concat, lemma_trimmed_back_tail,
    lemma_trimmed_back_twice, lemma_trimmed_ignores_tail, same_ignoring_ascii_case, trimmed,
    trimmed_back, trimmed_front, CharClass,
};

verus! {

/// Whether `decoded` is what `decode` makes of a text: a response, or nothing where the text is no
/// JSON-RPC response.
pub open spec fn decodes_to<D: Fn(&str) -> Option<JsonRpcResponse>>(
    decode: D,
    text: Seq<char>,
    decoded: Option<JsonRpcResponse>,
) -> bool {
    exists|t: &str| t@ == text && #[trigger] call_ensures(decode, (t,), decoded)
}

/// Whether `decode` takes every text.
pub open spec fn decodes_any<D: Fn(&str) -> Option<JsonRpcResponse>>(decode: D) -> bool {
    forall|t: &str| #[trigger] call_requires(decode, (t,))
}

/// Calls a decoder.
pub fn decode_text<D: Fn(&str) -> Option<JsonRpcResponse>>(decode: &D, text: &str) -> (decoded:
    Option<JsonRpcResponse>)
    requires
        decodes_any(*decode),
    ensures
        decodes_to(*decode, text@, decoded),
{
    decode(text)
}

/// Reads a JSON-RPC response from the body of a reply, plain or framed as server-sent events. A
/// blank body holds no response.
pub fn parse_jsonrpc_response_text<D: Fn(&str) -> Option<JsonRpcResponse>>(
    resp_text: &str,
    decode: &D,
) -> (outcome: Result<JsonRpcResponse, McpFailure>)
    requires
        decodes_any(*decode),
    ensures
        match response_payload(resp_text@) {
            None => outcome matches Err(McpFailure::NoResponse),
            Some(payload) => match outcome {
                Ok(response) => decodes_to(*decode, payload, Some(response)),
                Err(failure) => {
                    &&& decodes_to(*decode, payload, None)
                    &&& failure matches McpFailure::InvalidResponse { text } && text@ == resp_text@
                },
            },
        },
{
    match response_payload_text(resp_text) {
        None => Err(McpFailure::NoResponse),
        Some(payload) => {
            let text = into_string(payload);
            match decode_text(decode, text.as_str()) {
                Some(response) => Ok(response),
                None => Err(McpFailure::InvalidResponse { text: resp_text.to_string() }),
            }
        },
    }
}

/// Reads a JSON-RPC response from the body of the reply to a posted message, if it holds one.
pub fn read_posted_response<D: Fn(&str) -> Option<JsonRpcResponse>>(body: &str, decode: &D) -> (
response: Option<JsonRpcResponse>)
    requires
        decodes_any(*decode),
    ensures
        match posted_payload(body@) {
            None => response is None,
            Some(payload) => decodes_to(*decode, payload, response),
        },
{
    match posted_payload_text(body) {
        None => None,
        Some(payload) => {
            let text = into_string(payload);
            decode_text(decode, text.as_str())
        },
    }
}

/// The text to read a response from that a line of an event stream completes, if any.
pub open spec fn payload_completed(fields: FieldText, line: Seq<char>) -> Option<Seq<char>> {
    match event_ended(fields, line) {
        Some(event) => message_payload(event),
        None => None,
    }
}

/// Whether `response` is what a line of an event stream gives after the fields that have arrived: what
/// the decoder makes of the text that the line completes, if any.
pub open spec fn reads_line<D: Fn(&str) -> Option<JsonRpcResponse>>(
    decode: D,
    fields: FieldText,
    line: Seq<char>,
    response: Option<JsonRpcResponse>,
) -> bool {
    match payload_completed(fields, line) {
        None => response is None,
        Some(payload) => decodes_to(decode, payload, response),
    }
}

/// Reads the event stream of a reply for the first response in it.
pub struct SseResponseReader {
    /// The event that is arriving.
    pub buffer: SseLineBuffer,
}

impl SseResponseReader {
    /// A reader before the first line.
    pub fn new() -> (reader: Self)
        ensures
            reader.buffer.fields() == no_fields(),
    {
        SseResponseReader { buffer: SseLineBuffer::new() }
    }

    /// Takes one line of the stream. Returns the response that the line completes; events that are
    /// no messages, and messages that hold no response, are passed over.
    pub fn read_line<D: Fn(&str) -> Option<JsonRpcResponse>>(&mut self, line: &str, decode: &D) -> (
    response: Option<JsonRpcResponse>)
        requires
            decodes_any(*decode),
        ensures
            final(self).buffer.fields() == fields_after(old(self).buffer.fields(), line@),
            reads_line(*decode, old(self).buffer.fields(), line@, response),
    {
        match self.buffer.feed(line) {
            Some(event) => match message_payload_text(&event) {
                Some(payload) => decode_text(decode, payload.as_str()),
                None => None,
            },
            None => None,
        }
    }
}

/// Whether `response` is what reading a list of lines from the beginning gives, one by one up to the
/// first that gives a response; `None` means that none of them does.
pub open spec fn reads_lines<D: Fn(&str) -> Option<JsonRpcResponse>>(
    decode: D,
    lines: Seq<Seq<char>>,
    response: Option<JsonRpcResponse>,
) -> bool {
    match response {
        Some(_) => exists|n: int|
            {
                &&& 0 <= n < lines.len()
                &&& #[trigger] gives_at(decode, lines, n, response)
                &&& forall|m: int| 0 <= m < n ==> #[trigger] gives_at(decode, lines, m, None)
            },
        None => forall|m: int| 0 <= m < lines.len() ==> #[trigger] gives_at(decode, lines, m, None),
    }
}

/// Whether `response` is what one of a list of lines gives, once those before it are read.
pub open spec fn gives_at<D: Fn(&str) -> Option<JsonRpcResponse>>(
    decode: D,
    lines: Seq<Seq<char>>,
    n: int,
    response: Option<JsonRpcResponse>,
) -> bool {
    reads_line(decode, fields_after_all(lines.take(n)), lines[n], response)
}

/// Whether `response` is what an event gives: what the decoder makes of its text, if it is a message
/// with data.
pub open spec fn event_gives<D: Fn(&str) -> Option<JsonRpcResponse>>(
    decode: D,
    event: EventText,
    response: Option<JsonRpcResponse>,
) -> bool {
    match message_payload(event) {
        None => response is None,
        Some(payload) => decodes_to(decode, payload, response),
    }
}

/// Whether `response` is that of the first event of a list that gives one; `None` means that none of
/// them does.
pub open spec fn first_event_gives<D: Fn(&str) -> Option<JsonRpcResponse>>(
    decode: D,
    events: Seq<EventText>,
    response: Option<JsonRpcResponse>,
) -> bool {
    match response {
        Some(_) => exists|k: int|
            {
                &&& 0 <= k < events.len()
                &&& event_gives(decode, #[trigger] events[k], response)
                &&& forall|j: int| 0 <= j < k ==> event_gives(decode, #[trigger] events[j], None)
            },
        None => forall|j: int|
            0 <= j < events.len() ==> event_gives(decode, #[trigger] events[j], None),
    }
}

/// Reading an event stream line by line gives the response of the first of its events that the
/// decoder accepts, and none where it accepts none of them.
pub proof fn law_first_accepted_event_is_the_response<D: Fn(&str) -> Option<JsonRpcResponse>>(
    decode: D,
    lines: Seq<Seq<char>>,
    response: Option<JsonRpcResponse>,
)
    requires
        reads_lines(decode, lines, response),
    ensures
        first_event_gives(decode, events_of(lines), response),
{
    let events = events_of(lines);
    if response is None {
        assert forall|j: int| 0 <= j < events.len() implies event_gives(
            decode,
            #[trigger] events[j],
            None,
        ) by {
            let m = lemma_line_of_event(lines, j);
            assert(gives_at(decode, lines, m, None));
        }
    } else {
        let n = choose|n: int|
            {
                &&& 0 <= n < lines.len()
                &&& #[trigger] gives_at(decode, lines, n, response)
                &&& forall|m: int| 0 <= m < n ==> #[trigger] gives_at(decode, lines, m, None)
            };
        let before = lines.take(n);
        let upto = lines.take(n + 1);
        let k = events_of(before).len() as int;
        assert(upto.drop_last() =~= before);
        assert(upto.last() == lines[n]);
        lemma_events_of_first_lines(lines, n + 1);
        lemma_events_of_first_lines(lines, n);
        assert(events[k] == events_of(upto)[k]);
        assert(event_gives(decode, events[k], response));
        assert forall|j: int| 0 <= j < k implies event_gives(
            decode,
            #[trigger] events[j],
            None,
        ) by {
            let m = lemma_line_of_event(before, j);
            assert(before.take(m) =~= lines.take(m));
            assert(gives_at(decode, lines, m, None));
            assert(events[j] == events_of(before)[j]);
        }
    }
}

/// A line that begins like a JSON object is extracted as it is, but for white space behind it.
proof fn lemma_object_line_is_extracted(json: Seq<char>)
    requires
        is_line(json),
        json.len() > 0,
        json[0] == '{',
    ensures
        trimmed(json).len() > 0,
        trimmed(json)[0] == '{',
        extracted_json(trimmed(json)) == trimmed(json),
{
    let white = CharClass::WhiteSpace;
    let brace = seq!['{'];
    let rest = json.drop_first();
    assert(json =~= brace + rest);
    lemma_trimmed_back_concat(brace, rest, white);
    let text = trimmed(json);
    assert(text == brace + trimmed_back(rest, white));
    lemma_trimmed_back_twice(json, white);
    assert(trimmed_front(text, white) == text);
    let blank = lemma_trimmed_back_tail(json, white);
    assert(!text.contains('\n')) by {
        if text.contains('\n') {
            let i = choose|i: int| 0 <= i < text.len() && text[i] == '\n';
            assert((text + blank)[i] == '\n');
        }
    }
    lemma_one_piece(text, '\n');
    let cr = CharClass::Only('\r');
    let tail = text.drop_first();
    assert(text =~= brace + tail);
    lemma_trimmed_back_concat(brace, tail, cr);
    let line = trimmed_back(text, cr);
    assert(line[0] == '{');
    assert(trimmed_front(line, white) == line);
    reveal_strlit("data:");
    if "data:"@.is_prefix_of(line) {
        assert("data:"@[0] == line[0]);
    }
    let lines = seq![text];
    assert(lines.drop_last() =~= Seq::<Seq<char>>::empty());
    assert(event_data(lines.drop_last()).open.len() == 0);
    assert(event_data(lines) == event_data(lines.drop_last()));
    assert(last_event_data(lines).len() == 0);
}

/// A JSON object that is written as a message of an event stream is what the empty line after it
/// hands to the decoder, but for white space behind it.
pub proof fn law_written_message_reaches_the_decoder(json: Seq<char>)
    requires
        is_line(json),
        json.len() > 0,
        json[0] == '{',
    ensures
        payload_completed(
            fields_after_all(event_lines("message"@, seq![json]).drop_last()),
            Seq::empty(),
        ) == Some(trimmed(json)),
{
    reveal_strlit("message");
    reveal_strlit("endpoint");
    reveal_strlit("mcp-endpoint");
    let name = "message"@;
    assert(trimmed_front(name, CharClass::WhiteSpace) == name);
    assert(trimmed(name) == name);
    lemma_event_arrives(name, seq![json]);
    assert(ascii_lowered(name).len() == 7);
    assert(ascii_lowered("endpoint"@).len() == 8);
    assert(ascii_lowered("mcp-endpoint"@).len() == 12);
    assert(!is_endpoint_name(name));
    assert(is_message_name(name));
    let line = without_cr(json);
    assert(lines_without_cr(seq![json]) =~= seq![line]);
    assert(joined(seq![line], "\n"@) == line);
    if line != json {
        lemma_trimmed_ignores_tail(line, seq!['\r']);
        assert(line + seq!['\r'] =~= json);
    }
    lemma_object_line_is_extracted(json);
}

/// What a line of an event stream completes depends on the name and the data that have arrived, and
/// not on the identifier.
pub proof fn law_identifiers_do_not_hide_a_message(
    fields: FieldText,
    other: FieldText,
    line: Seq<char>,
)
    requires
        fields.event == other.event,
        fields.data == other.data,
    ensures
        payload_completed(fields, line) == payload_completed(other, line),
{
    assert(joined(fields.data, "\n"@) == joined(other.data, "\n"@));
    law_messages_hand_over_their_data(
        fields.event,
        fields.id,
        other.id,
        joined(fields.data, "\n"@),
    );
    if fields.event is None && fields.data.len() == 0 {
        assert(fields.data =~= Seq::empty());
        assert(joined(fields.data, "\n"@) =~= Seq::<char>::empty());
        assert(trimmed(joined(fields.data, "\n"@)).len() == 0);
    }
}

/// A message that is written with an `id:` line, wherever that stands among its lines, hands the same
/// text to the decoder as without it.
pub proof fn law_identified_messages_reach_the_decoder(
    before: Seq<Seq<char>>,
    id: Seq<char>,
    after: Seq<Seq<char>>,
)
    requires
        id.len() > 0 ==> id.last() != '\r',
        forall|i: int| 0 <= i < after.len() ==> without_cr(#[trigger] after[i]).len() > 0,
    ensures
        payload_completed(fields_after_all(before.push("id:"@ + id) + after), Seq::empty())
            == payload_completed(fields_after_all(before + after), Seq::empty()),
{
    law_identifiers_change_nothing_else(before, id, after);
    law_identifiers_do_not_hide_a_message(
        fields_after_all(before.push("id:"@ + id) + after),
        fields_after_all(before + after),
        Seq::empty(),
    );
}

/// An empty line after a name, or none, and data hands over the data, joined by line feeds, of every
/// message that is not blank; no other line hands over anything.
pub proof fn law_an_empty_line_hands_over_the_data(fields: FieldText, line: Seq<char>)
    ensures
        (fields.event matches Some(name) ==> same_ignoring_ascii_case(name, "message"@)) && trimmed(
            joined(fields.data, "\n"@),
        ).len() > 0 ==> payload_completed(fields, Seq::empty()) == Some(
            extracted_json(trimmed(joined(fields.data, "\n"@))),
        ),
        fields.event matches Some(name) && !same_ignoring_ascii_case(name, "message"@)
            ==> payload_completed(fields, Seq::empty()) is None,
        line.len() > 0 && line != seq!['\r'] ==> payload_completed(fields, line) is None,
{
    law_an_empty_line_ends_the_event(fields, line);
    reveal_strlit("\n");
    assert("\n"@ =~= seq!['\n']);
    law_messages_hand_over_their_data(
        fields.event,
        fields.id,
        fields.id,
        joined(fields.data, "\n"@),
    );
    if fields.event is None && fields.id is None && fields.data.len() == 0 {
        assert(joined(fields.data, "\n"@) =~= Seq::<char>::empty());
        assert(trimmed(joined(fields.data, "\n"@)).len() == 0);
    }
}

/// The decoder is handed each text as it stands: whatever it makes of the text is what the text is
/// decoded to, and nothing else is.
pub proof fn law_texts_are_decoded_as_they_are<D: Fn(&str) -> Option<JsonRpcResponse>>(
    decode: D,
    text: &str,
    decoded: Option<JsonRpcResponse>,
)
    ensures
        call_ensures(decode, (text,), decoded) ==> decodes_to(decode, text@, decoded),
        decodes_to(decode, text@, decoded) ==> exists|t: &str|
            t@ == text@ && #[trigger] call_ensures(decode, (t,), decoded),
{
}

/// A line gives what the decoder makes of the message that it completes, be it a response or none; a
/// line that completes no message gives nothing.
pub proof fn law_lines_give_what_is_decoded<D: Fn(&str) -> Option<JsonRpcResponse>>(
    decode: D,
    fields: FieldText,
    line: Seq<char>,
    response: Option<JsonRpcResponse>,
    decoded: Option<JsonRpcResponse>,
)
    requires
        reads_line(decode, fields, line, response),
    ensures
        without_cr(line).len() > 0 ==> response is None,
        payload_completed(fields, line) matches Some(payload) ==> ((forall|d: Option<JsonRpcResponse>|
         #[trigger] decodes_to(decode, payload, d) ==> d == decoded) ==> response == decoded),
        payload_completed(fields, line) is None ==> response is None,
{
}

/// What comes of a body is what the decoder makes of the message in it. A body of white space holds
/// none; and where the decoder makes nothing of it, the failure shows the body as it came.
pub proof fn law_what_comes_of_a_body<D: Fn(&str) -> Option<JsonRpcResponse>>(
    body: &str,
    decode: &D,
    outcome: Result<JsonRpcResponse, McpFailure>,
    decoded: JsonRpcResponse,
)
    requires
        call_ensures(parse_jsonrpc_response_text::<D>, (body, decode), outcome),
    ensures
        trimmed(body@).len() == 0 <==> outcome matches Err(McpFailure::NoResponse),
        outcome matches Err(failure) ==> failure is NoResponse || (
        failure matches McpFailure::InvalidResponse { text } && text@ == body@),
        response_payload(body@) matches Some(payload) ==> {
            &&& (forall|d: Option<JsonRpcResponse>| #[trigger]
                decodes_to(*decode, payload, d) ==> d == Some(decoded)) ==> outcome == Ok::<
                JsonRpcResponse,
                McpFailure,
            >(decoded)
            &&& (forall|d: Option<JsonRpcResponse>| #[trigger]
                decodes_to(*decode, payload, d) ==> d is None) ==> outcome is Err
        },
{
}

/// What comes of the body of a reply to a posted request is what the decoder makes of the message in
/// it, and nothing where the body is white space.
pub proof fn law_what_comes_of_a_posted_body<D: Fn(&str) -> Option<JsonRpcResponse>>(
    body: &str,
    decode: &D,
    response: Option<JsonRpcResponse>,
    decoded: Option<JsonRpcResponse>,
)
    requires
        call_ensures(read_posted_response::<D>, (body, decode), response),
    ensures
        trimmed(body@).len() == 0 ==> response is None,
        posted_payload(body@) matches Some(payload) ==> ((forall|d: Option<JsonRpcResponse>|
         #[trigger] decodes_to(*decode, payload, d) ==> d == decoded) ==> response == decoded),
{
}

/// The identifier of an event does not decide what is read: of two readers that have seen the same
/// name and the same data, each line makes the same response, if the decoder always makes the same of
/// the same text.
pub proof fn law_identifiers_do_not_change_the_response<D: Fn(&str) -> Option<JsonRpcResponse>>(
    reader: &mut SseResponseReader,
    other: &mut SseResponseReader,
    line: &str,
    decode: &D,
    response: Option<JsonRpcResponse>,
    other_response: Option<JsonRpcResponse>,
)
    requires
        call_ensures(SseResponseReader::read_line::<D>, (reader, line, decode), response),
        call_ensures(SseResponseReader::read_line::<D>, (other, line, decode), other_response),
        old(reader).buffer.fields().event == old(other).buffer.fields().event,
        old(reader).buffer.fields().data == old(other).buffer.fields().data,
        forall|
            text: Seq<char>,
            a: Option<JsonRpcResponse>,
            b: Option<JsonRpcResponse>,
        | #[trigger]
            decodes_to(*decode, text, a) && #[trigger] decodes_to(*decode, text, b) ==> a == b,
    ensures
        response == other_response,
{
    let fields = old(reader).buffer.fields();
    let others = old(other).buffer.fields();
    law_identifiers_do_not_hide_a_message(fields, others, line@);
}

} // verus!
