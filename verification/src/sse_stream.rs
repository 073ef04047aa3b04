//! Server-sent events, as they arrive line by line.
use vstd::prelude::*;

use crate::sse_text::{
    data_lines, extract_json_from_sse_text, extracted_json, into_string,
    law_data_lines_carry_their_rest, line_data, strip_space, without_space,
};
use crate::text::{
    after_prefix, eq_ignore_ascii_case, join, joined, law_case_is_ignored_for_ascii_letters_only,
    law_prefix_is_taken_off, lemma_trimmed_ignores_tail,
    same_ignoring_ascii_case, starts_with, strip_prefix, texts, trim, trimmed,
};

verus! {

/// One server-sent event.
#[derive(Debug, Clone)]
pub struct SseEvent {
    /// The event's name, if it has one.
    pub event: Option<String>,
    /// The event's identifier, if it has one.
    pub id: Option<String>,
    /// The event's data, line by line.
    pub data: String,
}

/// The fields of an event that is arriving.
#[derive(Debug, Clone)]
pub struct SseLineBuffer {
    /// The event's name so far.
    pub event: Option<String>,
    /// The event's identifier so far.
    pub id: Option<String>,
    /// The lines of the event's data so far.
    pub data: Vec<String>,
}

/// The texts of an event.
#[verifier::ext_equal]
pub struct EventText {
    /// The event's name.
    pub event: Option<Seq<char>>,
    /// The event's identifier.
    pub id: Option<Seq<char>>,
    /// The event's data.
    pub data: Seq<char>,
}

/// The texts of the fields of an event that is arriving.
#[verifier::ext_equal]
pub struct FieldText {
    /// The event's name.
    pub event: Option<Seq<char>>,
    /// The event's identifier.
    pub id: Option<Seq<char>>,
    /// The lines of the event's data.
    pub data: Seq<Seq<char>>,
}

/// The text of a string, if there is one.
pub open spec fn text_of(s: Option<String>) -> Option<Seq<char>> {
    match s {
        Some(t) => Some(t@),
        None => None,
    }
}

/// The fields before anything arrived.
pub open spec fn no_fields() -> FieldText {
    FieldText { event: None, id: None, data: Seq::empty() }
}

/// A line without the carriage return at its end.
pub open spec fn without_cr(line: Seq<char>) -> Seq<char> {
    if line.len() > 0 && line.last() == '\r' {
        line.drop_last()
    } else {
        line
    }
}

/// The fields after one more line: a field line sets its field or adds to the data, an empty line
/// ends the event, and any other line, a comment among them, changes nothing.
pub open spec fn fields_after(fields: FieldText, raw_line: Seq<char>) -> FieldText {
    let line = without_cr(raw_line);
    if line.len() == 0 {
        no_fields()
    } else if ":"@.is_prefix_of(line) {
        fields
    } else if after_prefix(line, "event:"@) is Some {
        FieldText { event: Some(trimmed(after_prefix(line, "event:"@)->0)), ..fields }
    } else if line_data(line) is Some {
        FieldText { data: fields.data.push(line_data(line)->0), ..fields }
    } else if after_prefix(line, "id:"@) is Some {
        FieldText { id: Some(trimmed(after_prefix(line, "id:"@)->0)), ..fields }
    } else {
        fields
    }
}

/// The event that a line ends, if it is empty and fields had arrived.
pub open spec fn event_ended(fields: FieldText, raw_line: Seq<char>) -> Option<EventText> {
    if without_cr(raw_line).len() == 0 && fields != no_fields() {
        Some(EventText { event: fields.event, id: fields.id, data: joined(fields.data, "\n"@) })
    } else {
        None
    }
}

/// The fields after a list of lines.
pub open spec fn fields_after_all(lines: Seq<Seq<char>>) -> FieldText
    decreases lines.len(),
{
    if lines.len() == 0 {
        no_fields()
    } else {
        fields_after(fields_after_all(lines.drop_last()), lines.last())
    }
}

/// The events that a list of lines ends, in their order.
pub open spec fn events_of(lines: Seq<Seq<char>>) -> Seq<EventText>
    decreases lines.len(),
{
    if lines.len() == 0 {
        Seq::empty()
    } else {
        let before = events_of(lines.drop_last());
        match event_ended(fields_after_all(lines.drop_last()), lines.last()) {
            Some(event) => before.push(event),
            None => before,
        }
    }
}

impl SseEvent {
    /// The texts of the event.
    pub open spec fn text(self) -> EventText {
        EventText { event: text_of(self.event), id: text_of(self.id), data: self.data@ }
    }
}

impl SseLineBuffer {
    /// The texts of the fields.
    pub open spec fn fields(self) -> FieldText {
        FieldText { event: text_of(self.event), id: text_of(self.id), data: texts(self.data@) }
    }

    /// A buffer before anything arrived.
    pub fn new() -> (buffer: Self)
        ensures
            buffer.fields() == no_fields(),
    {
        let buffer = SseLineBuffer { event: None, id: None, data: Vec::new() };
        assert(buffer.fields() =~= no_fields());
        buffer
    }

    /// Takes one line of the stream, without its line feed. Returns the event that the line ends.
    pub fn feed(&mut self, raw_line: &str) -> (ended: Option<SseEvent>)
        ensures
            final(self).fields() == fields_after(old(self).fields(), raw_line@),
            match ended {
                Some(event) => event_ended(old(self).fields(), raw_line@) == Some(event.text()),
                None => event_ended(old(self).fields(), raw_line@) is None,
            },
    {
        let length: usize = raw_line.unicode_len();
        let line = if length > 0 && raw_line.get_char(length - 1) == '\r' {
            raw_line.substring_char(0, length - 1)
        } else {
            raw_line
        };
        assert(line@ == without_cr(raw_line@));
        let ghost before = self.fields();
        if line.is_empty() {
            if self.event.is_none() && self.id.is_none() && self.data.len() == 0 {
                assert(before =~= no_fields());
                return None;
            }
            let event = self.event.take();
            let id = self.id.take();
            let data = join(&self.data, "\n");
            self.data.clear();
            assert(self.fields() =~= no_fields());
            let ended = SseEvent { event, id, data };
            assert(ended.text() =~= event_ended(before, raw_line@)->0);
            return Some(ended);
        }
        if starts_with(line, ":") {
            return None;
        }
        if let Some(rest) = strip_prefix(line, "event:") {
            self.event = Some(trim(rest).to_string());
        } else if let Some(rest) = strip_prefix(line, "data:") {
            self.data.push(strip_space(rest).to_string());
            assert(texts(self.data@) == before.data.push(without_space(rest@)));
        } else if let Some(rest) = strip_prefix(line, "id:") {
            self.id = Some(trim(rest).to_string());
        }
        assert(self.fields() =~= fields_after(before, raw_line@));
        None
    }
}

/// The name of an event; one without a name is a message.
pub open spec fn event_name(event: Option<Seq<char>>) -> Seq<char> {
    match event {
        Some(name) => name,
        None => "message"@,
    }
}

/// Whether an event announces where messages are posted.
pub open spec fn is_endpoint_name(name: Seq<char>) -> bool {
    same_ignoring_ascii_case(name, "endpoint"@) || same_ignoring_ascii_case(
        name,
        "mcp-endpoint"@,
    )
}

/// Whether an event is a message. None announces an endpoint and is a message as well.
pub open spec fn is_message_name(name: Seq<char>) -> bool {
    same_ignoring_ascii_case(name, "message"@)
}

/// The name of an event; one without a name is a message.
pub fn name_or_message(event: Option<&str>) -> (name: &str)
    ensures
        name@ == event_name(
            match event {
                Some(e) => Some(e@),
                None => None,
            },
        ),
{
    match event {
        Some(name) => name,
        None => "message",
    }
}

/// Decides whether an event announces where messages are posted.
pub fn announces_endpoint(name: &str) -> (b: bool)
    ensures
        b == is_endpoint_name(name@),
{
    eq_ignore_ascii_case(name, "endpoint") || eq_ignore_ascii_case(name, "mcp-endpoint")
}

/// The text to read a JSON-RPC response from in an event, if it is a message with data.
pub open spec fn message_payload(event: EventText) -> Option<Seq<char>> {
    let name = event_name(event.event);
    if is_endpoint_name(name) || !is_message_name(name) || trimmed(event.data).len() == 0 {
        None
    } else {
        Some(extracted_json(trimmed(event.data)))
    }
}

/// The text to read a JSON-RPC response from in an event, if it is a message with data.
pub fn message_payload_text(event: &SseEvent) -> (payload: Option<String>)
    ensures
        match payload {
            Some(text) => message_payload(event.text()) == Some(text@),
            None => message_payload(event.text()) is None,
        },
{
    let name = match &event.event {
        Some(name) => name_or_message(Some(name.as_str())),
        None => name_or_message(None),
    };
    if announces_endpoint(name) {
        return None;
    }
    if !eq_ignore_ascii_case(name, "message") {
        return None;
    }
    let data = trim(event.data.as_str());
    if data.is_empty() {
        return None;
    }
    Some(into_string(extract_json_from_sse_text(data)))
}

/// What arrives after the end of an event is read as if nothing had come before.
pub proof fn law_events_are_read_one_by_one(first: Seq<Seq<char>>, second: Seq<Seq<char>>)
    requires
        fields_after_all(first) == no_fields(),
    ensures
        fields_after_all(first + second) == fields_after_all(second),
        events_of(first + second) == events_of(first) + events_of(second),
    decreases second.len(),
{
    if second.len() == 0 {
        assert(first + second =~= first);
        assert(events_of(first) + events_of(second) =~= events_of(first));
    } else {
        let front = second.drop_last();
        law_events_are_read_one_by_one(first, front);
        assert((first + second).drop_last() =~= first + front);
        assert((first + second).last() == second.last());
        assert(events_of(first + second) =~= events_of(first) + events_of(second));
    }
}

/// The events that the first lines of a list end are the first of those that all of them end.
pub proof fn lemma_events_of_first_lines(lines: Seq<Seq<char>>, n: int)
    requires
        0 <= n <= lines.len(),
    ensures
        events_of(lines.take(n)).len() <= events_of(lines).len(),
        forall|k: int|
            0 <= k < events_of(lines.take(n)).len() ==> #[trigger] events_of(lines)[k] == events_of(
                lines.take(n),
            )[k],
    decreases lines.len(),
{
    if n == lines.len() {
        assert(lines.take(n) =~= lines);
    } else {
        let front = lines.drop_last();
        lemma_events_of_first_lines(front, n);
        assert(front.take(n) =~= lines.take(n));
        assert forall|k: int| 0 <= k < events_of(lines.take(n)).len() implies #[trigger] events_of(
            lines,
        )[k] == events_of(lines.take(n))[k] by {
            assert(events_of(lines)[k] == events_of(front)[k]);
        }
    }
}

/// The line that ends an event of a list of lines.
pub proof fn lemma_line_of_event(lines: Seq<Seq<char>>, k: int) -> (m: int)
    requires
        0 <= k < events_of(lines).len(),
    ensures
        0 <= m < lines.len(),
        event_ended(fields_after_all(lines.take(m)), lines[m]) == Some(events_of(lines)[k]),
    decreases lines.len(),
{
    let front = lines.drop_last();
    if k < events_of(front).len() {
        let m = lemma_line_of_event(front, k);
        assert(front.take(m) =~= lines.take(m));
        assert(events_of(lines)[k] == events_of(front)[k]);
        m
    } else {
        assert(lines.take(lines.len() - 1) =~= front);
        lines.len() - 1
    }
}

/// Whether a line is passed over: a comment, or a line that sets no field that is known.
pub open spec fn is_passed_over(raw_line: Seq<char>) -> bool {
    let line = without_cr(raw_line);
    &&& line.len() > 0
    &&& ":"@.is_prefix_of(line) || (after_prefix(line, "event:"@) is None && line_data(line) is None
        && after_prefix(line, "id:"@) is None)
}

/// Comments, and lines that set no known field, change nothing wherever they stand.
pub proof fn law_comments_are_passed_over(
    before: Seq<Seq<char>>,
    line: Seq<char>,
    after: Seq<Seq<char>>,
)
    requires
        is_passed_over(line),
    ensures
        fields_after_all(before.push(line) + after) == fields_after_all(before + after),
        events_of(before.push(line) + after) == events_of(before + after),
    decreases after.len(),
{
    let whole = before.push(line) + after;
    if after.len() == 0 {
        assert(whole.drop_last() =~= before);
        assert(whole.last() == line);
        assert(before + after =~= before);
    } else {
        law_comments_are_passed_over(before, line, after.drop_last());
        assert(whole.drop_last() =~= before.push(line) + after.drop_last());
        assert((before + after).drop_last() =~= before + after.drop_last());
    }
}

/// The lines of an event: its name, its data, and an empty line.
pub open spec fn event_lines(name: Seq<char>, data: Seq<Seq<char>>) -> Seq<Seq<char>> {
    (seq!["event: "@ + name] + data_lines(data)).push(Seq::empty())
}

/// The lines, each without the carriage return at its end.
pub open spec fn lines_without_cr(lines: Seq<Seq<char>>) -> Seq<Seq<char>> {
    lines.map_values(|line: Seq<char>| without_cr(line))
}

/// Data lines add to the data of the event that is arriving.
proof fn lemma_data_arrives(before: Seq<Seq<char>>, data: Seq<Seq<char>>)
    ensures
        fields_after_all(before + data_lines(data)) == (FieldText {
            data: fields_after_all(before).data + lines_without_cr(data),
            ..fields_after_all(before)
        }),
        events_of(before + data_lines(data)) == events_of(before),
    decreases data.len(),
{
    let all = before + data_lines(data);
    let known = fields_after_all(before).data;
    if data.len() == 0 {
        assert(all =~= before);
        assert(known + lines_without_cr(data) =~= known);
    } else {
        let front = data.drop_last();
        lemma_data_arrives(before, front);
        assert(data_lines(data).drop_last() =~= data_lines(front));
        assert(all.drop_last() =~= before + data_lines(front));
        assert(all.last() == "data: "@ + data.last());
        lemma_data_line(data.last());
        assert(lines_without_cr(data) =~= lines_without_cr(front).push(without_cr(data.last())));
        assert((known + lines_without_cr(front)).push(without_cr(data.last())) =~= known
            + lines_without_cr(data));
    }
}

/// A data line carries its data and sets no other field.
proof fn lemma_data_line(data: Seq<char>)
    ensures
        without_cr("data: "@ + data) == "data: "@ + without_cr(data),
        !":"@.is_prefix_of("data: "@ + without_cr(data)),
        after_prefix("data: "@ + without_cr(data), "event:"@) is None,
        line_data("data: "@ + without_cr(data)) == Some(without_cr(data)),
        ("data: "@ + without_cr(data)).len() > 0,
{
    reveal_strlit("data: ");
    reveal_strlit("data:");
    reveal_strlit("event:");
    reveal_strlit(":");
    reveal_strlit(" ");
    let line = "data: "@ + without_cr(data);
    assert(without_cr("data: "@ + data) =~= line);
    assert(line[0] == 'd');
    if ":"@.is_prefix_of(line) {
        assert(":"@[0] == line[0]);
    }
    if "event:"@.is_prefix_of(line) {
        assert("event:"@[0] == line[0]);
    }
    assert("data:"@ =~= line.take(5));
    let rest = line.skip(5);
    assert(" "@ =~= rest.take(1));
    assert(rest.skip(1) =~= without_cr(data));
}

/// Before its empty line an event that is written line by line has all of its fields, and has ended
/// nothing.
pub proof fn lemma_event_arrives(name: Seq<char>, data: Seq<Seq<char>>)
    ensures
        fields_after_all(event_lines(name, data).drop_last()) == (FieldText {
            event: Some(trimmed(name)),
            id: None,
            data: lines_without_cr(data),
        }),
        events_of(event_lines(name, data).drop_last()) == Seq::<EventText>::empty(),
{
    let line = "event: "@ + name;
    let head = seq![line];
    reveal_strlit("event: ");
    reveal_strlit("event:");
    reveal_strlit(":");
    let kept = without_cr(name);
    let bare = "event: "@ + kept;
    assert(without_cr(line) =~= bare);
    if ":"@.is_prefix_of(bare) {
        assert(":"@[0] == bare[0]);
    }
    assert("event:"@ =~= bare.take(6));
    assert(bare.skip(6) =~= seq![' '] + kept);
    assert((seq![' '] + kept).drop_first() =~= kept);
    assert(trimmed(seq![' '] + kept) == trimmed(kept));
    if kept != name {
        lemma_trimmed_ignores_tail(kept, seq!['\r']);
        assert(kept + seq!['\r'] =~= name);
    }
    assert(head.drop_last() =~= Seq::<Seq<char>>::empty());
    assert(fields_after_all(head.drop_last()) == no_fields());
    assert(fields_after_all(head) == (FieldText { event: Some(trimmed(name)), ..no_fields() }));
    assert(events_of(head.drop_last()) =~= Seq::<EventText>::empty());
    assert(events_of(head) =~= Seq::<EventText>::empty());
    lemma_data_arrives(head, data);
    assert(no_fields().data + lines_without_cr(data) =~= lines_without_cr(data));
    assert(event_lines(name, data).drop_last() =~= head + data_lines(data));
}

/// An event that is written line by line is read back: one event, with its name, but for white space
/// at its ends, and its data, but for a carriage return at the end of each line; nothing is left
/// over.
pub proof fn law_written_event_is_read_back(name: Seq<char>, data: Seq<Seq<char>>)
    ensures
        events_of(event_lines(name, data)) == seq![
            (EventText {
                event: Some(trimmed(name)),
                id: None,
                data: joined(lines_without_cr(data), "\n"@),
            }),
        ],
        fields_after_all(event_lines(name, data)) == no_fields(),
{
    lemma_event_arrives(name, data);
    let all = event_lines(name, data);
    assert(all.last().len() == 0);
    assert(events_of(all) =~= seq![
        (EventText {
            event: Some(trimmed(name)),
            id: None,
            data: joined(lines_without_cr(data), "\n"@),
        }),
    ]);
}

/// Whatever has arrived, an `event:` line sets the name, an `id:` line sets the identifier, and a
/// `data:` line adds to the data; each leaves the other fields alone and ends no event. The text of a
/// name or identifier counts without white space at its ends, that of data without one space at its
/// front, and a carriage return at the end of a line belongs to none of them.
pub proof fn law_each_line_sets_its_field(fields: FieldText, text: Seq<char>)
    requires
        text.len() > 0 ==> text.last() != '\r',
    ensures
        fields_after(fields, "event:"@ + text) == (FieldText {
            event: Some(trimmed(text)),
            id: fields.id,
            data: fields.data,
        }),
        fields_after(fields, "id:"@ + text) == (FieldText {
            event: fields.event,
            id: Some(trimmed(text)),
            data: fields.data,
        }),
        fields_after(fields, "data:"@ + seq![' '] + text) == (FieldText {
            event: fields.event,
            id: fields.id,
            data: fields.data.push(text),
        }),
        text.len() == 0 || text[0] != ' ' ==> fields_after(fields, "data:"@ + text) == (FieldText {
            event: fields.event,
            id: fields.id,
            data: fields.data.push(text),
        }),
        event_ended(fields, "event:"@ + text) is None,
        event_ended(fields, "id:"@ + text) is None,
        event_ended(fields, "data:"@ + text) is None,
{
    reveal_strlit("event:");
    reveal_strlit("data:");
    reveal_strlit("id:");
    reveal_strlit(":");
    let name = "event:"@ + text;
    let id = "id:"@ + text;
    let data = "data:"@ + text;
    let spaced = "data:"@ + seq![' '] + text;
    lemma_prefix_by_first(name, 'e');
    lemma_prefix_by_first(id, 'i');
    lemma_prefix_by_first(data, 'd');
    lemma_prefix_by_first(spaced, 'd');
    law_prefix_is_taken_off(name, "event:"@, text);
    law_prefix_is_taken_off(id, "id:"@, text);
    law_data_lines_carry_their_rest(data, text);
    law_data_lines_carry_their_rest(spaced, text);
    assert(without_cr(name) == name);
    assert(without_cr(id) == id);
    assert(without_cr(data) == data);
    assert(without_cr(spaced) == spaced);
    assert(!"event:"@.is_prefix_of(data)) by {
        if "event:"@.is_prefix_of(data) {
            assert("event:"@[0] == data[0]);
        }
    }
    assert(!"event:"@.is_prefix_of(spaced)) by {
        if "event:"@.is_prefix_of(spaced) {
            assert("event:"@[0] == spaced[0]);
        }
    }
    assert(!"event:"@.is_prefix_of(id)) by {
        if "event:"@.is_prefix_of(id) {
            assert("event:"@[0] == id[0]);
        }
    }
    assert(!"data:"@.is_prefix_of(id)) by {
        if "data:"@.is_prefix_of(id) {
            assert("data:"@[0] == id[0]);
        }
    }
}

/// A text that begins with one character does not begin with another.
proof fn lemma_prefix_by_first(text: Seq<char>, first: char)
    requires
        text.len() > 0,
        text[0] == first,
        first != ':',
    ensures
        !":"@.is_prefix_of(text),
{
    reveal_strlit(":");
    if ":"@.is_prefix_of(text) {
        assert(":"@[0] == text[0]);
    }
}

/// A carriage return at the end of a line changes nothing that the line does.
pub proof fn law_a_carriage_return_ends_a_line_too(fields: FieldText, line: Seq<char>)
    requires
        line.len() > 0 ==> line.last() != '\r',
    ensures
        fields_after(fields, line.push('\r')) == fields_after(fields, line),
        event_ended(fields, line.push('\r')) == event_ended(fields, line),
{
    assert(line.push('\r').drop_last() =~= line);
    assert(without_cr(line.push('\r')) == line);
    assert(without_cr(line) == line);
}

/// An empty line ends the event that is arriving, with all of its fields and with its data lines in
/// their order, and leaves nothing of it; where nothing has arrived it ends none. A comment, and any
/// line that begins like none of the fields, does nothing.
pub proof fn law_an_empty_line_ends_the_event(fields: FieldText, line: Seq<char>)
    ensures
        fields_after(fields, Seq::empty()) == (FieldText {
            event: None,
            id: None,
            data: Seq::empty(),
        }),
        event_ended(fields, Seq::empty()) == (if fields.event is None && fields.id is None
            && fields.data.len() == 0 {
            None
        } else {
            Some(
                EventText {
                    event: fields.event,
                    id: fields.id,
                    data: joined(fields.data, seq!['\n']),
                },
            )
        }),
        line.len() > 0 && line != seq!['\r'] ==> event_ended(fields, line) is None,
        line.len() > 0 && line[0] == ':' ==> fields_after(fields, line) == fields,
{
    reveal_strlit("\n");
    reveal_strlit(":");
    assert("\n"@ =~= seq!['\n']);
    if fields.event is None && fields.id is None && fields.data.len() == 0 {
        assert(fields.data =~= Seq::empty());
    }
    if line.len() > 0 && line != seq!['\r'] && line.last() == '\r' && line.len() == 1 {
        assert(line =~= seq!['\r']);
    }
    if line.len() > 0 && line[0] == ':' {
        let bare = without_cr(line);
        assert(bare.len() > 0 && bare[0] == ':');
        assert(":"@ =~= bare.take(1));
    }
}

/// The name of an event counts without regard to case; without a name it is a message; and an event
/// that announces an endpoint is no message.
pub proof fn law_event_names(name: Seq<char>)
    ensures
        event_name(None) == "message"@,
        event_name(Some(name)) == name,
        is_message_name(name) <==> same_ignoring_ascii_case(name, "message"@),
        is_endpoint_name(name) <==> same_ignoring_ascii_case(name, "endpoint"@)
            || same_ignoring_ascii_case(name, "mcp-endpoint"@),
        !(is_message_name(name) && is_endpoint_name(name)),
{
    reveal_strlit("message");
    reveal_strlit("endpoint");
    reveal_strlit("mcp-endpoint");
    law_case_is_ignored_for_ascii_letters_only(name, "message"@);
    law_case_is_ignored_for_ascii_letters_only(name, "endpoint"@);
    law_case_is_ignored_for_ascii_letters_only(name, "mcp-endpoint"@);
}

/// What an event hands to a decoder depends on its name and its data alone: the text of the data of
/// every message that is not blank, whatever its identifier and whatever it says, and nothing of any
/// other event.
pub proof fn law_messages_hand_over_their_data(
    event: Option<Seq<char>>,
    id: Option<Seq<char>>,
    other_id: Option<Seq<char>>,
    data: Seq<char>,
)
    ensures
        message_payload(EventText { event, id, data }) == message_payload(
            EventText { event, id: other_id, data },
        ),
        (event matches Some(name) ==> same_ignoring_ascii_case(name, "message"@)) && trimmed(
            data,
        ).len() > 0 ==> message_payload(EventText { event, id, data }) == Some(
            extracted_json(trimmed(data)),
        ),
        trimmed(data).len() == 0 || (event matches Some(name) && !same_ignoring_ascii_case(
            name,
            "message"@,
        )) ==> message_payload(EventText { event, id, data }) is None,
{
    law_event_names(event_name(event));
    law_case_is_ignored_for_ascii_letters_only("message"@, "message"@);
}

/// Fields of different kinds can arrive in either order.
pub proof fn law_fields_arrive_in_any_order(
    fields: FieldText,
    name: Seq<char>,
    id: Seq<char>,
    data: Seq<char>,
)
    requires
        name.len() > 0 ==> name.last() != '\r',
        id.len() > 0 ==> id.last() != '\r',
        data.len() > 0 ==> data.last() != '\r',
    ensures
        fields_after(fields_after(fields, "id:"@ + id), "data:"@ + seq![' '] + data)
            == fields_after(fields_after(fields, "data:"@ + seq![' '] + data), "id:"@ + id),
        fields_after(fields_after(fields, "event:"@ + name), "data:"@ + seq![' '] + data)
            == fields_after(fields_after(fields, "data:"@ + seq![' '] + data), "event:"@ + name),
        fields_after(fields_after(fields, "event:"@ + name), "id:"@ + id) == fields_after(
            fields_after(fields, "id:"@ + id),
            "event:"@ + name,
        ),
{
    law_each_line_sets_its_field(fields, name);
    law_each_line_sets_its_field(fields, id);
    law_each_line_sets_its_field(fields, data);
    law_each_line_sets_its_field(fields_after(fields, "id:"@ + id), data);
    law_each_line_sets_its_field(fields_after(fields, "data:"@ + seq![' '] + data), id);
    law_each_line_sets_its_field(fields_after(fields, "event:"@ + name), data);
    law_each_line_sets_its_field(fields_after(fields, "data:"@ + seq![' '] + data), name);
    law_each_line_sets_its_field(fields_after(fields, "event:"@ + name), id);
    law_each_line_sets_its_field(fields_after(fields, "id:"@ + id), name);
}

/// An `id:` line, wherever it stands among the lines of an event, changes the identifier of the event
/// and nothing else: the events of a list of lines have the same names and data with it and without
/// it, as long as it does not make an event of nothing.
pub proof fn law_identifiers_change_nothing_else(
    before: Seq<Seq<char>>,
    id: Seq<char>,
    after: Seq<Seq<char>>,
)
    requires
        id.len() > 0 ==> id.last() != '\r',
        forall|i: int| 0 <= i < after.len() ==> without_cr(#[trigger] after[i]).len() > 0,
    ensures
        fields_after_all(before.push("id:"@ + id) + after).event == fields_after_all(
            before + after,
        ).event,
        fields_after_all(before.push("id:"@ + id) + after).data == fields_after_all(
            before + after,
        ).data,
        events_of(before.push("id:"@ + id) + after) == events_of(before + after),
    decreases after.len(),
{
    let line = "id:"@ + id;
    let whole = before.push(line) + after;
    if after.len() == 0 {
        law_each_line_sets_its_field(fields_after_all(before), id);
        assert(whole.drop_last() =~= before);
        assert(whole.last() == line);
        assert(before + after =~= before);
    } else {
        let front = after.drop_last();
        assert forall|i: int| 0 <= i < front.len() implies without_cr(#[trigger] front[i]).len()
            > 0 by {
            assert(front[i] == after[i]);
        }
        law_identifiers_change_nothing_else(before, id, front);
        assert(without_cr(after[after.len() - 1]).len() > 0);
        assert(whole.drop_last() =~= before.push(line) + front);
        assert(whole.last() == after.last());
        assert((before + after).drop_last() =~= before + front);
        assert((before + after).last() == after.last());
    }
}

/// Two events with the same name and the same data hand over the same text, whatever their
/// identifiers.
pub proof fn law_identifiers_do_not_change_the_message(
    event: &SseEvent,
    other: &SseEvent,
    payload: Option<String>,
    other_payload: Option<String>,
)
    requires
        call_ensures(message_payload_text, (event,), payload),
        call_ensures(message_payload_text, (other,), other_payload),
        event.text().event == other.text().event,
        event.text().data == other.text().data,
    ensures
        text_of(payload) == text_of(other_payload),
{
    let text = event.text();
    law_messages_hand_over_their_data(text.event, text.id, other.text().id, text.data);
}

} // verus!
