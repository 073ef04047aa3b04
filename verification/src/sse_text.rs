//! JSON inside server-sent-event framing, as it arrives in one piece of text.
use std::borrow::Cow;

use vstd::prelude::*;

use crate::text::{
    after_prefix, contains, is_all, is_white_space, join, joined, law_prefix_is_taken_off,
    lemma_one_piece,
    lemma_pieces_concat, lemma_pieces_nonempty, lemma_trimmed_back_concat, lemma_trimmed_back_tail,
    lemma_trimmed_front_concat, lemma_trimmed_front_tail, lemma_trimmed_ignores_tail, occurs,
    occurs_at, pieces, split, starts_with, strip_prefix, texts, trim, trim_back, trim_front, trimmed,
    trimmed_back, trimmed_front, CharClass,
};

verus! {

/// `s` without one space at its front.
pub open spec fn without_space(s: Seq<char>) -> Seq<char> {
    match after_prefix(s, " "@) {
        Some(rest) => rest,
        None => s,
    }
}

/// `s` without one space at its front.
pub fn strip_space(s: &str) -> (r: &str)
    ensures
        r@ == without_space(s@),
{
    match strip_prefix(s, " ") {
        Some(rest) => rest,
        None => s,
    }
}

/// What a line carries for the data of an event, if it is a `data:` line.
pub open spec fn line_data(line: Seq<char>) -> Option<Seq<char>> {
    match after_prefix(line, "data:"@) {
        Some(rest) => Some(without_space(rest)),
        None => None,
    }
}

/// A line without the carriage returns at its back and the white space at its front.
pub open spec fn bare_line(line: Seq<char>) -> Seq<char> {
    trimmed_front(trimmed_back(line, CharClass::Only('\r')), CharClass::WhiteSpace)
}

/// The data of the events in a list of lines, as far as the last of them tell.
pub struct EventData {
    /// The data lines of the event that is not closed yet.
    pub open: Seq<Seq<char>>,
    /// The data lines of the last closed event that had any.
    pub closed: Seq<Seq<char>>,
}

/// The data of the events in a list of lines. A blank line closes an event.
pub open spec fn event_data(lines: Seq<Seq<char>>) -> EventData
    decreases lines.len(),
{
    if lines.len() == 0 {
        EventData { open: Seq::empty(), closed: Seq::empty() }
    } else {
        let before = event_data(lines.drop_last());
        let line = bare_line(lines.last());
        if line.len() == 0 {
            if before.open.len() > 0 {
                EventData { open: Seq::empty(), closed: before.open }
            } else {
                before
            }
        } else {
            match line_data(line) {
                Some(data) => EventData { open: before.open.push(data), closed: before.closed },
                None => before,
            }
        }
    }
}

/// The data lines of the last event that has any.
pub open spec fn last_event_data(lines: Seq<Seq<char>>) -> Seq<Seq<char>> {
    let data = event_data(lines);
    if data.open.len() > 0 {
        data.open
    } else {
        data.closed
    }
}

/// The JSON text in a response body: the data of its last event, or else the whole body.
pub open spec fn extracted_json(resp_text: Seq<char>) -> Seq<char> {
    let text = trimmed_front(resp_text, CharClass::Only('\u{feff}'));
    let data = last_event_data(pieces(text, '\n'));
    if data.len() > 0 {
        trimmed(joined(data, "\n"@))
    } else {
        trimmed(text)
    }
}

/// The JSON text in a response body that may be framed as server-sent events. A byte-order mark is
/// skipped; of several events the last one with data counts, and the lines of its data are joined.
pub fn extract_json_from_sse_text(resp_text: &str) -> (json: Cow<'_, str>)
    ensures
        json@ == extracted_json(resp_text@),
{
    let text = trim_front(resp_text, CharClass::Only('\u{feff}'));
    let lines = split(text, '\n');
    let mut current: Vec<String> = Vec::new();
    let mut last: Vec<String> = Vec::new();
    let mut i: usize = 0;
    while i < lines.len()
        invariant
            i <= lines@.len(),
            texts(current@) == event_data(texts(lines@).take(i as int)).open,
            texts(last@) == event_data(texts(lines@).take(i as int)).closed,
        decreases lines@.len() - i,
    {
        let ghost before = event_data(texts(lines@).take(i as int));
        assert(texts(lines@).take(i + 1).drop_last() == texts(lines@).take(i as int));
        assert(texts(lines@).take(i + 1).last() == lines@[i as int]@);
        let line = trim_front(
            trim_back(lines[i].as_str(), CharClass::Only('\r')),
            CharClass::WhiteSpace,
        );
        if line.is_empty() {
            if current.len() > 0 {
                last = current;
                current = Vec::new();
                assert(texts(current@) == Seq::<Seq<char>>::empty());
            }
        } else if let Some(rest) = strip_prefix(line, "data:") {
            current.push(strip_space(rest).to_string());
            assert(texts(current@) == before.open.push(without_space(rest@)));
        }
        i = i + 1;
    }
    assert(texts(lines@).take(i as int) == texts(lines@));
    let data = if current.len() > 0 {
        current
    } else {
        last
    };
    if data.len() == 0 {
        return Cow::Borrowed(trim(text));
    }
    let whole = join(&data, "\n");
    Cow::Owned(trim(whole.as_str()).to_string())
}

/// The string of a text that is borrowed or owned.
pub fn into_string(text: Cow<'_, str>) -> (s: String)
    ensures
        s@ == text@,
{
    match text {
        Cow::Borrowed(borrowed) => borrowed.to_string(),
        Cow::Owned(owned) => owned,
    }
}

/// Whether a text bears the marks of server-sent events.
pub open spec fn looks_like_sse(text: Seq<char>) -> bool {
    ||| "data:"@.is_prefix_of(text)
    ||| "event:"@.is_prefix_of(text)
    ||| occurs(text, "\ndata:"@)
    ||| occurs(text, "\nevent:"@)
}

/// Decides whether a text bears the marks of server-sent events.
pub fn looks_like_sse_text(text: &str) -> (b: bool)
    ensures
        b == looks_like_sse(text@),
{
    starts_with(text, "data:") || starts_with(text, "event:") || contains(text, "\ndata:")
        || contains(text, "\nevent:")
}

/// The text to read a JSON-RPC response from in the body of a response; nothing if the body is
/// blank.
pub open spec fn response_payload(resp_text: Seq<char>) -> Option<Seq<char>> {
    let text = trimmed(resp_text);
    if text.len() == 0 {
        None
    } else if looks_like_sse(text) {
        Some(extracted_json(text))
    } else {
        Some(text)
    }
}

/// The text to read a JSON-RPC response from in the body of a response, plain or framed as
/// server-sent events; `None` if the body is blank.
pub fn response_payload_text(resp_text: &str) -> (payload: Option<Cow<'_, str>>)
    ensures
        match payload {
            Some(text) => response_payload(resp_text@) == Some(text@),
            None => response_payload(resp_text@) is None,
        },
{
    let text = trim(resp_text);
    if text.is_empty() {
        return None;
    }
    if looks_like_sse_text(text) {
        Some(extract_json_from_sse_text(text))
    } else {
        Some(Cow::Borrowed(text))
    }
}

/// The text to read a JSON-RPC response from in the body of the reply to a posted message. Here
/// only data lines mark a body as server-sent events.
pub open spec fn posted_payload(body: Seq<char>) -> Option<Seq<char>> {
    let text = trimmed(body);
    if text.len() == 0 {
        None
    } else if occurs(text, "\ndata:"@) || "data:"@.is_prefix_of(text) {
        Some(extracted_json(text))
    } else {
        Some(text)
    }
}

/// The text to read a JSON-RPC response from in the body of the reply to a posted message; `None`
/// if the body is blank.
pub fn posted_payload_text(body: &str) -> (payload: Option<Cow<'_, str>>)
    ensures
        match payload {
            Some(text) => posted_payload(body@) == Some(text@),
            None => posted_payload(body@) is None,
        },
{
    let text = trim(body);
    if text.is_empty() {
        return None;
    }
    if contains(text, "\ndata:") || starts_with(text, "data:") {
        Some(extract_json_from_sse_text(text))
    } else {
        Some(Cow::Borrowed(text))
    }
}

/// Lines framed as the data of one event, without the blank line that closes it.
pub open spec fn data_frame(lines: Seq<Seq<char>>) -> Seq<char>
    decreases lines.len(),
{
    if lines.len() == 0 {
        Seq::empty()
    } else {
        data_frame(lines.drop_last()) + "data: "@ + lines.last() + "\n"@
    }
}

/// Whether a text can stand on a line of its own: it holds no line feed.
pub open spec fn is_line(text: Seq<char>) -> bool {
    !text.contains('\n')
}

/// The lines without the carriage returns at their backs.
pub open spec fn without_crs(lines: Seq<Seq<char>>) -> Seq<Seq<char>> {
    lines.map_values(|line: Seq<char>| trimmed_back(line, CharClass::Only('\r')))
}

/// The lines, each behind `data: `.
pub open spec fn data_lines(lines: Seq<Seq<char>>) -> Seq<Seq<char>> {
    lines.map_values(|line: Seq<char>| "data: "@ + line)
}

/// The data of an event, framed, is split into its lines and nothing.
proof fn lemma_frame_pieces(lines: Seq<Seq<char>>)
    requires
        forall|i: int| 0 <= i < lines.len() ==> is_line(#[trigger] lines[i]),
    ensures
        pieces(data_frame(lines), '\n') == data_lines(lines).push(Seq::empty()),
    decreases lines.len(),
{
    reveal_strlit("data: ");
    reveal_strlit("\n");
    if lines.len() == 0 {
        assert(data_lines(lines).push(Seq::empty()) =~= seq![Seq::<char>::empty()]);
    } else {
        let front = lines.drop_last();
        assert forall|i: int| 0 <= i < front.len() implies is_line(#[trigger] front[i]) by {
            assert(front[i] == lines[i]);
        }
        lemma_frame_pieces(front);
        assert(is_line(lines[lines.len() - 1]));
        let line = "data: "@ + lines.last();
        assert forall|i: int| 0 <= i < line.len() implies line[i] != '\n' by {
            if i >= 6 {
                assert(lines.last().contains(line[i]));
            }
        }
        lemma_one_piece(line, '\n');
        lemma_pieces_concat(data_frame(front), line, '\n');
        let most = data_frame(front) + line;
        assert(pieces(most, '\n') =~= data_lines(front).push(line));
        assert(data_frame(lines) =~= most + "\n"@);
        assert((most + "\n"@).drop_last() =~= most);
        assert(pieces(data_frame(lines), '\n') =~= data_lines(front).push(line).push(Seq::empty()));
        assert(data_lines(lines) =~= data_lines(front).push(line));
    }
}

/// A data line carries its data, but for carriage returns at its back.
proof fn lemma_data_line(line: Seq<char>)
    ensures
        bare_line("data: "@ + line).len() > 0,
        line_data(bare_line("data: "@ + line)) == Some(
            trimmed_back(line, CharClass::Only('\r')),
        ),
{
    let kept = trimmed_back(line, CharClass::Only('\r'));
    reveal_strlit("data: ");
    reveal_strlit("data:");
    reveal_strlit(" ");
    lemma_trimmed_back_concat("data: "@, line, CharClass::Only('\r'));
    let bare = "data: "@ + kept;
    assert(bare_line("data: "@ + line) == bare);
    assert("data:"@ =~= bare.take(5));
    let rest = bare.skip(5);
    assert(" "@ =~= rest.take(1));
    assert(rest.skip(1) =~= kept);
}

/// Data lines add to the data of the event that is open.
proof fn lemma_data_lines_add(before: Seq<Seq<char>>, lines: Seq<Seq<char>>)
    ensures
        event_data(before + data_lines(lines)).open == event_data(before).open + without_crs(lines),
        event_data(before + data_lines(lines)).closed == event_data(before).closed,
    decreases lines.len(),
{
    let all = before + data_lines(lines);
    if lines.len() == 0 {
        assert(all =~= before);
        assert(event_data(before).open + without_crs(lines) =~= event_data(before).open);
    } else {
        let front = lines.drop_last();
        lemma_data_lines_add(before, front);
        assert(data_lines(lines).drop_last() =~= data_lines(front));
        assert(all.drop_last() =~= before + data_lines(front));
        assert(all.last() == "data: "@ + lines.last());
        lemma_data_line(lines.last());
        assert(without_crs(lines) =~= without_crs(front).push(
            trimmed_back(lines.last(), CharClass::Only('\r')),
        ));
        assert(event_data(before).open + without_crs(lines) =~= (event_data(before).open
            + without_crs(front)).push(trimmed_back(lines.last(), CharClass::Only('\r'))));
    }
}

/// A blank line leaves no event open.
proof fn lemma_blank_line_closes(before: Seq<Seq<char>>)
    ensures
        event_data(before.push(Seq::empty())).open.len() == 0,
        event_data(before).open.len() > 0 ==> event_data(before.push(Seq::empty())).closed
            == event_data(before).open,
        event_data(before).open.len() == 0 ==> event_data(before.push(Seq::empty())) == event_data(
            before,
        ),
{
    let all = before.push(Seq::<char>::empty());
    assert(all.drop_last() =~= before);
    assert(bare_line(all.last()).len() == 0);
}

/// Where no event is open, the lines of an event and a blank line make its data the last.
proof fn lemma_event_lines(before: Seq<Seq<char>>, lines: Seq<Seq<char>>)
    requires
        event_data(before).open.len() == 0,
        lines.len() > 0,
    ensures
        last_event_data(before + data_lines(lines).push(Seq::empty()).push(Seq::empty()))
            == without_crs(lines),
{
    lemma_data_lines_add(before, lines);
    let all = before + data_lines(lines);
    assert(event_data(all).open =~= without_crs(lines));
    lemma_blank_line_closes(all);
    lemma_blank_line_closes(all.push(Seq::empty()));
    assert(before + data_lines(lines).push(Seq::empty()).push(Seq::empty()) =~= all.push(
        Seq::empty(),
    ).push(Seq::empty()));
}

/// What is framed as the data of one event is extracted again, but for carriage returns at the backs
/// of its lines and white space at its ends: the lines, each behind `data: `, and a blank line.
pub proof fn law_framed_data_is_extracted(lines: Seq<Seq<char>>)
    requires
        lines.len() > 0,
        forall|i: int| 0 <= i < lines.len() ==> is_line(#[trigger] lines[i]),
    ensures
        extracted_json(data_frame(lines) + "\n"@) == trimmed(joined(without_crs(lines), "\n"@)),
{
    lemma_frame_pieces(lines);
    reveal_strlit("\n");
    let text = data_frame(lines) + "\n"@;
    assert(text.drop_last() =~= data_frame(lines));
    assert(pieces(text, '\n') =~= data_lines(lines).push(Seq::empty()).push(Seq::empty()));
    lemma_event_lines(Seq::empty(), lines);
    assert(Seq::<Seq<char>>::empty() + pieces(text, '\n') =~= pieces(text, '\n'));
    lemma_frame_begins(lines);
    reveal_strlit("data:");
    assert(text[0] == data_frame(lines).take(5)[0]);
}

/// Framed data begins with `data:`.
proof fn lemma_frame_begins(lines: Seq<Seq<char>>)
    requires
        lines.len() > 0,
    ensures
        data_frame(lines).len() > 5,
        data_frame(lines).take(5) == "data:"@,
    decreases lines.len(),
{
    reveal_strlit("data: ");
    reveal_strlit("data:");
    let front = data_frame(lines.drop_last());
    if lines.len() > 1 {
        lemma_frame_begins(lines.drop_last());
        assert(data_frame(lines).take(5) =~= front.take(5));
    } else {
        assert(front =~= Seq::empty());
        assert(data_frame(lines).take(5) =~= "data: "@.take(5));
        assert("data: "@.take(5) =~= "data:"@);
    }
}

/// The lines of a body, without the byte-order marks at its front.
pub open spec fn body_lines(body: Seq<char>) -> Seq<Seq<char>> {
    pieces(trimmed_front(body, CharClass::Only('\u{feff}')), '\n')
}

/// Whether a list of lines holds a data line.
pub open spec fn holds_data_line(lines: Seq<Seq<char>>) -> bool {
    exists|i: int| 0 <= i < lines.len() && line_data(bare_line(#[trigger] lines[i])) is Some
}

/// Where there is a data line, an event has data.
proof fn lemma_data_line_counts(lines: Seq<Seq<char>>)
    requires
        holds_data_line(lines),
    ensures
        last_event_data(lines).len() > 0,
    decreases lines.len(),
{
    let i = choose|i: int| 0 <= i < lines.len() && line_data(bare_line(#[trigger] lines[i])) is Some;
    let front = lines.drop_last();
    if i == lines.len() - 1 {
        reveal_strlit("data:");
    } else {
        assert(front[i] == lines[i]);
        lemma_data_line_counts(front);
    }
}

/// Behind a blank line the data of further lines is gathered as if nothing had come before; what was
/// gathered before counts only until an event behind it closes.
proof fn lemma_gathered_anew(before: Seq<Seq<char>>, lines: Seq<Seq<char>>)
    requires
        event_data(before).open.len() == 0,
    ensures
        event_data(before + lines).open == event_data(lines).open,
        event_data(before + lines).closed == (if event_data(lines).closed.len() > 0 {
            event_data(lines).closed
        } else {
            event_data(before).closed
        }),
    decreases lines.len(),
{
    let all = before + lines;
    if lines.len() == 0 {
        assert(all =~= before);
        assert(event_data(before).open =~= event_data(lines).open);
    } else {
        lemma_gathered_anew(before, lines.drop_last());
        assert(all.drop_last() =~= before + lines.drop_last());
        assert(all.last() == lines.last());
    }
}

/// Of several events the last one with data counts, whatever stands before it: nothing before a
/// blank line matters to a body behind it that has a data line. The body begins with no byte-order
/// mark, which is skipped at the front of the whole only.
pub proof fn law_last_event_counts(earlier: Seq<char>, body: Seq<char>)
    requires
        holds_data_line(body_lines(body)),
        body.len() > 0 ==> body[0] != '\u{feff}',
    ensures
        extracted_json(earlier + "\n\n"@ + body) == extracted_json(body),
{
    reveal_strlit("\n\n");
    let mark = CharClass::Only('\u{feff}');
    let kept = trimmed_front(earlier, mark);
    let head = kept + "\n\n"@;
    assert(earlier + "\n\n"@ + body =~= earlier + ("\n\n"@ + body));
    lemma_trimmed_front_concat(earlier, "\n\n"@ + body, mark);
    assert(kept + ("\n\n"@ + body) =~= head + body);
    assert(head.drop_last() =~= kept.push('\n'));
    assert(kept.push('\n').drop_last() =~= kept);
    let before = pieces(kept, '\n').push(Seq::empty());
    assert(pieces(kept.push('\n'), '\n') =~= before);
    assert(pieces(head, '\n') =~= before.push(Seq::empty()));
    let lines = pieces(body, '\n');
    lemma_pieces_concat(head, body, '\n');
    assert(Seq::<char>::empty() + lines[0] =~= lines[0]);
    assert(pieces(head + body, '\n') =~= before + lines);
    lemma_blank_line_closes(pieces(kept, '\n'));
    lemma_gathered_anew(before, lines);
    assert(body_lines(body) == lines);
    lemma_data_line_counts(lines);
}

/// Lines without data behind others leave the last data as it was.
proof fn lemma_no_more_data(lines: Seq<Seq<char>>, more: Seq<Seq<char>>)
    requires
        !holds_data_line(more),
    ensures
        last_event_data(lines + more) == last_event_data(lines),
    decreases more.len(),
{
    let all = lines + more;
    if more.len() == 0 {
        assert(all =~= lines);
    } else {
        let front = more.drop_last();
        if holds_data_line(front) {
            let i = choose|i: int|
                0 <= i < front.len() && line_data(bare_line(#[trigger] front[i])) is Some;
            assert(more[i] == front[i]);
        }
        lemma_no_more_data(lines, front);
        assert(all.drop_last() =~= lines + front);
        assert(line_data(bare_line(more[more.len() - 1])) is None);
        assert(all.last() == more.last());
    }
}

/// What comes behind a body that has a data line changes nothing as long as it holds none itself:
/// keep-alives, other comments, other fields, blank lines.
pub proof fn law_keep_alives_behind_data_change_nothing(body: Seq<char>, more: Seq<char>)
    requires
        holds_data_line(body_lines(body)),
        !holds_data_line(pieces(more, '\n')),
    ensures
        extracted_json(body + "\n"@ + more) == extracted_json(body),
{
    reveal_strlit("\n");
    let mark = CharClass::Only('\u{feff}');
    let kept = trimmed_front(body, mark);
    assert(body + "\n"@ + more =~= body + ("\n"@ + more));
    lemma_trimmed_front_concat(body, "\n"@ + more, mark);
    let head = kept.push('\n');
    assert(kept + ("\n"@ + more) =~= head + more);
    assert(head.drop_last() =~= kept);
    let lines = pieces(kept, '\n');
    let last = pieces(more, '\n');
    assert(pieces(head, '\n') =~= lines.push(Seq::empty()));
    lemma_pieces_concat(head, more, '\n');
    assert(Seq::<char>::empty() + last[0] =~= last[0]);
    assert(pieces(head + more, '\n') =~= lines + last);
    lemma_no_more_data(lines, last);
    lemma_data_line_counts(lines);
}

/// A text with a carriage return before each line feed.
pub open spec fn with_crlf(text: Seq<char>) -> Seq<char>
    decreases text.len(),
{
    if text.len() == 0 {
        Seq::empty()
    } else if text.last() == '\n' {
        with_crlf(text.drop_last()) + seq!['\r', '\n']
    } else {
        with_crlf(text.drop_last()).push(text.last())
    }
}

/// Two texts in a row can be written with carriage returns one by one.
proof fn lemma_crlf_concat(a: Seq<char>, b: Seq<char>)
    ensures
        with_crlf(a + b) == with_crlf(a) + with_crlf(b),
    decreases b.len(),
{
    if b.len() == 0 {
        assert(a + b =~= a);
        assert(with_crlf(a) + with_crlf(b) =~= with_crlf(a));
    } else {
        lemma_crlf_concat(a, b.drop_last());
        assert((a + b).drop_last() =~= a + b.drop_last());
        assert(with_crlf(a + b) =~= with_crlf(a) + with_crlf(b));
    }
}

/// Byte-order marks are skipped alike with carriage returns and without.
proof fn lemma_crlf_trimmed(text: Seq<char>, class: CharClass)
    requires
        !class.holds('\r'),
        !class.holds('\n'),
    ensures
        trimmed_front(with_crlf(text), class) == with_crlf(trimmed_front(text, class)),
    decreases text.len(),
{
    if text.len() > 0 {
        let first = seq![text[0]];
        let rest = text.drop_first();
        assert(text =~= first + rest);
        lemma_crlf_concat(first, rest);
        assert(first.drop_last() =~= Seq::<char>::empty());
        assert(with_crlf(first.drop_last()) =~= Seq::<char>::empty());
        if class.holds(text[0]) {
            assert(with_crlf(first) =~= first);
            assert(with_crlf(text)[0] == text[0]);
            assert(with_crlf(text).drop_first() =~= with_crlf(rest));
            lemma_crlf_trimmed(rest, class);
        } else {
            assert(with_crlf(first)[0] == '\r' || with_crlf(first)[0] == text[0]);
            assert(with_crlf(text)[0] == with_crlf(first)[0]);
        }
    }
}

/// With carriage returns the lines are the same, but that each has one at its back that a line feed
/// ends.
proof fn lemma_crlf_pieces(text: Seq<char>)
    ensures
        pieces(with_crlf(text), '\n').len() == pieces(text, '\n').len() > 0,
        pieces(with_crlf(text), '\n').last() == pieces(text, '\n').last(),
        forall|i: int|
            0 <= i < pieces(text, '\n').len() - 1 ==> #[trigger] pieces(with_crlf(text), '\n')[i]
                == pieces(text, '\n')[i].push('\r'),
    decreases text.len(),
{
    if text.len() > 0 {
        let front = text.drop_last();
        lemma_crlf_pieces(front);
        let there = pieces(with_crlf(front), '\n');
        let whole = with_crlf(text);
        if text.last() == '\n' {
            let most = with_crlf(front).push('\r');
            assert(whole.drop_last() =~= most);
            assert(most.drop_last() =~= with_crlf(front));
            assert(pieces(most, '\n') == there.drop_last().push(there.last().push('\r')));
            assert(pieces(whole, '\n') == pieces(most, '\n').push(Seq::empty()));
        } else {
            assert(whole.drop_last() =~= with_crlf(front));
            assert(pieces(whole, '\n') == there.drop_last().push(there.last().push(text.last())));
        }
    }
}

/// Lines that are bare alike give the same data.
proof fn lemma_same_bare_lines(a: Seq<Seq<char>>, b: Seq<Seq<char>>)
    requires
        a.len() == b.len(),
        forall|i: int| 0 <= i < a.len() ==> bare_line(#[trigger] a[i]) == bare_line(b[i]),
    ensures
        event_data(a) == event_data(b),
    decreases a.len(),
{
    if a.len() > 0 {
        let x = a.drop_last();
        let y = b.drop_last();
        assert forall|i: int| 0 <= i < x.len() implies bare_line(#[trigger] x[i]) == bare_line(
            y[i],
        ) by {
            assert(x[i] == a[i] && y[i] == b[i]);
        }
        lemma_same_bare_lines(x, y);
        assert(bare_line(a[a.len() - 1]) == bare_line(b[b.len() - 1]));
    }
}

/// A body whose lines end with carriage return and line feed gives what it gives with line feeds
/// alone, if it has a data line.
pub proof fn law_crlf_framing_is_like_lf_framing(body: Seq<char>)
    requires
        holds_data_line(body_lines(body)),
    ensures
        extracted_json(with_crlf(body)) == extracted_json(body),
{
    let mark = CharClass::Only('\u{feff}');
    let text = trimmed_front(body, mark);
    lemma_crlf_trimmed(body, mark);
    lemma_crlf_pieces(text);
    let lines = pieces(text, '\n');
    let with = pieces(with_crlf(text), '\n');
    assert forall|i: int| 0 <= i < with.len() implies bare_line(#[trigger] with[i]) == bare_line(
        lines[i],
    ) by {
        if i < lines.len() - 1 {
            assert(with[i] == lines[i].push('\r'));
            assert(with[i].drop_last() =~= lines[i]);
        }
    }
    lemma_same_bare_lines(with, lines);
    lemma_data_line_counts(lines);
}

/// A line that is neither blank nor a data line, such as a comment, changes nothing wherever it
/// stands.
pub proof fn law_other_lines_are_passed_over(
    before: Seq<Seq<char>>,
    line: Seq<char>,
    after: Seq<Seq<char>>,
)
    requires
        bare_line(line).len() > 0,
        line_data(bare_line(line)) is None,
    ensures
        event_data(before.push(line) + after) == event_data(before + after),
    decreases after.len(),
{
    if after.len() == 0 {
        assert((before.push(line) + after).drop_last() =~= before);
        assert((before.push(line) + after).last() == line);
        assert(before + after =~= before);
    } else {
        law_other_lines_are_passed_over(before, line, after.drop_last());
        assert((before.push(line) + after).drop_last() =~= before.push(line) + after.drop_last());
        assert((before + after).drop_last() =~= before + after.drop_last());
    }
}

/// A body that bears no mark of server-sent events is read as it is, but for white space at its
/// ends.
pub proof fn law_plain_body_is_read_as_it_is(body: Seq<char>)
    requires
        trimmed(body).len() > 0,
        !looks_like_sse(trimmed(body)),
    ensures
        response_payload(body) == Some(trimmed(body)),
        posted_payload(body) == Some(trimmed(body)),
{
}

/// White space behind a line adds nothing to it but perhaps white space behind its data.
proof fn lemma_line_tail(line: Seq<char>, w: char) -> (tail: Seq<char>)
    requires
        is_white_space(w),
    ensures
        is_all(tail, CharClass::WhiteSpace),
        (bare_line(line).len() == 0) == (bare_line(line.push(w)).len() == 0),
        match line_data(bare_line(line)) {
            Some(data) => line_data(bare_line(line.push(w))) == Some(data + tail),
            None => line_data(bare_line(line.push(w))) is None,
        },
{
    let cr = CharClass::Only('\r');
    let kept = trimmed_back(line, cr);
    let bare = bare_line(line);
    let longer = line.push(w);
    assert(longer.drop_last() =~= line);
    if w == '\r' {
        assert(bare_line(longer) == bare);
        if line_data(bare) is Some {
            assert(line_data(bare)->0 + Seq::<char>::empty() =~= line_data(bare)->0);
        }
        return Seq::empty();
    }
    let crs = lemma_trimmed_back_tail(line, cr);
    let more = crs.push(w);
    assert(longer =~= kept + more);
    assert forall|i: int| 0 <= i < more.len() implies CharClass::WhiteSpace.holds(
        #[trigger] more[i],
    ) by {
        if i < crs.len() {
            assert(cr.holds(crs[i]));
        }
    }
    lemma_trimmed_front_tail(kept, more, CharClass::WhiteSpace);
    if bare.len() == 0 {
        reveal_strlit("data:");
        return Seq::empty();
    }
    let grown = bare + more;
    assert(bare_line(longer) == grown);
    reveal_strlit("data:");
    reveal_strlit(" ");
    if "data:"@.is_prefix_of(bare) {
        assert("data:"@ =~= grown.take(5));
        let rest = bare.skip(5);
        assert(grown.skip(5) =~= rest + more);
        if rest.len() > 0 {
            assert(rest.take(1) =~= seq![rest[0]]);
            assert((rest + more).take(1) =~= seq![rest[0]]);
            assert(" "@.is_prefix_of(rest) == " "@.is_prefix_of(rest + more));
            assert((rest + more).skip(1) =~= rest.skip(1) + more);
            more
        } else {
            assert(rest + more =~= more);
            assert(without_space(rest) =~= Seq::empty());
            assert(Seq::<char>::empty() + without_space(more) =~= without_space(more));
            assert(is_all(more.skip(1), CharClass::WhiteSpace)) by {
                assert forall|i: int| 0 <= i < more.len() - 1 implies CharClass::WhiteSpace.holds(
                    #[trigger] more.skip(1)[i],
                ) by {
                    assert(more.skip(1)[i] == more[i + 1]);
                }
            }
            without_space(more)
        }
    } else {
        if "data:"@.is_prefix_of(grown) {
            if bare.len() >= 5 {
                assert("data:"@ =~= bare.take(5));
            } else {
                assert(grown[4] == "data:"@[4]);
                assert(grown[4] == more[4 - bare.len()]);
                assert(CharClass::WhiteSpace.holds(more[4 - bare.len()]));
            }
        }
        Seq::empty()
    }
}

/// White space behind a body does not change what is extracted from it.
proof fn lemma_extracted_ignores_push(text: Seq<char>, w: char)
    requires
        is_white_space(w),
    ensures
        extracted_json(text.push(w)) == extracted_json(text),
{
    let mark = CharClass::Only('\u{feff}');
    lemma_trimmed_front_concat(text, seq![w], mark);
    assert(text.push(w) =~= text + seq![w]);
    let body = trimmed_front(text, mark);
    assert(trimmed_front(text.push(w), mark) =~= body.push(w));
    assert(body.push(w).drop_last() =~= body);
    assert(body.push(w) =~= body + seq![w]);
    lemma_trimmed_ignores_tail(body, seq![w]);
    let lines = pieces(body, '\n');
    lemma_pieces_nonempty(body, '\n');
    if w == '\n' {
        lemma_blank_line_closes(lines);
    } else {
        let front = lines.drop_last();
        let line = lines.last();
        assert(lines =~= front.push(line));
        let grown = front.push(line.push(w));
        assert(pieces(body.push(w), '\n') =~= grown);
        assert(grown.drop_last() =~= front);
        let tail = lemma_line_tail(line, w);
        if line_data(bare_line(line)) is Some {
            let data = line_data(bare_line(line))->0;
            let open = event_data(front).open;
            reveal_strlit("data:");
            assert(bare_line(line).len() > 0);
            assert(open.push(data).drop_last() =~= open);
            assert(open.push(data + tail).drop_last() =~= open);
            assert(joined(open.push(data + tail), "\n"@) =~= joined(open.push(data), "\n"@) + tail);
            lemma_trimmed_ignores_tail(joined(open.push(data), "\n"@), tail);
        }
    }
}

/// White space behind a body does not change what is extracted from it.
proof fn lemma_extracted_ignores_tail(text: Seq<char>, tail: Seq<char>)
    requires
        is_all(tail, CharClass::WhiteSpace),
    ensures
        extracted_json(text + tail) == extracted_json(text),
    decreases tail.len(),
{
    if tail.len() == 0 {
        assert(text + tail =~= text);
    } else {
        let t = tail.drop_last();
        assert forall|i: int| 0 <= i < t.len() implies CharClass::WhiteSpace.holds(
            #[trigger] t[i],
        ) by {
            assert(t[i] == tail[i]);
        }
        lemma_extracted_ignores_tail(text, t);
        assert(CharClass::WhiteSpace.holds(tail[tail.len() - 1]));
        lemma_extracted_ignores_push(text + t, tail.last());
        assert(text + tail =~= (text + t).push(tail.last()));
    }
}

/// A body framed as one event is read like the plain body: what is read is the text of its data, but
/// for carriage returns at the backs of its lines and white space at its ends.
pub proof fn law_framed_body_is_read_like_a_plain_one(lines: Seq<Seq<char>>)
    requires
        lines.len() > 0,
        forall|i: int| 0 <= i < lines.len() ==> is_line(#[trigger] lines[i]),
    ensures
        response_payload(data_frame(lines) + "\n"@) == Some(
            trimmed(joined(without_crs(lines), "\n"@)),
        ),
        posted_payload(data_frame(lines) + "\n"@) == Some(
            trimmed(joined(without_crs(lines), "\n"@)),
        ),
{
    let text = data_frame(lines) + "\n"@;
    reveal_strlit("data:");
    lemma_frame_begins(lines);
    assert("data:"@ =~= text.take(5));
    let rest = text.skip(5);
    assert(text =~= "data:"@ + rest);
    assert(trimmed_front(text, CharClass::WhiteSpace) == text);
    lemma_trimmed_back_concat("data:"@, rest, CharClass::WhiteSpace);
    let kept = trimmed(text);
    assert(kept == "data:"@ + trimmed_back(rest, CharClass::WhiteSpace));
    assert("data:"@ =~= kept.take(5));
    let tail = lemma_trimmed_back_tail(text, CharClass::WhiteSpace);
    lemma_extracted_ignores_tail(kept, tail);
    law_framed_data_is_extracted(lines);
}

/// A data line carries what stands behind `data:`, but for one space; a line that does not begin with
/// `data:` carries nothing.
pub proof fn law_data_lines_carry_their_rest(line: Seq<char>, rest: Seq<char>)
    ensures
        line_data("data:"@ + seq![' '] + rest) == Some(rest),
        rest.len() == 0 || rest[0] != ' ' ==> line_data("data:"@ + rest) == Some(rest),
        line_data(line) is Some <==> line.len() >= 5 && line.take(5) == "data:"@,
{
    reveal_strlit("data:");
    reveal_strlit(" ");
    let spaced = "data:"@ + seq![' '] + rest;
    assert(spaced =~= "data:"@ + (seq![' '] + rest));
    law_prefix_is_taken_off(spaced, "data:"@, seq![' '] + rest);
    assert(" "@ =~= seq![' ']);
    law_prefix_is_taken_off(seq![' '] + rest, " "@, rest);
    law_prefix_is_taken_off("data:"@ + rest, "data:"@, rest);
    if " "@.is_prefix_of(rest) {
        assert(rest[0] == " "@[0]);
    }
    if line.len() >= 5 && line.take(5) == "data:"@ {
        assert(line =~= "data:"@ + line.skip(5));
        law_prefix_is_taken_off(line, "data:"@, line.skip(5));
    }
    if "data:"@.is_prefix_of(line) {
        assert(line.take(5) =~= "data:"@);
    }
}

/// White space before a line and carriage returns behind it do not belong to it, and nothing else is
/// taken from it; a line of white space is blank.
pub proof fn law_bare_lines(lead: Seq<char>, core: Seq<char>, crs: Seq<char>)
    requires
        is_all(lead, CharClass::WhiteSpace),
        is_all(crs, CharClass::Only('\r')),
    ensures
        core.len() > 0 && !is_white_space(core[0]) && core.last() != '\r' ==> bare_line(
            lead + core + crs,
        ) == core,
        bare_line(lead).len() == 0,
{
    let cr = CharClass::Only('\r');
    let white = CharClass::WhiteSpace;
    if core.len() > 0 && !is_white_space(core[0]) && core.last() != '\r' {
        let head = lead + core;
        lemma_trimmed_back_concat(head, crs, cr);
        lemma_all_is_trimmed(crs, cr);
        assert(head + trimmed_back(crs, cr) =~= head);
        lemma_trimmed_front_concat(lead, core, white);
        assert(trimmed_front(lead, white).len() == 0) by {
            lemma_all_is_trimmed(lead, white);
        }
        assert(trimmed_front(lead, white) + core =~= core);
    }
    let kept = trimmed_back(lead, cr);
    let tail = lemma_trimmed_back_tail(lead, cr);
    assert forall|i: int| 0 <= i < kept.len() implies white.holds(#[trigger] kept[i]) by {
        assert((kept + tail)[i] == kept[i]);
        assert(white.holds(lead[i]));
    }
    lemma_all_is_trimmed(kept, white);
}

/// Nothing is left of a text all of whose characters are trimmed.
proof fn lemma_all_is_trimmed(s: Seq<char>, class: CharClass)
    requires
        is_all(s, class),
    ensures
        trimmed_front(s, class).len() == 0,
        trimmed_back(s, class).len() == 0,
    decreases s.len(),
{
    if s.len() > 0 {
        let rest = s.drop_first();
        assert forall|i: int| 0 <= i < rest.len() implies class.holds(#[trigger] rest[i]) by {
            assert(rest[i] == s[i + 1]);
        }
        lemma_all_is_trimmed(rest, class);
        let front = s.drop_last();
        assert forall|i: int| 0 <= i < front.len() implies class.holds(#[trigger] front[i]) by {
            assert(front[i] == s[i]);
        }
        lemma_all_is_trimmed(front, class);
        assert(class.holds(s[0]));
        assert(class.holds(s[s.len() - 1]));
    }
}

/// A byte-order mark at the front of a body is skipped, and a body without a data line is the result
/// itself, but for white space at its ends.
pub proof fn law_bodies_without_data_are_kept(body: Seq<char>)
    ensures
        extracted_json(seq!['\u{feff}'] + body) == extracted_json(body),
        !holds_data_line(body_lines(body)) && (body.len() > 0 ==> body[0] != '\u{feff}')
            ==> extracted_json(body) == trimmed(body),
{
    let marked = seq!['\u{feff}'] + body;
    assert(marked.drop_first() =~= body);
    if !holds_data_line(body_lines(body)) {
        lemma_no_more_data(Seq::empty(), body_lines(body));
        assert(Seq::<Seq<char>>::empty() + body_lines(body) =~= body_lines(body));
    }
}

/// Whether a line of a text begins with a mark of server-sent events.
pub open spec fn holds_marked_line(text: Seq<char>, mark: Seq<char>) -> bool {
    exists|i: int|
        0 <= i < pieces(text, '\n').len() && mark.is_prefix_of(#[trigger] pieces(text, '\n')[i])
}

/// A line of a text begins with a mark without line feeds exactly where the text does, or where the
/// mark stands behind a line feed in it.
proof fn lemma_marked_lines(text: Seq<char>, mark: Seq<char>)
    requires
        mark.len() > 0,
        !mark.contains('\n'),
    ensures
        holds_marked_line(text, mark) <==> mark.is_prefix_of(text) || occurs(
            text,
            seq!['\n'] + mark,
        ),
    decreases text.len(),
{
    let pattern = seq!['\n'] + mark;
    if text.contains('\n') {
        let i = choose|i: int| 0 <= i < text.len() && text[i] == '\n';
        let a = text.take(i);
        let b = text.skip(i + 1);
        let head = a.push('\n');
        assert(text =~= head + b);
        assert(head.drop_last() =~= a);
        let lines = pieces(a, '\n');
        let more = pieces(b, '\n');
        assert(pieces(head, '\n') =~= lines.push(Seq::empty()));
        lemma_pieces_concat(head, b, '\n');
        assert(Seq::<char>::empty() + more[0] =~= more[0]);
        let all = lines + more;
        assert(pieces(text, '\n') =~= all);
        lemma_marked_lines(a, mark);
        lemma_marked_lines(b, mark);
        if holds_marked_line(text, mark) {
            let k = choose|k: int|
                0 <= k < pieces(text, '\n').len() && mark.is_prefix_of(
                    #[trigger] pieces(text, '\n')[k],
                );
            if k < lines.len() {
                assert(lines[k] == all[k]);
                assert(holds_marked_line(a, mark));
                if mark.is_prefix_of(a) {
                    assert(mark =~= text.take(mark.len() as int));
                } else {
                    let p = choose|p: int| occurs_at(a, pattern, p);
                    assert(text.subrange(p, p + pattern.len()) =~= a.subrange(
                        p,
                        p + pattern.len(),
                    ));
                    assert(occurs_at(text, pattern, p));
                }
            } else {
                assert(more[k - lines.len()] == all[k]);
                assert(holds_marked_line(b, mark));
                if mark.is_prefix_of(b) {
                    assert(b.take(mark.len() as int) =~= mark);
                    assert(text.subrange(i, i + pattern.len()) =~= pattern);
                    assert(occurs_at(text, pattern, i));
                } else {
                    let p = choose|p: int| occurs_at(b, pattern, p);
                    let q = i + 1 + p;
                    assert(text.subrange(q, q + pattern.len()) =~= b.subrange(
                        p,
                        p + pattern.len(),
                    ));
                    assert(occurs_at(text, pattern, q));
                }
            }
        }
        if mark.is_prefix_of(text) {
            if mark.len() > i {
                assert(mark[i] == text[i]);
                assert(mark.contains(mark[i]));
            }
            assert(mark =~= a.take(mark.len() as int));
            let k = choose|k: int|
                0 <= k < pieces(a, '\n').len() && mark.is_prefix_of(
                    #[trigger] pieces(a, '\n')[k],
                );
            assert(all[k] == lines[k]);
            assert(mark.is_prefix_of(pieces(text, '\n')[k]));
        }
        if occurs(text, pattern) {
            let p = choose|p: int| occurs_at(text, pattern, p);
            assert(text.subrange(p, p + pattern.len())[0] == text[p]);
            if p < i {
                if p + pattern.len() > i {
                    assert(text.subrange(p, p + pattern.len())[i - p] == pattern[i - p]);
                    assert(mark[i - p - 1] == '\n');
                    assert(mark.contains(mark[i - p - 1]));
                }
                assert(a.subrange(p, p + pattern.len()) =~= text.subrange(p, p + pattern.len()));
                assert(occurs_at(a, pattern, p));
                let k = choose|k: int|
                    0 <= k < pieces(a, '\n').len() && mark.is_prefix_of(
                        #[trigger] pieces(a, '\n')[k],
                    );
                assert(all[k] == lines[k]);
                assert(mark.is_prefix_of(pieces(text, '\n')[k]));
            } else {
                if p == i {
                    assert(b.take(mark.len() as int) =~= text.subrange(
                        p,
                        p + pattern.len(),
                    ).skip(1));
                    assert(pattern.skip(1) =~= mark);
                    assert(mark.is_prefix_of(b));
                } else {
                    let r = p - i - 1;
                    assert(b.subrange(r, r + pattern.len()) =~= text.subrange(
                        p,
                        p + pattern.len(),
                    ));
                    assert(occurs_at(b, pattern, r));
                }
                let k = choose|k: int|
                    0 <= k < pieces(b, '\n').len() && mark.is_prefix_of(
                        #[trigger] pieces(b, '\n')[k],
                    );
                assert(all[lines.len() + k] == more[k]);
                assert(mark.is_prefix_of(pieces(text, '\n')[lines.len() + k]));
            }
        }
    } else {
        lemma_one_piece(text, '\n');
        assert(pieces(text, '\n')[0] == text);
        if occurs(text, pattern) {
            let p = choose|p: int| occurs_at(text, pattern, p);
            assert(text.subrange(p, p + pattern.len())[0] == text[p]);
            assert(text.contains(text[p]));
        }
    }
}

/// A text bears the marks of server-sent events exactly where one of its lines begins with `data:` or
/// `event:`.
pub proof fn law_marked_lines_mark_events(text: Seq<char>)
    ensures
        looks_like_sse(text) <==> holds_marked_line(text, "data:"@) || holds_marked_line(
            text,
            "event:"@,
        ),
{
    reveal_strlit("data:");
    reveal_strlit("event:");
    reveal_strlit("\ndata:");
    reveal_strlit("\nevent:");
    lemma_marked_lines(text, "data:"@);
    lemma_marked_lines(text, "event:"@);
    assert("\ndata:"@ =~= seq!['\n'] + "data:"@);
    assert("\nevent:"@ =~= seq!['\n'] + "event:"@);
}

/// A body of white space holds nothing. Any other is read by its data where a line of it is marked,
/// and as it is where none is. In the reply to a posted message only data lines are marks.
pub proof fn law_bodies_are_read_by_their_marks(body: Seq<char>)
    ensures
        trimmed(body).len() == 0 ==> response_payload(body) is None && posted_payload(body) is None,
        trimmed(body).len() > 0 ==> {
            &&& response_payload(body) == Some(
                if holds_marked_line(trimmed(body), "data:"@) || holds_marked_line(
                    trimmed(body),
                    "event:"@,
                ) {
                    extracted_json(trimmed(body))
                } else {
                    trimmed(body)
                },
            )
            &&& posted_payload(body) == Some(
                if holds_marked_line(trimmed(body), "data:"@) {
                    extracted_json(trimmed(body))
                } else {
                    trimmed(body)
                },
            )
        },
{
    law_marked_lines_mark_events(trimmed(body));
    reveal_strlit("data:");
    reveal_strlit("\ndata:");
    lemma_marked_lines(trimmed(body), "data:"@);
    assert("\ndata:"@ =~= seq!['\n'] + "data:"@);
}

} // verus!
