//! What the reader of an event stream and the senders of messages share.
use std::collections::HashMap;

use serde_json::Value;
use vstd::prelude::*;

use crate::endpoint::{announced_url, parse_endpoint_from_data};
use crate::json::{as_u64, json_parse, json_u64, parse_json};
use crate::protocol::JsonRpcResponse;
use crate::sse_stream::{
    announces_endpoint, event_ended, event_name, events_of, fields_after, fields_after_all,
    is_endpoint_name, is_message_name, law_event_names, name_or_message, no_fields, text_of,
    EventText, FieldText, SseLineBuffer,
};
use crate::text::{
    eq_ignore_ascii_case, law_case_is_ignored_for_ascii_letters_only, same_ignoring_ascii_case, trim,
    trimmed,
};

verus! {

/// What the reader of an event stream and the senders of messages share. `T` is the end through
/// which a response reaches the one who waits for it.
pub struct SseSharedState<T> {
    /// Where messages are posted, once that is known.
    pub message_url: Option<String>,
    /// Whether the server announced that URL, rather than it being derived.
    pub message_url_from_endpoint: bool,
    /// Who waits for the response of each request, by the request's identifier.
    pub pending: HashMap<u64, T>,
}

/// What follows from an event.
pub enum SseEffect<T> {
    /// Nothing.
    Ignored,
    /// Those who wait for the endpoint can go on.
    EndpointAnnounced,
    /// A response goes to the one who waits for it.
    Deliver { sender: T, response: JsonRpcResponse },
    /// Nobody waits for the response with this identifier.
    Unmatched { id: u64 },
}

/// Whether `decoded` is what `decode` makes of a value.
pub open spec fn value_decodes_to<D: Fn(&Value) -> Option<JsonRpcResponse>>(
    decode: D,
    value: Value,
    decoded: Option<JsonRpcResponse>,
) -> bool {
    call_ensures(decode, (&value,), decoded)
}

/// Whether `decode` takes every value.
pub open spec fn decodes_any_value<D: Fn(&Value) -> Option<JsonRpcResponse>>(decode: D) -> bool {
    forall|v: &Value| #[trigger] call_requires(decode, (v,))
}

impl<T> SseSharedState<T> {
    /// A state in which nothing is known and nobody waits.
    pub open spec fn is_initial(self) -> bool {
        &&& self.message_url is None
        &&& !self.message_url_from_endpoint
        &&& self.pending@ == Map::<u64, T>::empty()
    }

    /// A state in which nothing is known and nobody waits.
    pub fn new() -> (state: Self)
        ensures
            state.is_initial(),
    {
        SseSharedState {
            message_url: None,
            message_url_from_endpoint: false,
            pending: HashMap::new(),
        }
    }

    /// Forgets the endpoint and everyone who waits, so that the next send begins anew.
    pub fn reset(&mut self)
        ensures
            final(self).is_initial(),
    {
        self.message_url = None;
        self.message_url_from_endpoint = false;
        self.pending.clear();
    }

    /// Takes everyone who waits out of the state, once the stream is closed.
    pub fn close_stream(&mut self) -> (waiting: HashMap<u64, T>)
        ensures
            waiting@ == old(self).pending@,
            final(self).pending@ == Map::<u64, T>::empty(),
            final(self).message_url == old(self).message_url,
            final(self).message_url_from_endpoint == old(self).message_url_from_endpoint,
    {
        let mut waiting: HashMap<u64, T> = HashMap::new();
        std::mem::swap(&mut waiting, &mut self.pending);
        waiting
    }

    /// Enters one who waits for a response.
    pub fn register(&mut self, id: u64, sender: T)
        ensures
            final(self).pending@ == old(self).pending@.insert(id, sender),
            final(self).message_url == old(self).message_url,
            final(self).message_url_from_endpoint == old(self).message_url_from_endpoint,
    {
        self.pending.insert(id, sender);
    }

    /// Strikes out one who waits for a response.
    pub fn unregister(&mut self, id: u64) -> (sender: Option<T>)
        ensures
            final(self).pending@ == old(self).pending@.remove(id),
            sender == (if old(self).pending@.contains_key(id) {
                Some(old(self).pending@[id])
            } else {
                None
            }),
            final(self).message_url == old(self).message_url,
            final(self).message_url_from_endpoint == old(self).message_url_from_endpoint,
    {
        let sender = self.pending.remove(&id);
        assert(self.pending@ =~= old(self).pending@.remove(id));
        sender
    }

    /// The URL that the server announced, if it did.
    pub open spec fn announced(self) -> Option<Seq<char>> {
        if self.message_url_from_endpoint {
            text_of(self.message_url)
        } else {
            None
        }
    }

    /// The URL that the server announced, if it did.
    pub fn endpoint(&self) -> (url: Option<String>)
        ensures
            text_of(url) == self.announced(),
    {
        if self.message_url_from_endpoint {
            self.message_url.clone()
        } else {
            None
        }
    }

    /// What follows from a response: it goes to the one who waits under its identifier, if that is
    /// a number and somebody does.
    pub open spec fn delivers(
        self,
        after: Self,
        effect: SseEffect<T>,
        response: JsonRpcResponse,
    ) -> bool {
        &&& after.message_url == self.message_url
        &&& after.message_url_from_endpoint == self.message_url_from_endpoint
        &&& match response.numeric_id() {
            None => after.pending@ == self.pending@ && effect is Ignored,
            Some(id) => {
                &&& after.pending@ == self.pending@.remove(id)
                &&& if self.pending@.contains_key(id) {
                    effect == (SseEffect::Deliver { sender: self.pending@[id], response })
                } else {
                    effect == SseEffect::<T>::Unmatched { id }
                }
            },
        }
    }

    /// Finds the one who waits for a response.
    pub fn deliver(&mut self, response: JsonRpcResponse) -> (effect: SseEffect<T>)
        ensures
            old(self).delivers(*final(self), effect, response),
    {
        let id: Option<u64> = match &response.id {
            Some(value) => as_u64(value),
            None => None,
        };
        match id {
            None => SseEffect::Ignored,
            Some(id) => match self.unregister(id) {
                Some(sender) => SseEffect::Deliver { sender, response },
                None => SseEffect::Unmatched { id },
            },
        }
    }

    /// What follows from an event. Blank data, and events that neither announce an endpoint nor are
    /// messages, have no effect; an endpoint that can be resolved is recorded; a message that is a
    /// response is delivered.
    pub open spec fn handles<D: Fn(&Value) -> Option<JsonRpcResponse>>(
        self,
        after: Self,
        effect: SseEffect<T>,
        sse_url: Seq<char>,
        event: Option<Seq<char>>,
        data: Seq<char>,
        decode: D,
    ) -> bool {
        let name = event_name(event);
        let text = trimmed(data);
        if text.len() > 0 && is_endpoint_name(name) && announced_url(sse_url, text) is Some {
            &&& text_of(after.message_url) == announced_url(sse_url, text)
            &&& after.message_url_from_endpoint
            &&& after.pending == self.pending
            &&& effect is EndpointAnnounced
        } else if text.len() > 0 && !is_endpoint_name(name) && is_message_name(name) && json_parse(
            text,
        ) is Some {
            ||| {
                &&& value_decodes_to(decode, json_parse(text)->0, None)
                &&& after == self
                &&& effect is Ignored
            }
            ||| exists|response: JsonRpcResponse|
                value_decodes_to(decode, json_parse(text)->0, Some(response))
                    && #[trigger] self.delivers(after, effect, response)
        } else {
            &&& after == self
            &&& effect is Ignored
        }
    }
}

/// Handles one event of the stream.
pub fn handle_sse_event<T, D: Fn(&Value) -> Option<JsonRpcResponse>>(
    sse_url: &str,
    shared: &mut SseSharedState<T>,
    event: Option<&str>,
    data: &str,
    decode: &D,
) -> (effect: SseEffect<T>)
    requires
        decodes_any_value(*decode),
    ensures
        old(shared).handles(
            *final(shared),
            effect,
            sse_url@,
            match event {
                Some(e) => Some(e@),
                None => None,
            },
            data@,
            *decode,
        ),
{
    let name = name_or_message(event);
    let text = trim(data);
    if text.is_empty() {
        return SseEffect::Ignored;
    }
    if announces_endpoint(name) {
        return match parse_endpoint_from_data(sse_url, text) {
            Some(url) => {
                shared.message_url = Some(url);
                shared.message_url_from_endpoint = true;
                SseEffect::EndpointAnnounced
            },
            None => SseEffect::Ignored,
        };
    }
    if !eq_ignore_ascii_case(name, "message") {
        return SseEffect::Ignored;
    }
    match parse_json(text) {
        Some(value) => match decode(&value) {
            Some(response) => shared.deliver(response),
            None => SseEffect::Ignored,
        },
        None => SseEffect::Ignored,
    }
}

/// Whether a line of an event stream leads to `after` and `effect` after the fields that have
/// arrived: the event that it ends is handled, and where it ends none nothing happens.
pub open spec fn takes_line<T, D: Fn(&Value) -> Option<JsonRpcResponse>>(
    before: SseSharedState<T>,
    after: SseSharedState<T>,
    effect: SseEffect<T>,
    sse_url: Seq<char>,
    fields: FieldText,
    line: Seq<char>,
    decode: D,
) -> bool {
    match event_ended(fields, line) {
        Some(event) => before.handles(after, effect, sse_url, event.event, event.data, decode),
        None => after == before && effect is Ignored,
    }
}

/// Reads the event stream of a server and handles its events.
pub struct SseStreamReader {
    /// The URL of the stream.
    pub sse_url: String,
    /// The event that is arriving.
    pub buffer: SseLineBuffer,
}

impl SseStreamReader {
    /// A reader before the first line.
    pub fn new(sse_url: &str) -> (reader: Self)
        ensures
            reader.sse_url@ == sse_url@,
            reader.buffer.fields() == no_fields(),
    {
        SseStreamReader { sse_url: sse_url.to_string(), buffer: SseLineBuffer::new() }
    }

    /// Takes one line of the stream, and handles the event that it ends.
    pub fn on_line<T, D: Fn(&Value) -> Option<JsonRpcResponse>>(
        &mut self,
        line: &str,
        shared: &mut SseSharedState<T>,
        decode: &D,
    ) -> (effect: SseEffect<T>)
        requires
            decodes_any_value(*decode),
        ensures
            final(self).sse_url == old(self).sse_url,
            final(self).buffer.fields() == fields_after(old(self).buffer.fields(), line@),
            takes_line(
                *old(shared),
                *final(shared),
                effect,
                old(self).sse_url@,
                old(self).buffer.fields(),
                line@,
                *decode,
            ),
    {
        match self.buffer.feed(line) {
            Some(ended) => {
                let name = match &ended.event {
                    Some(event) => Some(event.as_str()),
                    None => None,
                };
                handle_sse_event(self.sse_url.as_str(), shared, name, ended.data.as_str(), decode)
            },
            None => SseEffect::Ignored,
        }
    }
}

/// Whether a list of lines, taken one by one from the beginning, leads through `states` with
/// `effects`.
pub open spec fn takes_lines<T, D: Fn(&Value) -> Option<JsonRpcResponse>>(
    states: Seq<SseSharedState<T>>,
    effects: Seq<SseEffect<T>>,
    sse_url: Seq<char>,
    lines: Seq<Seq<char>>,
    decode: D,
) -> bool {
    &&& states.len() == lines.len() + 1
    &&& effects.len() == lines.len()
    &&& forall|i: int|
        0 <= i < lines.len() ==> takes_line(
            states[i],
            states[i + 1],
            #[trigger] effects[i],
            sse_url,
            fields_after_all(lines.take(i)),
            lines[i],
            decode,
        )
}

/// Whether handling a list of events one by one leads through `states` with `effects`.
pub open spec fn handles_events<T, D: Fn(&Value) -> Option<JsonRpcResponse>>(
    states: Seq<SseSharedState<T>>,
    effects: Seq<SseEffect<T>>,
    sse_url: Seq<char>,
    events: Seq<EventText>,
    decode: D,
) -> bool {
    &&& states.len() == events.len() + 1
    &&& effects.len() == events.len()
    &&& forall|k: int|
        0 <= k < events.len() ==> states[k].handles(
            states[k + 1],
            #[trigger] effects[k],
            sse_url,
            events[k].event,
            events[k].data,
            decode,
        )
}

/// The effects that are more than nothing.
pub open spec fn true_effects<T>(effects: Seq<SseEffect<T>>) -> Seq<SseEffect<T>>
    decreases effects.len(),
{
    if effects.len() == 0 {
        Seq::empty()
    } else if effects.last() is Ignored {
        true_effects(effects.drop_last())
    } else {
        true_effects(effects.drop_last()).push(effects.last())
    }
}

/// Taking an event stream line by line is handling its events one by one: there is a way through the
/// events that begins and ends in the same states and has the same effects.
pub proof fn law_lines_are_taken_event_by_event<T, D: Fn(&Value) -> Option<JsonRpcResponse>>(
    states: Seq<SseSharedState<T>>,
    effects: Seq<SseEffect<T>>,
    sse_url: Seq<char>,
    lines: Seq<Seq<char>>,
    decode: D,
) -> (way: (Seq<SseSharedState<T>>, Seq<SseEffect<T>>))
    requires
        takes_lines(states, effects, sse_url, lines, decode),
    ensures
        handles_events(way.0, way.1, sse_url, events_of(lines), decode),
        way.0.first() == states.first(),
        way.0.last() == states.last(),
        true_effects(way.1) == true_effects(effects),
    decreases lines.len(),
{
    if lines.len() == 0 {
        (states, effects)
    } else {
        let n = lines.len() - 1;
        let front = lines.drop_last();
        let earlier = states.drop_last();
        let first = effects.drop_last();
        assert forall|i: int| 0 <= i < front.len() implies takes_line(
            earlier[i],
            earlier[i + 1],
            #[trigger] first[i],
            sse_url,
            fields_after_all(front.take(i)),
            front[i],
            decode,
        ) by {
            assert(first[i] == effects[i]);
            assert(front.take(i) =~= lines.take(i));
        }
        let way = law_lines_are_taken_event_by_event(earlier, first, sse_url, front, decode);
        assert(lines.take(n) =~= front);
        assert(effects[n] == effects.last());
        assert(earlier.last() == states[n]);
        match event_ended(fields_after_all(front), lines.last()) {
            Some(event) => {
                let through = way.0.push(states.last());
                let seen = way.1.push(effects.last());
                let events = events_of(lines);
                assert forall|k: int| 0 <= k < events.len() implies through[k].handles(
                    through[k + 1],
                    #[trigger] seen[k],
                    sse_url,
                    events[k].event,
                    events[k].data,
                    decode,
                ) by {
                    if k < events.len() - 1 {
                        assert(seen[k] == way.1[k]);
                        assert(events[k] == events_of(front)[k]);
                    }
                }
                assert(seen.drop_last() =~= way.1);
                (through, seen)
            },
            None => way,
        }
    }
}

/// A response reaches the one who waits for it, who waits no longer, and leaves all others waiting.
pub proof fn law_a_response_is_delivered_once<T>(
    before: SseSharedState<T>,
    after: SseSharedState<T>,
    effect: SseEffect<T>,
    response: JsonRpcResponse,
    id: u64,
)
    requires
        before.delivers(after, effect, response),
        response.numeric_id() == Some(id),
    ensures
        before.pending@.contains_key(id) <==> effect is Deliver,
        effect matches SseEffect::Deliver { sender, response: r } ==> sender == before.pending@[id]
            && r == response,
        !after.pending@.contains_key(id),
        forall|other: u64|
            other != id ==> after.pending@.contains_key(other) == before.pending@.contains_key(other)
                && (before.pending@.contains_key(other) ==> after.pending@[other]
                == before.pending@[other]),
{
}

/// No event but an endpoint event changes where messages are posted, and none but a message takes
/// away one who waits.
pub proof fn law_events_keep_to_their_part<T, D: Fn(&Value) -> Option<JsonRpcResponse>>(
    before: SseSharedState<T>,
    after: SseSharedState<T>,
    effect: SseEffect<T>,
    sse_url: Seq<char>,
    event: Option<Seq<char>>,
    data: Seq<char>,
    decode: D,
)
    requires
        before.handles(after, effect, sse_url, event, data, decode),
    ensures
        !is_endpoint_name(event_name(event)) ==> after.message_url == before.message_url
            && after.message_url_from_endpoint == before.message_url_from_endpoint,
        is_endpoint_name(event_name(event)) ==> after.pending == before.pending,
        before.announced() is Some ==> after.announced() is Some,
{
}

/// Whether a decoder takes a value for a response to a number, whatever else the response holds.
pub open spec fn answers_number<D: Fn(&Value) -> Option<JsonRpcResponse>>(
    decode: D,
    value: Value,
    id: u64,
) -> bool {
    forall|decoded: Option<JsonRpcResponse>| #[trigger]
        value_decodes_to(decode, value, decoded) ==> (decoded matches Some(response)
            && response.id matches Some(given) && json_u64(given) == Some(id))
}

/// A message of the stream that is a response to a number reaches the one who waits under that
/// number, who waits no longer, whether it tells of a result or of an error; where nobody waits,
/// nobody gets it. Nothing else changes.
pub proof fn law_every_response_reaches_its_waiter<T, D: Fn(&Value) -> Option<JsonRpcResponse>>(
    before: SseSharedState<T>,
    after: SseSharedState<T>,
    effect: SseEffect<T>,
    sse_url: Seq<char>,
    event: Option<Seq<char>>,
    data: Seq<char>,
    decode: D,
    value: Value,
    id: u64,
)
    requires
        before.handles(after, effect, sse_url, event, data, decode),
        event matches Some(name) ==> same_ignoring_ascii_case(name, "message"@),
        trimmed(data).len() > 0,
        json_parse(trimmed(data)) == Some(value),
        answers_number(decode, value, id),
    ensures
        before.pending@.contains_key(id) ==> (effect matches SseEffect::Deliver {
            sender,
            response,
        } && sender == before.pending@[id] && value_decodes_to(decode, value, Some(response))),
        !before.pending@.contains_key(id) ==> effect == (SseEffect::<T>::Unmatched { id }),
        after.pending@ == before.pending@.remove(id),
        after.message_url == before.message_url,
        after.message_url_from_endpoint == before.message_url_from_endpoint,
{
    law_event_names(event_name(event));
    law_case_is_ignored_for_ascii_letters_only("message"@, "message"@);
    assert(!value_decodes_to(decode, value, None));
}

/// What every decoded response leads to, whatever it holds besides its identifier.
pub proof fn law_responses_are_told_apart_by_identifier_alone<T>(
    before: SseSharedState<T>,
    after: SseSharedState<T>,
    effect: SseEffect<T>,
    response: JsonRpcResponse,
)
    requires
        before.delivers(after, effect, response),
    ensures
        match response.id {
            Some(value) => match json_u64(value) {
                Some(id) => {
                    &&& after.pending@ == before.pending@.remove(id)
                    &&& if before.pending@.contains_key(id) {
                        effect == (SseEffect::Deliver { sender: before.pending@[id], response })
                    } else {
                        effect == (SseEffect::<T>::Unmatched { id })
                    }
                },
                None => effect is Ignored && after.pending@ == before.pending@,
            },
            None => effect is Ignored && after.pending@ == before.pending@,
        },
        after.message_url == before.message_url,
        after.message_url_from_endpoint == before.message_url_from_endpoint,
{
}

/// An endpoint event whose data announces a URL makes that the URL for messages, in place of whatever
/// was known, and tells those who look for it; whoever waits goes on waiting.
pub proof fn law_an_announced_endpoint_is_recorded<T, D: Fn(&Value) -> Option<JsonRpcResponse>>(
    before: SseSharedState<T>,
    after: SseSharedState<T>,
    effect: SseEffect<T>,
    sse_url: Seq<char>,
    name: Seq<char>,
    data: Seq<char>,
    decode: D,
    url: Seq<char>,
)
    requires
        before.handles(after, effect, sse_url, Some(name), data, decode),
        same_ignoring_ascii_case(name, "endpoint"@) || same_ignoring_ascii_case(
            name,
            "mcp-endpoint"@,
        ),
        trimmed(data).len() > 0,
        announced_url(sse_url, trimmed(data)) == Some(url),
    ensures
        after.message_url matches Some(text) && text@ == url,
        after.message_url_from_endpoint,
        after.announced() == Some(url),
        effect is EndpointAnnounced,
        after.pending == before.pending,
{
}

/// Events do nothing exactly where they have nothing to say: blank data, a name that is neither that
/// of an endpoint nor of a message, an endpoint that cannot be resolved, and a message that is no
/// JSON.
pub proof fn law_other_events_do_nothing<T, D: Fn(&Value) -> Option<JsonRpcResponse>>(
    before: SseSharedState<T>,
    after: SseSharedState<T>,
    effect: SseEffect<T>,
    sse_url: Seq<char>,
    event: Option<Seq<char>>,
    data: Seq<char>,
    decode: D,
)
    requires
        before.handles(after, effect, sse_url, event, data, decode),
        ({
            ||| trimmed(data).len() == 0
            ||| event matches Some(name) && !same_ignoring_ascii_case(name, "message"@)
                && !same_ignoring_ascii_case(name, "endpoint"@) && !same_ignoring_ascii_case(
                name,
                "mcp-endpoint"@,
            )
            ||| event matches Some(name) && (same_ignoring_ascii_case(name, "endpoint"@)
                || same_ignoring_ascii_case(name, "mcp-endpoint"@)) && announced_url(
                sse_url,
                trimmed(data),
            ) is None
            ||| (event matches Some(name) ==> same_ignoring_ascii_case(name, "message"@))
                && json_parse(trimmed(data)) is None
        }),
    ensures
        after == before,
        effect is Ignored,
{
    law_event_names(event_name(event));
    law_case_is_ignored_for_ascii_letters_only("message"@, "message"@);
}

/// A message that is no response has no effect, and one that is a response without a number for its
/// identifier has none either.
pub proof fn law_messages_without_a_number_do_nothing<
    T,
    D: Fn(&Value) -> Option<JsonRpcResponse>,
>(
    before: SseSharedState<T>,
    after: SseSharedState<T>,
    effect: SseEffect<T>,
    sse_url: Seq<char>,
    event: Option<Seq<char>>,
    data: Seq<char>,
    decode: D,
    value: Value,
)
    requires
        before.handles(after, effect, sse_url, event, data, decode),
        event matches Some(name) ==> same_ignoring_ascii_case(name, "message"@),
        json_parse(trimmed(data)) == Some(value),
        forall|decoded: Option<JsonRpcResponse>| #[trigger]
            value_decodes_to(decode, value, decoded) ==> (decoded matches Some(response) ==> (
            response.id matches Some(given) ==> json_u64(given) is None)),
    ensures
        effect is Ignored,
        after.pending@ == before.pending@,
        after.message_url == before.message_url,
        after.message_url_from_endpoint == before.message_url_from_endpoint,
{
    law_event_names(event_name(event));
    law_case_is_ignored_for_ascii_letters_only("message"@, "message"@);
}

/// A URL counts as announced exactly where it is known and the server announced it.
pub proof fn law_announced_urls<T>(state: SseSharedState<T>)
    ensures
        state.announced() is Some <==> state.message_url is Some
            && state.message_url_from_endpoint,
        state.announced() matches Some(url) ==> url == state.message_url->0@,
        state.is_initial() ==> state.announced() is None && state.message_url is None,
        state.is_initial() ==> forall|id: u64| !state.pending@.contains_key(id),
{
}

/// Who registers under a number gets the next response with that number, whatever the response holds,
/// and then waits no more; everyone else goes on waiting.
pub proof fn law_who_registers_gets_the_response<T>(
    first: &mut SseSharedState<T>,
    second: &mut SseSharedState<T>,
    id: u64,
    sender: T,
    response: JsonRpcResponse,
    effect: SseEffect<T>,
    other: u64,
)
    requires
        call_ensures(SseSharedState::<T>::register, (first, id, sender), ()),
        *old(second) == *final(first),
        call_ensures(SseSharedState::<T>::deliver, (second, response), effect),
        response.id matches Some(value) && json_u64(value) == Some(id),
    ensures
        effect == (SseEffect::Deliver { sender, response }),
        !final(second).pending@.contains_key(id),
        other != id ==> final(second).pending@.contains_key(other)
            == old(first).pending@.contains_key(other) && final(second).pending@[other]
            == old(first).pending@[other],
        final(second).message_url == old(first).message_url,
        final(second).message_url_from_endpoint == old(first).message_url_from_endpoint,
{
}

/// Who gives up waiting gets back what was registered, and nobody waits under that number any more;
/// a second registration takes the place of the first.
pub proof fn law_who_gives_up_is_forgotten<T>(
    first: &mut SseSharedState<T>,
    second: &mut SseSharedState<T>,
    id: u64,
    sender: T,
    given_back: Option<T>,
    other: u64,
)
    requires
        call_ensures(SseSharedState::<T>::register, (first, id, sender), ()),
        *old(second) == *final(first),
        call_ensures(SseSharedState::<T>::unregister, (second, id), given_back),
    ensures
        given_back == Some(sender),
        !final(second).pending@.contains_key(id),
        other != id ==> final(second).pending@.contains_key(other)
            == old(first).pending@.contains_key(other) && final(second).pending@[other]
            == old(first).pending@[other],
        final(second).message_url == old(first).message_url,
        final(second).message_url_from_endpoint == old(first).message_url_from_endpoint,
{
}

/// The end of a stream hands over everyone who waits, each under their number, and nobody is left; the
/// URL for messages stays known.
pub proof fn law_the_end_of_a_stream_reaches_everyone<T>(
    state: &mut SseSharedState<T>,
    waiting: HashMap<u64, T>,
    id: u64,
)
    requires
        call_ensures(SseSharedState::<T>::close_stream, (state,), waiting),
    ensures
        waiting@.contains_key(id) <==> old(state).pending@.contains_key(id),
        waiting@.contains_key(id) ==> waiting@[id] == old(state).pending@[id],
        !final(state).pending@.contains_key(id),
        final(state).message_url == old(state).message_url,
        final(state).message_url_from_endpoint == old(state).message_url_from_endpoint,
{
}

/// At first, and after a reset, nobody waits and no URL for messages is known.
pub proof fn law_nothing_is_known_at_first<T>(
    fresh: SseSharedState<T>,
    state: &mut SseSharedState<T>,
    id: u64,
)
    requires
        call_ensures(SseSharedState::<T>::new, (), fresh),
        call_ensures(SseSharedState::<T>::reset, (state,), ()),
    ensures
        !fresh.pending@.contains_key(id) && !final(state).pending@.contains_key(id),
        fresh.message_url is None && final(state).message_url is None,
        !fresh.message_url_from_endpoint && !final(state).message_url_from_endpoint,
{
}

/// An endpoint is known exactly where one was announced, and it is the URL for messages.
pub proof fn law_the_endpoint_is_the_announced_url<T>(
    state: &SseSharedState<T>,
    url: Option<String>,
)
    requires
        call_ensures(SseSharedState::<T>::endpoint, (state,), url),
    ensures
        url is Some <==> state.message_url_from_endpoint && state.message_url is Some,
        url matches Some(u) ==> (state.message_url matches Some(known) && u@ == known@),
{
}

/// A message of the stream reaches who waits under its number, with all that it holds, be it a result
/// or an error: where the decoder makes a response of its value, that response is delivered.
pub proof fn law_who_waits_gets_the_message<T, D: Fn(&Value) -> Option<JsonRpcResponse>>(
    sse_url: &str,
    shared: &mut SseSharedState<T>,
    event: Option<&str>,
    data: &str,
    decode: &D,
    effect: SseEffect<T>,
    value: Value,
    response: JsonRpcResponse,
    id: u64,
)
    requires
        call_ensures(handle_sse_event::<T, D>, (sse_url, shared, event, data, decode), effect),
        event matches Some(name) ==> same_ignoring_ascii_case(name@, "message"@),
        trimmed(data@).len() > 0,
        json_parse(trimmed(data@)) == Some(value),
        forall|decoded: Option<JsonRpcResponse>| #[trigger]
            call_ensures(*decode, (&value,), decoded) ==> decoded == Some(response),
        response.id matches Some(given) && json_u64(given) == Some(id),
        old(shared).pending@.contains_key(id),
    ensures
        effect == (SseEffect::Deliver { sender: old(shared).pending@[id], response }),
        final(shared).pending@ == old(shared).pending@.remove(id),
        final(shared).message_url == old(shared).message_url,
        final(shared).message_url_from_endpoint == old(shared).message_url_from_endpoint,
{
    let name = match event {
        Some(e) => Some(e@),
        None => None,
    };
    law_every_response_reaches_its_waiter(
        *old(shared),
        *final(shared),
        effect,
        sse_url@,
        name,
        data@,
        *decode,
        value,
        id,
    );
}

} // verus!
