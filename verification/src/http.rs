//! HTTP requests and replies, as far as the transports read and write them.
use reqwest::header::{HeaderMap, HeaderValue};
use vstd::prelude::*;

use crate::config::has_distinct_keys;
use crate::text::{
    ascii_lowered, contains, decimal, eq_ignore_ascii_case, occurs, occurs_at,
    same_ignoring_ascii_case, to_ascii_lowercase,
};

verus! {

/// `http::HeaderValue`, the opaque value of a header.
#[verifier::external_type_specification]
#[verifier::external_body]
pub struct ExHeaderValue(HeaderValue);

/// `http::HeaderMap`, the headers of a reply.
#[verifier::external_type_specification]
#[verifier::external_body]
#[verifier::reject_recursive_types(T)]
pub struct ExHeaderMap<T>(HeaderMap<T>);

/// The first value that a header map holds under a name in lower case.
pub uninterp spec fn header_value(headers: HeaderMap<HeaderValue>, name: Seq<char>) -> Option<
    HeaderValue,
>;

/// The text that `HeaderValue::to_str` shows of a value, if all of it is visible ASCII.
pub uninterp spec fn header_value_text(value: HeaderValue) -> Option<Seq<char>>;

/// The number and the canonical reason of a status code, as `StatusCode` is displayed.
pub uninterp spec fn status_line(status: u16) -> Seq<char>;

/// The text of the first header of a given name, if there is one and it is visible ASCII.
pub open spec fn header_text(headers: HeaderMap<HeaderValue>, name: Seq<char>) -> Option<
    Seq<char>,
> {
    match header_value(headers, ascii_lowered(name)) {
        Some(value) => header_value_text(value),
        None => None,
    }
}

/// `HeaderMap::get` with a string: the first value under that name, in whatever case its letters
/// are written.
#[verifier::external_body]
pub(crate) fn get_header<'a>(headers: &'a HeaderMap<HeaderValue>, name: &str) -> (found: Option<
    &'a HeaderValue,
>)
    ensures
        match found {
            Some(value) => header_value(*headers, ascii_lowered(name@)) == Some(*value),
            None => header_value(*headers, ascii_lowered(name@)) is None,
        },
{
    headers.get(name)
}

/// `HeaderValue::to_str`: the text of a value whose bytes are all tabs or printable ASCII, and
/// nothing for any other value.
#[verifier::external_body]
pub(crate) fn header_str(value: &HeaderValue) -> (text: Option<&str>)
    ensures
        match text {
            Some(t) => {
                &&& header_value_text(*value) == Some(t@)
                &&& forall|i: int|
                    0 <= i < t@.len() ==> (' ' <= #[trigger] t@[i] && t@[i] <= '~') || t@[i]
                        == '\t'
            },
            None => header_value_text(*value) is None,
        },
{
    value.to_str().ok()
}

/// Displays `StatusCode::from_u16` of a number: the number, a space, and the canonical reason.
#[verifier::external_body]
pub(crate) fn display_status(status: u16) -> (text: String)
    requires
        100 <= status <= 999,
    ensures
        text@ == status_line(status),
        (decimal(status as nat) + " "@).is_prefix_of(text@),
{
    reqwest::StatusCode::from_u16(status).unwrap().to_string()
}

/// The text of the first header of a given name, if there is one and it is visible ASCII.
pub fn find_header<'a>(headers: &'a HeaderMap<HeaderValue>, name: &str) -> (text: Option<&'a str>)
    ensures
        match text {
            Some(t) => header_text(*headers, name@) == Some(t@),
            None => header_text(*headers, name@) is None,
        },
{
    match get_header(headers, name) {
        Some(value) => header_str(value),
        None => None,
    }
}

/// A request for the HTTP client to send.
#[derive(Debug, Clone)]
pub struct HttpRequest {
    /// Where the request goes.
    pub url: String,
    /// The body of a POST request; a GET request has none.
    pub body: Option<String>,
    /// The headers, each with its value, in the order in which they are added.
    pub headers: Vec<(String, String)>,
    /// The time that the whole request may take, in seconds.
    pub timeout_secs: Option<u64>,
}

/// Streamable HTTP `Accept` header required by the MCP HTTP transport.
pub const MCP_STREAMABLE_ACCEPT: &'static str = "application/json, text/event-stream";

/// Default media type for MCP JSON-RPC request bodies.
pub const MCP_JSON_CONTENT_TYPE: &'static str = "application/json";

/// Streamable HTTP session header used to preserve MCP server state.
pub const MCP_SESSION_ID_HEADER: &'static str = "Mcp-Session-Id";

/// The texts of a list of headers.
pub open spec fn header_texts(headers: Seq<(String, String)>) -> Seq<(Seq<char>, Seq<char>)> {
    headers.map_values(|h: (String, String)| (h.0@, h.1@))
}

/// Lists with the same texts have distinct keys alike.
proof fn lemma_same_texts_same_keys(a: Seq<(String, String)>, b: Seq<(String, String)>)
    requires
        header_texts(a) == header_texts(b),
        has_distinct_keys(a),
    ensures
        has_distinct_keys(b),
{
    assert(header_texts(a).len() == a.len() && header_texts(b).len() == b.len());
    assert forall|i: int, j: int| 0 <= i < j < b.len() implies (#[trigger] b[i]).0@ != (
    #[trigger] b[j]).0@ by {
        assert(header_texts(a)[i] == (a[i].0@, a[i].1@) && header_texts(b)[i].0 == b[i].0@);
        assert(header_texts(a)[j] == (a[j].0@, a[j].1@) && header_texts(b)[j].0 == b[j].0@);
    }
}

/// Whether a list of headers names one, in whatever case its letters are written.
pub open spec fn names_header(headers: Seq<(Seq<char>, Seq<char>)>, name: Seq<char>) -> bool {
    exists|i: int|
        0 <= i < headers.len() && same_ignoring_ascii_case((#[trigger] headers[i]).0, name)
}

/// Decides whether a list of headers names one, in whatever case its letters are written.
pub fn has_header(headers: &Vec<(String, String)>, name: &str) -> (b: bool)
    ensures
        b == names_header(header_texts(headers@), name@),
{
    let mut i: usize = 0;
    while i < headers.len()
        invariant
            i <= headers@.len(),
            forall|j: int|
                0 <= j < i ==> !same_ignoring_ascii_case(
                    (#[trigger] header_texts(headers@)[j]).0,
                    name@,
                ),
        decreases headers@.len() - i,
    {
        assert(header_texts(headers@)[i as int] == (headers@[i as int].0@, headers@[i as int].1@));
        if eq_ignore_ascii_case(headers[i].0.as_str(), name) {
            return true;
        }
        i = i + 1;
    }
    false
}

/// Adds one header to the end of a list.
pub fn add_header(headers: &mut Vec<(String, String)>, name: &str, value: &str)
    ensures
        header_texts(final(headers)@) == header_texts(old(headers)@).push((name@, value@)),
{
    headers.push((name.to_string(), value.to_string()));
    assert(header_texts(headers@) == header_texts(old(headers)@).push((name@, value@)));
}

/// Adds headers to the end of a list, in their order.
pub fn add_headers(headers: &mut Vec<(String, String)>, more: &Vec<(String, String)>)
    ensures
        header_texts(final(headers)@) == header_texts(old(headers)@) + header_texts(more@),
{
    let mut i: usize = 0;
    assert(header_texts(headers@) == header_texts(headers@) + header_texts(more@).take(0));
    while i < more.len()
        invariant
            i <= more@.len(),
            header_texts(headers@) == header_texts(old(headers)@) + header_texts(more@).take(
                i as int,
            ),
        decreases more@.len() - i,
    {
        add_header(headers, more[i].0.as_str(), more[i].1.as_str());
        i = i + 1;
        assert(header_texts(more@).take(i as int) == header_texts(more@).take(i - 1).push(
            header_texts(more@)[i - 1],
        ));
    }
    assert(header_texts(more@).take(i as int) == header_texts(more@));
}

/// A copy of a list of headers, or of any other entries. No key occurs twice in it that does not in
/// the list.
pub(crate) fn copy_headers(entries: &Vec<(String, String)>) -> (copy: Vec<(String, String)>)
    ensures
        header_texts(copy@) == header_texts(entries@),
        has_distinct_keys(entries@) ==> has_distinct_keys(copy@),
{
    let mut copy: Vec<(String, String)> = Vec::new();
    add_headers(&mut copy, entries);
    assert(header_texts(copy@) =~= header_texts(entries@));
    proof {
        if has_distinct_keys(entries@) {
            lemma_same_texts_same_keys(entries@, copy@);
        }
    }
    copy
}

/// A header, unless a list of headers names it already.
pub open spec fn unless_named(
    headers: Seq<(Seq<char>, Seq<char>)>,
    name: Seq<char>,
    value: Seq<char>,
) -> Seq<(Seq<char>, Seq<char>)> {
    if names_header(headers, name) {
        Seq::empty()
    } else {
        seq![(name, value)]
    }
}

/// The headers of a POST request: the media type of the body, the configured headers, the session,
/// and what is accepted in reply. A configured header stands in for the first and the last.
pub open spec fn post_headers(
    configured: Seq<(Seq<char>, Seq<char>)>,
    session_id: Option<Seq<char>>,
) -> Seq<(Seq<char>, Seq<char>)> {
    unless_named(configured, "Content-Type"@, MCP_JSON_CONTENT_TYPE@) + configured + (
    match session_id {
        Some(id) => seq![(MCP_SESSION_ID_HEADER@, id)],
        None => Seq::empty(),
    }) + unless_named(configured, "Accept"@, MCP_STREAMABLE_ACCEPT@)
}

/// The media type of a body, unless it is configured, and the configured headers.
pub(crate) fn media_type_and(configured: &Vec<(String, String)>) -> (headers: Vec<(String, String)>)
    ensures
        header_texts(headers@) == unless_named(
            header_texts(configured@),
            "Content-Type"@,
            MCP_JSON_CONTENT_TYPE@,
        ) + header_texts(configured@),
{
    let mut headers: Vec<(String, String)> = Vec::new();
    if !has_header(configured, "Content-Type") {
        add_header(&mut headers, "Content-Type", MCP_JSON_CONTENT_TYPE);
    }
    assert(header_texts(headers@) =~= unless_named(
        header_texts(configured@),
        "Content-Type"@,
        MCP_JSON_CONTENT_TYPE@,
    ));
    add_headers(&mut headers, configured);
    headers
}

/// Adds what is accepted in reply, unless it is configured.
pub(crate) fn add_accept(headers: &mut Vec<(String, String)>, configured: &Vec<(String, String)>)
    ensures
        header_texts(final(headers)@) == header_texts(old(headers)@) + unless_named(
            header_texts(configured@),
            "Accept"@,
            MCP_STREAMABLE_ACCEPT@,
        ),
{
    let ghost before = header_texts(headers@);
    if !has_header(configured, "Accept") {
        add_header(headers, "Accept", MCP_STREAMABLE_ACCEPT);
    }
    assert(header_texts(headers@) =~= before + unless_named(
        header_texts(configured@),
        "Accept"@,
        MCP_STREAMABLE_ACCEPT@,
    ));
}

/// The headers of the GET request for a stream of events.
pub open spec fn stream_headers(configured: Seq<(Seq<char>, Seq<char>)>) -> Seq<
    (Seq<char>, Seq<char>),
> {
    seq![("Cache-Control"@, "no-cache"@)] + configured + unless_named(
        configured,
        "Accept"@,
        MCP_STREAMABLE_ACCEPT@,
    )
}

/// Whether a status code reports success.
pub open spec fn is_success(status: u16) -> bool {
    200 <= status < 300
}

/// Whether a reply carries a stream of server-sent events, by its media type.
pub open spec fn is_event_stream(headers: HeaderMap<HeaderValue>) -> bool {
    match header_text(headers, "content-type"@) {
        Some(text) => occurs(ascii_lowered(text), "text/event-stream"@),
        None => false,
    }
}

/// Decides whether a reply carries a stream of server-sent events, by its media type.
pub fn has_event_stream(headers: &HeaderMap<HeaderValue>) -> (b: bool)
    ensures
        b == is_event_stream(*headers),
{
    match find_header(headers, "content-type") {
        Some(text) => contains(to_ascii_lowercase(text).as_str(), "text/event-stream"),
        None => false,
    }
}

/// Every POST request says what its body is and what is accepted in reply; where the configuration
/// says so itself, no other value is added.
pub proof fn law_configured_headers_win(
    configured: Seq<(Seq<char>, Seq<char>)>,
    session_id: Option<Seq<char>>,
)
    ensures
        names_header(post_headers(configured, session_id), "Content-Type"@),
        names_header(post_headers(configured, session_id), "Accept"@),
        names_header(configured, "Content-Type"@) && names_header(configured, "Accept"@)
            ==> post_headers(configured, session_id) == configured + (match session_id {
            Some(id) => seq![(MCP_SESSION_ID_HEADER@, id)],
            None => Seq::empty(),
        }),
        configured.is_prefix_of(
            post_headers(configured, session_id).skip(
                unless_named(configured, "Content-Type"@, MCP_JSON_CONTENT_TYPE@).len() as int,
            ),
        ),
{
    let media = unless_named(configured, "Content-Type"@, MCP_JSON_CONTENT_TYPE@);
    let accept = unless_named(configured, "Accept"@, MCP_STREAMABLE_ACCEPT@);
    let session = match session_id {
        Some(id) => seq![(MCP_SESSION_ID_HEADER@, id)],
        None => Seq::empty(),
    };
    let all = post_headers(configured, session_id);
    assert(all =~= media + configured + session + accept);
    assert(all.skip(media.len() as int) =~= configured + session + accept);
    assert(configured =~= all.skip(media.len() as int).take(configured.len() as int));
    if names_header(configured, "Content-Type"@) {
        let i = choose|i: int|
            0 <= i < configured.len() && same_ignoring_ascii_case(
                (#[trigger] configured[i]).0,
                "Content-Type"@,
            );
        assert(all[media.len() + i] == configured[i]);
    } else {
        assert(all[0].0 == "Content-Type"@);
    }
    if names_header(configured, "Accept"@) {
        let i = choose|i: int|
            0 <= i < configured.len() && same_ignoring_ascii_case(
                (#[trigger] configured[i]).0,
                "Accept"@,
            );
        assert(all[media.len() + i] == configured[i]);
    } else {
        assert(all[all.len() - 1].0 == "Accept"@);
    }
    if names_header(configured, "Content-Type"@) && names_header(configured, "Accept"@) {
        assert(all =~= configured + session);
    }
}

/// A list names a header exactly where one of its entries does, whatever its value and whatever the
/// others are.
pub proof fn law_each_entry_names_its_header(
    headers: Seq<(Seq<char>, Seq<char>)>,
    entry: (Seq<char>, Seq<char>),
    name: Seq<char>,
)
    ensures
        names_header(headers.push(entry), name) <==> names_header(headers, name)
            || same_ignoring_ascii_case(entry.0, name),
        !names_header(Seq::empty(), name),
{
    let more = headers.push(entry);
    if names_header(headers, name) {
        let i = choose|i: int|
            0 <= i < headers.len() && same_ignoring_ascii_case((#[trigger] headers[i]).0, name);
        assert(more[i] == headers[i]);
    }
    if same_ignoring_ascii_case(entry.0, name) {
        assert(more[headers.len() as int] == entry);
    }
    if names_header(more, name) {
        let i = choose|i: int|
            0 <= i < more.len() && same_ignoring_ascii_case((#[trigger] more[i]).0, name);
        if i < headers.len() {
            assert(headers[i] == more[i]);
        }
    }
}

/// A POST request has the configured headers, all of them and in their order; before them the media
/// type of JSON, unless one is configured; behind them the session, if there is one, and then what is
/// accepted in reply, unless that is configured.
pub proof fn law_headers_of_a_post_request(
    configured: Seq<(Seq<char>, Seq<char>)>,
    session: Seq<char>,
)
    ensures
        !names_header(configured, "Content-Type"@) && !names_header(configured, "Accept"@) ==> {
            &&& post_headers(configured, None) == seq![
                ("Content-Type"@, "application/json"@),
            ] + configured + seq![("Accept"@, "application/json, text/event-stream"@)]
            &&& post_headers(configured, Some(session)) == seq![
                ("Content-Type"@, "application/json"@),
            ] + configured + seq![
                ("Mcp-Session-Id"@, session),
                ("Accept"@, "application/json, text/event-stream"@),
            ]
        },
        names_header(configured, "Content-Type"@) && !names_header(configured, "Accept"@) ==> {
            &&& post_headers(configured, None) == configured + seq![
                ("Accept"@, "application/json, text/event-stream"@),
            ]
            &&& post_headers(configured, Some(session)) == configured + seq![
                ("Mcp-Session-Id"@, session),
                ("Accept"@, "application/json, text/event-stream"@),
            ]
        },
        !names_header(configured, "Content-Type"@) && names_header(configured, "Accept"@) ==> {
            &&& post_headers(configured, None) == seq![
                ("Content-Type"@, "application/json"@),
            ] + configured
            &&& post_headers(configured, Some(session)) == seq![
                ("Content-Type"@, "application/json"@),
            ] + configured + seq![("Mcp-Session-Id"@, session)]
        },
        names_header(configured, "Content-Type"@) && names_header(configured, "Accept"@) ==> {
            &&& post_headers(configured, None) == configured
            &&& post_headers(configured, Some(session)) == configured + seq![
                ("Mcp-Session-Id"@, session),
            ]
        },
{
    let media = unless_named(configured, "Content-Type"@, MCP_JSON_CONTENT_TYPE@);
    let accept = unless_named(configured, "Accept"@, MCP_STREAMABLE_ACCEPT@);
    let plain = post_headers(configured, None);
    let within = post_headers(configured, Some(session));
    assert(plain =~= media + configured + accept);
    assert(within =~= media + configured + seq![(MCP_SESSION_ID_HEADER@, session)] + accept);
    if names_header(configured, "Content-Type"@) {
        assert(media + configured =~= configured);
    }
    if names_header(configured, "Accept"@) {
        assert(plain =~= media + configured);
        assert(within =~= media + configured + seq![(MCP_SESSION_ID_HEADER@, session)]);
    } else {
        assert(seq![(MCP_SESSION_ID_HEADER@, session)] + accept =~= seq![
            (MCP_SESSION_ID_HEADER@, session),
            ("Accept"@, MCP_STREAMABLE_ACCEPT@),
        ]);
        assert(within =~= media + configured + (seq![(MCP_SESSION_ID_HEADER@, session)] + accept));
    }
}

/// The request for an event stream asks for what is no copy, has the configured headers, all of them
/// and in their order, and behind them what is accepted, unless that is configured.
pub proof fn law_headers_of_a_stream_request(configured: Seq<(Seq<char>, Seq<char>)>)
    ensures
        names_header(configured, "Accept"@) ==> stream_headers(configured) == seq![
            ("Cache-Control"@, "no-cache"@),
        ] + configured,
        !names_header(configured, "Accept"@) ==> stream_headers(configured) == seq![
            ("Cache-Control"@, "no-cache"@),
        ] + configured + seq![("Accept"@, "application/json, text/event-stream"@)],
{
    if names_header(configured, "Accept"@) {
        assert(stream_headers(configured) =~= seq![("Cache-Control"@, "no-cache"@)] + configured);
    }
}

/// The statuses that report success are those from 200 to 299.
pub proof fn law_success_statuses(status: u16)
    ensures
        is_success(status) <==> status / 100 == 2,
{
}

/// A reply carries an event stream exactly where `text/event-stream` stands somewhere in its media
/// type, in whatever case its letters are written.
pub proof fn law_media_types_of_event_streams(headers: HeaderMap<HeaderValue>)
    ensures
        is_event_stream(headers) <==> (header_text(headers, "content-type"@) matches Some(text)
            && exists|i: int|
            0 <= i <= text.len() - 17 && same_ignoring_ascii_case(
                #[trigger] text.subrange(i, i + 17),
                "text/event-stream"@,
            )),
{
    reveal_strlit("text/event-stream");
    let kind = "text/event-stream"@;
    assert(ascii_lowered(kind) =~= kind);
    if let Some(text) = header_text(headers, "content-type"@) {
        let low = ascii_lowered(text);
        assert forall|i: int| 0 <= i <= text.len() - 17 implies ascii_lowered(
            #[trigger] text.subrange(i, i + 17),
        ) == low.subrange(i, i + 17) by {
            assert(ascii_lowered(text.subrange(i, i + 17)) =~= low.subrange(i, i + 17));
        }
        if occurs(low, kind) {
            let i = choose|i: int| occurs_at(low, kind, i);
            assert(same_ignoring_ascii_case(text.subrange(i, i + 17), kind));
        }
        if exists|i: int|
            0 <= i <= text.len() - 17 && same_ignoring_ascii_case(
                #[trigger] text.subrange(i, i + 17),
                kind,
            ) {
            let i = choose|i: int|
                0 <= i <= text.len() - 17 && same_ignoring_ascii_case(
                    #[trigger] text.subrange(i, i + 17),
                    kind,
                );
            assert(occurs_at(low, kind, i));
        }
    }
}

/// The text of a header is that of the first value under its name, in whatever case the name is
/// written.
pub proof fn law_header_texts(
    headers: HeaderMap<HeaderValue>,
    name: Seq<char>,
    other: Seq<char>,
    value: HeaderValue,
)
    ensures
        same_ignoring_ascii_case(name, other) ==> header_text(headers, name) == header_text(
            headers,
            other,
        ),
        header_value(headers, ascii_lowered(name)) == Some(value) ==> header_text(headers, name)
            == header_value_text(value),
        header_value(headers, ascii_lowered(name)) is None ==> header_text(headers, name) is None,
{
}

} // verus!
