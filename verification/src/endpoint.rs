//! Where the messages of an SSE transport are posted.
use reqwest::Url;
use serde_json::Value;
use vstd::prelude::*;

use crate::json::{as_text, json_member, json_parse, json_text, member, parse_json};
use crate::text::{
    after_prefix, join, joined, law_pieces_make_the_text, lemma_one_piece, lemma_pieces_concat,
    lemma_pieces_nonempty, lemma_trimmed_back_tail, pieces, same, starts_with, texts, trim_back,
    trimmed_back, CharClass,
};
use crate::url::{
    can_take_path, join_reference, parse_url, path, path_segments, set_path, takes_path, url_join,
    url_parse, url_path, url_segments, url_text, url_to_string, url_with_path,
};

verus! {

/// The path for messages beside that of an event stream: a last segment `sse` gives way to
/// `message_path`, and behind any other path `message_path` is added. A URL that cannot be a base
/// has none.
pub open spec fn message_path_of(url: Url, message_path: Seq<char>) -> Option<Seq<char>> {
    match url_segments(url) {
        Some(segments) => if segments.len() == 0 {
            None
        } else if segments.last() == "sse"@ {
            Some("/"@ + joined(segments.drop_last().push(message_path), "/"@))
        } else {
            Some(trimmed_back(url_path(url), CharClass::Only('/')) + "/"@ + message_path)
        },
        None => None,
    }
}

/// The URL for messages that is derived from that of an event stream; none where the latter cannot
/// take so long a path.
pub open spec fn derived_url(sse_url: Seq<char>, message_path: Seq<char>) -> Option<Seq<char>> {
    match url_parse(sse_url) {
        Some(url) => match message_path_of(url, message_path) {
            Some(new_path) => if takes_path(url, new_path) {
                Some(url_text(url_with_path(url, new_path)))
            } else {
                None
            },
            None => None,
        },
        None => None,
    }
}

/// The path for messages beside that of an event stream.
pub fn derive_message_path(url: &Url, message_path: &str) -> (new_path: Option<String>)
    ensures
        match new_path {
            Some(p) => message_path_of(*url, message_path@) == Some(p@),
            None => message_path_of(*url, message_path@) is None,
        },
{
    let mut segments: Vec<String> = match path_segments(url) {
        Some(parts) => parts,
        None => {
            return None;
        },
    };
    if segments.len() == 0 {
        return None;
    }
    let ghost before = segments@;
    assert(texts(before).last() == before.last()@);
    if same(segments[segments.len() - 1].as_str(), "sse") {
        let _ = segments.pop();
        segments.push(message_path.to_string());
        assert(texts(segments@) == texts(before).drop_last().push(message_path@));
        let mut new_path = "/".to_string();
        new_path.append(join(&segments, "/").as_str());
        return Some(new_path);
    }
    let mut new_path = trim_back(path(url), CharClass::Only('/')).to_string();
    new_path.append("/");
    new_path.append(message_path);
    Some(new_path)
}

/// The text of a URL with another path.
pub fn with_path(url: Url, new_path: &str) -> (text: String)
    requires
        takes_path(url, new_path@),
    ensures
        text@ == url_text(url_with_path(url, new_path@)),
{
    let mut changed = url;
    set_path(&mut changed, new_path);
    url_to_string(&changed)
}

/// The URL for messages that is derived from that of an event stream. `None` if the latter is no
/// URL, if it cannot be a base, or if it cannot take so long a path.
pub fn derive_message_url(sse_url: &str, message_path: &str) -> (url: Option<String>)
    ensures
        match url {
            Some(u) => derived_url(sse_url@, message_path@) == Some(u@),
            None => derived_url(sse_url@, message_path@) is None,
        },
{
    let parsed: Url = match parse_url(sse_url) {
        Some(u) => u,
        None => {
            return None;
        },
    };
    match derive_message_path(&parsed, message_path) {
        Some(new_path) => {
            if can_take_path(&parsed, new_path.as_str()) {
                Some(with_path(parsed, new_path.as_str()))
            } else {
                None
            }
        },
        None => None,
    }
}

/// The text of the member `endpoint` of a JSON object.
pub open spec fn named_endpoint(data: Seq<char>) -> Option<Seq<char>> {
    match json_parse(data) {
        Some(value) => match json_member(value, "endpoint"@) {
            Some(endpoint) => json_text(endpoint),
            None => None,
        },
        None => None,
    }
}

/// The URL that the data of an endpoint event announces: an object names it, an absolute URL is
/// taken as it is, and any other text is resolved against the URL of the event stream.
pub open spec fn announced_url(sse_url: Seq<char>, data: Seq<char>) -> Option<Seq<char>>
    decreases data.len(),
{
    if "{"@.is_prefix_of(data) {
        match named_endpoint(data) {
            Some(endpoint) => if endpoint.len() < data.len() {
                announced_url(sse_url, endpoint)
            } else {
                None
            },
            None => None,
        }
    } else if "http://"@.is_prefix_of(data) || "https://"@.is_prefix_of(data) {
        Some(data)
    } else {
        match url_parse(sse_url) {
            Some(base) => match url_join(base, data) {
                Some(url) => Some(url_text(url)),
                None => None,
            },
            None => None,
        }
    }
}

/// The text of the member `endpoint` of a JSON object.
fn read_named_endpoint(data: &str) -> (endpoint: Option<String>)
    ensures
        match endpoint {
            Some(e) => named_endpoint(data@) == Some(e@) && e@.len() < data@.len(),
            None => named_endpoint(data@) is None,
        },
{
    match parse_json(data) {
        Some(value) => match member(&value, "endpoint") {
            Some(endpoint) => match as_text(endpoint) {
                Some(text) => Some(text.to_string()),
                None => None,
            },
            None => None,
        },
        None => None,
    }
}

/// The URL that the data of an endpoint event announces. An object that names an endpoint announces
/// what the bare text of that endpoint announces.
pub fn parse_endpoint_from_data(sse_url: &str, data: &str) -> (url: Option<String>)
    ensures
        match url {
            Some(u) => announced_url(sse_url@, data@) == Some(u@),
            None => announced_url(sse_url@, data@) is None,
        },
        "{"@.is_prefix_of(data@) && named_endpoint(data@) is Some ==> match url {
            Some(u) => announced_url(sse_url@, named_endpoint(data@)->0) == Some(u@),
            None => announced_url(sse_url@, named_endpoint(data@)->0) is None,
        },
    decreases data@.len(),
{
    if starts_with(data, "{") {
        return match read_named_endpoint(data) {
            Some(endpoint) => parse_endpoint_from_data(sse_url, endpoint.as_str()),
            None => None,
        };
    }
    if starts_with(data, "http://") || starts_with(data, "https://") {
        return Some(data.to_string());
    }
    match parse_url(sse_url) {
        Some(base) => match join_reference(&base, data) {
            Some(url) => Some(url_to_string(&url)),
            None => None,
        },
        None => None,
    }
}

/// Whether there is a path for messages beside that of an event stream does not depend on its name:
/// a URL that gives none for one name gives none for any other.
pub proof fn law_no_other_name_gives_a_path(url: Url, name: Seq<char>, other: Seq<char>)
    ensures
        message_path_of(url, name) is None <==> message_path_of(url, other) is None,
        message_path_of(url, name) is None <==> url_segments(url) is None,
{
    if let Some(rest) = after_prefix(url_path(url), "/"@) {
        lemma_pieces_nonempty(rest, '/');
    }
}

/// A path for messages begins with a slash.
pub proof fn law_a_message_path_begins_with_a_slash(url: Url, name: Seq<char>)
    ensures
        message_path_of(url, name) matches Some(path) ==> "/"@.is_prefix_of(path),
{
    if let Some(path) = message_path_of(url, name) {
        reveal_strlit("/");
        let old = url_path(url);
        let front = trimmed_back(old, CharClass::Only('/'));
        assert(old[0] == "/"@[0]);
        let tail = lemma_trimmed_back_tail(old, CharClass::Only('/'));
        if front.len() > 0 {
            assert((front + tail)[0] == front[0]);
        }
        assert(path[0] == '/');
        assert(path.take(1) =~= "/"@);
    }
}

/// An absolute URL is announced as it is, whatever the URL of the event stream.
pub proof fn law_absolute_endpoint_is_kept(sse_url: Seq<char>, data: Seq<char>)
    requires
        "http://"@.is_prefix_of(data) || "https://"@.is_prefix_of(data),
    ensures
        announced_url(sse_url, data) == Some(data),
{
    reveal_strlit("{");
    reveal_strlit("http://");
    reveal_strlit("https://");
    if "{"@.is_prefix_of(data) {
        assert(data[0] == "{"@[0]);
        if "http://"@.is_prefix_of(data) {
            assert(data[0] == "http://"@[0]);
        } else {
            assert(data[0] == "https://"@[0]);
        }
    }
}

/// Where the path of an event stream ends with `/sse`, the path for messages is the same with the name
/// for messages in place of `sse`: everything before it is kept, however long.
pub proof fn law_the_last_segment_gives_way(url: Url, prefix: Seq<char>, name: Seq<char>)
    requires
        url_path(url) == prefix + "/sse"@,
        prefix.len() > 0 ==> prefix[0] == '/',
    ensures
        message_path_of(url, name) == Some(prefix + "/"@ + name),
{
    reveal_strlit("/sse");
    reveal_strlit("/");
    reveal_strlit("sse");
    let path = url_path(url);
    let rest = path.skip(1);
    assert("/"@ =~= path.take(1));
    assert("/"@ =~= seq!['/']);
    assert(!"sse"@.contains('/'));
    lemma_one_piece("sse"@, '/');
    if prefix.len() == 0 {
        assert(rest =~= "sse"@);
        let segments = seq!["sse"@];
        assert(segments.drop_last().push(name) =~= seq![name]);
        assert("/"@ + joined(seq![name], "/"@) =~= prefix + "/"@ + name);
    } else {
        let inner = prefix.skip(1);
        let head = inner.push('/');
        assert(rest =~= head + "sse"@);
        assert(head.drop_last() =~= inner);
        let front = pieces(inner, '/');
        law_pieces_make_the_text(inner, '/');
        assert(pieces(head, '/') =~= front.push(Seq::empty()));
        lemma_pieces_concat(head, "sse"@, '/');
        assert(Seq::<char>::empty() + "sse"@ =~= "sse"@);
        let segments = front.push("sse"@);
        assert(pieces(rest, '/') =~= segments);
        assert(segments.drop_last() =~= front);
        let changed = front.push(name);
        assert(changed.drop_last() =~= front);
        assert(joined(changed, "/"@) == inner + "/"@ + name);
        assert("/"@ + (inner + "/"@ + name) =~= prefix + "/"@ + name);
    }
}

/// Where the path of an event stream does not end with `/sse`, the path for messages is the whole of
/// it, without the slashes at its end, a slash and the name; a path without a slash at its front has
/// none.
pub proof fn law_other_paths_are_extended(url: Url, name: Seq<char>)
    ensures
        url_path(url).len() > 0 && url_path(url)[0] == '/' && !(url_path(url).len() >= 4 && url_path(
            url,
        ).skip(url_path(url).len() - 4) == "/sse"@) ==> message_path_of(url, name) == Some(
            trimmed_back(url_path(url), CharClass::Only('/')) + "/"@ + name,
        ),
        url_path(url).len() == 0 || url_path(url)[0] != '/' ==> message_path_of(url, name) is None,
{
    reveal_strlit("/sse");
    reveal_strlit("/");
    reveal_strlit("sse");
    let path = url_path(url);
    assert("/"@ =~= seq!['/']);
    if path.len() > 0 && path[0] == '/' {
        assert("/"@ =~= path.take(1));
        let rest = path.skip(1);
        let segments = pieces(rest, '/');
        law_pieces_make_the_text(rest, '/');
        if segments.last() == "sse"@ {
            if segments.len() == 1 {
                assert(rest == "sse"@);
            } else {
                assert(rest == joined(segments.drop_last(), seq!['/']) + seq!['/'] + "sse"@);
            }
            assert(path =~= seq!['/'] + rest);
            assert(path.skip(path.len() - 4) =~= "/sse"@);
        }
    } else if "/"@.is_prefix_of(path) {
        assert("/"@[0] == path[0]);
    }
}

/// The derived URL is that of the event stream with the path for messages in place of its own; what is
/// no URL, and what has no such path, gives none.
pub proof fn law_derived_urls_change_the_path(sse_url: Seq<char>, url: Url, name: Seq<char>)
    ensures
        url_parse(sse_url) is None ==> derived_url(sse_url, name) is None,
        url_parse(sse_url) == Some(url) ==> match message_path_of(url, name) {
            Some(path) => if takes_path(url, path) {
                derived_url(sse_url, name) == Some(url_text(url_with_path(url, path)))
            } else {
                derived_url(sse_url, name) is None
            },
            None => derived_url(sse_url, name) is None,
        },
{
}

/// A reference that is no absolute URL and no object is resolved against the URL of the event stream.
pub proof fn law_references_are_resolved(sse_url: Seq<char>, data: Seq<char>, base: Url)
    requires
        data.len() > 0 ==> data[0] != '{',
        !"http://"@.is_prefix_of(data),
        !"https://"@.is_prefix_of(data),
    ensures
        url_parse(sse_url) == Some(base) ==> match url_join(base, data) {
            Some(url) => announced_url(sse_url, data) == Some(url_text(url)),
            None => announced_url(sse_url, data) is None,
        },
        url_parse(sse_url) is None ==> announced_url(sse_url, data) is None,
{
    reveal_strlit("{");
    if "{"@.is_prefix_of(data) {
        assert("{"@[0] == data[0]);
    }
}

/// An object announces what the text of its member `endpoint` announces, whatever other members it
/// has, and nothing where it has no such text.
pub proof fn law_objects_announce_their_endpoint(
    sse_url: Seq<char>,
    data: Seq<char>,
    value: Value,
    endpoint: Value,
    text: Seq<char>,
)
    requires
        data.len() > 0 && data[0] == '{',
    ensures
        json_parse(data) == Some(value) && json_member(value, "endpoint"@) == Some(endpoint)
            && json_text(endpoint) == Some(text) && text.len() < data.len() ==> announced_url(
            sse_url,
            data,
        ) == announced_url(sse_url, text),
        json_parse(data) is None ==> announced_url(sse_url, data) is None,
        json_parse(data) == Some(value) && json_member(value, "endpoint"@) is None
            ==> announced_url(sse_url, data) is None,
        json_parse(data) == Some(value) && json_member(value, "endpoint"@) == Some(endpoint)
            && json_text(endpoint) is None ==> announced_url(sse_url, data) is None,
{
    reveal_strlit("{");
    assert("{"@ =~= data.take(1));
}

/// Where the path of the stream ends in `/sse`, messages go to the same URL with the name in place of
/// the last segment, however many segments come before it.
pub proof fn law_messages_go_beside_the_stream(
    sse_url: &str,
    name: &str,
    derived: Option<String>,
    url: Url,
    prefix: Seq<char>,
)
    requires
        call_ensures(derive_message_url, (sse_url, name), derived),
        url_parse(sse_url@) == Some(url),
        url_path(url) == prefix + "/sse"@,
        prefix.len() > 0 ==> prefix[0] == '/',
        takes_path(url, prefix + "/"@ + name@),
    ensures
        derived matches Some(text) && text@ == url_text(
            url_with_path(url, prefix + "/"@ + name@),
        ),
{
    law_the_last_segment_gives_way(url, prefix, name@);
}

/// An announced URL that is absolute is taken as it is, and any other text that is no object is
/// resolved against the URL of the stream.
pub proof fn law_what_is_announced_is_taken(
    sse_url: &str,
    data: &str,
    announced: Option<String>,
    base: Url,
)
    requires
        call_ensures(parse_endpoint_from_data, (sse_url, data), announced),
        url_parse(sse_url@) == Some(base),
    ensures
        "http://"@.is_prefix_of(data@) || "https://"@.is_prefix_of(data@) ==> (
        announced matches Some(text) && text@ == data@),
        data@.len() > 0 && data@[0] == '/' ==> match url_join(base, data@) {
            Some(url) => announced matches Some(text) && text@ == url_text(url),
            None => announced is None,
        },
{
    reveal_strlit("http://");
    reveal_strlit("https://");
    if "http://"@.is_prefix_of(data@) || "https://"@.is_prefix_of(data@) {
        law_absolute_endpoint_is_kept(sse_url@, data@);
        assert(data@[0] == 'h') by {
            assert("http://"@[0] == 'h' && "https://"@[0] == 'h');
        }
    } else if data@.len() > 0 && data@[0] == '/' {
        law_references_are_resolved(sse_url@, data@, base);
    }
}

} // verus!
