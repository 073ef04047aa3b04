//! URLs, as the `url` crate (which `reqwest` passes on) reads and changes them.
use reqwest::Url;
use vstd::prelude::*;

use crate::text::{
    after_prefix, chars_of, joined, law_pieces_make_the_text, pieces, starts_with, texts,
};

verus! {

/// `url::Url`, an opaque parsed URL.
#[verifier::external_type_specification]
#[verifier::external_body]
pub struct ExUrl(Url);

/// What `Url::parse` makes of a text: the URL, or nothing where the text is no absolute URL.
pub uninterp spec fn url_parse(text: Seq<char>) -> Option<Url>;

/// The scheme that `Url::scheme` shows of a URL.
pub uninterp spec fn url_scheme(url: Url) -> Seq<char>;

/// The path that `Url::path` shows of a URL.
pub uninterp spec fn url_path(url: Url) -> Seq<char>;

/// The query that `Url::query` shows of a URL, if it has one.
pub uninterp spec fn url_query(url: Url) -> Option<Seq<char>>;

/// The fragment that `Url::fragment` shows of a URL, if it has one.
pub uninterp spec fn url_fragment(url: Url) -> Option<Seq<char>>;

/// The serialization that `Url::as_str` shows of a URL.
pub uninterp spec fn url_text(url: Url) -> Seq<char>;

/// What `Url::join` makes of a reference against a base URL.
pub uninterp spec fn url_join(base: Url, reference: Seq<char>) -> Option<Url>;

/// What `Url::set_path` makes of a URL and a new path.
pub uninterp spec fn url_with_path(url: Url, path: Seq<char>) -> Url;

/// The segments of a URL's path; a URL that cannot be a base has none.
pub open spec fn url_segments(url: Url) -> Option<Seq<Seq<char>>> {
    match after_prefix(url_path(url), "/"@) {
        Some(rest) => Some(pieces(rest, '/')),
        None => None,
    }
}

/// Reads a text as an absolute URL with `Url::parse`. The outcome depends on the text alone.
#[verifier::external_body]
pub(crate) fn parse_url(text: &str) -> (url: Option<Url>)
    ensures
        url == url_parse(text@),
{
    Url::parse(text).ok()
}

/// `Url::scheme`: the scheme, without the colon. It holds no ASCII capital letter.
#[verifier::external_body]
pub(crate) fn scheme(url: &Url) -> (text: &str)
    ensures
        text@ == url_scheme(*url),
        forall|i: int| 0 <= i < text@.len() ==> !('A' <= #[trigger] text@[i] && text@[i] <= 'Z'),
{
    url.scheme()
}

/// `Url::path`: the path, percent-encoded.
#[verifier::external_body]
pub(crate) fn path(url: &Url) -> (text: &str)
    ensures
        text@ == url_path(*url),
{
    url.path()
}

/// `Url::path_segments`: what stands between the slashes of a path that begins with one, and
/// nothing for any other path.
#[verifier::external_body]
pub(crate) fn path_segments(url: &Url) -> (segments: Option<Vec<String>>)
    ensures
        match segments {
            Some(parts) => url_segments(*url) == Some(texts(parts@)),
            None => url_segments(*url) is None,
        },
{
    url.path_segments().map(|parts| parts.map(|part| part.to_string()).collect())
}

/// `Url::query`: the query, without the question mark before it, percent-encoded.
#[verifier::external_body]
pub(crate) fn query(url: &Url) -> (text: Option<&str>)
    ensures
        match text {
            Some(t) => url_query(*url) == Some(t@),
            None => url_query(*url) is None,
        },
{
    url.query()
}

/// `Url::fragment`: the fragment, without the number sign before it, percent-encoded.
#[verifier::external_body]
pub(crate) fn fragment(url: &Url) -> (text: Option<&str>)
    ensures
        match text {
            Some(t) => url_fragment(*url) == Some(t@),
            None => url_fragment(*url) is None,
        },
{
    url.fragment()
}

/// `Url::as_str`: the serialization of the URL.
#[verifier::external_body]
pub(crate) fn url_to_string(url: &Url) -> (text: String)
    ensures
        text@ == url_text(*url),
{
    url.as_str().to_string()
}

/// `Url::join`: resolves a reference against a base URL.
#[verifier::external_body]
pub(crate) fn join_reference(base: &Url, reference: &str) -> (url: Option<Url>)
    ensures
        url == url_join(*base, reference@),
{
    base.join(reference).ok()
}

/// Whether an ASCII character is percent-encoded in a path.
pub open spec fn is_encoded_in_path(c: char) -> bool {
    ||| c <= '\u{1f}'
    ||| c == '\u{7f}'
    ||| c == ' '
    ||| c == '"'
    ||| c == '<'
    ||| c == '>'
    ||| c == '`'
    ||| c == '#'
    ||| c == '?'
    ||| c == '{'
    ||| c == '}'
}

/// The number of bytes that a character takes in a path: one, or three for each byte of it where it
/// is percent-encoded, as every character beyond ASCII is.
pub open spec fn encoded_char_len(c: char) -> int {
    if c <= '\u{7f}' {
        if is_encoded_in_path(c) {
            3
        } else {
            1
        }
    } else if c <= '\u{7ff}' {
        6
    } else if c <= '\u{ffff}' {
        9
    } else {
        12
    }
}

/// The number of bytes that a text takes in a path.
pub open spec fn encoded_len(text: Seq<char>) -> int
    decreases text.len(),
{
    if text.len() == 0 {
        0
    } else {
        encoded_len(text.drop_last()) + encoded_char_len(text.last())
    }
}

/// The number of bytes that a part of a URL takes together with the mark before it; none where there
/// is no such part.
pub open spec fn marked_len(part: Option<Seq<char>>) -> int {
    match part {
        Some(text) => 1 + text.len() as int,
        None => 0,
    }
}

/// The position in a URL at which its path begins.
pub open spec fn path_start(url: Url) -> int {
    url_text(url).len() - url_path(url).len() - marked_len(url_query(url)) - marked_len(
        url_fragment(url),
    )
}

/// The number of bytes that a new path takes in a URL: those of its characters, and of a slash before
/// it if it has none of its own. In a URL that cannot be a base a slash at its front is
/// percent-encoded. Where tabs, line feeds or dot segments are taken out of the path, it takes fewer.
pub open spec fn new_path_len(url: Url, path: Seq<char>) -> int {
    encoded_len(path) + (if !"/"@.is_prefix_of(path) {
        1int
    } else if url_segments(url) is None {
        2
    } else {
        0
    })
}

/// Whether a URL can take a path: neither the end of the old path, nor that of the new one, nor the
/// beginning of the fragment behind it lies beyond the range of `u32`.
pub open spec fn takes_path(url: Url, path: Seq<char>) -> bool {
    let end = path_start(url) + new_path_len(url, path);
    &&& path_start(url) + url_path(url).len() <= u32::MAX
    &&& end <= u32::MAX
    &&& url_fragment(url) is Some ==> end + marked_len(url_query(url)) <= u32::MAX
}

/// The number of bytes that a text takes in a path.
fn count_encoded(text: &str) -> (n: i128)
    ensures
        n == encoded_len(text@),
        0 <= n <= 12 * usize::MAX,
{
    let v = chars_of(text);
    let mut n: i128 = 0;
    let mut i: usize = 0;
    assert(text@.take(0) =~= Seq::<char>::empty());
    while i < v.len()
        invariant
            v@ == text@,
            i <= v@.len(),
            n == encoded_len(text@.take(i as int)),
            0 <= n <= 12 * i,
        decreases v@.len() - i,
    {
        let c = v[i];
        assert(text@.take(i + 1).drop_last() =~= text@.take(i as int));
        if c <= '\u{7f}' {
            if c <= '\u{1f}' || c == '\u{7f}' || c == ' ' || c == '"' || c == '<' || c == '>' || c
                == '`' || c == '#' || c == '?' || c == '{' || c == '}' {
                n = n + 3;
            } else {
                n = n + 1;
            }
        } else if c <= '\u{7ff}' {
            n = n + 6;
        } else if c <= '\u{ffff}' {
            n = n + 9;
        } else {
            n = n + 12;
        }
        i = i + 1;
    }
    assert(text@.take(i as int) =~= text@);
    n
}

/// The number of bytes that a part of a URL takes together with the mark before it.
fn count_marked(part: Option<&str>) -> (n: i128)
    ensures
        n == marked_len(
            match part {
                Some(text) => Some(text@),
                None => None,
            },
        ),
        0 <= n <= 0x1_0000_0000_0000_0000,
{
    match part {
        Some(text) => {
            let length: usize = text.unicode_len();
            1 + length as i128
        },
        None => 0,
    }
}

/// Decides whether a URL can take a path.
pub(crate) fn can_take_path(url: &Url, new_path: &str) -> (b: bool)
    ensures
        b == takes_path(*url, new_path@),
{
    let whole: usize = url_to_string(url).as_str().unicode_len();
    let old_path: usize = path(url).unicode_len();
    let marked_query: i128 = count_marked(query(url));
    let fragment_text = fragment(url);
    let has_fragment = fragment_text.is_some();
    let marked_fragment: i128 = count_marked(fragment_text);
    let start: i128 = whole as i128 - old_path as i128 - marked_query - marked_fragment;
    let encoded: i128 = count_encoded(new_path);
    let slash: i128 = if !starts_with(new_path, "/") {
        1
    } else if path_segments(url).is_none() {
        2
    } else {
        0
    };
    let end: i128 = start + encoded + slash;
    start + old_path as i128 <= 0xffff_ffff && end <= 0xffff_ffff && (!has_fragment || end
        + marked_query <= 0xffff_ffff)
}

/// `Url::set_path`: puts a new path in place of the old one. The outcome depends on the URL and the
/// path alone. The call panics where the end of the path, or the beginning of the fragment, is or
/// comes to lie beyond the range of `u32`.
#[verifier::external_body]
pub(crate) fn set_path(url: &mut Url, path: &str)
    requires
        takes_path(*old(url), path@),
    ensures
        *final(url) == url_with_path(*old(url), path@),
{
    url.set_path(path)
}

/// The bytes of two texts in a row add up, and each character takes one, or three for each byte of it
/// in UTF-8 where it is percent-encoded.
pub proof fn law_encoded_lengths_add_up(a: Seq<char>, b: Seq<char>, c: char)
    ensures
        encoded_len(a + b) == encoded_len(a) + encoded_len(b),
        encoded_len(seq![c]) == ({
            let n = c as int;
            if n < 32 || n == 127 || n == 32 || n == 34 || n == 35 || n == 60 || n == 62 || n == 63
                || n == 96 || n == 123 || n == 125 {
                3int
            } else if n < 128 {
                1
            } else if n < 0x800 {
                6
            } else if n < 0x10000 {
                9
            } else {
                12
            }
        }),
        a.len() <= encoded_len(a) <= 12 * a.len(),
    decreases a.len() + b.len(),
{
    assert(seq![c].drop_last() =~= Seq::<char>::empty());
    assert(encoded_len(seq![c].drop_last()) == 0);
    if b.len() == 0 {
        assert(a + b =~= a);
        if a.len() > 0 {
            law_encoded_lengths_add_up(a.drop_last(), b, c);
        }
    } else {
        law_encoded_lengths_add_up(a, b.drop_last(), c);
        assert((a + b).drop_last() =~= a + b.drop_last());
        assert((a + b).last() == b.last());
    }
}

/// Every path fits whose bytes, on top of those of the whole URL, stay within the range of `u32`.
pub proof fn law_short_paths_fit(url: Url, path: Seq<char>)
    requires
        url_text(url).len() + 12 * path.len() + 2 <= u32::MAX,
    ensures
        takes_path(url, path),
{
    law_encoded_lengths_add_up(path, Seq::empty(), 'a');
}

/// The segments of a path are what stands between its slashes: behind a slash at its front they make
/// the path again, and a path without one has none.
pub proof fn law_segments_make_the_path(url: Url)
    ensures
        match url_segments(url) {
            Some(segments) => {
                &&& segments.len() > 0
                &&& url_path(url) == seq!['/'] + joined(segments, seq!['/'])
                &&& forall|i: int|
                    0 <= i < segments.len() ==> !(#[trigger] segments[i]).contains('/')
            },
            None => url_path(url).len() == 0 || url_path(url)[0] != '/',
        },
{
    reveal_strlit("/");
    let path = url_path(url);
    assert("/"@ =~= seq!['/']);
    if "/"@.is_prefix_of(path) {
        law_pieces_make_the_text(path.skip(1), '/');
        assert("/"@[0] == path[0]);
        assert(path =~= seq!['/'] + path.skip(1));
    } else if path.len() > 0 && path[0] == '/' {
        assert("/"@ =~= path.take(1));
    }
}

/// A path fits exactly where the parts of the URL that it moves keep their places below four
/// gigabytes: the end of the old path, the end of the new one, and the beginning of the fragment. A
/// slash is put before a path without one; and two characters go before one with a slash in a URL
/// whose path is not made of segments.
pub proof fn law_paths_that_fit(url: Url, path: Seq<char>, before: int, query: int, end: int)
    requires
        query == (match url_query(url) {
            Some(text) => 1 + text.len() as int,
            None => 0,
        }),
        url_text(url).len() == before + url_path(url).len() + query + (match url_fragment(url) {
            Some(text) => 1 + text.len() as int,
            None => 0,
        }),
        path.len() == 0 || path[0] != '/' ==> end == before + 1 + encoded_len(path),
        path.len() > 0 && path[0] == '/' ==> end == before + encoded_len(path) + (
        if url_segments(url) is Some {
            0int
        } else {
            2
        }),
    ensures
        takes_path(url, path) <==> {
            &&& before + url_path(url).len() < 0x1_0000_0000
            &&& end < 0x1_0000_0000
            &&& url_fragment(url) is Some ==> end + query < 0x1_0000_0000
        },
{
    reveal_strlit("/");
    if path.len() > 0 && path[0] == '/' {
        assert("/"@.is_prefix_of(path));
    } else if "/"@.is_prefix_of(path) {
        assert(path[0] == "/"@[0]);
    }
}

} // verus!
