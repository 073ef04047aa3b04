//! Recovers the JSON value of a step's output from the text that a model wrote.
use serde_json::Value;
use vstd::prelude::*;

use crate::json::{json_parse, json_string, json_text, parse_json, string_value};
use crate::text::{
    chars_of, find, first_in, lemma_first_from, lemma_first_is, occurs_at, trim, trimmed,
};

verus! {

/// The body of the first Markdown code fence: what stands between the line of the opening fence
/// and the next fence.
pub open spec fn fenced_body(text: Seq<char>) -> Option<Seq<char>> {
    match first_in(text, "```"@) {
        Some(open) => {
            let after_open = text.skip(open + 3);
            match first_in(after_open, "\n"@) {
                Some(newline) => {
                    let body = after_open.skip(newline + 1);
                    match first_in(body, "```"@) {
                        Some(close) => Some(body.take(close)),
                        None => None,
                    }
                },
                None => None,
            }
        },
        None => None,
    }
}

/// Body of the first Markdown code fence, skipping an optional info string on the opening line
/// (` ```json `). Returns `None` when there is no closing fence.
pub fn fenced_block_body(text: &str) -> (body: Option<&str>)
    ensures
        match body {
            Some(b) => fenced_body(text@) == Some(b@),
            None => fenced_body(text@) is None,
        },
{
    proof {
        reveal_strlit("```");
        reveal_strlit("\n");
        lemma_first_from(text@, "```"@, 0);
    }
    let length: usize = text.unicode_len();
    let open: usize = match find(text, "```") {
        Some(i) => i,
        None => {
            return None;
        },
    };
    let after_open = text.substring_char(open + 3, length);
    assert(after_open@ == text@.skip(open + 3));
    proof {
        lemma_first_from(after_open@, "\n"@, 0);
    }
    let rest_length: usize = after_open.unicode_len();
    let newline: usize = match find(after_open, "\n") {
        Some(i) => i,
        None => {
            return None;
        },
    };
    let body = after_open.substring_char(newline + 1, rest_length);
    assert(body@ == after_open@.skip(newline + 1));
    proof {
        lemma_first_from(body@, "```"@, 0);
    }
    match find(body, "```") {
        Some(close) => {
            let inner = body.substring_char(0, close);
            assert(inner@ == body@.take(close as int));
            Some(inner)
        },
        None => None,
    }
}

/// Where a scan over JSON text stands.
pub struct BraceState {
    /// The number of braces that are open.
    pub depth: int,
    /// Whether the scan is inside a string literal.
    pub in_string: bool,
    /// Whether the scan is behind a backslash inside a string literal.
    pub escaped: bool,
}

/// Where a scan stands behind `s`. Braces inside string literals do not count.
pub open spec fn brace_state(s: Seq<char>) -> BraceState
    decreases s.len(),
{
    if s.len() == 0 {
        BraceState { depth: 0, in_string: false, escaped: false }
    } else {
        let before = brace_state(s.drop_last());
        let c = s.last();
        if before.in_string {
            BraceState {
                depth: before.depth,
                in_string: before.escaped || c != '"',
                escaped: !before.escaped && c == '\\',
            }
        } else if c == '"' {
            BraceState { depth: before.depth, in_string: true, escaped: false }
        } else if c == '{' {
            BraceState { depth: before.depth + 1, in_string: false, escaped: false }
        } else if c == '}' {
            BraceState { depth: before.depth - 1, in_string: false, escaped: false }
        } else {
            before
        }
    }
}

/// Whether every brace of `s` that counts is closed, and every string literal.
pub open spec fn is_balanced(s: Seq<char>) -> bool {
    brace_state(s).depth == 0 && !brace_state(s).in_string
}

/// The length, `from` at least, of the shortest prefix of `s` that is balanced.
pub open spec fn balanced_prefix_len(s: Seq<char>, from: int) -> Option<int>
    decreases s.len() - from + 1,
{
    if from < 0 || from > s.len() {
        None
    } else if is_balanced(s.take(from)) {
        Some(from)
    } else {
        balanced_prefix_len(s, from + 1)
    }
}

/// The brace-balanced object that begins at a position of a text: the shortest balanced part from
/// there, if an opening brace stands there that is closed.
pub open spec fn object_at(text: Seq<char>, start: int) -> Option<Seq<char>> {
    if 0 <= start < text.len() && text[start] == '{' {
        match balanced_prefix_len(text.skip(start), 1) {
            Some(n) => Some(text.skip(start).take(n)),
            None => None,
        }
    } else {
        None
    }
}

/// The first brace-balanced object in a text that begins at `from` or behind.
pub open spec fn first_object_from(text: Seq<char>, from: int) -> Option<Seq<char>>
    decreases text.len() - from,
{
    if from < 0 || from >= text.len() {
        None
    } else if object_at(text, from) is Some {
        object_at(text, from)
    } else {
        first_object_from(text, from + 1)
    }
}

/// The first brace-balanced object in a text. Braces that are never closed begin none.
pub open spec fn first_object(text: Seq<char>) -> Option<Seq<char>> {
    first_object_from(text, 0)
}

/// Where the brace-balanced object that begins at a brace ends, if the brace is closed.
fn object_end(v: &Vec<char>, start: usize) -> (end: Option<usize>)
    requires
        start < v@.len(),
        v@[start as int] == '{',
    ensures
        match end {
            Some(i) => start < i <= v@.len() && balanced_prefix_len(v@.skip(start as int), 1)
                == Some(i - start),
            None => balanced_prefix_len(v@.skip(start as int), 1) is None,
        },
{
    let ghost s = v@.skip(start as int);
    proof {
        assert(s.take(1).drop_last() == Seq::<char>::empty());
        assert(s.take(1).last() == '{');
        assert(brace_state(s.take(1).drop_last()).depth == 0);
        assert(brace_state(s.take(1)).depth == 1);
    }
    let length: usize = v.len();
    let mut depth: usize = 1;
    let mut in_string = false;
    let mut escaped = false;
    let mut i: usize = start + 1;
    while i < length
        invariant
            length == v@.len(),
            start < i <= length,
            s == v@.skip(start as int),
            1 <= depth <= i - start,
            !in_string ==> !escaped,
            brace_state(s.take(i - start)) == (BraceState {
                depth: depth as int,
                in_string,
                escaped,
            }),
            balanced_prefix_len(s, 1) == balanced_prefix_len(s, i - start),
        decreases v@.len() - i,
    {
        let c = v[i];
        proof {
            assert(s.take(i + 1 - start).drop_last() == s.take(i - start));
            assert(s.take(i + 1 - start).last() == c);
        }
        if in_string {
            if escaped {
                escaped = false;
            } else if c == '\\' {
                escaped = true;
            } else if c == '"' {
                in_string = false;
            }
        } else if c == '"' {
            in_string = true;
        } else if c == '{' {
            depth = depth + 1;
        } else if c == '}' {
            depth = depth - 1;
            if depth == 0 {
                assert(balanced_prefix_len(s, i + 1 - start) == Some(i + 1 - start));
                return Some(i + 1);
            }
        }
        i = i + 1;
    }
    proof {
        assert(!is_balanced(s.take(s.len() as int)));
        assert(balanced_prefix_len(s, s.len() as int + 1) is None);
    }
    None
}

/// First brace-balanced `{ … }` substring, ignoring braces inside string literals so an embedded
/// `"{"` / `"}"` cannot unbalance the scan. A brace that is never closed is passed over.
pub fn first_balanced_object(text: &str) -> (object: Option<&str>)
    ensures
        match object {
            Some(o) => first_object(text@) == Some(o@),
            None => first_object(text@) is None,
        },
{
    let v = chars_of(text);
    let mut start: usize = 0;
    while start < v.len()
        invariant
            v@ == text@,
            start <= v@.len(),
            first_object(text@) == first_object_from(text@, start as int),
        decreases v@.len() - start,
    {
        if v[start] == '{' {
            if let Some(end) = object_end(&v, start) {
                let object = text.substring_char(start, end);
                assert(object@ == text@.skip(start as int).take(end - start));
                return Some(object);
            }
        }
        start = start + 1;
    }
    None
}

/// The JSON of the body of the first code fence of an output, if there is any.
pub open spec fn fenced_json(output: Seq<char>) -> Option<Value> {
    match fenced_body(output) {
        Some(body) => json_parse(trimmed(body)),
        None => None,
    }
}

/// The JSON of the first brace-balanced object of an output, if there is any.
pub open spec fn embedded_json(output: Seq<char>) -> Option<Value> {
    match first_object(output) {
        Some(object) => json_parse(object),
        None => None,
    }
}

/// The first of three readings of an output that succeeded, or else the output itself as a string.
pub open spec fn first_reading(
    raw: Seq<char>,
    direct: Option<Value>,
    fenced: Option<Value>,
    embedded: Option<Value>,
) -> Value {
    match (direct, fenced, embedded) {
        (Some(value), _, _) => value,
        (None, Some(value), _) => value,
        (None, None, Some(value)) => value,
        (None, None, None) => json_string(raw),
    }
}

/// The value of a step's raw output: the output read as JSON, or else the body of its first code
/// fence, or else its first balanced object, or else the output itself as a string.
pub open spec fn step_output_value(raw: Seq<char>) -> Value {
    first_reading(
        raw,
        json_parse(trimmed(raw)),
        fenced_json(trimmed(raw)),
        embedded_json(trimmed(raw)),
    )
}

/// Chooses among the readings of an output: the whole of it, the body of a fence, an object in it.
pub fn choose_reading(
    raw: &str,
    direct: Option<Value>,
    fenced: Option<Value>,
    embedded: Option<Value>,
) -> (value: Value)
    ensures
        value == first_reading(raw@, direct, fenced, embedded),
        direct is None && fenced is None && embedded is None ==> json_text(value) == Some(raw@),
{
    if let Some(value) = direct {
        return value;
    }
    if let Some(value) = fenced {
        return value;
    }
    if let Some(value) = embedded {
        return value;
    }
    string_value(raw)
}

/// Parses a step's raw output text into a JSON value.
///
/// Step schemas expect a bare JSON object, but chat-tuned models often wrap it in prose and
/// Markdown code fences (` ```json … ``` `). This recovers the JSON from those wrappers before
/// falling back to the raw string. Output that already parses as JSON is returned unchanged, and
/// output without JSON yields the string of its raw text.
pub fn parse_step_output_value(raw: &str) -> (value: Value)
    ensures
        value == step_output_value(raw@),
        json_parse(trimmed(raw@)) is None && fenced_json(trimmed(raw@)) is None && embedded_json(
            trimmed(raw@),
        ) is None ==> json_text(value) == Some(raw@),
{
    let output = trim(raw);
    // The output is already valid JSON.
    let direct = parse_json(output);
    // The body of a Markdown code fence.
    let fenced = if direct.is_some() {
        None
    } else {
        match fenced_block_body(output) {
            Some(body) => parse_json(trim(body)),
            None => None,
        }
    };
    // The first brace-balanced object in surrounding prose.
    let embedded = if direct.is_some() || fenced.is_some() {
        None
    } else {
        match first_balanced_object(output) {
            Some(object) => parse_json(object),
            None => None,
        }
    };
    choose_reading(raw, direct, fenced, embedded)
}

/// Output that is JSON already is that JSON, whatever fences or objects stand inside it.
pub proof fn law_json_output_is_kept(raw: Seq<char>, value: Value)
    requires
        json_parse(trimmed(raw)) == Some(value),
    ensures
        step_output_value(raw) == value,
{
}

/// Output that cannot be read as JSON in any way is kept as the string of its raw text.
pub proof fn law_other_output_is_kept_as_a_string(raw: Seq<char>)
    requires
        json_parse(trimmed(raw)) is None,
        fenced_body(trimmed(raw)) matches Some(body) ==> json_parse(trimmed(body)) is None,
        first_object(trimmed(raw)) matches Some(object) ==> json_parse(object) is None,
    ensures
        step_output_value(raw) == json_string(raw),
{
}

/// Whether no code fence begins inside a text that a fence follows.
pub open spec fn runs_to_fence(text: Seq<char>) -> bool {
    forall|j: int| 0 <= j < text.len() ==> !occurs_at(text + "```"@, "```"@, j)
}

/// A fence stands at the end of a text that runs to it, and nowhere before, whatever follows.
proof fn lemma_first_fence(text: Seq<char>, rest: Seq<char>)
    requires
        runs_to_fence(text),
    ensures
        first_in(text + "```"@ + rest, "```"@) == Some(text.len() as int),
{
    reveal_strlit("```");
    let near = text + "```"@;
    let whole = near + rest;
    let n = text.len() as int;
    assert(whole.subrange(n, n + 3) =~= "```"@);
    assert forall|j: int| 0 <= j < n implies !occurs_at(whole, "```"@, j) by {
        assert(!occurs_at(near, "```"@, j));
        assert(whole.subrange(j, j + 3) =~= near.subrange(j, j + 3));
    }
    lemma_first_is(whole, "```"@, n);
}

/// What is written into a code fence is found again, whatever prose stands around the fence and
/// whatever information behind its opening.
pub proof fn law_fenced_body_is_recovered(
    prose: Seq<char>,
    info: Seq<char>,
    body: Seq<char>,
    rest: Seq<char>,
)
    requires
        runs_to_fence(prose),
        !info.contains('\n'),
        runs_to_fence(body),
    ensures
        fenced_body(prose + "```"@ + info + "\n"@ + body + "```"@ + rest) == Some(body),
{
    reveal_strlit("```");
    reveal_strlit("\n");
    let text = prose + "```"@ + info + "\n"@ + body + "```"@ + rest;
    let inner = body + "```"@ + rest;
    let after_open = info + "\n"@ + inner;
    assert(text =~= prose + "```"@ + after_open);
    lemma_first_fence(prose, after_open);
    assert(text.skip(prose.len() as int + 3) =~= after_open);
    let n = info.len() as int;
    assert(after_open.subrange(n, n + 1) =~= "\n"@);
    assert forall|j: int| 0 <= j < n implies !occurs_at(after_open, "\n"@, j) by {
        if occurs_at(after_open, "\n"@, j) {
            assert(after_open.subrange(j, j + 1)[0] == info[j]);
            assert(info.contains(info[j]));
        }
    }
    lemma_first_is(after_open, "\n"@, n);
    assert(after_open.skip(n + 1) =~= inner);
    lemma_first_fence(body, rest);
    assert(inner.take(body.len() as int) =~= body);
}

/// JSON in the first code fence of an output is the value of the output, unless the output as a whole
/// is JSON.
pub proof fn law_fenced_json_is_the_value(
    raw: Seq<char>,
    prose: Seq<char>,
    info: Seq<char>,
    body: Seq<char>,
    rest: Seq<char>,
    value: Value,
)
    requires
        trimmed(raw) == prose + "```"@ + info + "\n"@ + body + "```"@ + rest,
        runs_to_fence(prose),
        !info.contains('\n'),
        runs_to_fence(body),
        json_parse(trimmed(raw)) is None,
        json_parse(trimmed(body)) == Some(value),
    ensures
        step_output_value(raw) == value,
{
    law_fenced_body_is_recovered(prose, info, body, rest);
}

/// The length of a shortest balanced prefix is that of one, and no shorter prefix is.
proof fn lemma_balanced_prefix_len(s: Seq<char>, from: int)
    requires
        0 <= from,
    ensures
        match balanced_prefix_len(s, from) {
            Some(n) => {
                &&& from <= n <= s.len()
                &&& is_balanced(s.take(n))
                &&& forall|k: int| from <= k < n ==> !is_balanced(#[trigger] s.take(k))
            },
            None => forall|k: int| from <= k <= s.len() ==> !is_balanced(#[trigger] s.take(k)),
        },
    decreases s.len() - from + 1,
{
    if from <= s.len() && !is_balanced(s.take(from)) {
        lemma_balanced_prefix_len(s, from + 1);
    }
}

/// Whether a text is one object as the scan sees it: it begins with a brace, is balanced, and no
/// shorter part from its beginning is.
pub open spec fn is_object(s: Seq<char>) -> bool {
    &&& s.len() > 0
    &&& s[0] == '{'
    &&& is_balanced(s)
    &&& forall|k: int| 0 < k < s.len() ==> !is_balanced(#[trigger] s.take(k))
}

/// Whether an object stands in a text from `start` on.
pub open spec fn is_object_at(text: Seq<char>, start: int, object: Seq<char>) -> bool {
    occurs_at(text, object, start) && is_object(object)
}

/// What is found at a position is the one object that stands there, and it ends with a brace;
/// nothing is found only where none stands.
proof fn lemma_object_at(text: Seq<char>, start: int)
    ensures
        match object_at(text, start) {
            Some(object) => is_object_at(text, start, object) && object.last() == '}',
            None => forall|part: Seq<char>| !is_object_at(text, start, part),
        },
        forall|part: Seq<char>| #[trigger]
            is_object_at(text, start, part) ==> object_at(text, start) == Some(part),
{
    let s = text.skip(start);
    let found = balanced_prefix_len(s, 1);
    if 0 <= start < text.len() && text[start] == '{' {
        lemma_balanced_prefix_len(s, 1);
        if let Some(n) = found {
            lemma_shortest_is_an_object(s, n);
            assert(text.subrange(start, start + n) =~= s.take(n));
        }
    }
    assert forall|part: Seq<char>| #[trigger] is_object_at(text, start, part) implies object_at(
        text,
        start,
    ) == Some(part) by {
        let n = part.len() as int;
        assert(text.subrange(start, start + n)[0] == text[start]);
        assert(s.take(n) =~= part);
        assert(is_balanced(s.take(n)));
        assert(found is Some && found->0 <= n);
        if found->0 < n {
            assert(part.take(found->0) =~= s.take(found->0));
        }
    }
}

/// The first object is found at the first position at which there is one.
proof fn lemma_first_object_from(text: Seq<char>, from: int, start: int)
    requires
        0 <= from <= start < text.len(),
        forall|j: int| from <= j < start ==> object_at(text, j) is None,
        object_at(text, start) is Some,
    ensures
        first_object_from(text, from) == object_at(text, start),
    decreases start - from,
{
    if from < start {
        assert(object_at(text, from) is None);
        lemma_first_object_from(text, from + 1, start);
    }
}

/// An object that stands in prose is found again, whatever braces its string literals hold and
/// whatever follows it. The prose before it may hold braces, as long as none of them begins an
/// object of its own.
pub proof fn law_embedded_object_is_recovered(
    prose: Seq<char>,
    object: Seq<char>,
    rest: Seq<char>,
)
    requires
        is_object(object),
        forall|j: int, other: Seq<char>|
            0 <= j < prose.len() ==> !is_object_at(prose + object + rest, j, other),
    ensures
        first_object(prose + object + rest) == Some(object),
{
    let text = prose + object + rest;
    let start = prose.len() as int;
    assert(text.subrange(start, start + object.len()) =~= object);
    assert(is_object_at(text, start, object));
    lemma_object_at(text, start);
    assert forall|j: int| 0 <= j < start implies object_at(text, j) is None by {
        lemma_object_at(text, j);
        if let Some(other) = object_at(text, j) {
            assert(is_object_at(text, j, other));
        }
    }
    lemma_first_object_from(text, 0, start);
}

/// Prose without any opening brace begins no object, whatever follows it.
pub proof fn law_prose_without_braces_begins_no_object(
    prose: Seq<char>,
    rest: Seq<char>,
    at: int,
    part: Seq<char>,
)
    requires
        !prose.contains('{'),
        0 <= at < prose.len(),
    ensures
        !is_object_at(prose + rest, at, part),
{
    if is_object_at(prose + rest, at, part) {
        assert((prose + rest).subrange(at, at + part.len())[0] == prose[at]);
        assert(prose.contains(prose[at]));
    }
}

/// JSON in the first object of an output is the value of the output, unless the output as a whole or
/// the body of a fence in it is JSON.
pub proof fn law_embedded_json_is_the_value(
    raw: Seq<char>,
    prose: Seq<char>,
    object: Seq<char>,
    rest: Seq<char>,
    value: Value,
)
    requires
        trimmed(raw) == prose + object + rest,
        is_object(object),
        forall|j: int, other: Seq<char>|
            0 <= j < prose.len() ==> !is_object_at(prose + object + rest, j, other),
        json_parse(trimmed(raw)) is None,
        fenced_body(trimmed(raw)) matches Some(body) ==> json_parse(trimmed(body)) is None,
        json_parse(object) == Some(value),
    ensures
        step_output_value(raw) == value,
{
    law_embedded_object_is_recovered(prose, object, rest);
}

/// Braces stay open as long as nothing is balanced.
proof fn lemma_depth_stays_positive(s: Seq<char>, k: int)
    requires
        1 <= k <= s.len(),
        s[0] == '{',
        forall|j: int| 1 <= j <= k ==> !is_balanced(#[trigger] s.take(j)),
    ensures
        brace_state(s.take(k)).depth >= 1,
    decreases k,
{
    let t = s.take(k);
    assert(t.drop_last() =~= s.take(k - 1));
    if k == 1 {
        assert(s.take(0) =~= Seq::<char>::empty());
        assert(brace_state(s.take(0)).depth == 0);
        assert(t.last() == '{');
    } else {
        lemma_depth_stays_positive(s, k - 1);
        assert(!is_balanced(s.take(k)));
    }
}

/// The shortest balanced part from a brace on is an object, and ends with a brace.
proof fn lemma_shortest_is_an_object(s: Seq<char>, n: int)
    requires
        s.len() > 0,
        s[0] == '{',
        1 <= n <= s.len(),
        is_balanced(s.take(n)),
        forall|k: int| 1 <= k < n ==> !is_balanced(#[trigger] s.take(k)),
    ensures
        is_object(s.take(n)),
        s.take(n).last() == '}',
{
    let object = s.take(n);
    assert forall|k: int| 0 < k < object.len() implies !is_balanced(#[trigger] object.take(k)) by {
        assert(object.take(k) =~= s.take(k));
    }
    assert(n > 1) by {
        assert(s.take(1).drop_last() =~= Seq::<char>::empty());
        assert(brace_state(s.take(1).drop_last()).depth == 0);
        assert(s.take(1).last() == '{');
        assert(brace_state(s.take(1)).depth == 1);
    }
    lemma_depth_stays_positive(s, n - 1);
    assert(object.drop_last() =~= s.take(n - 1));
}

/// Whether an object stands in a text from `start` on, and none before.
pub open spec fn is_first_object_at(text: Seq<char>, start: int, object: Seq<char>) -> bool {
    &&& is_object_at(text, start, object)
    &&& forall|j: int, other: Seq<char>| 0 <= j < start ==> !is_object_at(text, j, other)
}

/// What is found from a position on is the first object from there.
proof fn lemma_found_object(text: Seq<char>, from: int) -> (start: int)
    requires
        0 <= from,
    ensures
        match first_object_from(text, from) {
            Some(object) => {
                &&& from <= start
                &&& is_object_at(text, start, object)
                &&& object.last() == '}'
                &&& forall|j: int, other: Seq<char>|
                    from <= j < start ==> !is_object_at(text, j, other)
            },
            None => forall|j: int, other: Seq<char>| from <= j ==> !is_object_at(text, j, other),
        },
    decreases text.len() - from,
{
    if from >= text.len() {
        assert forall|j: int, other: Seq<char>| from <= j implies !is_object_at(
            text,
            j,
            other,
        ) by {}
        from
    } else {
        lemma_object_at(text, from);
        if object_at(text, from) is Some {
            from
        } else {
            lemma_found_object(text, from + 1)
        }
    }
}

/// What is found as the first object is one: it begins with a brace, ends with one, and is the
/// shortest balanced part from there, and no object begins before it. Nothing is found only where no
/// object stands in the text at all.
pub proof fn law_first_object_is_an_object(text: Seq<char>)
    ensures
        match first_object(text) {
            Some(object) => object.last() == '}' && exists|start: int|
                is_first_object_at(text, start, object),
            None => forall|start: int, part: Seq<char>| !is_object_at(text, start, part),
        },
{
    let start = lemma_found_object(text, 0);
    if let Some(object) = first_object(text) {
        assert(is_first_object_at(text, start, object));
    }
}

/// Whether a text is prose, a fence with information behind it, a line feed, a body, a fence, and
/// anything more, where no fence begins in the prose or in the body.
pub open spec fn is_fenced(
    text: Seq<char>,
    prose: Seq<char>,
    info: Seq<char>,
    body: Seq<char>,
    rest: Seq<char>,
) -> bool {
    &&& text == prose + "```"@ + info + "\n"@ + body + "```"@ + rest
    &&& runs_to_fence(prose)
    &&& !info.contains('\n')
    &&& runs_to_fence(body)
}

/// What stands before a first fence runs to it.
proof fn lemma_runs_to_first_fence(text: Seq<char>)
    ensures
        first_in(text, "```"@) matches Some(i) ==> 0 <= i && i + 3 <= text.len() && runs_to_fence(
            text.take(i),
        ) && text.subrange(i, i + 3) == "```"@,
{
    reveal_strlit("```");
    lemma_first_from(text, "```"@, 0);
    if let Some(i) = first_in(text, "```"@) {
        let front = text.take(i);
        let near = front + "```"@;
        assert(near =~= text.take(i + 3)) by {
            assert(text.take(i + 3) =~= text.take(i) + text.subrange(i, i + 3));
        }
        assert forall|j: int| 0 <= j < front.len() implies !occurs_at(near, "```"@, j) by {
            if occurs_at(near, "```"@, j) {
                assert(near.subrange(j, j + 3) =~= text.subrange(j, j + 3));
                assert(occurs_at(text, "```"@, j));
            }
        }
    }
}

/// The body of the first fence is what stands between a fence's line and the next fence, and nothing
/// is found only where a text is not made like that. The parts around the body are returned.
pub proof fn law_found_body_is_fenced(text: Seq<char>) -> (parts: (
    Seq<char>,
    Seq<char>,
    Seq<char>,
))
    ensures
        match fenced_body(text) {
            Some(body) => is_fenced(text, parts.0, parts.1, body, parts.2),
            None => forall|prose: Seq<char>, info: Seq<char>, body: Seq<char>, rest: Seq<char>|
                !is_fenced(text, prose, info, body, rest),
        },
{
    reveal_strlit("```");
    reveal_strlit("\n");
    if fenced_body(text) is Some {
        lemma_runs_to_first_fence(text);
        let open = first_in(text, "```"@)->0;
        let after_open = text.skip(open + 3);
        lemma_first_from(after_open, "\n"@, 0);
        let newline = first_in(after_open, "\n"@)->0;
        let tail = after_open.skip(newline + 1);
        lemma_runs_to_first_fence(tail);
        let close = first_in(tail, "```"@)->0;
        let prose = text.take(open);
        let info = after_open.take(newline);
        let body = tail.take(close);
        let rest = tail.skip(close + 3);
        assert(tail =~= body + tail.subrange(close, close + 3) + rest);
        assert(after_open =~= info + after_open.subrange(newline, newline + 1) + tail);
        assert(text =~= prose + text.subrange(open, open + 3) + after_open);
        assert(text =~= prose + "```"@ + info + "\n"@ + body + "```"@ + rest);
        assert forall|j: int| 0 <= j < info.len() implies info[j] != '\n' by {
            if info[j] == '\n' {
                assert(after_open.subrange(j, j + 1) =~= "\n"@);
                assert(occurs_at(after_open, "\n"@, j));
            }
        }
        (prose, info, rest)
    } else {
        assert forall|prose: Seq<char>, info: Seq<char>, body: Seq<char>, rest: Seq<char>|
            !is_fenced(text, prose, info, body, rest) by {
            if is_fenced(text, prose, info, body, rest) {
                law_fenced_body_is_recovered(prose, info, body, rest);
            }
        }
        (text, text, text)
    }
}

/// Outside a string literal nothing is escaped.
proof fn lemma_escapes_stand_in_literals(s: Seq<char>)
    ensures
        !brace_state(s).in_string ==> !brace_state(s).escaped,
    decreases s.len(),
{
    if s.len() > 0 {
        lemma_escapes_stand_in_literals(s.drop_last());
    }
}

/// Depths add up: behind a text outside a string literal, another text is scanned as by itself, and
/// what it opens and closes is counted on top, however deep.
pub proof fn law_depths_add_up(s: Seq<char>, t: Seq<char>)
    requires
        !brace_state(s).in_string,
    ensures
        brace_state(s + t).depth == brace_state(s).depth + brace_state(t).depth,
        brace_state(s + t).in_string == brace_state(t).in_string,
        brace_state(s + t).escaped == brace_state(t).escaped,
    decreases t.len(),
{
    lemma_escapes_stand_in_literals(s);
    if t.len() == 0 {
        assert(s + t =~= s);
    } else {
        law_depths_add_up(s, t.drop_last());
        assert((s + t).drop_last() =~= s + t.drop_last());
        assert((s + t).last() == t.last());
    }
}

/// What each character of one does by itself: a brace opens or closes, a quote begins a literal, and
/// any other character does nothing.
pub proof fn law_single_characters_count(c: char)
    ensures
        brace_state(seq![c]).depth == (if c == '{' {
            1int
        } else if c == '}' {
            -1
        } else {
            0
        }),
        brace_state(seq![c]).in_string == (c == '"'),
        !brace_state(seq![c]).escaped,
{
    assert(seq![c].drop_last() =~= Seq::<char>::empty());
    assert(brace_state(seq![c].drop_last()) == (BraceState {
        depth: 0,
        in_string: false,
        escaped: false,
    }));
}

/// A unit of a string literal.
pub enum LiteralUnit {
    /// A character that is neither a quote nor a backslash.
    Plain { c: char },
    /// Any character behind a backslash.
    Escaped { c: char },
}

/// A token of a text, as far as braces are concerned.
pub enum BraceToken {
    /// An opening brace.
    Open,
    /// A closing brace.
    Close,
    /// A character that is neither a brace nor a quote.
    Other { c: char },
    /// A string literal, between its quotes.
    Literal { units: Seq<LiteralUnit> },
}

/// Whether a unit is what it is called.
pub open spec fn is_unit(unit: LiteralUnit) -> bool {
    unit matches LiteralUnit::Plain { c } ==> c != '"' && c != '\\'
}

/// The text of a unit.
pub open spec fn unit_text(unit: LiteralUnit) -> Seq<char> {
    match unit {
        LiteralUnit::Plain { c } => seq![c],
        LiteralUnit::Escaped { c } => seq!['\\', c],
    }
}

/// The text of units in a row.
pub open spec fn units_text(units: Seq<LiteralUnit>) -> Seq<char>
    decreases units.len(),
{
    if units.len() == 0 {
        Seq::empty()
    } else {
        units_text(units.drop_last()) + unit_text(units.last())
    }
}

/// Whether a token is what it is called.
pub open spec fn is_token(token: BraceToken) -> bool {
    match token {
        BraceToken::Open => true,
        BraceToken::Close => true,
        BraceToken::Other { c } => c != '{' && c != '}' && c != '"',
        BraceToken::Literal { units } => forall|i: int|
            0 <= i < units.len() ==> is_unit(#[trigger] units[i]),
    }
}

/// The text of a token.
pub open spec fn token_text(token: BraceToken) -> Seq<char> {
    match token {
        BraceToken::Open => seq!['{'],
        BraceToken::Close => seq!['}'],
        BraceToken::Other { c } => seq![c],
        BraceToken::Literal { units } => seq!['"'] + units_text(units) + seq!['"'],
    }
}

/// The text of tokens in a row.
pub open spec fn tokens_text(tokens: Seq<BraceToken>) -> Seq<char>
    decreases tokens.len(),
{
    if tokens.len() == 0 {
        Seq::empty()
    } else {
        tokens_text(tokens.drop_last()) + token_text(tokens.last())
    }
}

/// The number of opening braces among tokens less that of closing ones.
pub open spec fn open_braces(tokens: Seq<BraceToken>) -> int
    decreases tokens.len(),
{
    if tokens.len() == 0 {
        0
    } else {
        open_braces(tokens.drop_last()) + (match tokens.last() {
            BraceToken::Open => 1int,
            BraceToken::Close => -1,
            _ => 0,
        })
    }
}

/// Inside a literal units change nothing, and no part of them leaves it.
proof fn lemma_units_stay_inside(s: Seq<char>, units: Seq<LiteralUnit>, n: int)
    requires
        brace_state(s).in_string,
        !brace_state(s).escaped,
        forall|i: int| 0 <= i < units.len() ==> is_unit(#[trigger] units[i]),
        0 <= n <= units_text(units).len(),
    ensures
        brace_state(s + units_text(units)) == brace_state(s),
        brace_state(s + units_text(units).take(n)).in_string,
    decreases units.len(),
{
    let text = units_text(units);
    if units.len() == 0 {
        assert(s + text =~= s);
        assert(s + text.take(n) =~= s);
    } else {
        let front = units.drop_last();
        let head = units_text(front);
        assert forall|i: int| 0 <= i < front.len() implies is_unit(#[trigger] front[i]) by {
            assert(front[i] == units[i]);
        }
        lemma_units_stay_inside(s, front, if n <= head.len() {
            n
        } else {
            0
        });
        assert(is_unit(units[units.len() - 1]));
        let before = s + head;
        match units.last() {
            LiteralUnit::Plain { c } => {
                assert((s + text).drop_last() =~= before);
                assert((s + text).last() == c);
            },
            LiteralUnit::Escaped { c } => {
                let slash = before.push('\\');
                assert(slash.drop_last() =~= before);
                assert((s + text).drop_last() =~= slash);
                assert((s + text).last() == c);
                assert(brace_state(slash).in_string && brace_state(slash).escaped);
                if n == head.len() + 1 {
                    assert(s + text.take(n) =~= slash);
                }
            },
        }
        if n <= head.len() {
            assert(text.take(n) =~= head.take(n));
        } else if n == text.len() {
            assert(text.take(n) =~= text);
        }
    }
}

/// Behind tokens the scan is outside every literal, and its depth is the number of opening braces
/// among the tokens less that of closing ones, however many there are; what literals hold does not
/// count.
pub proof fn law_depth_is_the_number_of_open_braces(tokens: Seq<BraceToken>)
    requires
        forall|i: int| 0 <= i < tokens.len() ==> is_token(#[trigger] tokens[i]),
    ensures
        brace_state(tokens_text(tokens)) == (BraceState {
            depth: open_braces(tokens),
            in_string: false,
            escaped: false,
        }),
        is_balanced(tokens_text(tokens)) <==> open_braces(tokens) == 0,
    decreases tokens.len(),
{
    if tokens.len() > 0 {
        let front = tokens.drop_last();
        assert forall|i: int| 0 <= i < front.len() implies is_token(#[trigger] front[i]) by {
            assert(front[i] == tokens[i]);
        }
        law_depth_is_the_number_of_open_braces(front);
        assert(is_token(tokens[tokens.len() - 1]));
        let head = tokens_text(front);
        let last = token_text(tokens.last());
        let text = tokens_text(tokens);
        match tokens.last() {
            BraceToken::Literal { units } => {
                let opened = head.push('"');
                assert(opened.drop_last() =~= head);
                lemma_units_stay_inside(opened, units, 0);
                assert(text.drop_last() =~= opened + units_text(units));
                assert(text.last() == '"');
            },
            _ => {
                assert(text.drop_last() =~= head);
                assert(text.last() == last[0]);
            },
        }
    }
}

/// A literal that is not closed leaves a text unbalanced, whatever it holds.
pub proof fn law_open_literals_are_not_balanced(
    tokens: Seq<BraceToken>,
    units: Seq<LiteralUnit>,
    n: int,
)
    requires
        forall|i: int| 0 <= i < tokens.len() ==> is_token(#[trigger] tokens[i]),
        forall|i: int| 0 <= i < units.len() ==> is_unit(#[trigger] units[i]),
        0 <= n <= units_text(units).len(),
    ensures
        !is_balanced(tokens_text(tokens).push('"') + units_text(units).take(n)),
{
    law_depth_is_the_number_of_open_braces(tokens);
    let opened = tokens_text(tokens).push('"');
    assert(opened.drop_last() =~= tokens_text(tokens));
    lemma_units_stay_inside(opened, units, n);
}

/// As long as braces stay open, no part of the text of tokens is balanced.
proof fn lemma_no_part_is_balanced(tokens: Seq<BraceToken>, p: int)
    requires
        forall|i: int| 0 <= i < tokens.len() ==> is_token(#[trigger] tokens[i]),
        forall|k: int| 0 < k < tokens.len() ==> open_braces(#[trigger] tokens.take(k)) > 0,
        0 < p < tokens_text(tokens).len(),
    ensures
        !is_balanced(tokens_text(tokens).take(p)),
    decreases tokens.len(),
{
    let front = tokens.drop_last();
    let head = tokens_text(front);
    let text = tokens_text(tokens);
    assert forall|i: int| 0 <= i < front.len() implies is_token(#[trigger] front[i]) by {
        assert(front[i] == tokens[i]);
    }
    assert(is_token(tokens[tokens.len() - 1]));
    if p < head.len() {
        assert forall|k: int| 0 < k < front.len() implies open_braces(#[trigger] front.take(k))
            > 0 by {
            assert(front.take(k) =~= tokens.take(k));
        }
        lemma_no_part_is_balanced(front, p);
        assert(text.take(p) =~= head.take(p));
    } else if p == head.len() {
        law_depth_is_the_number_of_open_braces(front);
        assert(text.take(p) =~= head);
        assert(front =~= tokens.take(tokens.len() - 1));
        if front.len() == 0 {
            assert(head.len() == 0);
        }
        assert(open_braces(tokens.take(tokens.len() - 1)) > 0);
    } else {
        match tokens.last() {
            BraceToken::Literal { units } => {
                let n = p - head.len() - 1;
                law_open_literals_are_not_balanced(front, units, n);
                assert(text.take(p) =~= head.push('"') + units_text(units).take(n));
            },
            _ => {},
        }
    }
}

/// A text whose first token is an opening brace, and whose last is the first behind which no brace is
/// open, is an object, at any depth and whatever its literals hold.
pub proof fn law_closed_braces_make_an_object(tokens: Seq<BraceToken>)
    requires
        forall|i: int| 0 <= i < tokens.len() ==> is_token(#[trigger] tokens[i]),
        tokens.len() > 0,
        tokens[0] is Open,
        open_braces(tokens) == 0,
        forall|k: int| 0 < k < tokens.len() ==> open_braces(#[trigger] tokens.take(k)) > 0,
    ensures
        is_object(tokens_text(tokens)),
{
    let text = tokens_text(tokens);
    law_depth_is_the_number_of_open_braces(tokens);
    lemma_text_begins(tokens);
    assert forall|k: int| 0 < k < text.len() implies !is_balanced(#[trigger] text.take(k)) by {
        lemma_no_part_is_balanced(tokens, k);
    }
}

/// The text of tokens begins with that of the first.
proof fn lemma_text_begins(tokens: Seq<BraceToken>)
    requires
        tokens.len() > 0,
        tokens[0] is Open,
    ensures
        tokens_text(tokens).len() > 0,
        tokens_text(tokens)[0] == '{',
    decreases tokens.len(),
{
    let front = tokens.drop_last();
    if front.len() > 0 {
        lemma_text_begins(front);
        assert(tokens_text(tokens)[0] == tokens_text(front)[0]);
    } else {
        assert(tokens_text(front) =~= Seq::<char>::empty());
        assert(tokens_text(tokens) =~= seq!['{']);
    }
}

/// Text without braces or quotes leaves the scan as it was.
proof fn lemma_plain_text_counts_nothing(s: Seq<char>)
    requires
        !s.contains('{'),
        !s.contains('}'),
        !s.contains('"'),
    ensures
        brace_state(s) == (BraceState { depth: 0, in_string: false, escaped: false }),
    decreases s.len(),
{
    if s.len() > 0 {
        let front = s.drop_last();
        assert forall|i: int| 0 <= i < front.len() implies s.contains(#[trigger] front[i]) by {
            assert(s[i] == front[i]);
        }
        lemma_plain_text_counts_nothing(front);
        assert(s.contains(s.last()));
    }
}

/// An object around an object is an object: with anything without braces and quotes on either side of
/// the inner one, at any depth.
pub proof fn law_objects_nest(a: Seq<char>, object: Seq<char>, b: Seq<char>)
    requires
        !a.contains('{') && !a.contains('}') && !a.contains('"'),
        !b.contains('{') && !b.contains('}') && !b.contains('"'),
        is_object(object),
    ensures
        is_object(seq!['{'] + a + object + b + seq!['}']),
{
    let whole = seq!['{'] + a + object + b + seq!['}'];
    let head = seq!['{'] + a;
    law_single_characters_count('{');
    law_single_characters_count('}');
    lemma_plain_text_counts_nothing(a);
    law_depths_add_up(seq!['{'], a);
    law_depths_add_up(head, object);
    lemma_plain_text_counts_nothing(b);
    law_depths_add_up(head + object, b);
    law_depths_add_up(head + object + b, seq!['}']);
    assert(whole =~= head + object + b + seq!['}']);
    assert(is_balanced(whole));
    assert forall|k: int| 0 < k < whole.len() implies !is_balanced(#[trigger] whole.take(k)) by {
        if k <= head.len() {
            let part = a.take(k - 1);
            assert forall|i: int| 0 <= i < part.len() implies a.contains(#[trigger] part[i]) by {
                assert(a[i] == part[i]);
            }
            lemma_plain_text_counts_nothing(part);
            law_depths_add_up(seq!['{'], part);
            assert(whole.take(k) =~= seq!['{'] + part);
        } else if k <= head.len() + object.len() {
            let n = k - head.len();
            let part = object.take(n);
            if n < object.len() {
                assert forall|j: int| 1 <= j <= n implies !is_balanced(
                    #[trigger] object.take(j),
                ) by {}
                lemma_depth_stays_positive(object, n);
            } else {
                assert(part =~= object);
            }
            law_depths_add_up(head, part);
            assert(whole.take(k) =~= head + part);
        } else {
            let part = b.take(k - head.len() - object.len());
            assert forall|i: int| 0 <= i < part.len() implies b.contains(#[trigger] part[i]) by {
                assert(b[i] == part[i]);
            }
            lemma_plain_text_counts_nothing(part);
            law_depths_add_up(head + object, part);
            assert(whole.take(k) =~= head + object + part);
        }
    }
}

/// The four readings of an output, in their order, and what each of them is read from.
pub proof fn law_readings_in_their_order(raw: Seq<char>)
    ensures
        json_parse(trimmed(raw)) is Some ==> step_output_value(raw) == json_parse(trimmed(raw))->0,
        json_parse(trimmed(raw)) is None ==> {
            &&& fenced_body(trimmed(raw)) matches Some(body) ==> (json_parse(
                trimmed(body),
            ) matches Some(value) ==> step_output_value(raw) == value)
            &&& (fenced_body(trimmed(raw)) matches Some(body) ==> json_parse(trimmed(body)) is None)
                ==> (match first_object(trimmed(raw)) {
                Some(object) => match json_parse(object) {
                    Some(value) => step_output_value(raw) == value,
                    None => step_output_value(raw) == json_string(raw),
                },
                None => step_output_value(raw) == json_string(raw),
            })
        },
{
}

/// What a text is read as: the JSON that it is, or that in its fenced block, or the object in its
/// prose, at whatever depth it nests; and else the text itself, with the white space round it.
pub proof fn law_what_a_text_is_read_as(
    raw: &str,
    value: Value,
    prose: Seq<char>,
    object: Seq<char>,
    rest: Seq<char>,
    inner: Value,
)
    requires
        call_ensures(parse_step_output_value, (raw,), value),
    ensures
        json_parse(trimmed(raw@)) == Some(inner) ==> value == inner,
        json_parse(trimmed(raw@)) is None && fenced_body(trimmed(raw@)) is None && trimmed(raw@)
            == prose + object + rest && !prose.contains('{') && is_object(object) && json_parse(
            object,
        ) == Some(inner) ==> value == inner,
        json_parse(trimmed(raw@)) is None && fenced_body(trimmed(raw@)) is None && !trimmed(
            raw@,
        ).contains('{') ==> json_text(value) == Some(raw@),
{
    if json_parse(trimmed(raw@)) is None && fenced_body(trimmed(raw@)) is None {
        if trimmed(raw@) == prose + object + rest && !prose.contains('{') && is_object(object)
            && json_parse(object) == Some(inner) {
            assert forall|j: int, other: Seq<char>| 0 <= j < prose.len() implies !is_object_at(
                prose + object + rest,
                j,
                other,
            ) by {
                assert(prose + object + rest =~= prose + (object + rest));
                law_prose_without_braces_begins_no_object(prose, object + rest, j, other);
            }
            law_embedded_json_is_the_value(raw@, prose, object, rest, inner);
        }
        if !trimmed(raw@).contains('{') {
            lemma_no_object_without_braces(trimmed(raw@), 0);
        }
    }
}

/// A text without an opening brace holds no object.
proof fn lemma_no_object_without_braces(text: Seq<char>, from: int)
    requires
        !text.contains('{'),
        0 <= from,
    ensures
        first_object_from(text, from) is None,
    decreases text.len() - from,
{
    if from < text.len() {
        assert(text.contains(text[from]));
        lemma_no_object_without_braces(text, from + 1);
    }
}

} // verus!
