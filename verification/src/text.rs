//! Text as sequences of characters: the string operations that the rest of the crate is built on.
use vstd::prelude::*;

verus! {

/// `String::push`: the character is appended to the end of the string.
pub assume_specification[ String::push ](s: &mut String, c: char)
    ensures
        final(s)@ == old(s)@.push(c),
;

/// The characters of a string, in order.
pub fn chars_of(s: &str) -> (v: Vec<char>)
    ensures
        v@ == s@,
{
    let mut v: Vec<char> = Vec::new();
    for c in it: s.chars()
        invariant
            it.seq() == s@,
            v@ == s@.take(it.index()),
    {
        v.push(c);
        assert(s@.take(it.index() + 1) == s@.take(it.index()).push(c));
    }
    assert(s@.take(s@.len() as int) == s@);
    v
}

/// The string made of the characters from `from` up to, and without, `to`.
pub fn string_of(v: &Vec<char>, from: usize, to: usize) -> (s: String)
    requires
        from <= to <= v@.len(),
    ensures
        s@ == v@.subrange(from as int, to as int),
{
    let mut s = String::new();
    let mut i: usize = from;
    while i < to
        invariant
            from <= i <= to <= v@.len(),
            s@ == v@.subrange(from as int, i as int),
        decreases to - i,
    {
        s.push(v[i]);
        i = i + 1;
        assert(v@.subrange(from as int, i as int) == v@.subrange(from as int, i - 1).push(
            v@[i - 1],
        ));
    }
    s
}

/// The texts of a list of strings.
pub open spec fn texts(parts: Seq<String>) -> Seq<Seq<char>> {
    parts.map_values(|s: String| s@)
}

/// Whether a character has the Unicode property `White_Space`.
pub open spec fn is_white_space(c: char) -> bool {
    ||| '\u{9}' <= c <= '\u{d}'
    ||| c == '\u{20}'
    ||| c == '\u{85}'
    ||| c == '\u{a0}'
    ||| c == '\u{1680}'
    ||| '\u{2000}' <= c <= '\u{200a}'
    ||| c == '\u{2028}'
    ||| c == '\u{2029}'
    ||| c == '\u{202f}'
    ||| c == '\u{205f}'
    ||| c == '\u{3000}'
}

/// A class of characters that trimming removes.
#[derive(Clone, Copy)]
pub enum CharClass {
    /// Every character of the Unicode property `White_Space`.
    WhiteSpace,
    /// One given character.
    Only(char),
}

impl CharClass {
    /// Whether `c` belongs to the class.
    pub open spec fn holds(self, c: char) -> bool {
        match self {
            CharClass::WhiteSpace => is_white_space(c),
            CharClass::Only(d) => c == d,
        }
    }

    /// Decides whether `c` belongs to the class.
    pub fn contains(self, c: char) -> (b: bool)
        ensures
            b == self.holds(c),
    {
        match self {
            CharClass::WhiteSpace => {
                ('\u{9}' <= c && c <= '\u{d}') || c == '\u{20}' || c == '\u{85}' || c == '\u{a0}'
                    || c == '\u{1680}' || ('\u{2000}' <= c && c <= '\u{200a}') || c == '\u{2028}'
                    || c == '\u{2029}' || c == '\u{202f}' || c == '\u{205f}' || c == '\u{3000}'
            },
            CharClass::Only(d) => c == d,
        }
    }
}

/// `s` without the characters of the class at its front.
pub open spec fn trimmed_front(s: Seq<char>, class: CharClass) -> Seq<char>
    decreases s.len(),
{
    if s.len() > 0 && class.holds(s[0]) {
        trimmed_front(s.drop_first(), class)
    } else {
        s
    }
}

/// `s` without the characters of the class at its back.
pub open spec fn trimmed_back(s: Seq<char>, class: CharClass) -> Seq<char>
    decreases s.len(),
{
    if s.len() > 0 && class.holds(s.last()) {
        trimmed_back(s.drop_last(), class)
    } else {
        s
    }
}

/// `s` without white space at either end.
pub open spec fn trimmed(s: Seq<char>) -> Seq<char> {
    trimmed_back(trimmed_front(s, CharClass::WhiteSpace), CharClass::WhiteSpace)
}

/// Dropping `k` characters of the class leaves what trimming the front leaves.
proof fn lemma_trimmed_front(s: Seq<char>, class: CharClass, k: int)
    requires
        0 <= k <= s.len(),
        forall|i: int| 0 <= i < k ==> class.holds(#[trigger] s[i]),
    ensures
        trimmed_front(s, class) == trimmed_front(s.subrange(k, s.len() as int), class),
    decreases k,
{
    if k > 0 {
        lemma_trimmed_front(s, class, k - 1);
        let t = s.subrange(k - 1, s.len() as int);
        assert(t[0] == s[k - 1]);
        assert(t.drop_first() == s.subrange(k, s.len() as int));
    } else {
        assert(s.subrange(0, s.len() as int) == s);
    }
}

/// Dropping the characters of the class from `k` on leaves what trimming the back leaves.
proof fn lemma_trimmed_back(s: Seq<char>, class: CharClass, k: int)
    requires
        0 <= k <= s.len(),
        forall|i: int| k <= i < s.len() ==> class.holds(#[trigger] s[i]),
    ensures
        trimmed_back(s, class) == trimmed_back(s.subrange(0, k), class),
    decreases s.len() - k,
{
    if k < s.len() {
        lemma_trimmed_back(s, class, k + 1);
        let t = s.subrange(0, k + 1);
        assert(t.last() == s[k]);
        assert(t.drop_last() == s.subrange(0, k));
    } else {
        assert(s.subrange(0, s.len() as int) == s);
    }
}

/// Trimming the front of two texts in a row leaves the second whole, if it begins with a character
/// that is not trimmed.
pub proof fn lemma_trimmed_front_concat(a: Seq<char>, b: Seq<char>, class: CharClass)
    requires
        b.len() > 0,
        !class.holds(b[0]),
    ensures
        trimmed_front(a + b, class) == trimmed_front(a, class) + b,
    decreases a.len(),
{
    if a.len() == 0 {
        assert(a + b =~= b);
        assert(trimmed_front(a, class) + b =~= b);
    } else if class.holds(a[0]) {
        lemma_trimmed_front_concat(a.drop_first(), b, class);
        assert((a + b).drop_first() =~= a.drop_first() + b);
    }
}

/// Trimming the back of two texts in a row leaves the first whole, if it ends with a character that
/// is not trimmed.
pub proof fn lemma_trimmed_back_concat(a: Seq<char>, b: Seq<char>, class: CharClass)
    requires
        a.len() > 0,
        !class.holds(a.last()),
    ensures
        trimmed_back(a + b, class) == a + trimmed_back(b, class),
    decreases b.len(),
{
    if b.len() == 0 {
        assert(a + b =~= a);
        assert(a + trimmed_back(b, class) =~= a);
    } else if class.holds(b.last()) {
        lemma_trimmed_back_concat(a, b.drop_last(), class);
        assert((a + b).drop_last() =~= a + b.drop_last());
    }
}

/// Trimming the back twice is trimming it once.
pub proof fn lemma_trimmed_back_twice(s: Seq<char>, class: CharClass)
    ensures
        trimmed_back(trimmed_back(s, class), class) == trimmed_back(s, class),
    decreases s.len(),
{
    if s.len() > 0 && class.holds(s.last()) {
        lemma_trimmed_back_twice(s.drop_last(), class);
    }
}

/// Whether every character of a text belongs to a class.
pub open spec fn is_all(s: Seq<char>, class: CharClass) -> bool {
    forall|i: int| 0 <= i < s.len() ==> class.holds(#[trigger] s[i])
}

/// What trimming the back takes away.
pub proof fn lemma_trimmed_back_tail(s: Seq<char>, class: CharClass) -> (tail: Seq<char>)
    ensures
        s == trimmed_back(s, class) + tail,
        is_all(tail, class),
    decreases s.len(),
{
    if s.len() > 0 && class.holds(s.last()) {
        let tail = lemma_trimmed_back_tail(s.drop_last(), class);
        assert(s =~= s.drop_last().push(s.last()));
        assert((trimmed_back(s, class) + tail).push(s.last()) =~= trimmed_back(s, class)
            + tail.push(s.last()));
        tail.push(s.last())
    } else {
        assert(s =~= trimmed_back(s, class) + Seq::empty());
        Seq::empty()
    }
}

/// Trimming the front of a text does not touch the trimmed characters behind it, if anything of the
/// text is left.
pub proof fn lemma_trimmed_front_tail(s: Seq<char>, tail: Seq<char>, class: CharClass)
    requires
        is_all(tail, class),
    ensures
        trimmed_front(s + tail, class) == (if trimmed_front(s, class).len() > 0 {
            trimmed_front(s, class) + tail
        } else {
            Seq::empty()
        }),
    decreases s.len() + tail.len(),
{
    if s.len() > 0 {
        if class.holds(s[0]) {
            lemma_trimmed_front_tail(s.drop_first(), tail, class);
            assert((s + tail).drop_first() =~= s.drop_first() + tail);
        }
    } else if tail.len() > 0 {
        assert(s + tail =~= tail);
        let rest = tail.drop_first();
        assert forall|i: int| 0 <= i < rest.len() implies class.holds(#[trigger] rest[i]) by {
            assert(rest[i] == tail[i + 1]);
        }
        lemma_trimmed_front_tail(s, rest, class);
        assert(s + rest =~= rest);
        assert(class.holds(tail[0]));
    } else {
        assert(s + tail =~= Seq::empty());
    }
}

/// White space behind a text does not change what trimming leaves of it.
pub proof fn lemma_trimmed_ignores_tail(s: Seq<char>, tail: Seq<char>)
    requires
        is_all(tail, CharClass::WhiteSpace),
    ensures
        trimmed(s + tail) == trimmed(s),
{
    lemma_trimmed_front_tail(s, tail, CharClass::WhiteSpace);
    let front = trimmed_front(s, CharClass::WhiteSpace);
    if front.len() > 0 {
        lemma_trimmed_back_ignores_tail(front, tail, CharClass::WhiteSpace);
    }
}

/// Characters of the class behind a text do not change what trimming the back leaves of it.
proof fn lemma_trimmed_back_ignores_tail(s: Seq<char>, tail: Seq<char>, class: CharClass)
    requires
        is_all(tail, class),
    ensures
        trimmed_back(s + tail, class) == trimmed_back(s, class),
    decreases tail.len(),
{
    if tail.len() > 0 {
        let t = tail.drop_last();
        assert forall|i: int| 0 <= i < t.len() implies class.holds(#[trigger] t[i]) by {
            assert(t[i] == tail[i]);
        }
        lemma_trimmed_back_ignores_tail(s, t, class);
        assert(class.holds(tail[tail.len() - 1]));
        assert((s + tail).drop_last() =~= s + t);
    } else {
        assert(s + tail =~= s);
    }
}

/// `s` without the characters of the class at its front.
pub fn trim_front(s: &str, class: CharClass) -> (r: &str)
    ensures
        r@ == trimmed_front(s@, class),
{
    let v = chars_of(s);
    let mut k: usize = 0;
    while k < v.len() && class.contains(v[k])
        invariant
            v@ == s@,
            k <= v@.len(),
            forall|i: int| 0 <= i < k ==> class.holds(#[trigger] v@[i]),
        decreases v@.len() - k,
    {
        k = k + 1;
    }
    proof {
        lemma_trimmed_front(s@, class, k as int);
    }
    s.substring_char(k, v.len())
}

/// `s` without the characters of the class at its back.
pub fn trim_back(s: &str, class: CharClass) -> (r: &str)
    ensures
        r@ == trimmed_back(s@, class),
{
    let v = chars_of(s);
    let mut k: usize = v.len();
    while k > 0 && class.contains(v[k - 1])
        invariant
            v@ == s@,
            k <= v@.len(),
            forall|i: int| k <= i < v@.len() ==> class.holds(#[trigger] v@[i]),
        decreases k,
    {
        k = k - 1;
    }
    proof {
        lemma_trimmed_back(s@, class, k as int);
    }
    s.substring_char(0, k)
}

/// `s` without white space at either end.
pub fn trim(s: &str) -> (r: &str)
    ensures
        r@ == trimmed(s@),
{
    trim_back(trim_front(s, CharClass::WhiteSpace), CharClass::WhiteSpace)
}

/// Whether `pattern` stands in `s` at position `i`.
pub open spec fn occurs_at(s: Seq<char>, pattern: Seq<char>, i: int) -> bool {
    &&& 0 <= i
    &&& i + pattern.len() <= s.len()
    &&& s.subrange(i, i + pattern.len()) == pattern
}

/// The first position from `from` on at which `pattern` stands in `s`.
pub open spec fn first_from(s: Seq<char>, pattern: Seq<char>, from: int) -> Option<int>
    decreases s.len() - from + 1,
{
    if from < 0 || from + pattern.len() > s.len() {
        None
    } else if occurs_at(s, pattern, from) {
        Some(from)
    } else {
        first_from(s, pattern, from + 1)
    }
}

/// The first position at which `pattern` stands in `s`.
pub open spec fn first_in(s: Seq<char>, pattern: Seq<char>) -> Option<int> {
    first_from(s, pattern, 0)
}

/// A first position is one at which the pattern stands, and no earlier position is.
pub proof fn lemma_first_from(s: Seq<char>, pattern: Seq<char>, from: int)
    requires
        0 <= from,
    ensures
        match first_from(s, pattern, from) {
            Some(i) => {
                &&& from <= i
                &&& occurs_at(s, pattern, i)
                &&& forall|j: int| from <= j < i ==> !occurs_at(s, pattern, j)
            },
            None => forall|j: int| from <= j ==> !occurs_at(s, pattern, j),
        },
    decreases s.len() - from + 1,
{
    if from + pattern.len() <= s.len() && !occurs_at(s, pattern, from) {
        lemma_first_from(s, pattern, from + 1);
    }
}

/// A position at which the pattern stands, while it stands at no earlier one, is the first.
pub proof fn lemma_first_is(s: Seq<char>, pattern: Seq<char>, i: int)
    requires
        occurs_at(s, pattern, i),
        forall|j: int| 0 <= j < i ==> !occurs_at(s, pattern, j),
    ensures
        first_in(s, pattern) == Some(i),
{
    lemma_first_from(s, pattern, 0);
}

/// Whether `pattern` stands in `v` at position `i`.
fn stands_at(v: &Vec<char>, pattern: &Vec<char>, i: usize) -> (b: bool)
    requires
        i + pattern@.len() <= v@.len(),
    ensures
        b == occurs_at(v@, pattern@, i as int),
{
    let n: usize = v.len();
    let mut k: usize = 0;
    while k < pattern.len()
        invariant
            n == v@.len(),
            i + pattern@.len() <= n,
            k <= pattern@.len(),
            forall|j: int| 0 <= j < k ==> v@[i + j] == pattern@[j],
        decreases pattern@.len() - k,
    {
        if v[i + k] != pattern[k] {
            proof {
                assert(v@.subrange(i as int, i + pattern@.len())[k as int] == v@[i + k]);
            }
            return false;
        }
        k = k + 1;
    }
    assert(v@.subrange(i as int, i + pattern@.len()) == pattern@);
    true
}

/// The first position, counted in characters, at which `pattern` stands in `s`.
pub fn find(s: &str, pattern: &str) -> (r: Option<usize>)
    ensures
        match r {
            Some(i) => first_in(s@, pattern@) == Some(i as int),
            None => first_in(s@, pattern@) is None,
        },
{
    let v = chars_of(s);
    let p = chars_of(pattern);
    if p.len() > v.len() {
        return None;
    }
    let last: usize = v.len() - p.len();
    let mut i: usize = 0;
    while i <= last
        invariant
            v@ == s@,
            p@ == pattern@,
            last + p@.len() == v@.len(),
            i <= last + 1,
            first_in(s@, pattern@) == first_from(s@, pattern@, i as int),
        decreases last + 1 - i,
    {
        if stands_at(&v, &p, i) {
            return Some(i);
        }
        if i == last {
            return None;
        }
        i = i + 1;
    }
    None
}

/// Whether `pattern` stands somewhere in `s`.
pub open spec fn occurs(s: Seq<char>, pattern: Seq<char>) -> bool {
    exists|i: int| occurs_at(s, pattern, i)
}

/// Decides whether `pattern` stands somewhere in `s`.
pub fn contains(s: &str, pattern: &str) -> (b: bool)
    ensures
        b == occurs(s@, pattern@),
{
    proof {
        lemma_first_from(s@, pattern@, 0);
    }
    match find(s, pattern) {
        Some(_) => true,
        None => false,
    }
}

/// Decides whether `s` begins with `prefix`.
pub fn starts_with(s: &str, prefix: &str) -> (b: bool)
    ensures
        b == prefix@.is_prefix_of(s@),
{
    let v = chars_of(s);
    let p = chars_of(prefix);
    if p.len() > v.len() {
        return false;
    }
    let b = stands_at(&v, &p, 0);
    b
}

/// What follows `prefix` in `s`, if `s` begins with it.
pub open spec fn after_prefix(s: Seq<char>, prefix: Seq<char>) -> Option<Seq<char>> {
    if prefix.is_prefix_of(s) {
        Some(s.skip(prefix.len() as int))
    } else {
        None
    }
}

/// What follows `prefix` in `s`, if `s` begins with it.
pub fn strip_prefix<'a>(s: &'a str, prefix: &str) -> (r: Option<&'a str>)
    ensures
        match r {
            Some(rest) => after_prefix(s@, prefix@) == Some(rest@),
            None => after_prefix(s@, prefix@) is None,
        },
{
    if starts_with(s, prefix) {
        Some(s.substring_char(prefix.unicode_len(), s.unicode_len()))
    } else {
        None
    }
}

/// The pieces of `s` between the occurrences of `separator`: one more than there are of them.
pub open spec fn pieces(s: Seq<char>, separator: char) -> Seq<Seq<char>>
    decreases s.len(),
{
    if s.len() == 0 {
        seq![Seq::empty()]
    } else {
        let front = pieces(s.drop_last(), separator);
        if s.last() == separator {
            front.push(Seq::empty())
        } else {
            front.drop_last().push(front.last().push(s.last()))
        }
    }
}

/// There is always a piece.
pub proof fn lemma_pieces_nonempty(s: Seq<char>, separator: char)
    ensures
        pieces(s, separator).len() > 0,
    decreases s.len(),
{
    if s.len() > 0 {
        lemma_pieces_nonempty(s.drop_last(), separator);
    }
}

/// The pieces of two texts in a row are those of the first and those of the second, but for the last
/// of the one and the first of the other, which are one piece.
pub proof fn lemma_pieces_concat(a: Seq<char>, b: Seq<char>, separator: char)
    ensures
        pieces(a, separator).len() > 0,
        pieces(b, separator).len() > 0,
        pieces(a + b, separator) == pieces(a, separator).drop_last() + seq![
            pieces(a, separator).last() + pieces(b, separator)[0],
        ] + pieces(b, separator).drop_first(),
    decreases b.len(),
{
    lemma_pieces_nonempty(a, separator);
    lemma_pieces_nonempty(b, separator);
    let front = pieces(a, separator);
    if b.len() == 0 {
        assert(a + b =~= a);
        assert(front.last() + pieces(b, separator)[0] =~= front.last());
        assert(front =~= front.drop_last() + seq![front.last()] + pieces(b, separator).drop_first());
    } else {
        let c = b.drop_last();
        lemma_pieces_concat(a, c, separator);
        assert((a + b).drop_last() =~= a + c);
        assert((a + b).last() == b.last());
        let back = pieces(c, separator);
        let whole = pieces(a + c, separator);
        if b.last() == separator {
            assert(whole.push(Seq::empty()) =~= front.drop_last() + seq![front.last() + back[0]]
                + back.push(Seq::empty()).drop_first());
        } else {
            let grown = back.drop_last().push(back.last().push(b.last()));
            assert(pieces(b, separator) == grown);
            if back.len() == 1 {
                assert((front.last() + back[0]).push(b.last()) =~= front.last() + grown[0]);
            }
            assert(whole.drop_last().push(whole.last().push(b.last())) =~= front.drop_last() + seq![
                front.last() + grown[0],
            ] + grown.drop_first());
        }
    }
}

/// A text without a separator is one piece.
pub proof fn lemma_one_piece(s: Seq<char>, separator: char)
    requires
        !s.contains(separator),
    ensures
        pieces(s, separator) == seq![s],
    decreases s.len(),
{
    if s.len() > 0 {
        let t = s.drop_last();
        assert forall|i: int| 0 <= i < t.len() implies t[i] != separator by {
            assert(s.contains(s[i]));
        }
        lemma_one_piece(t, separator);
        assert(s.contains(s.last()));
        assert(t.push(s.last()) =~= s);
        assert(pieces(s, separator) =~= seq![s]);
    } else {
        assert(s =~= Seq::empty());
    }
}

/// The pieces of `s` between the occurrences of `separator`.
pub fn split(s: &str, separator: char) -> (parts: Vec<String>)
    ensures
        texts(parts@) == pieces(s@, separator),
{
    let v = chars_of(s);
    let mut parts: Vec<String> = Vec::new();
    let mut start: usize = 0;
    let mut i: usize = 0;
    assert(s@.take(0) == Seq::<char>::empty());
    assert(texts(parts@).push(v@.subrange(0, 0)) == pieces(s@.take(0), separator));
    while i < v.len()
        invariant
            v@ == s@,
            start <= i <= v@.len(),
            texts(parts@).push(v@.subrange(start as int, i as int)) == pieces(
                s@.take(i as int),
                separator,
            ),
        decreases v@.len() - i,
    {
        let ghost front = pieces(s@.take(i as int), separator);
        let ghost done = texts(parts@);
        assert(s@.take(i + 1).drop_last() == s@.take(i as int));
        assert(front.drop_last() == done);
        assert(front.last() == v@.subrange(start as int, i as int));
        if v[i] == separator {
            parts.push(string_of(&v, start, i));
            start = i + 1;
            assert(texts(parts@) == front);
            assert(v@.subrange(start as int, i + 1) == Seq::<char>::empty());
        } else {
            assert(v@.subrange(start as int, i + 1) == v@.subrange(start as int, i as int).push(
                v@[i as int],
            ));
        }
        i = i + 1;
    }
    parts.push(string_of(&v, start, i));
    assert(s@.take(i as int) == s@);
    assert(texts(parts@) == pieces(s@, separator));
    parts
}

/// The parts in a row, with `separator` between each and the next.
pub open spec fn joined(parts: Seq<Seq<char>>, separator: Seq<char>) -> Seq<char>
    decreases parts.len(),
{
    if parts.len() == 0 {
        Seq::empty()
    } else if parts.len() == 1 {
        parts[0]
    } else {
        joined(parts.drop_last(), separator) + separator + parts.last()
    }
}

/// The parts in a row, with `separator` between each and the next.
pub fn join(parts: &Vec<String>, separator: &str) -> (s: String)
    ensures
        s@ == joined(texts(parts@), separator@),
{
    let mut s = String::new();
    let mut i: usize = 0;
    while i < parts.len()
        invariant
            i <= parts@.len(),
            s@ == joined(texts(parts@).take(i as int), separator@),
        decreases parts@.len() - i,
    {
        assert(texts(parts@).take(i + 1).drop_last() == texts(parts@).take(i as int));
        if i > 0 {
            s.append(separator);
        }
        s.append(parts[i].as_str());
        i = i + 1;
    }
    assert(texts(parts@).take(i as int) == texts(parts@));
    s
}

/// `s` with every `from` replaced by `to`.
pub open spec fn replaced(s: Seq<char>, from: char, to: char) -> Seq<char> {
    s.map_values(
        |c: char|
            if c == from {
                to
            } else {
                c
            },
    )
}

/// `s` with every `from` replaced by `to`.
pub fn replace(s: &str, from: char, to: char) -> (r: String)
    ensures
        r@ == replaced(s@, from, to),
{
    let v = chars_of(s);
    let mut r = String::new();
    let mut i: usize = 0;
    while i < v.len()
        invariant
            v@ == s@,
            i <= v@.len(),
            r@ == replaced(s@, from, to).take(i as int),
        decreases v@.len() - i,
    {
        if v[i] == from {
            r.push(to);
        } else {
            r.push(v[i]);
        }
        i = i + 1;
        assert(replaced(s@, from, to).take(i as int) == replaced(s@, from, to).take(i - 1).push(
            replaced(s@, from, to)[i - 1],
        ));
    }
    assert(replaced(s@, from, to).take(i as int) == replaced(s@, from, to));
    r
}

/// The lower-case form of an ASCII capital letter; any other character is left as it is.
pub open spec fn ascii_lower(c: char) -> char {
    if 'A' <= c <= 'Z' {
        ((c as u8) + 32) as char
    } else {
        c
    }
}

/// `s` with its ASCII capital letters in lower case.
pub open spec fn ascii_lowered(s: Seq<char>) -> Seq<char> {
    s.map_values(|c: char| ascii_lower(c))
}

/// The lower-case form of an ASCII capital letter; any other character is left as it is.
fn lower(c: char) -> (d: char)
    ensures
        d == ascii_lower(c),
{
    if 'A' <= c && c <= 'Z' {
        ((c as u8) + 32) as char
    } else {
        c
    }
}

/// `s` with its ASCII capital letters in lower case.
pub fn to_ascii_lowercase(s: &str) -> (r: String)
    ensures
        r@ == ascii_lowered(s@),
{
    let v = chars_of(s);
    let mut r = String::new();
    let mut i: usize = 0;
    while i < v.len()
        invariant
            v@ == s@,
            i <= v@.len(),
            r@ == ascii_lowered(s@).take(i as int),
        decreases v@.len() - i,
    {
        r.push(lower(v[i]));
        i = i + 1;
        assert(ascii_lowered(s@).take(i as int) == ascii_lowered(s@).take(i - 1).push(
            ascii_lowered(s@)[i - 1],
        ));
    }
    assert(ascii_lowered(s@).take(i as int) == ascii_lowered(s@));
    r
}

/// Whether two texts differ in the case of ASCII letters at most.
pub open spec fn same_ignoring_ascii_case(a: Seq<char>, b: Seq<char>) -> bool {
    ascii_lowered(a) == ascii_lowered(b)
}

/// Decides whether two texts are the same.
pub fn same(a: &str, b: &str) -> (r: bool)
    ensures
        r == (a@ == b@),
{
    let v = chars_of(a);
    let w = chars_of(b);
    if v.len() != w.len() {
        return false;
    }
    let r = stands_at(&v, &w, 0);
    assert(v@.subrange(0, w@.len() as int) == v@);
    r
}

/// Decides whether two texts differ in the case of ASCII letters at most.
pub fn eq_ignore_ascii_case(a: &str, b: &str) -> (r: bool)
    ensures
        r == same_ignoring_ascii_case(a@, b@),
{
    same(to_ascii_lowercase(a).as_str(), to_ascii_lowercase(b).as_str())
}

/// The digit that stands for a number below ten.
pub open spec fn digit(n: nat) -> char {
    (48 + n) as char
}

/// The decimal digits of a number, without leading zeros.
pub open spec fn decimal(n: nat) -> Seq<char>
    decreases n,
{
    if n < 10 {
        seq![digit(n)]
    } else {
        decimal(n / 10).push(digit(n % 10))
    }
}

/// The decimal digits of a number, without leading zeros.
pub fn to_decimal(n: u64) -> (s: String)
    ensures
        s@ == decimal(n as nat),
    decreases n,
{
    let last: u8 = 48 + (n % 10) as u8;
    let mut s = if n < 10 {
        String::new()
    } else {
        to_decimal(n / 10)
    };
    s.push(last as char);
    s
}

/// Two numbers with the same digits are the same number.
pub proof fn lemma_decimal_injective(a: nat, b: nat)
    requires
        decimal(a) == decimal(b),
    ensures
        a == b,
    decreases a,
{
    lemma_decimal_len(a);
    lemma_decimal_len(b);
    assert(decimal(a).last() == digit(a % 10));
    assert(decimal(b).last() == digit(b % 10));
    if a >= 10 && b >= 10 {
        assert(decimal(a).drop_last() == decimal(a / 10));
        assert(decimal(b).drop_last() == decimal(b / 10));
        lemma_decimal_injective(a / 10, b / 10);
    }
}

/// A number below ten has one digit, any other has more.
pub proof fn lemma_decimal_len(n: nat)
    ensures
        decimal(n).len() >= 1,
        n >= 10 ==> decimal(n).len() >= 2,
    decreases n,
{
    if n >= 10 {
        lemma_decimal_len(n / 10);
    }
}

/// Every character of a decimal numeral is a digit.
pub proof fn lemma_decimal_digits(n: nat)
    ensures
        forall|i: int|
            0 <= i < decimal(n).len() ==> '0' <= #[trigger] decimal(n)[i] && decimal(n)[i] <= '9',
    decreases n,
{
    if n >= 10 {
        lemma_decimal_digits(n / 10);
        assert forall|i: int| 0 <= i < decimal(n).len() implies '0' <= #[trigger] decimal(n)[i]
            && decimal(n)[i] <= '9' by {
            if i < decimal(n / 10).len() {
                assert(decimal(n)[i] == decimal(n / 10)[i]);
            }
        }
    }
}

/// White space is what Unicode says: these numbers, and no others.
pub proof fn law_white_space_by_number(c: char)
    ensures
        is_white_space(c) <==> ({
            let n = c as int;
            ||| 9 <= n <= 13
            ||| n == 32
            ||| n == 133
            ||| n == 160
            ||| n == 5760
            ||| 8192 <= n <= 8202
            ||| n == 8232
            ||| n == 8233
            ||| n == 8239
            ||| n == 8287
            ||| n == 12288
        }),
{
}

/// Trimming the front takes away characters of the class and nothing else, and goes on as long as
/// there is one. What it takes away is returned.
pub proof fn law_front_is_trimmed(s: Seq<char>, class: CharClass) -> (lead: Seq<char>)
    ensures
        s == lead + trimmed_front(s, class),
        is_all(lead, class),
        trimmed_front(s, class).len() > 0 ==> !class.holds(trimmed_front(s, class)[0]),
    decreases s.len(),
{
    if s.len() > 0 && class.holds(s[0]) {
        let rest = s.drop_first();
        let lead = law_front_is_trimmed(rest, class);
        let whole = seq![s[0]] + lead;
        assert(s =~= seq![s[0]] + rest);
        assert(s =~= whole + trimmed_front(s, class));
        assert forall|i: int| 0 <= i < whole.len() implies class.holds(#[trigger] whole[i]) by {
            if i > 0 {
                assert(whole[i] == lead[i - 1]);
            }
        }
        whole
    } else {
        assert(s =~= Seq::<char>::empty() + trimmed_front(s, class));
        Seq::empty()
    }
}

/// Trimming the back takes away characters of the class and nothing else, and goes on as long as
/// there is one. What it takes away is returned.
pub proof fn law_back_is_trimmed(s: Seq<char>, class: CharClass) -> (tail: Seq<char>)
    ensures
        s == trimmed_back(s, class) + tail,
        is_all(tail, class),
        trimmed_back(s, class).len() > 0 ==> !class.holds(trimmed_back(s, class).last()),
    decreases s.len(),
{
    if s.len() > 0 && class.holds(s.last()) {
        let tail = law_back_is_trimmed(s.drop_last(), class);
        assert(s =~= s.drop_last().push(s.last()));
        assert(s =~= trimmed_back(s, class) + tail.push(s.last()));
        tail.push(s.last())
    } else {
        assert(s =~= trimmed_back(s, class) + Seq::<char>::empty());
        Seq::empty()
    }
}

/// Trimming takes away white space at both ends, all of it and nothing else. What it takes away is
/// returned.
pub proof fn law_trimming_takes_all_white_space(s: Seq<char>) -> (ends: (Seq<char>, Seq<char>))
    ensures
        s == ends.0 + trimmed(s) + ends.1,
        forall|i: int| 0 <= i < ends.0.len() ==> is_white_space(#[trigger] ends.0[i]),
        forall|i: int| 0 <= i < ends.1.len() ==> is_white_space(#[trigger] ends.1[i]),
        trimmed(s).len() > 0 ==> !is_white_space(trimmed(s)[0]) && !is_white_space(
            trimmed(s).last(),
        ),
{
    let white = CharClass::WhiteSpace;
    let lead = law_front_is_trimmed(s, white);
    let front = trimmed_front(s, white);
    let tail = law_back_is_trimmed(front, white);
    assert(s =~= lead + trimmed(s) + tail);
    if trimmed(s).len() > 0 {
        assert(front[0] == trimmed(s)[0]);
    }
    assert forall|i: int| 0 <= i < lead.len() implies is_white_space(#[trigger] lead[i]) by {
        assert(white.holds(lead[i]));
    }
    assert forall|i: int| 0 <= i < tail.len() implies is_white_space(#[trigger] tail[i]) by {
        assert(white.holds(tail[i]));
    }
    (lead, tail)
}

/// What is written behind a prefix is found behind it, and what is found there was written there.
pub proof fn law_prefix_is_taken_off(s: Seq<char>, prefix: Seq<char>, rest: Seq<char>)
    ensures
        after_prefix(prefix + rest, prefix) == Some(rest),
        match after_prefix(s, prefix) {
            Some(r) => s == prefix + r,
            None => s != prefix + rest,
        },
{
    assert((prefix + rest).take(prefix.len() as int) =~= prefix);
    assert((prefix + rest).skip(prefix.len() as int) =~= rest);
    if prefix.is_prefix_of(s) {
        assert(s =~= prefix + s.skip(prefix.len() as int));
    }
}

/// The pieces of a text, put in a row with the separator between them, are the text again, and none
/// of them holds the separator.
pub proof fn law_pieces_make_the_text(s: Seq<char>, separator: char)
    ensures
        joined(pieces(s, separator), seq![separator]) == s,
        pieces(s, separator).len() > 0,
        forall|i: int|
            0 <= i < pieces(s, separator).len() ==> !(#[trigger] pieces(s, separator)[i]).contains(
                separator,
            ),
    decreases s.len(),
{
    let parts = pieces(s, separator);
    if s.len() == 0 {
        assert(joined(parts, seq![separator]) =~= s);
    } else {
        let front = pieces(s.drop_last(), separator);
        law_pieces_make_the_text(s.drop_last(), separator);
        assert(s =~= s.drop_last().push(s.last()));
        if s.last() == separator {
            assert(parts.drop_last() =~= front);
            assert(joined(parts, seq![separator]) =~= s);
        } else {
            assert(parts.drop_last() =~= front.drop_last());
            let last = front.last().push(s.last());
            if front.len() == 1 {
                assert(joined(front, seq![separator]) == front[0]);
                assert(joined(parts, seq![separator]) == last);
                assert(last =~= s);
            } else {
                assert(joined(parts, seq![separator]) =~= s);
            }
            assert forall|i: int| 0 <= i < parts.len() implies !(
            #[trigger] parts[i]).contains(separator) by {
                if i < front.len() - 1 {
                    assert(parts[i] == front[i]);
                } else {
                    assert(!front[front.len() - 1].contains(separator));
                    assert forall|k: int| 0 <= k < last.len() implies last[k] != separator by {
                        if k < front.last().len() {
                            assert(front.last().contains(front.last()[k]));
                        }
                    }
                }
            }
        }
    }
}

/// Parts that do not hold the separator, put in a row with it between them, are split into the same
/// parts again.
pub proof fn law_parts_are_split_again(parts: Seq<Seq<char>>, separator: char)
    requires
        parts.len() > 0,
        forall|i: int| 0 <= i < parts.len() ==> !(#[trigger] parts[i]).contains(separator),
    ensures
        pieces(joined(parts, seq![separator]), separator) == parts,
    decreases parts.len(),
{
    if parts.len() == 1 {
        assert(!parts[0].contains(separator));
        lemma_one_piece(parts[0], separator);
        assert(parts =~= seq![parts[0]]);
    } else {
        let front = parts.drop_last();
        assert forall|i: int| 0 <= i < front.len() implies !(#[trigger] front[i]).contains(
            separator,
        ) by {
            assert(front[i] == parts[i]);
        }
        law_parts_are_split_again(front, separator);
        assert(!parts[parts.len() - 1].contains(separator));
        lemma_one_piece(parts.last(), separator);
        let head = joined(front, seq![separator]) + seq![separator];
        assert(head.drop_last() =~= joined(front, seq![separator]));
        assert(pieces(head, separator) =~= front.push(Seq::empty()));
        lemma_pieces_concat(head, parts.last(), separator);
        assert(Seq::<char>::empty() + parts.last() =~= parts.last());
        assert(pieces(head + parts.last(), separator) =~= parts);
    }
}

/// Replacing keeps the length and touches no character but the one that is replaced.
pub proof fn law_replacing_goes_by_character(s: Seq<char>, from: char, to: char)
    ensures
        replaced(s, from, to).len() == s.len(),
        forall|i: int|
            0 <= i < s.len() ==> #[trigger] replaced(s, from, to)[i] == (if s[i] == from {
                to
            } else {
                s[i]
            }),
{
}

/// Two characters that are the same but for the case of an ASCII letter.
pub open spec fn same_letter(a: char, b: char) -> bool {
    ||| a == b
    ||| 65 <= a as int <= 90 && b as int == a as int + 32
    ||| 65 <= b as int <= 90 && a as int == b as int + 32
}

/// Texts that are the same ignoring case are as long as one another and the same character by
/// character, but for the case of ASCII letters; and any two such texts are the same.
pub proof fn law_case_is_ignored_for_ascii_letters_only(a: Seq<char>, b: Seq<char>)
    ensures
        same_ignoring_ascii_case(a, b) <==> a.len() == b.len() && forall|i: int|
            0 <= i < a.len() ==> same_letter(#[trigger] a[i], b[i]),
{
    let x = ascii_lowered(a);
    let y = ascii_lowered(b);
    if x == y {
        assert(x.len() == a.len() && y.len() == b.len());
        assert forall|i: int| 0 <= i < a.len() implies same_letter(#[trigger] a[i], b[i]) by {
            assert(x[i] == ascii_lower(a[i]));
            assert(y[i] == ascii_lower(b[i]));
        }
    }
    if a.len() == b.len() && forall|i: int| 0 <= i < a.len() ==> same_letter(#[trigger] a[i], b[i]) {
        assert forall|i: int| 0 <= i < a.len() implies x[i] == y[i] by {
            assert(same_letter(a[i], b[i]));
        }
        assert(x =~= y);
    }
}

/// The number that a row of decimal digits stands for.
pub open spec fn number_of(digits: Seq<char>) -> int
    decreases digits.len(),
{
    if digits.len() == 0 {
        0
    } else {
        10 * number_of(digits.drop_last()) + (digits.last() as int - 48)
    }
}

/// A numeral stands for its number, is made of digits, and has no zero at its front but for zero.
pub proof fn law_numerals_stand_for_their_number(n: nat)
    ensures
        number_of(decimal(n)) == n,
        decimal(n).len() > 0,
        n > 0 ==> decimal(n)[0] != '0',
        forall|i: int|
            0 <= i < decimal(n).len() ==> '0' <= #[trigger] decimal(n)[i] && decimal(n)[i] <= '9',
    decreases n,
{
    lemma_decimal_digits(n);
    if n < 10 {
        assert(decimal(n).drop_last() =~= Seq::<char>::empty());
        assert(number_of(decimal(n).drop_last()) == 0);
    } else {
        law_numerals_stand_for_their_number(n / 10);
        assert(decimal(n).drop_last() =~= decimal(n / 10));
        assert(decimal(n)[0] == decimal(n / 10)[0]);
    }
}

} // verus!
