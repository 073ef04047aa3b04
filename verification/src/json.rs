//! JSON values, as `serde_json` reads and builds them.
use serde_json::Value;
use vstd::prelude::*;

use crate::text::{decimal, lemma_decimal_injective};

verus! {

/// `serde_json::Value`, an opaque JSON value.
#[verifier::external_type_specification]
#[verifier::external_body]
pub struct ExJsonValue(Value);

/// `Value::clone`: the copy is the same value.
pub assume_specification[ <Value as Clone>::clone ](value: &Value) -> (copy: Value)
    ensures
        copy == *value,
;

/// What `serde_json::from_str` makes of a text: the value, or nothing where the text is not JSON.
pub uninterp spec fn json_parse(text: Seq<char>) -> Option<Value>;

/// The members that `Value::as_object` shows of a value, if the value is an object.
pub uninterp spec fn json_members(value: Value) -> Option<Map<Seq<char>, Value>>;

/// The items that `Value::as_array` shows of a value, if the value is an array.
pub uninterp spec fn json_items(value: Value) -> Option<Seq<Value>>;

/// The text that `Value::as_str` shows of a value, if the value is a string.
pub uninterp spec fn json_text(value: Value) -> Option<Seq<char>>;

/// The number that `Value::as_u64` shows of a value, if the value is a number in that range.
pub uninterp spec fn json_u64(value: Value) -> Option<u64>;

/// What `Value::pointer` finds in a value under a JSON Pointer.
pub uninterp spec fn json_pointer(value: Value, pointer: Seq<char>) -> Option<Value>;

/// The string `Value::String` of a text.
pub uninterp spec fn json_string(text: Seq<char>) -> Value;

/// The object `Value::Object` with given members.
pub uninterp spec fn json_object(members: Map<Seq<char>, Value>) -> Value;

/// The number that `Value::from` makes of an unsigned integer.
pub uninterp spec fn json_number(n: u64) -> Value;

/// The member of a value under a key: nothing if the value is no object or has no such key.
pub open spec fn json_member(value: Value, key: Seq<char>) -> Option<Value> {
    match json_members(value) {
        Some(members) => if members.contains_key(key) {
            Some(members[key])
        } else {
            None
        },
        None => None,
    }
}

/// The item of a list that a key numbers: the key is the decimal numeral of its position.
pub open spec fn json_item(items: Seq<Value>, key: Seq<char>) -> Option<Value> {
    if exists|n: nat| n < items.len() && key == #[trigger] decimal(n) {
        Some(items[(choose|n: nat| n < items.len() && key == #[trigger] decimal(n)) as int])
    } else {
        None
    }
}

/// What a key leads to in a value: a member of an object, or an item of an array.
pub open spec fn json_step(value: Value, key: Seq<char>) -> Option<Value> {
    match (json_members(value), json_items(value)) {
        (Some(_), _) => json_member(value, key),
        (None, Some(items)) => json_item(items, key),
        (None, None) => None,
    }
}

/// What is reached from a value by going on from key to key.
pub open spec fn json_along(value: Value, keys: Seq<Seq<char>>) -> Option<Value>
    decreases keys.len(),
{
    if keys.len() == 0 {
        Some(value)
    } else {
        match json_along(value, keys.drop_last()) {
            Some(inner) => json_step(inner, keys.last()),
            None => None,
        }
    }
}

/// Going along one list of keys and on along another is going along both in a row.
pub proof fn lemma_along_concat(value: Value, first: Seq<Seq<char>>, second: Seq<Seq<char>>)
    ensures
        json_along(value, first + second) == (match json_along(value, first) {
            Some(inner) => json_along(inner, second),
            None => None,
        }),
    decreases second.len(),
{
    if second.len() == 0 {
        assert(first + second == first);
    } else {
        lemma_along_concat(value, first, second.drop_last());
        assert((first + second).drop_last() == first + second.drop_last());
        assert((first + second).last() == second.last());
    }
}

/// A key as it stands in a JSON Pointer: `~0` for each `~`, and `~1` for each `/`.
pub open spec fn escaped(key: Seq<char>) -> Seq<char>
    decreases key.len(),
{
    if key.len() == 0 {
        Seq::empty()
    } else if key.last() == '~' {
        escaped(key.drop_last()) + seq!['~', '0']
    } else if key.last() == '/' {
        escaped(key.drop_last()) + seq!['~', '1']
    } else {
        escaped(key.drop_last()).push(key.last())
    }
}

/// Whether a key stands in a JSON Pointer as it is: the key holds neither `/` nor `~`.
pub open spec fn is_plain_key(key: Seq<char>) -> bool {
    forall|i: int| 0 <= i < key.len() ==> key[i] != '/' && key[i] != '~'
}

/// A plain key needs no escape.
pub proof fn lemma_plain_key_is_not_escaped(key: Seq<char>)
    requires
        is_plain_key(key),
    ensures
        escaped(key) == key,
    decreases key.len(),
{
    if key.len() > 0 {
        let front = key.drop_last();
        assert forall|i: int| 0 <= i < front.len() implies front[i] != '/' && front[i] != '~' by {
            assert(front[i] == key[i]);
        }
        lemma_plain_key_is_not_escaped(front);
        assert(front.push(key.last()) =~= key);
    } else {
        assert(key =~= Seq::empty());
    }
}

/// The JSON Pointer along `keys`: a `/` before each of them.
pub open spec fn pointer_along(keys: Seq<Seq<char>>) -> Seq<char>
    decreases keys.len(),
{
    if keys.len() == 0 {
        Seq::empty()
    } else {
        pointer_along(keys.drop_last()) + seq!['/'] + escaped(keys.last())
    }
}

/// The members that a list of entries gives an object.
pub open spec fn entries_map(entries: Seq<(String, Value)>) -> Map<Seq<char>, Value>
    decreases entries.len(),
{
    if entries.len() == 0 {
        Map::empty()
    } else {
        entries_map(entries.drop_last()).insert(entries.last().0@, entries.last().1)
    }
}

/// Reads a text as JSON with `serde_json::from_str`. Two things are claimed: the outcome depends
/// on the text alone, and a string that is a member of the outcome is shorter than the text, which
/// holds it between quotes and spends at least one character on each of its characters.
#[verifier::external_body]
pub(crate) fn parse_json(text: &str) -> (value: Option<Value>)
    ensures
        value == json_parse(text@),
        value is Some ==> forall|key: Seq<char>|
            (#[trigger] json_member(value->0, key) is Some && json_text(
                json_member(value->0, key)->0,
            ) is Some) ==> json_text(json_member(value->0, key)->0)->0.len() < text@.len(),
{
    serde_json::from_str(text).ok()
}

/// `Value::get` with a string index: the member under that key.
#[verifier::external_body]
pub(crate) fn member<'a>(value: &'a Value, key: &str) -> (found: Option<&'a Value>)
    ensures
        match found {
            Some(inner) => json_member(*value, key@) == Some(*inner),
            None => json_member(*value, key@) is None,
        },
{
    value.get(key)
}

/// `Value::as_str`: the text of a string, and nothing for any other value.
#[verifier::external_body]
pub(crate) fn as_text(value: &Value) -> (text: Option<&str>)
    ensures
        match text {
            Some(t) => json_text(*value) == Some(t@),
            None => json_text(*value) is None,
        },
{
    value.as_str()
}

/// `Value::as_u64`: the number, if the value is one in the range of `u64`.
#[verifier::external_body]
pub(crate) fn as_u64(value: &Value) -> (number: Option<u64>)
    ensures
        number == json_u64(*value),
{
    value.as_u64()
}

/// `Value::pointer`, with the value found there copied. Beside the name of the outcome it is
/// claimed that a pointer along keys, with their escapes, goes on from key to key through objects
/// and arrays, and that a pointer that is not empty and does not begin with a `/` finds nothing.
/// What a pointer finds that holds a `~` in no escape is left unsaid.
#[verifier::external_body]
pub(crate) fn at_pointer(value: &Value, pointer: &str) -> (found: Option<Value>)
    ensures
        found == json_pointer(*value, pointer@),
        forall|keys: Seq<Seq<char>>|
            pointer@ == #[trigger] pointer_along(keys) ==> found == json_along(*value, keys),
        pointer@.len() > 0 && pointer@[0] != '/' ==> found is None,
{
    value.pointer(pointer).cloned()
}

/// `Value::String`: the string of a text.
#[verifier::external_body]
pub(crate) fn string_value(text: &str) -> (value: Value)
    ensures
        value == json_string(text@),
        json_text(value) == Some(text@),
        json_members(value) is None,
        json_items(value) is None,
{
    Value::String(text.to_string())
}

/// `Value::Object` of the `serde_json::Map` collected from the entries, whose keys are distinct.
#[verifier::external_body]
pub(crate) fn object_value(entries: Vec<(String, Value)>) -> (value: Value)
    requires
        forall|i: int, j: int|
            0 <= i < j < entries@.len() ==> (#[trigger] entries@[i]).0@ != (
            #[trigger] entries@[j]).0@,
    ensures
        value == json_object(entries_map(entries@)),
        json_members(value) == Some(entries_map(entries@)),
        json_items(value) is None,
{
    Value::Object(entries.into_iter().collect())
}

/// `Value::from` of an unsigned integer: `Value::as_u64` gives it back.
#[verifier::external_body]
pub(crate) fn number_value(n: u64) -> (value: Value)
    ensures
        value == json_number(n),
        json_u64(value) == Some(n),
{
    Value::from(n)
}

/// A member of an object is what its key leads to; an item of an array is what the numeral of its
/// position leads to; and nothing leads on from any other value.
pub proof fn law_steps_lead_to_members_and_items(value: Value, key: Seq<char>, n: nat)
    ensures
        json_members(value) matches Some(members) ==> json_step(value, key) == (
        if members.contains_key(key) {
            Some(members[key])
        } else {
            None
        }),
        json_members(value) is None ==> (json_items(value) matches Some(items) ==> {
            &&& n < items.len() ==> json_step(value, decimal(n)) == Some(items[n as int])
            &&& n >= items.len() ==> json_step(value, decimal(n)) is None
            &&& (forall|m: nat| key != decimal(m)) ==> json_step(value, key) is None
        }),
        json_members(value) is None && json_items(value) is None ==> json_step(value, key) is None,
{
    if json_members(value) is None {
        if let Some(items) = json_items(value) {
            if n < items.len() {
                let m = choose|m: nat| m < items.len() && decimal(n) == #[trigger] decimal(m);
                lemma_decimal_injective(n, m);
            } else if exists|m: nat| m < items.len() && decimal(n) == #[trigger] decimal(m) {
                let m = choose|m: nat| m < items.len() && decimal(n) == #[trigger] decimal(m);
                lemma_decimal_injective(n, m);
            }
        }
    }
}

/// Going along keys is taking a step and going on from there; without a key one stays.
pub proof fn law_going_on_from_the_first_step(value: Value, key: Seq<char>, rest: Seq<Seq<char>>)
    ensures
        json_along(value, Seq::empty()) == Some(value),
        json_along(value, seq![key] + rest) == (match json_step(value, key) {
            Some(inner) => json_along(inner, rest),
            None => None,
        }),
{
    assert(seq![key].drop_last() =~= Seq::<Seq<char>>::empty());
    assert(json_along(value, seq![key].drop_last()) == Some(value));
    lemma_along_concat(value, seq![key], rest);
}

/// A pointer along two lists of keys in a row is the pointer along the one and that along the other.
pub proof fn law_pointers_add_up(first: Seq<Seq<char>>, second: Seq<Seq<char>>, key: Seq<char>)
    ensures
        pointer_along(first + second) == pointer_along(first) + pointer_along(second),
        pointer_along(seq![key]) == seq!['/'] + escaped(key),
    decreases second.len(),
{
    assert(seq![key].drop_last() =~= Seq::<Seq<char>>::empty());
    assert(pointer_along(seq![key].drop_last()) =~= Seq::<char>::empty());
    assert(pointer_along(seq![key]) =~= seq!['/'] + escaped(key));
    if second.len() == 0 {
        assert(first + second =~= first);
        assert(pointer_along(first) + pointer_along(second) =~= pointer_along(first));
    } else {
        law_pointers_add_up(first, second.drop_last(), key);
        assert((first + second).drop_last() =~= first + second.drop_last());
        assert((first + second).last() == second.last());
        assert(pointer_along(first + second) =~= pointer_along(first) + pointer_along(second));
    }
}

/// Escapes go character by character: `~0` for `~`, `~1` for `/`, and every other character as it is.
pub proof fn law_escapes_go_by_character(a: Seq<char>, b: Seq<char>, c: char)
    ensures
        escaped(a + b) == escaped(a) + escaped(b),
        escaped(seq![c]) == (if c == '~' {
            seq!['~', '0']
        } else if c == '/' {
            seq!['~', '1']
        } else {
            seq![c]
        }),
        escaped(Seq::empty()) == Seq::<char>::empty(),
    decreases b.len(),
{
    assert(seq![c].drop_last() =~= Seq::<char>::empty());
    assert(escaped(seq![c].drop_last()) == Seq::<char>::empty());
    assert(escaped(seq![c]) =~= (if c == '~' {
        seq!['~', '0']
    } else if c == '/' {
        seq!['~', '1']
    } else {
        seq![c]
    }));
    if b.len() == 0 {
        assert(a + b =~= a);
        assert(escaped(a) + escaped(b) =~= escaped(a));
    } else {
        law_escapes_go_by_character(a, b.drop_last(), c);
        assert((a + b).drop_last() =~= a + b.drop_last());
        assert(escaped(a + b) =~= escaped(a) + escaped(b));
    }
}

/// Entries of distinct keys give an object exactly these members.
pub proof fn law_entries_are_the_members(entries: Seq<(String, Value)>, key: Seq<char>)
    requires
        forall|i: int, j: int|
            0 <= i < j < entries.len() ==> (#[trigger] entries[i]).0@ != (#[trigger] entries[j]).0@,
    ensures
        forall|i: int|
            0 <= i < entries.len() ==> entries_map(entries).contains_key((#[trigger] entries[i]).0@)
                && entries_map(entries)[entries[i].0@] == entries[i].1,
        entries_map(entries).contains_key(key) ==> exists|i: int|
            0 <= i < entries.len() && (#[trigger] entries[i]).0@ == key,
    decreases entries.len(),
{
    if entries.len() > 0 {
        let front = entries.drop_last();
        let n = entries.len() - 1;
        assert forall|i: int, j: int| 0 <= i < j < front.len() implies (
        #[trigger] front[i]).0@ != (#[trigger] front[j]).0@ by {
            assert(front[i] == entries[i] && front[j] == entries[j]);
        }
        law_entries_are_the_members(front, key);
        assert forall|i: int| 0 <= i < entries.len() implies entries_map(entries).contains_key(
            (#[trigger] entries[i]).0@,
        ) && entries_map(entries)[entries[i].0@] == entries[i].1 by {
            if i < n {
                assert(front[i] == entries[i]);
                assert(entries[i].0@ != entries[n].0@);
            }
        }
        if entries_map(entries).contains_key(key) {
            if key == entries[n].0@ {
                assert(entries[n].0@ == key);
            } else {
                let i = choose|i: int| 0 <= i < front.len() && (#[trigger] front[i]).0@ == key;
                assert(entries[i] == front[i]);
            }
        }
    }
}

} // verus!
