//! Accumulated step outputs of a procedure run, and the paths that address them.
use std::collections::BTreeMap;

use serde_json::Value;
use vstd::prelude::*;

use crate::json::{
    at_pointer, entries_map, escaped, is_plain_key, json_along, json_member, json_members, json_object,
    json_pointer, lemma_along_concat, lemma_plain_key_is_not_escaped, object_value, pointer_along,
};
use crate::step_output::{parse_step_output_value, step_output_value};
use crate::text::{
    after_prefix, decimal, law_numerals_stand_for_their_number, law_prefix_is_taken_off,
    lemma_decimal_digits, lemma_decimal_injective, replace, replaced, strip_prefix, to_decimal,
};

verus! {

/// How a step of a procedure ended.
#[derive(Debug, Clone, Copy, PartialEq, Eq, Structural)]
pub enum SopStepStatus {
    /// The step ran to its end.
    Completed,
    /// The step failed.
    Failed,
    /// The step was passed over.
    Skipped,
}

/// The record of one step of a procedure run.
#[derive(Debug, Clone)]
pub struct SopStepResult {
    /// The agent that ran the step, where it is not the procedure's own.
    pub effective_agent: Option<String>,
    /// The step's number in the procedure.
    pub step_number: u32,
    /// How the step ended.
    pub status: SopStepStatus,
    /// The raw text that the step put out.
    pub output: String,
    /// When the step began.
    pub started_at: String,
    /// When the step ended.
    pub completed_at: Option<String>,
    /// The tool calls that the step made.
    pub tool_calls: Vec<Value>,
}

/// Accumulated step outputs, shared by schema validation and routing.
#[derive(Debug, Clone, PartialEq)]
pub struct RunData {
    /// The output of each step, by the step's number.
    pub outputs: BTreeMap<u32, Value>,
}

/// The outputs of the completed steps among `results`; of two with one number the later counts.
pub open spec fn completed_outputs(results: Seq<SopStepResult>) -> Map<u32, Value>
    decreases results.len(),
{
    if results.len() == 0 {
        Map::empty()
    } else {
        let earlier = completed_outputs(results.drop_last());
        let result = results.last();
        if result.status == SopStepStatus::Completed {
            earlier.insert(result.step_number, step_output_value(result.output@))
        } else {
            earlier
        }
    }
}

/// The outputs as members of an object: each under the decimal numeral of its step.
pub open spec fn step_members(outputs: Map<u32, Value>) -> Map<Seq<char>, Value> {
    Map::new(
        |key: Seq<char>|
            exists|n: u32| #[trigger] outputs.contains_key(n) && key == decimal(n as nat),
        |key: Seq<char>|
            outputs[choose|n: u32| #[trigger]
                outputs.contains_key(n) && key == decimal(n as nat)],
    )
}

/// The payload of a run: an object whose one member `steps` is the object of the outputs.
pub open spec fn payload(outputs: Map<u32, Value>) -> Value {
    json_object(map!["steps"@ => json_object(step_members(outputs))])
}

/// The JSON Pointer that a path stands for: a path that begins with `$.` is dotted, and any other
/// is a pointer already.
pub open spec fn path_pointer(path: Seq<char>) -> Seq<char> {
    match after_prefix(path, "$."@) {
        Some(rest) => seq!['/'] + replaced(rest, '.', '/'),
        None => path,
    }
}

/// What a path addresses in the payload of a run; the empty path addresses nothing.
pub open spec fn value_at_path(outputs: Map<u32, Value>, path: Seq<char>) -> Option<Value> {
    if path.len() == 0 {
        None
    } else {
        json_pointer(payload(outputs), path_pointer(path))
    }
}

/// The map that a list of steps with their outputs makes.
spec fn pairs_map(pairs: Seq<(u32, Value)>) -> Map<u32, Value>
    decreases pairs.len(),
{
    if pairs.len() == 0 {
        Map::empty()
    } else {
        pairs_map(pairs.drop_last()).insert(pairs.last().0, pairs.last().1)
    }
}

/// A list of distinct steps makes the map that holds each of them with its output.
proof fn lemma_pairs_map(pairs: Seq<(u32, Value)>)
    requires
        forall|i: int, j: int|
            0 <= i < j < pairs.len() ==> (#[trigger] pairs[i]).0 != (#[trigger] pairs[j]).0,
    ensures
        forall|i: int|
            0 <= i < pairs.len() ==> pairs_map(pairs).contains_key((#[trigger] pairs[i]).0)
                && pairs_map(pairs)[pairs[i].0] == pairs[i].1,
        forall|k: u32|
            pairs_map(pairs).contains_key(k) ==> exists|i: int|
                0 <= i < pairs.len() && (#[trigger] pairs[i]).0 == k,
    decreases pairs.len(),
{
    if pairs.len() > 0 {
        let front = pairs.drop_last();
        lemma_pairs_map(front);
        assert forall|i: int| 0 <= i < pairs.len() implies pairs_map(pairs).contains_key(
            (#[trigger] pairs[i]).0,
        ) && pairs_map(pairs)[pairs[i].0] == pairs[i].1 by {
            if i < front.len() {
                assert(front[i] == pairs[i]);
            }
        }
        assert forall|k: u32| pairs_map(pairs).contains_key(k) implies exists|i: int|
            0 <= i < pairs.len() && (#[trigger] pairs[i]).0 == k by {
            if k == pairs.last().0 {
                assert(pairs[pairs.len() - 1].0 == k);
            } else {
                assert(pairs_map(front).contains_key(k));
                let i = choose|i: int| 0 <= i < front.len() && (#[trigger] front[i]).0 == k;
                assert(pairs[i] == front[i]);
            }
        }
    }
}

/// The steps of a map with their outputs, each once.
fn pairs_of(outputs: &BTreeMap<u32, Value>) -> (pairs: Vec<(u32, Value)>)
    ensures
        pairs_map(pairs@) == outputs@,
        forall|i: int, j: int|
            0 <= i < j < pairs@.len() ==> (#[trigger] pairs@[i]).0 != (#[trigger] pairs@[j]).0,
{
    let mut pairs: Vec<(u32, Value)> = Vec::new();
    for entry in it: outputs.iter()
        invariant
            it.seq() == vstd::std_specs::iter::IteratorSpec::remaining(
                &vstd::std_specs::btree::spec_btree_map_iter(outputs),
            ),
            it.seq().no_duplicates(),
            pairs@.len() == it.index(),
            forall|i: int|
                0 <= i < pairs@.len() ==> (#[trigger] pairs@[i]).0 == *it.seq()[i].0
                    && pairs@[i].1 == *it.seq()[i].1,
            it.index() == it.seq().len() ==> pairs@.len() == it.seq().len(),
    {
        pairs.push((*entry.0, entry.1.clone()));
    }
    proof {
        let all = vstd::std_specs::iter::IteratorSpec::remaining(
                &vstd::std_specs::btree::spec_btree_map_iter(outputs),
            );
        assert forall|i: int, j: int| 0 <= i < j < pairs@.len() implies (
        #[trigger] pairs@[i]).0 != (#[trigger] pairs@[j]).0 by {
            assert(outputs@.contains_key(*all[i].0));
            assert(outputs@.contains_key(*all[j].0));
            assert(all[i] != all[j]);
        }
        lemma_pairs_map(pairs@);
        assert forall|k: u32| outputs@.contains_key(k) implies pairs_map(pairs@).contains_key(
            k,
        ) by {
            assert(all.contains((&k, &outputs@[k])));
            let i = choose|i: int| 0 <= i < all.len() && all[i] == (&k, &outputs@[k]);
            assert(pairs@[i].0 == k);
        }
        assert forall|k: u32| pairs_map(pairs@).contains_key(k) implies outputs@.contains_key(k)
            && outputs@[k] == pairs_map(pairs@)[k] by {
            let i = choose|i: int| 0 <= i < pairs@.len() && (#[trigger] pairs@[i]).0 == k;
            assert(outputs@.contains_key(*all[i].0));
            assert(outputs@[*all[i].0] == *all[i].1);
        }
        assert(pairs_map(pairs@) =~= outputs@);
    }
    pairs
}

/// Recording an output adds one member, under the numeral of its step.
pub proof fn lemma_step_members_insert(outputs: Map<u32, Value>, step: u32, output: Value)
    ensures
        step_members(outputs.insert(step, output)) == step_members(outputs).insert(
            decimal(step as nat),
            output,
        ),
{
    let after = outputs.insert(step, output);
    let key = decimal(step as nat);
    assert forall|k: Seq<char>| step_members(after).contains_key(k) == step_members(
        outputs,
    ).insert(key, output).contains_key(k) by {
        if step_members(outputs).contains_key(k) {
            let n = choose|n: u32| #[trigger] outputs.contains_key(n) && k == decimal(n as nat);
            assert(after.contains_key(n));
        }
        if k == key {
            assert(after.contains_key(step));
        }
        if step_members(after).contains_key(k) && k != key {
            let n = choose|n: u32| #[trigger] after.contains_key(n) && k == decimal(n as nat);
            assert(outputs.contains_key(n));
        }
    }
    assert forall|k: Seq<char>| step_members(after).contains_key(k) implies step_members(after)[k]
        == step_members(outputs).insert(key, output)[k] by {
        let n = choose|n: u32| #[trigger] after.contains_key(n) && k == decimal(n as nat);
        if k == key {
            lemma_decimal_injective(n as nat, step as nat);
        } else {
            assert(outputs.contains_key(n));
            let m = choose|m: u32| #[trigger] outputs.contains_key(m) && k == decimal(m as nat);
            lemma_decimal_injective(n as nat, m as nat);
        }
    }
    assert(step_members(after) =~= step_members(outputs).insert(key, output));
}

/// The keys, each behind a dot.
pub open spec fn dotted(keys: Seq<Seq<char>>) -> Seq<char>
    decreases keys.len(),
{
    if keys.len() == 0 {
        Seq::empty()
    } else {
        dotted(keys.drop_last()) + seq!['.'] + keys.last()
    }
}

/// Whether a key stands in a dotted path as it is: the key is plain and holds no dot.
pub open spec fn is_path_key(key: Seq<char>) -> bool {
    is_plain_key(key) && !key.contains('.')
}

/// The keys that lead from the payload to the output of a step and on from there.
pub open spec fn keys_to(step: u32, keys: Seq<Seq<char>>) -> Seq<Seq<char>> {
    seq!["steps"@, decimal(step as nat)] + keys
}

/// Whether a path leads to the output of a step and from there along `keys`: in its dotted form, as
/// `$.steps.1.ok`, where the keys stand as they are, or as a JSON Pointer, as `/steps/1/ok`.
pub open spec fn is_path_to(path: Seq<char>, step: u32, keys: Seq<Seq<char>>) -> bool {
    ||| {
        &&& path == seq!['$'] + dotted(keys_to(step, keys))
        &&& forall|i: int| 0 <= i < keys.len() ==> is_path_key(#[trigger] keys[i])
    }
    ||| path == pointer_along(keys_to(step, keys))
}

/// Putting slashes for the dots of a dotted path makes the pointer along the same keys.
proof fn lemma_dotted_replaced(keys: Seq<Seq<char>>)
    requires
        forall|i: int| 0 <= i < keys.len() ==> is_path_key(#[trigger] keys[i]),
    ensures
        replaced(dotted(keys), '.', '/') == pointer_along(keys),
        keys.len() > 0 ==> dotted(keys).len() > 0 && dotted(keys)[0] == '.',
    decreases keys.len(),
{
    if keys.len() > 0 {
        let front = keys.drop_last();
        let key = keys.last();
        assert forall|i: int| 0 <= i < front.len() implies is_path_key(#[trigger] front[i]) by {
            assert(front[i] == keys[i]);
        }
        lemma_dotted_replaced(front);
        assert(is_path_key(keys[keys.len() - 1]));
        assert forall|i: int| 0 <= i < key.len() implies key[i] != '.' by {
            assert(key.contains(key[i]));
        }
        lemma_plain_key_is_not_escaped(key);
        assert(replaced(key, '.', '/') =~= key);
        assert(replaced(dotted(keys), '.', '/') =~= replaced(dotted(front), '.', '/') + seq!['/']
            + replaced(key, '.', '/'));
    } else {
        assert(replaced(dotted(keys), '.', '/') =~= pointer_along(keys));
    }
}

/// A pointer along some keys begins with a slash.
proof fn lemma_pointer_begins(keys: Seq<Seq<char>>)
    requires
        keys.len() > 0,
    ensures
        pointer_along(keys).len() > 0,
        pointer_along(keys)[0] == '/',
    decreases keys.len(),
{
    let front = pointer_along(keys.drop_last());
    if keys.len() > 1 {
        lemma_pointer_begins(keys.drop_last());
        assert(pointer_along(keys)[0] == front[0]);
    } else {
        assert(front =~= Seq::empty());
    }
}

/// A path to a step stands for the pointer along the keys to it.
proof fn lemma_path_pointer(path: Seq<char>, step: u32, keys: Seq<Seq<char>>)
    requires
        is_path_to(path, step, keys),
    ensures
        path.len() > 0,
        path_pointer(path) == pointer_along(keys_to(step, keys)),
{
    let all = keys_to(step, keys);
    reveal_strlit("$.");
    if path == pointer_along(all) {
        lemma_pointer_begins(all);
        assert(!"$."@.is_prefix_of(path)) by {
            if "$."@.is_prefix_of(path) {
                assert("$."@[0] == path[0]);
            }
        }
    } else {
        reveal_strlit("steps");
        lemma_decimal_digits(step as nat);
        assert(!decimal(step as nat).contains('.'));
        assert forall|i: int| 0 <= i < all.len() implies is_path_key(#[trigger] all[i]) by {
            if i >= 2 {
                assert(all[i] == keys[i - 2]);
            }
        }
        lemma_dotted_replaced(all);
        let rest = path.skip(2);
        assert("$."@ =~= path.take(2));
        assert("$."@.is_prefix_of(path));
        assert(dotted(all) =~= seq!['.'] + rest);
        assert(replaced(dotted(all), '.', '/') =~= seq!['/'] + replaced(rest, '.', '/'));
    }
}

/// What keys lead to behind the output of a step; nothing if there is none.
pub open spec fn reached_from_step(
    outputs: Map<u32, Value>,
    step: u32,
    keys: Seq<Seq<char>>,
) -> Option<Value> {
    if outputs.contains_key(step) {
        json_along(outputs[step], keys)
    } else {
        None
    }
}

/// The keys to a step lead from the payload to its output, and nowhere if there is none.
proof fn lemma_payload_members(
    outputs: Map<u32, Value>,
    value: Value,
    step: u32,
    keys: Seq<Seq<char>>,
)
    requires
        json_members(value) == Some(map!["steps"@ => json_object(step_members(outputs))]),
        json_members(json_object(step_members(outputs))) == Some(step_members(outputs)),
    ensures
        json_along(value, keys_to(step, keys)) == reached_from_step(outputs, step, keys),
{
    let key = decimal(step as nat);
    let head = seq!["steps"@, key];
    let steps = json_object(step_members(outputs));
    assert(head.drop_last() =~= seq!["steps"@]);
    assert(head.drop_last().drop_last() =~= Seq::<Seq<char>>::empty());
    assert(json_along(value, head.drop_last().drop_last()) == Some(value));
    assert(map!["steps"@ => steps].contains_key("steps"@));
    assert(json_along(value, head.drop_last()) == Some(steps));
    law_payload_holds_each_step_once(outputs, step, key);
    assert(json_along(value, head) == json_member(steps, key));
    lemma_along_concat(value, head, keys);
}

impl Default for RunData {
    fn default() -> (data: Self)
        ensures
            data.outputs@ == Map::<u32, Value>::empty(),
    {
        RunData { outputs: BTreeMap::new() }
    }
}

impl RunData {
    /// Collects the outputs of the steps that completed. Failed and skipped steps leave nothing.
    pub fn from_step_results(results: &[SopStepResult]) -> (data: Self)
        ensures
            data.outputs@ == completed_outputs(results@),
    {
        let mut data = RunData::default();
        let mut i: usize = 0;
        while i < results.len()
            invariant
                i <= results@.len(),
                data.outputs@ == completed_outputs(results@.take(i as int)),
            decreases results@.len() - i,
        {
            let result = &results[i];
            assert(results@.take(i + 1).drop_last() == results@.take(i as int));
            if result.status == SopStepStatus::Completed {
                data.insert_output_str(result.step_number, result.output.as_str());
            }
            i = i + 1;
        }
        assert(results@.take(i as int) == results@);
        data
    }

    /// Records the output of a step, in place of an earlier one.
    pub fn insert_output(&mut self, step_number: u32, output: Value)
        ensures
            final(self).outputs@ == old(self).outputs@.insert(step_number, output),
    {
        self.outputs.insert(step_number, output);
    }

    /// Records the output of a step from its raw text.
    pub fn insert_output_str(&mut self, step_number: u32, output: &str)
        ensures
            final(self).outputs@ == old(self).outputs@.insert(
                step_number,
                step_output_value(output@),
            ),
    {
        self.insert_output(step_number, parse_step_output_value(output));
    }

    /// Takes over the outputs of another run; where both have one for a step, the other's counts.
    pub fn merge(&mut self, other: RunData)
        ensures
            final(self).outputs@ == old(self).outputs@.union_prefer_right(other.outputs@),
    {
        let ghost before = self.outputs@;
        let pairs = pairs_of(&other.outputs);
        let mut i: usize = 0;
        assert(self.outputs@ =~= before.union_prefer_right(pairs_map(pairs@.take(0))));
        while i < pairs.len()
            invariant
                i <= pairs@.len(),
                self.outputs@ == before.union_prefer_right(pairs_map(pairs@.take(i as int))),
            decreases pairs@.len() - i,
        {
            assert(pairs@.take(i + 1).drop_last() == pairs@.take(i as int));
            let ghost earlier = pairs_map(pairs@.take(i as int));
            self.outputs.insert(pairs[i].0, pairs[i].1.clone());
            assert(before.union_prefer_right(earlier).insert(pairs@[i as int].0, pairs@[i as int].1)
                =~= before.union_prefer_right(
                earlier.insert(pairs@[i as int].0, pairs@[i as int].1),
            ));
            i = i + 1;
        }
        assert(pairs@.take(i as int) == pairs@);
    }

    /// The outputs as one JSON value: `{"steps": {"1": …, "2": …}}`.
    pub fn to_payload(&self) -> (value: Value)
        ensures
            value == payload(self.outputs@),
            json_members(value) == Some(map!["steps"@ => json_object(step_members(self.outputs@))]),
            json_members(json_object(step_members(self.outputs@))) == Some(
                step_members(self.outputs@),
            ),
    {
        let pairs = pairs_of(&self.outputs);
        let mut entries: Vec<(String, Value)> = Vec::new();
        let mut i: usize = 0;
        assert(entries_map(entries@) =~= step_members(pairs_map(pairs@.take(0))));
        while i < pairs.len()
            invariant
                i <= pairs@.len(),
                entries@.len() == i,
                forall|j: int|
                    0 <= j < i ==> (#[trigger] entries@[j]).0@ == decimal(pairs@[j].0 as nat),
                entries_map(entries@) == step_members(pairs_map(pairs@.take(i as int))),
            decreases pairs@.len() - i,
        {
            let ghost before = entries@;
            assert(pairs@.take(i + 1).drop_last() == pairs@.take(i as int));
            proof {
                lemma_step_members_insert(
                    pairs_map(pairs@.take(i as int)),
                    pairs@[i as int].0,
                    pairs@[i as int].1,
                );
            }
            entries.push((to_decimal(pairs[i].0 as u64), pairs[i].1.clone()));
            assert(entries@.drop_last() == before);
            i = i + 1;
        }
        assert(pairs@.take(i as int) == pairs@);
        assert forall|j: int, k: int| 0 <= j < k < entries@.len() implies (
        #[trigger] entries@[j]).0@ != (#[trigger] entries@[k]).0@ by {
            if entries@[j].0@ == entries@[k].0@ {
                lemma_decimal_injective(pairs@[j].0 as nat, pairs@[k].0 as nat);
                assert(pairs@[j].0 != pairs@[k].0);
            }
        }
        let steps = object_value(entries);
        let mut top: Vec<(String, Value)> = Vec::new();
        top.push(("steps".to_string(), steps));
        assert(top@.drop_last() == Seq::<(String, Value)>::empty());
        assert(entries_map(top@) =~= map!["steps"@ => steps]);
        object_value(top)
    }

    /// What a path addresses in the payload. A path such as `$.steps.1.ok` is dotted; any other is
    /// a JSON Pointer such as `/steps/1/ok`.
    pub fn get_path(&self, path: &str) -> (value: Option<Value>)
        ensures
            value == value_at_path(self.outputs@, path@),
            forall|step: u32, keys: Seq<Seq<char>>| #[trigger]
                is_path_to(path@, step, keys) ==> value == reached_from_step(
                    self.outputs@,
                    step,
                    keys,
                ),
            !"$."@.is_prefix_of(path@) && (path@.len() == 0 || path@[0] != '/') ==> value is None,
    {
        if path.is_empty() {
            proof {
                assert forall|step: u32, keys: Seq<Seq<char>>| #[trigger]
                    is_path_to(path@, step, keys) implies false by {
                    lemma_path_pointer(path@, step, keys);
                }
            }
            return None;
        }
        let payload = self.to_payload();
        proof {
            assert forall|step: u32, keys: Seq<Seq<char>>| #[trigger]
                is_path_to(path@, step, keys) implies path_pointer(path@) == pointer_along(
                keys_to(step, keys),
            ) && json_along(payload, keys_to(step, keys)) == reached_from_step(
                self.outputs@,
                step,
                keys,
            ) by {
                lemma_path_pointer(path@, step, keys);
                lemma_payload_members(self.outputs@, payload, step, keys);
            }
        }
        match strip_prefix(path, "$.") {
            Some(rest) => {
                let mut pointer = String::new();
                pointer.push('/');
                pointer.append(replace(rest, '.', '/').as_str());
                assert(pointer@ == path_pointer(path@));
                at_pointer(&payload, pointer.as_str())
            },
            None => at_pointer(&payload, path),
        }
    }
}

/// The results of one run after those of another give the outputs of both, where the later counts:
/// what merging the one into the other gives.
pub proof fn law_later_results_count(earlier: Seq<SopStepResult>, later: Seq<SopStepResult>)
    ensures
        completed_outputs(earlier + later) == completed_outputs(earlier).union_prefer_right(
            completed_outputs(later),
        ),
    decreases later.len(),
{
    let both = earlier + later;
    if later.len() == 0 {
        assert(both =~= earlier);
        assert(completed_outputs(earlier) =~= completed_outputs(earlier).union_prefer_right(
            Map::empty(),
        ));
    } else {
        law_later_results_count(earlier, later.drop_last());
        assert(both.drop_last() =~= earlier + later.drop_last());
        assert(both.last() == later.last());
        assert(completed_outputs(both) =~= completed_outputs(earlier).union_prefer_right(
            completed_outputs(later),
        ));
    }
}

/// Failed and skipped steps leave no trace, wherever they stand among the results.
pub proof fn law_only_completed_steps_count(
    before: Seq<SopStepResult>,
    result: SopStepResult,
    after: Seq<SopStepResult>,
)
    requires
        result.status != SopStepStatus::Completed,
    ensures
        completed_outputs(before.push(result) + after) == completed_outputs(before + after),
    decreases after.len(),
{
    let with = before.push(result) + after;
    if after.len() == 0 {
        assert(with.drop_last() =~= before);
        assert(with.last() == result);
        assert(before + after =~= before);
    } else {
        law_only_completed_steps_count(before, result, after.drop_last());
        assert(with.drop_last() =~= before.push(result) + after.drop_last());
        assert((before + after).drop_last() =~= before + after.drop_last());
    }
}

/// The payload holds the output of each step under the numeral of the step, and nothing else.
pub proof fn law_payload_holds_each_step_once(outputs: Map<u32, Value>, step: u32, key: Seq<char>)
    ensures
        step_members(outputs).contains_key(decimal(step as nat)) == outputs.contains_key(step),
        outputs.contains_key(step) ==> step_members(outputs)[decimal(step as nat)] == outputs[step],
        step_members(outputs).contains_key(key) ==> exists|n: u32| #[trigger]
            outputs.contains_key(n) && key == decimal(n as nat),
{
    let name = decimal(step as nat);
    if outputs.contains_key(step) {
        assert(step_members(outputs).contains_key(name));
    }
    if step_members(outputs).contains_key(name) {
        let n = choose|n: u32| #[trigger] outputs.contains_key(n) && name == decimal(n as nat);
        lemma_decimal_injective(n as nat, step as nat);
    }
}

/// Whether a result is the last of its step that completed. Nothing but the number and the status of
/// the results counts.
pub open spec fn is_last_completed(results: Seq<SopStepResult>, step: u32, i: int) -> bool {
    &&& 0 <= i < results.len()
    &&& results[i].step_number == step
    &&& results[i].status is Completed
    &&& forall|j: int|
        i < j < results.len() ==> !((#[trigger] results[j]).step_number == step
            && results[j].status is Completed)
}

/// A step has an output exactly where some result of its number completed, whatever else the result
/// holds, and its output is the value of the text of the last of them.
pub proof fn law_last_completed_result_is_the_output(results: Seq<SopStepResult>, step: u32)
    ensures
        forall|i: int| #[trigger]
            is_last_completed(results, step, i) ==> completed_outputs(results).contains_key(step)
                && completed_outputs(results)[step] == step_output_value(results[i].output@),
        completed_outputs(results).contains_key(step) ==> exists|i: int|
            is_last_completed(results, step, i),
    decreases results.len(),
{
    if results.len() > 0 {
        let front = results.drop_last();
        let n = results.len() - 1;
        law_last_completed_result_is_the_output(front, step);
        assert forall|i: int| #[trigger] is_last_completed(results, step, i) implies {
            &&& completed_outputs(results).contains_key(step)
            &&& completed_outputs(results)[step] == step_output_value(results[i].output@)
        } by {
            if i < n {
                assert forall|j: int| i < j < front.len() implies !((
                #[trigger] front[j]).step_number == step && front[j].status is Completed) by {
                    assert(front[j] == results[j]);
                }
                assert(front[i] == results[i]);
                assert(is_last_completed(front, step, i));
                assert(!(results[n].step_number == step && results[n].status is Completed));
            }
        }
        if completed_outputs(results).contains_key(step) {
            if results[n].step_number == step && results[n].status is Completed {
                assert(is_last_completed(results, step, n));
            } else {
                assert(completed_outputs(front).contains_key(step));
                let i = choose|i: int| is_last_completed(front, step, i);
                assert forall|j: int| i < j < results.len() implies !((
                #[trigger] results[j]).step_number == step && results[j].status is Completed) by {
                    if j < n {
                        assert(results[j] == front[j]);
                    }
                }
                assert(results[i] == front[i]);
                assert(is_last_completed(results, step, i));
            }
        }
    }
}

/// One completed result gives one output, whatever else it holds; one that did not complete gives
/// none.
pub proof fn law_one_result_gives_one_output(result: SopStepResult)
    ensures
        result.status is Completed ==> completed_outputs(seq![result]) == map![
            result.step_number => step_output_value(result.output@),
        ],
        !(result.status is Completed) ==> completed_outputs(seq![result]) == Map::<
            u32,
            Value,
        >::empty(),
{
    assert(seq![result].drop_last() =~= Seq::<SopStepResult>::empty());
    assert(completed_outputs(seq![result].drop_last()) == Map::<u32, Value>::empty());
    if result.status is Completed {
        assert(completed_outputs(seq![result]) =~= map![
            result.step_number => step_output_value(result.output@),
        ]);
    }
}

/// A dotted path begins with `$.steps.` and the number of a step, and grows by a dot and a key; a
/// pointer begins with `/steps/` and the number, and grows by a slash and a key with its escapes.
pub proof fn law_paths_grow_key_by_key(
    path: Seq<char>,
    step: u32,
    keys: Seq<Seq<char>>,
    key: Seq<char>,
)
    ensures
        is_path_to("$.steps."@ + decimal(step as nat), step, Seq::empty()),
        is_path_to("/steps/"@ + decimal(step as nat), step, Seq::empty()),
        path.len() > 0 && path[0] == '$' && is_path_to(path, step, keys) && (forall|i: int|
            0 <= i < key.len() ==> key[i] != '.' && key[i] != '/' && key[i] != '~') ==> is_path_to(
            path + seq!['.'] + key,
            step,
            keys.push(key),
        ),
        path.len() > 0 && path[0] == '/' && is_path_to(path, step, keys) ==> is_path_to(
            path + seq!['/'] + escaped(key),
            step,
            keys.push(key),
        ),
{
    reveal_strlit("$.steps.");
    reveal_strlit("/steps/");
    reveal_strlit("steps");
    let number = decimal(step as nat);
    let base = keys_to(step, Seq::empty());
    assert(base =~= seq!["steps"@, number]);
    assert(base.drop_last() =~= seq!["steps"@]);
    assert(base.drop_last().drop_last() =~= Seq::<Seq<char>>::empty());
    assert(dotted(base.drop_last().drop_last()) =~= Seq::<char>::empty());
    assert(pointer_along(base.drop_last().drop_last()) =~= Seq::<char>::empty());
    lemma_plain_key_is_not_escaped("steps"@);
    law_numerals_stand_for_their_number(step as nat);
    lemma_plain_key_is_not_escaped(number);
    assert(dotted(base.drop_last()) =~= seq!['.'] + "steps"@);
    assert(pointer_along(base.drop_last()) =~= seq!['/'] + "steps"@);
    assert("$.steps."@ + number =~= seq!['$'] + dotted(base));
    assert("/steps/"@ + number =~= pointer_along(base));
    let all = keys_to(step, keys);
    let more = keys_to(step, keys.push(key));
    assert(more =~= all.push(key));
    assert(more.drop_last() =~= all);
    if path.len() > 0 && is_path_to(path, step, keys) {
        lemma_pointer_begins(all);
        if path[0] == '$' && forall|i: int|
            0 <= i < key.len() ==> key[i] != '.' && key[i] != '/' && key[i] != '~' {
            assert(path == seq!['$'] + dotted(all));
            assert(!key.contains('.'));
            assert forall|i: int| 0 <= i < keys.push(key).len() implies is_path_key(
                #[trigger] keys.push(key)[i],
            ) by {
                if i < keys.len() {
                    assert(keys.push(key)[i] == keys[i]);
                }
            }
            assert(path + seq!['.'] + key =~= seq!['$'] + dotted(more));
        }
        if path[0] == '/' {
            assert(path == pointer_along(all));
            assert(path + seq!['/'] + escaped(key) =~= pointer_along(more));
        }
    }
}

/// A dotted path stands for a pointer with a slash in place of the dollar sign and of every dot
/// behind it, and any other path for itself; the empty path addresses nothing.
pub proof fn law_dotted_paths_are_pointers(
    outputs: Map<u32, Value>,
    rest: Seq<char>,
    path: Seq<char>,
)
    ensures
        value_at_path(outputs, "$."@ + rest) == json_pointer(
            payload(outputs),
            seq!['/'] + replaced(rest, '.', '/'),
        ),
        path.len() > 0 && path[0] != '$' ==> value_at_path(outputs, path) == json_pointer(
            payload(outputs),
            path,
        ),
        path.len() > 0 && path[0] == '$' && (path.len() == 1 || path[1] != '.') ==> value_at_path(
            outputs,
            path,
        ) == json_pointer(payload(outputs), path),
        value_at_path(outputs, Seq::empty()) is None,
{
    reveal_strlit("$.");
    law_prefix_is_taken_off(path, "$."@, rest);
    if "$."@.is_prefix_of(path) {
        assert("$."@[0] == path[0] && "$."@[1] == path[1]);
    }
}

/// Recording an output gives its step that output and leaves every other step alone, in the payload
/// as among the outputs.
pub proof fn law_recording_touches_one_step(
    outputs: Map<u32, Value>,
    step: u32,
    output: Value,
    other: u32,
    keys: Seq<Seq<char>>,
)
    ensures
        reached_from_step(outputs.insert(step, output), step, keys) == json_along(output, keys),
        other != step ==> reached_from_step(outputs.insert(step, output), other, keys)
            == reached_from_step(outputs, other, keys),
        step_members(outputs.insert(step, output))[decimal(step as nat)] == output,
        other != step ==> step_members(outputs.insert(step, output)).contains_key(
            decimal(other as nat),
        ) == step_members(outputs).contains_key(decimal(other as nat)),
{
    law_payload_holds_each_step_once(outputs.insert(step, output), step, Seq::empty());
    law_payload_holds_each_step_once(outputs.insert(step, output), other, Seq::empty());
    law_payload_holds_each_step_once(outputs, other, Seq::empty());
}

/// The payload is an object with the single member `steps`, and that is an object with one member for
/// each step that has an output, under the number of the step in decimal.
pub proof fn law_payload_is_made_of_steps(
    outputs: Map<u32, Value>,
    members: Map<Seq<char>, Value>,
    steps: Map<Seq<char>, Value>,
)
    requires
        forall|key: Seq<char>| #[trigger] members.contains_key(key) <==> key == "steps"@,
        members["steps"@] == json_object(steps),
        forall|n: u32| #[trigger]
            outputs.contains_key(n) ==> steps.contains_key(decimal(n as nat))
                && steps[decimal(n as nat)] == outputs[n],
        forall|key: Seq<char>| #[trigger]
            steps.contains_key(key) ==> exists|n: u32| #[trigger]
                outputs.contains_key(n) && key == decimal(n as nat),
    ensures
        payload(outputs) == json_object(members),
{
    assert forall|key: Seq<char>| #[trigger] steps.contains_key(key) implies step_members(
        outputs,
    ).contains_key(key) && step_members(outputs)[key] == steps[key] by {
        let n = choose|n: u32| #[trigger] outputs.contains_key(n) && key == decimal(n as nat);
        law_payload_holds_each_step_once(outputs, n, key);
    }
    assert forall|key: Seq<char>| #[trigger] step_members(outputs).contains_key(
        key,
    ) implies steps.contains_key(key) by {
        law_payload_holds_each_step_once(outputs, 0, key);
    }
    assert(steps =~= step_members(outputs));
    assert(members =~= map!["steps"@ => json_object(step_members(outputs))]);
}

/// What is recorded as a text is what is read out of that text, and what is recorded as a value is
/// that value; every other step keeps its output.
pub proof fn law_recorded_outputs(
    first: &mut RunData,
    second: &mut RunData,
    step: u32,
    output: Value,
    text: &str,
    other: u32,
)
    requires
        call_ensures(RunData::insert_output, (first, step, output), ()),
        call_ensures(RunData::insert_output_str, (second, step, text), ()),
    ensures
        final(first).outputs@.contains_key(step) && final(first).outputs@[step] == output,
        final(second).outputs@.contains_key(step) && final(second).outputs@[step]
            == step_output_value(text@),
        other != step ==> final(first).outputs@.contains_key(other)
            == old(first).outputs@.contains_key(other) && final(first).outputs@[other]
            == old(first).outputs@[other],
        other != step ==> final(second).outputs@.contains_key(other)
            == old(second).outputs@.contains_key(other) && final(second).outputs@[other]
            == old(second).outputs@[other],
{
}

/// Merging adds the outputs of the other run, which count where both have one.
pub proof fn law_merged_outputs(data: &mut RunData, other: RunData, step: u32)
    requires
        call_ensures(RunData::merge, (data, other), ()),
    ensures
        final(data).outputs@.contains_key(step) <==> old(data).outputs@.contains_key(step)
            || other.outputs@.contains_key(step),
        other.outputs@.contains_key(step) ==> final(data).outputs@[step] == other.outputs@[step],
        !other.outputs@.contains_key(step) && old(data).outputs@.contains_key(step)
            ==> final(data).outputs@[step] == old(data).outputs@[step],
{
}

/// Out of the results of a run each step has the output of its last completed result, whatever else
/// is known of that result, and a step without one has none.
pub proof fn law_results_give_outputs(results: &[SopStepResult], data: RunData, step: u32)
    requires
        call_ensures(RunData::from_step_results, (results,), data),
    ensures
        data.outputs@.contains_key(step) <==> exists|i: int|
            0 <= i < results@.len() && (#[trigger] results@[i]).step_number == step
                && results@[i].status is Completed,
        forall|i: int| #[trigger]
            is_last_completed(results@, step, i) ==> data.outputs@[step] == step_output_value(
                results@[i].output@,
            ),
{
    law_last_completed_result_is_the_output(results@, step);
    lemma_last_completed_exists(results@, step);
}

/// What is recorded for a step is found again under the number of the step, by a dotted path as by a
/// pointer.
pub proof fn law_recorded_outputs_are_found(
    data: &mut RunData,
    later: &RunData,
    step: u32,
    text: &str,
    path: &str,
    found: Option<Value>,
)
    requires
        call_ensures(RunData::insert_output_str, (data, step, text), ()),
        later.outputs@ == final(data).outputs@,
        path@ == "$.steps."@ + decimal(step as nat) || path@ == "/steps/"@ + decimal(step as nat),
        call_ensures(RunData::get_path, (later, path), found),
    ensures
        found == Some(step_output_value(text@)),
{
    law_paths_grow_key_by_key(path@, step, Seq::empty(), Seq::empty());
    assert(is_path_to(path@, step, Seq::empty()));
    assert(found == reached_from_step(later.outputs@, step, Seq::empty()));
}

/// Where a step has a completed result, it has a last one.
proof fn lemma_last_completed_exists(results: Seq<SopStepResult>, step: u32)
    ensures
        (exists|i: int|
            0 <= i < results.len() && (#[trigger] results[i]).step_number == step
                && results[i].status is Completed) ==> exists|i: int| #[trigger]
            is_last_completed(results, step, i),
    decreases results.len(),
{
    if results.len() > 0 {
        let n = results.len() - 1;
        let front = results.drop_last();
        if results[n].step_number == step && results[n].status is Completed {
            assert(is_last_completed(results, step, n));
        } else {
            lemma_last_completed_exists(front, step);
            if exists|i: int|
                0 <= i < results.len() && (#[trigger] results[i]).step_number == step
                    && results[i].status is Completed {
                let i = choose|i: int|
                    0 <= i < results.len() && (#[trigger] results[i]).step_number == step
                        && results[i].status is Completed;
                assert(front[i] == results[i]);
                let k = choose|k: int| #[trigger] is_last_completed(front, step, k);
                assert(results[k] == front[k]);
                assert forall|j: int| k < j < results.len() implies !((
                #[trigger] results[j]).step_number == step && results[j].status is Completed) by {
                    if j < n {
                        assert(front[j] == results[j]);
                    }
                }
                assert(is_last_completed(results, step, k));
            }
        }
    }
}

} // verus!
