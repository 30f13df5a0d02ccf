//! Access policies attached to an STS token, and their JSON form.

use vstd::prelude::*;

use crate::encoding::{json_quoted, json_string};
use crate::text::{copy_string, join, join_strings, push_str, str_eq, views};

verus! {

/// The policy language version.
#[derive(Debug, Clone, Copy, PartialEq, Eq)]
pub enum Versions {
    /// Version `"1"`.
    V1,
}

/// Whether a statement grants or refuses what it names.
#[derive(Debug, Clone, Copy, PartialEq, Eq)]
pub enum Effects {
    Allow,
    Deny,
}

/// A single string or a list of strings; JSON writes the first as a string
/// and the second as an array.
#[derive(Debug, PartialEq, Eq)]
pub enum StringOrArray {
    StringValue(String),
    ArrayValue(Vec<String>),
}

/// `a` and `b` hold the same text: the same single string, or lists of the
/// same strings in the same order.
pub open spec fn same_string_or_array(a: StringOrArray, b: StringOrArray) -> bool {
    match (a, b) {
        (StringOrArray::StringValue(x), StringOrArray::StringValue(y)) => x@ == y@,
        (StringOrArray::ArrayValue(x), StringOrArray::ArrayValue(y)) => {
            &&& x@.len() == y@.len()
            &&& forall|i: int| 0 <= i < x@.len() ==> (#[trigger] x@[i])@ == y@[i]@
        },
        _ => false,
    }
}

impl Clone for StringOrArray {
    /// A copy holding the same text.
    fn clone(&self) -> (res: StringOrArray)
        ensures
            same_string_or_array(res, *self),
    {
        match self {
            StringOrArray::StringValue(s) => StringOrArray::StringValue(copy_string(s.as_str())),
            StringOrArray::ArrayValue(v) => {
                let mut out: Vec<String> = Vec::new();
                for i in 0..v.len()
                    invariant
                        out@.len() == i,
                        i <= v@.len(),
                        forall|j: int| 0 <= j < i ==> (#[trigger] out@[j])@ == v@[j]@,
                {
                    out.push(copy_string(v[i].as_str()));
                }
                StringOrArray::ArrayValue(out)
            },
        }
    }
}

/// No key occurs twice among the condition entries.
pub open spec fn distinct_condition_keys(c: Seq<(String, StringOrArray)>) -> bool {
    forall|i: int, j: int| 0 <= i < c.len() && 0 <= j < c.len() && i != j ==> c[i].0@ != c[j].0@
}

/// Whether `k` is one of the condition keys.
pub open spec fn has_condition_key(c: Seq<(String, StringOrArray)>, k: Seq<char>) -> bool {
    exists|i: int| 0 <= i < c.len() && c[i].0@ == k
}

/// `c` after setting `key` to `value`: an existing entry is replaced in
/// place, a new key goes at the end.
pub open spec fn condition_insert(
    c: Seq<(String, StringOrArray)>,
    key: String,
    value: StringOrArray,
) -> Seq<(String, StringOrArray)> {
    if has_condition_key(c, key@) {
        let i = choose|i: int| 0 <= i < c.len() && c[i].0@ == key@;
        c.update(i, (key, value))
    } else {
        c.push((key, value))
    }
}

/// The position of `key` among the condition entries, if present.
fn find_key(entries: &Vec<(String, StringOrArray)>, key: &str) -> (res: Option<usize>)
    ensures
        match res {
            Some(i) => i < entries@.len() && entries@[i as int].0@ == key@,
            None => !has_condition_key(entries@, key@),
        },
{
    for i in 0..entries.len()
        invariant
            forall|j: int| 0 <= j < i ==> entries@[j].0@ != key@,
    {
        if str_eq(entries[i].0.as_str(), key) {
            return Some(i);
        }
    }
    None
}

/// The condition operators of a statement: a map from operator to value in
/// which each key occurs once, kept in the order the keys were first set.
#[derive(Debug, PartialEq, Eq)]
pub struct Condition {
    entries: Vec<(String, StringOrArray)>,
}

impl View for Condition {
    type V = Seq<(String, StringOrArray)>;

    closed spec fn view(&self) -> Seq<(String, StringOrArray)> {
        self.entries@
    }
}

impl Condition {
    /// No key occurs twice (kept by every method).
    #[verifier::type_invariant]
    closed spec fn inv(self) -> bool {
        distinct_condition_keys(self.entries@)
    }

    /// No entries.
    pub fn new() -> (res: Condition)
        ensures
            res@ == Seq::<(String, StringOrArray)>::empty(),
    {
        Condition { entries: Vec::new() }
    }

    /// The number of keys.
    pub fn len(&self) -> (res: usize)
        ensures
            res == self@.len(),
    {
        self.entries.len()
    }

    /// Sets `key` to `value`, replacing the value of an existing key.
    pub fn insert(&mut self, key: String, value: StringOrArray)
        ensures
            final(self)@ == condition_insert(old(self)@, key, value),
            distinct_condition_keys(final(self)@),
    {
        proof {
            use_type_invariant(&*self);
        }
        let ghost c = self@;
        let mut entries: Vec<(String, StringOrArray)> = Vec::new();
        std::mem::swap(&mut entries, &mut self.entries);
        let found = find_key(&entries, key.as_str());
        match found {
            Some(i) => {
                proof {
                    let k = choose|k: int| 0 <= k < c.len() && c[k].0@ == key@;
                    assert(k == i);
                }
                let ghost k = key;
                entries.set(i, (key, value));
                proof {
                    assert(entries@ == c.update(i as int, (k, value)));
                    assert forall|x: int, y: int|
                        0 <= x < entries@.len() && 0 <= y < entries@.len() && x != y implies entries@[x].0@
                        != entries@[y].0@ by {
                        assert(entries@[x].0@ == c[x].0@);
                        assert(entries@[y].0@ == c[y].0@);
                    }
                }
            },
            None => {
                entries.push((key, value));
                proof {
                    assert(entries@ == c.push((key, value)));
                    assert forall|x: int, y: int|
                        0 <= x < entries@.len() && 0 <= y < entries@.len() && x != y implies entries@[x].0@
                        != entries@[y].0@ by {
                        if x < c.len() {
                            assert(entries@[x] == c[x]);
                        }
                        if y < c.len() {
                            assert(entries@[y] == c[y]);
                        }
                    }
                }
            },
        }
        self.entries = entries;
    }

    /// The (key, value) entries, in order.
    pub fn entries(&self) -> (res: &Vec<(String, StringOrArray)>)
        ensures
            res@ == self@,
            distinct_condition_keys(res@),
    {
        proof {
            use_type_invariant(self);
        }
        &self.entries
    }
}

impl Clone for Condition {
    /// A copy with the same keys, in the same order, under the same values.
    fn clone(&self) -> (res: Condition)
        ensures
            res@.len() == self@.len(),
            forall|i: int|
                0 <= i < self@.len() ==> (#[trigger] res@[i]).0@ == self@[i].0@
                    && same_string_or_array(res@[i].1, self@[i].1),
    {
        proof {
            use_type_invariant(self);
        }
        let mut out: Vec<(String, StringOrArray)> = Vec::new();
        for i in 0..self.entries.len()
            invariant
                out@.len() == i,
                i <= self.entries@.len(),
                forall|j: int|
                    0 <= j < i ==> (#[trigger] out@[j]).0@ == self.entries@[j].0@
                        && same_string_or_array(out@[j].1, self.entries@[j].1),
        {
            out.push((copy_string(self.entries[i].0.as_str()), self.entries[i].1.clone()));
        }
        proof {
            assert forall|x: int, y: int|
                0 <= x < out@.len() && 0 <= y < out@.len() && x != y implies out@[x].0@ != out@[y].0@ by {
                assert(out@[x].0@ == self.entries@[x].0@);
                assert(out@[y].0@ == self.entries@[y].0@);
            }
        }
        Condition { entries: out }
    }
}

/// One statement of a policy.
#[derive(Debug, Clone, PartialEq, Eq)]
pub struct StatementBlock {
    pub effect: Effects,
    pub action: StringOrArray,
    pub resource: StringOrArray,
    pub condition: Option<Condition>,
}

/// An access policy.
#[derive(Debug, Clone, PartialEq, Eq)]
pub struct Policy {
    pub version: Versions,
    pub statement: Vec<StatementBlock>,
}

impl Policy {
    /// A version-1 policy with the given statements, in order.
    pub fn v1(stmts: Vec<StatementBlock>) -> (res: Policy)
        ensures
            res.version == Versions::V1,
            res.statement@ == stmts@,
    {
        Policy { version: Versions::V1, statement: stmts }
    }
}

// ---------------------------------------------------------------------------
// JSON form
// ---------------------------------------------------------------------------

/// JSON of a version.
pub open spec fn version_json(v: Versions) -> Seq<char> {
    match v {
        Versions::V1 => "\"1\""@,
    }
}

/// JSON of an effect.
pub open spec fn effect_json(e: Effects) -> Seq<char> {
    match e {
        Effects::Allow => "\"Allow\""@,
        Effects::Deny => "\"Deny\""@,
    }
}

/// JSON string literals of the strings in `v`.
pub open spec fn quoted_all(v: Seq<String>) -> Seq<Seq<char>> {
    v.map_values(|s: String| json_quoted(s@))
}

/// JSON of a string or of an array of strings.
pub open spec fn string_or_array_json(x: StringOrArray) -> Seq<char> {
    match x {
        StringOrArray::StringValue(s) => json_quoted(s@),
        StringOrArray::ArrayValue(v) => "["@ + join(quoted_all(v@), ","@) + "]"@,
    }
}

/// JSON of one condition entry, `"key":value`.
pub open spec fn condition_entry_json(e: (String, StringOrArray)) -> Seq<char> {
    json_quoted(e.0@) + ":"@ + string_or_array_json(e.1)
}

/// JSON object of the condition entries, in order.
pub open spec fn condition_json(c: Seq<(String, StringOrArray)>) -> Seq<char> {
    "{"@ + join(c.map_values(|e: (String, StringOrArray)| condition_entry_json(e)), ","@) + "}"@
}

/// JSON of a statement; the condition is left out when there is none.
pub open spec fn statement_json(s: StatementBlock) -> Seq<char> {
    "{\"Effect\":"@ + effect_json(s.effect) + ",\"Action\":"@ + string_or_array_json(s.action)
        + ",\"Resource\":"@ + string_or_array_json(s.resource) + match s.condition {
        Some(c) => ",\"Condition\":"@ + condition_json(c@),
        None => Seq::empty(),
    } + "}"@
}

/// JSON of a policy.
pub open spec fn policy_json(p: Policy) -> Seq<char> {
    "{\"Version\":"@ + version_json(p.version) + ",\"Statement\":["@ + join(
        p.statement@.map_values(|s: StatementBlock| statement_json(s)),
        ","@,
    ) + "]}"@
}

fn write_string_or_array(out: &mut String, x: &StringOrArray)
    ensures
        final(out)@ == old(out)@ + string_or_array_json(*x),
{
    match x {
        StringOrArray::StringValue(s) => {
            let q = json_string(s.as_str());
            push_str(out, q.as_str());
        },
        StringOrArray::ArrayValue(v) => {
            let mut items: Vec<String> = Vec::new();
            for i in 0..v.len()
                invariant
                    items@.len() == i,
                    i <= v@.len(),
                    views(items@) == quoted_all(v@).take(i as int),
            {
                let q = json_string(v[i].as_str());
                items.push(q);
                proof {
                    assert(views(items@) =~= quoted_all(v@).take(i + 1));
                }
            }
            proof {
                assert(quoted_all(v@).take(v@.len() as int) =~= quoted_all(v@));
            }
            let joined = join_strings(&items, ",");
            push_str(out, "[");
            push_str(out, joined.as_str());
            push_str(out, "]");
            proof {
                assert(final(out)@ =~= old(out)@ + string_or_array_json(*x));
            }
        },
    }
}

fn condition_to_json(c: &Vec<(String, StringOrArray)>) -> (res: String)
    ensures
        res@ == condition_json(c@),
{
    let ghost target = c@.map_values(|e: (String, StringOrArray)| condition_entry_json(e));
    let mut items: Vec<String> = Vec::new();
    for i in 0..c.len()
        invariant
            target == c@.map_values(|e: (String, StringOrArray)| condition_entry_json(e)),
            items@.len() == i,
            i <= c@.len(),
            views(items@) == target.take(i as int),
    {
        let mut item = json_string(c[i].0.as_str());
        push_str(&mut item, ":");
        write_string_or_array(&mut item, &c[i].1);
        items.push(item);
        proof {
            assert(views(items@) =~= target.take(i + 1));
        }
    }
    proof {
        assert(target.take(c@.len() as int) =~= target);
    }
    let joined = join_strings(&items, ",");
    let mut out = String::new();
    push_str(&mut out, "{");
    push_str(&mut out, joined.as_str());
    push_str(&mut out, "}");
    proof {
        assert(out@ =~= condition_json(c@));
    }
    out
}

/// The JSON form of a statement.
pub fn statement_to_json(s: &StatementBlock) -> (res: String)
    ensures
        res@ == statement_json(*s),
{
    let mut out = String::new();
    push_str(&mut out, "{\"Effect\":");
    match s.effect {
        Effects::Allow => push_str(&mut out, "\"Allow\""),
        Effects::Deny => push_str(&mut out, "\"Deny\""),
    }
    push_str(&mut out, ",\"Action\":");
    write_string_or_array(&mut out, &s.action);
    push_str(&mut out, ",\"Resource\":");
    write_string_or_array(&mut out, &s.resource);
    match &s.condition {
        Some(c) => {
            push_str(&mut out, ",\"Condition\":");
            let cj = condition_to_json(c.entries());
            push_str(&mut out, cj.as_str());
        },
        None => {},
    }
    push_str(&mut out, "}");
    proof {
        assert(out@ =~= statement_json(*s));
    }
    out
}

/// The JSON form of a policy, as it goes into the `Policy` form field.
pub fn policy_to_json(p: &Policy) -> (res: String)
    ensures
        res@ == policy_json(*p),
{
    let ghost target = p.statement@.map_values(|s: StatementBlock| statement_json(s));
    let mut items: Vec<String> = Vec::new();
    for i in 0..p.statement.len()
        invariant
            target == p.statement@.map_values(|s: StatementBlock| statement_json(s)),
            items@.len() == i,
            i <= p.statement@.len(),
            views(items@) == target.take(i as int),
    {
        let item = statement_to_json(&p.statement[i]);
        items.push(item);
        proof {
            assert(views(items@) =~= target.take(i + 1));
        }
    }
    proof {
        assert(target.take(p.statement@.len() as int) =~= target);
    }
    let joined = join_strings(&items, ",");
    let mut out = String::new();
    push_str(&mut out, "{\"Version\":");
    match p.version {
        Versions::V1 => push_str(&mut out, "\"1\""),
    }
    push_str(&mut out, ",\"Statement\":[");
    push_str(&mut out, joined.as_str());
    push_str(&mut out, "]}");
    proof {
        assert(out@ =~= policy_json(*p));
    }
    out
}

} // verus!
