//! The JSON document model the normalizer reads.

use vstd::prelude::*;
use vstd::string::*;

verus! {

/// A JSON value, holding as plain data what the normalizer inspects.
#[derive(Debug)]
pub enum Json {
    Null,
    Bool(bool),
    /// A number. Holds its value when it is an integer that fits in `i64`,
    /// and `None` for fractions and integers out of that range.
    Number(Option<i64>),
    Text(String),
    List(Vec<Json>),
    /// An object, as its members. A parsed document never holds a key
    /// twice in one object; where a value built by hand does, lookups take
    /// the first member with the key.
    Object(Vec<(String, Json)>),
}

/// The value stored under `key` among `members`: the first member with that
/// key, if any.
pub open spec fn member(members: Seq<(String, Json)>, key: Seq<char>) -> Option<Json>
    decreases members.len(),
{
    if members.len() == 0 {
        None
    } else if members[0].0@ == key {
        Some(members[0].1)
    } else {
        member(members.skip(1), key)
    }
}

/// No two members share a key.
pub open spec fn distinct_keys(members: Seq<(String, Json)>) -> bool {
    forall|i: int, j: int|
        0 <= i < j < members.len() ==> (#[trigger] members[i]).0@ != (#[trigger] members[j]).0@
}

/// Among members with distinct keys a lookup by a member's key finds that
/// very member, as in a map.
pub proof fn lemma_lookup_finds_member(members: Seq<(String, Json)>, i: int)
    requires
        distinct_keys(members),
        0 <= i < members.len(),
    ensures
        member(members, members[i].0@) == Some(members[i].1),
    decreases members.len(),
{
    if i > 0 {
        let rest = members.skip(1);
        assert(members[0].0@ != members[i].0@);
        assert(distinct_keys(rest)) by {
            assert forall|a: int, b: int| 0 <= a < b < rest.len() implies (#[trigger] rest[a]).0@
                != (#[trigger] rest[b]).0@ by {
                assert(rest[a] == members[a + 1]);
                assert(rest[b] == members[b + 1]);
            }
        }
        assert(rest[i - 1] == members[i]);
        lemma_lookup_finds_member(rest, i - 1);
    }
}

/// A lookup finds nothing exactly when no member has the key.
pub proof fn lemma_lookup_misses(members: Seq<(String, Json)>, key: Seq<char>)
    ensures
        member(members, key) is None <==> forall|i: int|
            0 <= i < members.len() ==> (#[trigger] members[i]).0@ != key,
    decreases members.len(),
{
    if members.len() > 0 {
        let rest = members.skip(1);
        lemma_lookup_misses(rest, key);
        if members[0].0@ != key {
            if member(rest, key) is None {
                assert forall|i: int| 0 <= i < members.len() implies (#[trigger] members[i]).0@
                    != key by {
                    if i > 0 {
                        assert(rest[i - 1] == members[i]);
                    }
                }
            } else {
                let k = choose|k: int| 0 <= k < rest.len() && (#[trigger] rest[k]).0@ == key;
                assert(members[k + 1] == rest[k]);
            }
        }
    }
}

impl Json {
    /// No object anywhere in the value holds a key twice, so that each
    /// object is a map from keys to values.
    pub open spec fn unique_keys(self) -> bool
        decreases self,
    {
        match self {
            Json::List(items) => forall|i: int|
                0 <= i < items@.len() ==> (#[trigger] items@[i]).unique_keys(),
            Json::Object(members) => distinct_keys(members@) && forall|i: int|
                0 <= i < members@.len() ==> (#[trigger] members@[i]).1.unique_keys(),
            _ => true,
        }
    }

    /// The value of field `key` when `self` is an object that has it.
    pub open spec fn field(self, key: Seq<char>) -> Option<Json> {
        match self {
            Json::Object(members) => member(members@, key),
            _ => None,
        }
    }

    /// Looks up field `key`; `None` unless `self` is an object with that key.
    /// The first member with the key is taken.
    pub fn get(&self, key: &str) -> (r: Option<&Json>)
        ensures
            match r {
                Some(v) => self.field(key@) == Some(*v),
                None => self.field(key@) is None,
            },
    {
        match self {
            Json::Object(members) => {
                let wanted = String::from_str(key);
                let mut i: usize = 0;
                assert(members@.skip(0) =~= members@);
                while i < members.len()
                    invariant
                        i <= members.len(),
                        wanted@ == key@,
                        self.field(key@) == member(members@, key@),
                        member(members@, key@) == member(members@.skip(i as int), key@),
                    decreases members.len() - i,
                {
                    let entry = &members[i];
                    if entry.0 == wanted {
                        return Some(&entry.1);
                    }
                    assert(members@.skip(i as int).skip(1) =~= members@.skip(i as int + 1));
                    i += 1;
                }
                None
            },
            _ => None,
        }
    }
}

#[verifier::external_type_specification]
#[verifier::external_body]
pub struct ExValue(serde_json::Value);

/// Trusted: carries a `serde_json::Value` over into [`Json`], variant by
/// variant; a number is kept as `serde_json::Number::as_i64` reports it.
#[verifier::external_body]
fn lift(v: &serde_json::Value) -> (r: Json) {
    match v {
        serde_json::Value::Null => Json::Null,
        serde_json::Value::Bool(b) => Json::Bool(*b),
        serde_json::Value::Number(n) => Json::Number(n.as_i64()),
        serde_json::Value::String(s) => Json::Text(s.clone()),
        serde_json::Value::Array(a) => Json::List(a.iter().map(lift).collect()),
        serde_json::Value::Object(m) => Json::Object(
            m.iter().map(|(k, x)| (k.clone(), lift(x))).collect(),
        ),
    }
}

/// The document that a text denotes, when it is syntactically valid JSON.
pub uninterp spec fn document_of(text: Seq<char>) -> Option<Json>;

/// Trusted: `serde_json::from_str` parses a text into a value, or fails on
/// text that is not valid JSON. The contract names the outcome, and claims
/// that no object of a parsed document holds a key twice: the crate keeps
/// the members of an object in a map.
#[verifier::external_body]
pub(crate) fn read_value(text: &str) -> (r: Option<Json>)
    ensures
        r == document_of(text@),
        r matches Some(doc) ==> doc.unique_keys(),
{
    match serde_json::from_str::<serde_json::Value>(text) {
        Ok(v) => Some(lift(&v)),
        Err(_) => None,
    }
}

/// Parses a JSON text. `None` exactly when the text is not valid JSON; a
/// document that is returned holds no key twice in any object.
pub fn parse_json(text: &str) -> (r: Option<Json>)
    ensures
        r == document_of(text@),
        r matches Some(doc) ==> doc.unique_keys(),
{
    read_value(text)
}

} // verus!
