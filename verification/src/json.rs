//! JSON documents, value for value as `serde_json` parses them.
use vstd::prelude::*;
use crate::text::same_text;

verus! {

/// A JSON value. An object keeps its members in the order `serde_json` gives them.
#[derive(Debug)]
pub enum JsonValue {
    Null,
    Bool(bool),
    /// A number, by the text `serde_json` writes for it.
    Number(String),
    Text(String),
    Array(Vec<JsonValue>),
    Object(Vec<(String, JsonValue)>),
}

/// The mathematical model of a JSON value.
pub enum Json {
    Null,
    Bool(bool),
    Number(Seq<char>),
    Text(Seq<char>),
    Array(Seq<Json>),
    Object(Seq<(Seq<char>, Json)>),
}

impl JsonValue {
    /// The model of this value.
    pub open spec fn json(self) -> Json
        decreases self,
    {
        match self {
            JsonValue::Null => Json::Null,
            JsonValue::Bool(b) => Json::Bool(b),
            JsonValue::Number(t) => Json::Number(t@),
            JsonValue::Text(t) => Json::Text(t@),
            JsonValue::Array(items) => Json::Array(json_items(items@)),
            JsonValue::Object(members) => Json::Object(json_members(members@)),
        }
    }
}

/// The models of the values `items`.
pub open spec fn json_items(items: Seq<JsonValue>) -> Seq<Json>
    decreases items,
{
    if items.len() == 0 {
        Seq::empty()
    } else {
        json_items(items.subrange(0, items.len() - 1)).push(items[items.len() - 1].json())
    }
}

/// The models of the members `members`: each name's text and the model of its value.
pub open spec fn json_members(members: Seq<(String, JsonValue)>) -> Seq<(Seq<char>, Json)>
    decreases members,
{
    if members.len() == 0 {
        Seq::empty()
    } else {
        let last = members[members.len() - 1];
        json_members(members.subrange(0, members.len() - 1)).push((last.0@, last.1.json()))
    }
}

pub(crate) proof fn lemma_json_items(items: Seq<JsonValue>)
    ensures
        json_items(items).len() == items.len(),
        forall|i: int| 0 <= i < items.len() ==> #[trigger] json_items(items)[i] == items[i].json(),
    decreases items.len(),
{
    if items.len() > 0 {
        lemma_json_items(items.subrange(0, items.len() - 1));
    }
}

pub(crate) proof fn lemma_json_members(members: Seq<(String, JsonValue)>)
    ensures
        json_members(members).len() == members.len(),
        forall|i: int| 0 <= i < members.len() ==> #[trigger] json_members(members)[i] == (
            members[i].0@,
            members[i].1.json(),
        ),
    decreases members.len(),
{
    if members.len() > 0 {
        lemma_json_members(members.subrange(0, members.len() - 1));
    }
}

/// The value of the first member named `key` among `members`.
pub open spec fn member(members: Seq<(Seq<char>, Json)>, key: Seq<char>) -> Option<Json>
    decreases members.len(),
{
    if members.len() == 0 {
        None
    } else if members[0].0 == key {
        Some(members[0].1)
    } else {
        member(members.drop_first(), key)
    }
}

/// What `serde_json`'s `get` with a member name gives: on an object, the value of its
/// member named `key`; on any other value, nothing.
pub open spec fn get(v: Json, key: Seq<char>) -> Option<Json> {
    match v {
        Json::Object(members) => member(members, key),
        _ => None,
    }
}

proof fn lemma_member_at(members: Seq<(Seq<char>, Json)>, key: Seq<char>, i: int)
    requires
        0 <= i < members.len(),
        members[i].0 == key,
        forall|j: int| 0 <= j < i ==> members[j].0 != key,
    ensures
        member(members, key) == Some(members[i].1),
    decreases i,
{
    if i > 0 {
        lemma_member_at(members.drop_first(), key, i - 1);
    }
}

proof fn lemma_member_absent(members: Seq<(Seq<char>, Json)>, key: Seq<char>)
    requires
        forall|j: int| 0 <= j < members.len() ==> members[j].0 != key,
    ensures
        member(members, key) is None,
    decreases members.len(),
{
    if members.len() > 0 {
        lemma_member_absent(members.drop_first(), key);
    }
}

/// The value of the member named `key` of `v`, when `v` is an object that has one.
pub fn get_member<'a>(v: &'a JsonValue, key: &str) -> (r: Option<&'a JsonValue>)
    ensures
        match r {
            Some(x) => get(v.json(), key@) == Some(x.json()),
            None => get(v.json(), key@) is None,
        },
{
    match v {
        JsonValue::Object(members) => {
            proof {
                lemma_json_members(members@);
            }
            let ghost ms = json_members(members@);
            assert(v.json() == Json::Object(ms));
            let mut i: usize = 0;
            while i < members.len()
                invariant
                    i <= members.len(),
                    ms == json_members(members@),
                    v.json() == Json::Object(ms),
                    ms.len() == members.len(),
                    forall|j: int| 0 <= j < members.len() ==> #[trigger] ms[j] == (
                        members@[j].0@,
                        members@[j].1.json(),
                    ),
                    forall|j: int| 0 <= j < i ==> ms[j].0 != key@,
                decreases members.len() - i,
            {
                if same_text(members[i].0.as_str(), key) {
                    proof {
                        assert(ms[i as int].0 == key@);
                        lemma_member_at(ms, key@, i as int);
                    }
                    return Some(&members[i].1);
                }
                i += 1;
            }
            proof {
                lemma_member_absent(ms, key@);
            }
            None
        },
        _ => None,
    }
}

/// The value that `serde_json::from_slice` parses from `bytes`, `None` when they hold no
/// JSON document.
pub uninterp spec fn parsed_json(bytes: Seq<u8>) -> Option<Json>;

#[verifier::external_type_specification]
#[verifier::external_body]
pub struct ExSerdeJsonValue(serde_json::Value);

/// `serde_json::from_slice` into a `serde_json::Value`, converted to a `JsonValue`; named
/// by `parsed_json`.
#[verifier::external_body]
pub(crate) fn parse_json(bytes: &[u8]) -> (r: Option<JsonValue>)
    ensures
        parsed_json(bytes@) == match r {
            Some(v) => Some(v.json()),
            None => None,
        },
{
    match serde_json::from_slice::<serde_json::Value>(bytes) {
        Ok(v) => Some(json_value_of(&v)),
        Err(_) => None,
    }
}

/// A `serde_json::Value` as a `JsonValue`, variant for variant, the members of an object
/// in the order its map iterates them.
#[verifier::external_body]
fn json_value_of(v: &serde_json::Value) -> JsonValue {
    match v {
        serde_json::Value::Null => JsonValue::Null,
        serde_json::Value::Bool(b) => JsonValue::Bool(*b),
        serde_json::Value::Number(n) => JsonValue::Number(n.to_string()),
        serde_json::Value::String(t) => JsonValue::Text(t.clone()),
        serde_json::Value::Array(items) => JsonValue::Array(items.iter().map(json_value_of).collect()),
        serde_json::Value::Object(members) => JsonValue::Object(
            members.iter().map(|(k, x)| (k.clone(), json_value_of(x))).collect(),
        ),
    }
}

} // verus!
