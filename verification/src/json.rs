//! A JSON document as the dataset reader sees it.
//!
//! Camera files come as JSON or YAML; either is parsed (by `serde_json`, or
//! by `serde_yaml` and then taken as a `serde_json` value) into a
//! `JsonValue` before its fields are checked. A number keeps the two readings
//! the camera parser uses: the value as an unsigned integer, when it is one,
//! and the bit pattern of its value as an `f64`, when it has one.
use vstd::prelude::*;
use crate::text::same_text;

verus! {

/// A JSON number: `as_u64` when it is a non-negative integer that fits in
/// 64 bits, and the bit pattern of its value as an `f64`
/// (`serde_json::Number::as_u64`, `as_f64`).
#[derive(Clone, Copy, Debug, PartialEq, Eq)]
pub struct JsonNumber {
    pub as_u64: Option<u64>,
    pub as_f64_bits: Option<u64>,
}

/// A JSON value. An object lists its members in order, each key once.
#[derive(Debug)]
pub enum JsonValue {
    Null,
    Bool(bool),
    Number(JsonNumber),
    Text(String),
    Array(Vec<JsonValue>),
    Object(Vec<(String, JsonValue)>),
}

/// The value of the first member of `entries` named `key`.
pub open spec fn entries_get(entries: Seq<(String, JsonValue)>, key: Seq<char>) -> Option<JsonValue>
    decreases entries.len(),
{
    if entries.len() == 0 {
        None
    } else if entries[0].0@ == key {
        Some(entries[0].1)
    } else {
        entries_get(entries.drop_first(), key)
    }
}

/// Looking a name up in an object's members gives the value of the first
/// member with that name, and nothing when no member has it.
pub proof fn law_first_member_wins(entries: Seq<(String, JsonValue)>, key: Seq<char>)
    ensures
        entries_get(entries, key) is None <==> forall|k: int| 0 <= k < entries.len() ==> #[trigger] entries[k].0@ != key,
        entries_get(entries, key) is Some ==> exists|j: int|
            0 <= j < entries.len() && #[trigger] entries[j].0@ == key && entries[j].1 == entries_get(entries, key)->0
                && forall|k: int| 0 <= k < j ==> #[trigger] entries[k].0@ != key,
    decreases entries.len(),
{
    if entries.len() > 0 {
        let rest = entries.drop_first();
        law_first_member_wins(rest, key);
        if entries[0].0@ == key {
            assert(entries[0].0@ == key);
        } else {
            assert forall|k: int| 0 < k < entries.len() implies entries[k] == #[trigger] rest[k - 1] by {}
            if entries_get(entries, key) is Some {
                let j = choose|j: int|
                    0 <= j < rest.len() && #[trigger] rest[j].0@ == key && rest[j].1 == entries_get(rest, key)->0
                        && forall|k: int| 0 <= k < j ==> #[trigger] rest[k].0@ != key;
                assert(entries[j + 1] == rest[j]);
                assert forall|k: int| 0 <= k < j + 1 implies #[trigger] entries[k].0@ != key by {
                    if k > 0 {
                        assert(entries[k] == rest[k - 1]);
                    }
                }
            } else {
                assert forall|k: int| 0 <= k < entries.len() implies #[trigger] entries[k].0@ != key by {
                    if k > 0 {
                        assert(entries[k] == rest[k - 1]);
                    }
                }
            }
        }
    }
}

/// The member `key` of an object; `None` for a missing member or a value
/// that is not an object.
pub open spec fn member(v: JsonValue, key: Seq<char>) -> Option<JsonValue> {
    match v {
        JsonValue::Object(entries) => entries_get(entries@, key),
        _ => None,
    }
}

/// The items of an array.
pub open spec fn items(v: JsonValue) -> Option<Seq<JsonValue>> {
    match v {
        JsonValue::Array(a) => Some(a@),
        _ => None,
    }
}

/// The items of member `key`, when it is an array.
pub open spec fn member_items(v: JsonValue, key: Seq<char>) -> Option<Seq<JsonValue>> {
    match member(v, key) {
        Some(m) => items(m),
        None => None,
    }
}

/// A number's unsigned integer reading.
pub open spec fn u64_of(v: JsonValue) -> Option<u64> {
    match v {
        JsonValue::Number(n) => n.as_u64,
        _ => None,
    }
}

/// A number's `f64` reading, as a bit pattern.
pub open spec fn f64_bits_of(v: JsonValue) -> Option<u64> {
    match v {
        JsonValue::Number(n) => n.as_f64_bits,
        _ => None,
    }
}

fn entries_lookup<'a>(entries: &'a Vec<(String, JsonValue)>, key: &str) -> (r: Option<&'a JsonValue>)
    ensures
        match r {
            Some(x) => entries_get(entries@, key@) == Some(*x),
            None => entries_get(entries@, key@) is None,
        },
{
    let mut i: usize = 0;
    assert(entries@.skip(0) =~= entries@);
    while i < entries.len()
        invariant
            i <= entries@.len(),
            entries_get(entries@.skip(i as int), key@) == entries_get(entries@, key@),
        decreases entries@.len() - i,
    {
        proof {
            assert(entries@.skip(i as int).drop_first() =~= entries@.skip(i + 1));
        }
        if same_text(entries[i].0.as_str(), key) {
            return Some(&entries[i].1);
        }
        i = i + 1;
    }
    None
}

impl JsonValue {
    /// Member `key` of an object (`serde_json::Value::get`).
    pub fn get(&self, key: &str) -> (r: Option<&JsonValue>)
        ensures
            match r {
                Some(x) => member(*self, key@) == Some(*x),
                None => member(*self, key@) is None,
            },
    {
        match self {
            JsonValue::Object(entries) => entries_lookup(entries, key),
            _ => None,
        }
    }

    /// The items of an array (`serde_json::Value::as_array`).
    pub fn as_array(&self) -> (r: Option<&Vec<JsonValue>>)
        ensures
            match r {
                Some(a) => items(*self) == Some(a@),
                None => items(*self) is None,
            },
    {
        match self {
            JsonValue::Array(a) => Some(a),
            _ => None,
        }
    }

    /// A number's unsigned integer reading (`serde_json::Value::as_u64`).
    pub fn as_u64(&self) -> (r: Option<u64>)
        ensures
            r == u64_of(*self),
    {
        match self {
            JsonValue::Number(n) => n.as_u64,
            _ => None,
        }
    }

    /// A number's `f64` reading as a bit pattern
    /// (`serde_json::Value::as_f64`).
    pub fn as_f64_bits(&self) -> (r: Option<u64>)
        ensures
            r == f64_bits_of(*self),
    {
        match self {
            JsonValue::Number(n) => n.as_f64_bits,
            _ => None,
        }
    }
}

#[verifier::external_type_specification]
#[verifier::external_body]
pub struct ExSerdeJsonValue(serde_json::Value);

/// The library's `JsonValue` for a parsed `serde_json::Value`, variant for
/// variant; nothing is stated of it.
#[verifier::external_body]
fn json_value_of(v: &serde_json::Value) -> JsonValue {
    match v {
        serde_json::Value::Null => JsonValue::Null,
        serde_json::Value::Bool(b) => JsonValue::Bool(*b),
        serde_json::Value::Number(n) => JsonValue::Number(
            JsonNumber { as_u64: n.as_u64(), as_f64_bits: n.as_f64().map(|x| x.to_bits()) },
        ),
        serde_json::Value::String(t) => JsonValue::Text(t.clone()),
        serde_json::Value::Array(a) => JsonValue::Array(a.iter().map(json_value_of).collect()),
        serde_json::Value::Object(m) => JsonValue::Object(
            m.iter().map(|(k, x)| (k.clone(), json_value_of(x))).collect(),
        ),
    }
}

/// The document that `serde_json::from_str` reads from `text`, or `None`
/// when `text` is not JSON.
pub uninterp spec fn json_document(text: Seq<char>) -> Option<JsonValue>;

/// The document that `serde_yaml::from_str` reads from `text`, taken as a
/// JSON value by `serde_json::to_value`, or `None` when either step fails.
pub uninterp spec fn yaml_document(text: Seq<char>) -> Option<JsonValue>;

/// `serde_json::from_str` into a `serde_json::Value`, as a `JsonValue`. On
/// failure the parser's message comes back. The result is named by
/// `json_document`.
#[verifier::external_body]
pub(crate) fn parse_json_document(text: &str) -> (r: Result<JsonValue, String>)
    ensures
        match r {
            Ok(d) => json_document(text@) == Some(d),
            Err(_) => json_document(text@) is None,
        },
{
    match serde_json::from_str::<serde_json::Value>(text) {
        Ok(v) => Ok(json_value_of(&v)),
        Err(e) => Err(e.to_string()),
    }
}

/// `serde_yaml::from_str` into a `serde_yaml::Value`, then
/// `serde_json::to_value`, as a `JsonValue`. On failure the message of the
/// step that failed comes back. The result is named by `yaml_document`.
#[verifier::external_body]
pub(crate) fn parse_yaml_document(text: &str) -> (r: Result<JsonValue, String>)
    ensures
        match r {
            Ok(d) => yaml_document(text@) == Some(d),
            Err(_) => yaml_document(text@) is None,
        },
{
    let y: serde_yaml::Value = match serde_yaml::from_str(text) {
        Ok(y) => y,
        Err(e) => return Err(e.to_string()),
    };
    match serde_json::to_value(y) {
        Ok(v) => Ok(json_value_of(&v)),
        Err(e) => Err(e.to_string()),
    }
}

} // verus!
