//! JSON values as the library reads them.
//!
//! Parsing is done by `serde_json`; the parsed tree is handed over as a
//! [`JsonValue`], on which the rest of the library works.
use vstd::prelude::*;

verus! {

#[verifier::external_type_specification]
#[verifier::external_body]
pub struct ExSerdeJsonValue(serde_json::Value);

/// A parsed JSON value. Numbers keep what the library reads of them: their
/// value when it is a non-negative integer that fits in `u64`.
pub enum JsonValue {
    Null,
    Bool(bool),
    Number(Option<u64>),
    Str(String),
    Array(Vec<JsonValue>),
    Object(Vec<(String, JsonValue)>),
}

/// What `serde_json::from_str::<serde_json::Value>` yields for a text, as a
/// [`JsonValue`]; `None` when the text is not one JSON document.
pub uninterp spec fn spec_parse_json(text: Seq<char>) -> Option<JsonValue>;

/// Parses a JSON document with `serde_json::from_str`; the error is the
/// parser's message (`serde_json::Error` as text), of which nothing is stated.
#[verifier::external_body]
pub(crate) fn parse_json_text(text: &str) -> (r: Result<JsonValue, String>)
    ensures
        match r {
            Ok(v) => spec_parse_json(text@) == Some(v),
            Err(_) => spec_parse_json(text@) is None,
        },
{
    match serde_json::from_str::<serde_json::Value>(text) {
        Ok(v) => Ok(json_from_serde(&v)),
        Err(e) => Err(e.to_string()),
    }
}

/// Parses a JSON document.
pub fn parse_json(text: &str) -> (r: Option<JsonValue>)
    ensures
        r == spec_parse_json(text@),
{
    match parse_json_text(text) {
        Ok(v) => Some(v),
        Err(_) => None,
    }
}

/// Converts a `serde_json::Value` node by node (numbers through `Number::as_u64`).
#[verifier::external_body]
fn json_from_serde(v: &serde_json::Value) -> JsonValue {
    match v {
        serde_json::Value::Null => JsonValue::Null,
        serde_json::Value::Bool(b) => JsonValue::Bool(*b),
        serde_json::Value::Number(n) => JsonValue::Number(n.as_u64()),
        serde_json::Value::String(s) => JsonValue::Str(s.clone()),
        serde_json::Value::Array(a) => JsonValue::Array(a.iter().map(json_from_serde).collect()),
        serde_json::Value::Object(m) => JsonValue::Object(
            m.iter().map(|(k, x)| (k.clone(), json_from_serde(x))).collect(),
        ),
    }
}

/// Value of the first member named `key`, searching from `i`.
pub open spec fn find_member(fields: Seq<(String, JsonValue)>, key: Seq<char>, i: int) -> Option<
    JsonValue,
>
    decreases fields.len() - i,
{
    if i < 0 || i >= fields.len() {
        None
    } else if fields[i].0@ == key {
        Some(fields[i].1)
    } else {
        find_member(fields, key, i + 1)
    }
}

/// `Value::get(key)`: the member of an object, `None` for other values.
pub open spec fn json_get(v: JsonValue, key: Seq<char>) -> Option<JsonValue> {
    match v {
        JsonValue::Object(fields) => find_member(fields@, key, 0),
        _ => None,
    }
}

/// `Value::as_str`.
pub open spec fn json_as_str(v: JsonValue) -> Option<Seq<char>> {
    match v {
        JsonValue::Str(s) => Some(s@),
        _ => None,
    }
}

/// `Value::as_bool`.
pub open spec fn json_as_bool(v: JsonValue) -> Option<bool> {
    match v {
        JsonValue::Bool(b) => Some(b),
        _ => None,
    }
}

/// `Value::as_u64`.
pub open spec fn json_as_u64(v: JsonValue) -> Option<u64> {
    match v {
        JsonValue::Number(n) => n,
        _ => None,
    }
}

/// String member of an object.
pub open spec fn str_member(v: JsonValue, key: Seq<char>) -> Option<Seq<char>> {
    match json_get(v, key) {
        Some(x) => json_as_str(x),
        None => None,
    }
}

/// Unsigned integer member of an object.
pub open spec fn u64_member(v: JsonValue, key: Seq<char>) -> Option<u64> {
    match json_get(v, key) {
        Some(x) => json_as_u64(x),
        None => None,
    }
}

/// Boolean member of an object.
pub open spec fn bool_member(v: JsonValue, key: Seq<char>) -> Option<bool> {
    match json_get(v, key) {
        Some(x) => json_as_bool(x),
        None => None,
    }
}

/// First element of an array member of an object.
pub open spec fn first_of_array_member(v: JsonValue, key: Seq<char>) -> Option<JsonValue> {
    match json_get(v, key) {
        Some(JsonValue::Array(items)) => if items@.len() > 0 {
            Some(items@[0])
        } else {
            None
        },
        _ => None,
    }
}

/// Whether a string equals the given characters.
fn string_is(s: &String, key: &[char]) -> (r: bool)
    ensures
        r == (s@ == key@),
{
    crate::text::str_eq_chars(s.as_str(), key)
}

/// `Value::get(key)`.
pub fn get<'a>(v: &'a JsonValue, key: &str) -> (r: Option<&'a JsonValue>)
    ensures
        match r {
            Some(x) => json_get(*v, key@) == Some(*x),
            None => json_get(*v, key@) is None,
        },
{
    let k = crate::text::chars_of(key);
    match v {
        JsonValue::Object(fields) => {
            let mut i: usize = 0;
            while i < fields.len()
                invariant
                    i <= fields.len(),
                    k@ == key@,
                    json_get(*v, key@) == find_member(fields@, key@, i as int),
                decreases fields.len() - i,
            {
                let hit = string_is(&fields[i].0, &k);
                assert(find_member(fields@, key@, i as int) == if fields@[i as int].0@ == key@ {
                    Some(fields@[i as int].1)
                } else {
                    find_member(fields@, key@, i + 1)
                });
                if hit {
                    return Some(&fields[i].1);
                }
                i = i + 1;
            }
            None
        },
        _ => None,
    }
}

/// `Value::as_str`.
pub fn as_str(v: &JsonValue) -> (r: Option<&String>)
    ensures
        match r {
            Some(s) => json_as_str(*v) == Some(s@),
            None => json_as_str(*v) is None,
        },
{
    match v {
        JsonValue::Str(s) => Some(s),
        _ => None,
    }
}

/// `Value::as_u64`.
pub fn as_u64(v: &JsonValue) -> (r: Option<u64>)
    ensures
        r == json_as_u64(*v),
{
    match v {
        JsonValue::Number(n) => *n,
        _ => None,
    }
}

/// `Value::as_bool`.
pub fn as_bool(v: &JsonValue) -> (r: Option<bool>)
    ensures
        r == json_as_bool(*v),
{
    match v {
        JsonValue::Bool(b) => Some(*b),
        _ => None,
    }
}

/// `args.get(key).and_then(as_str)`.
pub fn get_str<'a>(v: &'a JsonValue, key: &str) -> (r: Option<&'a String>)
    ensures
        match r {
            Some(s) => str_member(*v, key@) == Some(s@),
            None => str_member(*v, key@) is None,
        },
{
    match get(v, key) {
        Some(x) => as_str(x),
        None => None,
    }
}

/// `args.get(key).and_then(as_u64)`.
pub fn get_u64(v: &JsonValue, key: &str) -> (r: Option<u64>)
    ensures
        r == u64_member(*v, key@),
{
    match get(v, key) {
        Some(x) => as_u64(x),
        None => None,
    }
}

/// `args.get(key).and_then(as_bool)`.
pub fn get_bool(v: &JsonValue, key: &str) -> (r: Option<bool>)
    ensures
        r == bool_member(*v, key@),
{
    match get(v, key) {
        Some(x) => as_bool(x),
        None => None,
    }
}

/// `args.get(key).and_then(as_array).and_then(first)`.
pub fn get_first_of_array<'a>(v: &'a JsonValue, key: &str) -> (r: Option<&'a JsonValue>)
    ensures
        match r {
            Some(x) => first_of_array_member(*v, key@) == Some(*x),
            None => first_of_array_member(*v, key@) is None,
        },
{
    match get(v, key) {
        Some(JsonValue::Array(items)) => {
            if items.len() > 0 {
                Some(&items[0])
            } else {
                None
            }
        },
        _ => None,
    }
}

} // verus!
