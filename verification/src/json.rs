//! JSON documents as the manager reads them: parsed by `serde_json`, held as
//! plain values, and looked into the way `serde_json::Value` indexing does.
use vstd::prelude::*;

verus! {

/// A JSON value. Object members keep the order in which `serde_json`'s map
/// yields them; a number keeps its value where it is an integer that fits
/// in `u64` (what `Value::as_u64` gives), and `None` otherwise.
#[derive(Debug)]
pub enum JsonValue {
    Null,
    Bool(bool),
    Number(Option<u64>),
    Str(String),
    Array(Vec<JsonValue>),
    Object(Vec<(String, JsonValue)>),
}

#[verifier::external_type_specification]
#[verifier::external_body]
pub struct ExSerdeJsonValue(serde_json::Value);

/// The document that `serde_json::from_str::<serde_json::Value>` reads from
/// `text`, as a `JsonValue`, or `None` where `text` is not JSON.
pub uninterp spec fn spec_parse_json(text: Seq<char>) -> Option<JsonValue>;

/// Parses `text` with `serde_json::from_str` into a `serde_json::Value` and
/// converts it. The result is named, not described: JSON's grammar is
/// `serde_json`'s to decide, and this library does not restate it.
#[verifier::external_body]
pub fn parse_json(text: &str) -> (res: Option<JsonValue>)
    ensures
        res == spec_parse_json(text@),
{
    serde_json::from_str::<serde_json::Value>(text).ok().map(json_from_serde)
}

/// Converts a `serde_json::Value` variant by variant into a `JsonValue`,
/// moving strings, elements and members over in order. Nothing is stated
/// of it: only `parse_json` uses it, and what `parse_json` returns is named.
#[verifier::external_body]
fn json_from_serde(v: serde_json::Value) -> JsonValue {
    match v {
        serde_json::Value::Null => JsonValue::Null,
        serde_json::Value::Bool(b) => JsonValue::Bool(b),
        serde_json::Value::Number(n) => JsonValue::Number(n.as_u64()),
        serde_json::Value::String(s) => JsonValue::Str(s),
        serde_json::Value::Array(a) => JsonValue::Array(a.into_iter().map(json_from_serde).collect()),
        serde_json::Value::Object(m) => JsonValue::Object(
            m.into_iter().map(|(k, v)| (k, json_from_serde(v))).collect(),
        ),
    }
}

/// The value of the first member of `es` named `key`, or `Null`.
pub open spec fn lookup(es: Seq<(String, JsonValue)>, key: Seq<char>) -> JsonValue
    decreases es.len(),
{
    if es.len() == 0 {
        JsonValue::Null
    } else if es[0].0@ == key {
        es[0].1
    } else {
        lookup(es.drop_first(), key)
    }
}

/// `v[key]`: the member named `key` where `v` is an object that has one,
/// and `Null` otherwise.
pub open spec fn json_get(v: JsonValue, key: Seq<char>) -> JsonValue {
    match v {
        JsonValue::Object(es) => lookup(es@, key),
        _ => JsonValue::Null,
    }
}

/// `v.as_str()`.
pub open spec fn json_str(v: JsonValue) -> Option<Seq<char>> {
    match v {
        JsonValue::Str(s) => Some(s@),
        _ => None,
    }
}

/// `v.as_str().unwrap_or(d)`.
pub open spec fn json_str_or(v: JsonValue, d: Seq<char>) -> Seq<char> {
    match v {
        JsonValue::Str(s) => s@,
        _ => d,
    }
}

/// `v.as_bool().unwrap_or(false)`.
pub open spec fn json_true(v: JsonValue) -> bool {
    v == JsonValue::Bool(true)
}

/// `v.as_u64()`.
pub open spec fn json_u64(v: JsonValue) -> Option<u64> {
    match v {
        JsonValue::Number(n) => n,
        _ => None,
    }
}

/// A possibly absent value, absence reading as `Null`.
pub open spec fn opt_json(o: Option<&JsonValue>) -> JsonValue {
    match o {
        Some(x) => *x,
        None => JsonValue::Null,
    }
}

/// `v[key]`, with `None` standing for `Null`.
pub fn get<'a>(v: &'a JsonValue, key: &str) -> (res: Option<&'a JsonValue>)
    ensures
        opt_json(res) == json_get(*v, key@),
{
    match v {
        JsonValue::Object(es) => {
            let k = key.to_string();
            let n = es.len();
            let mut i: usize = 0;
            assert(es@.subrange(0, n as int) =~= es@);
            while i < n
                invariant
                    n == es@.len(),
                    i <= n,
                    k@ == key@,
                    json_get(*v, key@) == lookup(es@, key@),
                    lookup(es@, key@) == lookup(es@.subrange(i as int, n as int), key@),
                decreases n - i,
            {
                assert(es@.subrange(i as int, n as int)[0] == es@[i as int]);
                if es[i].0 == k {
                    assert(lookup(es@.subrange(i as int, n as int), key@) == es@[i as int].1);
                    return Some(&es[i].1);
                }
                assert(es@.subrange(i as int, n as int).drop_first() =~= es@.subrange(
                    i + 1,
                    n as int,
                ));
                i = i + 1;
            }
            None
        },
        _ => None,
    }
}

/// `v[key]` for a possibly absent `v`.
pub fn get_in<'a>(v: Option<&'a JsonValue>, key: &str) -> (res: Option<&'a JsonValue>)
    ensures
        opt_json(res) == json_get(opt_json(v), key@),
{
    match v {
        Some(x) => get(x, key),
        None => None,
    }
}

/// `v.as_str()` as an owned string.
pub fn str_of(v: Option<&JsonValue>) -> (res: Option<String>)
    ensures
        match res {
            Some(s) => json_str(opt_json(v)) == Some(s@),
            None => json_str(opt_json(v)) is None,
        },
{
    match v {
        Some(JsonValue::Str(s)) => Some(s.clone()),
        _ => None,
    }
}

/// `v.as_str().unwrap_or(d)` as an owned string.
pub fn str_or(v: Option<&JsonValue>, d: &str) -> (res: String)
    ensures
        res@ == json_str_or(opt_json(v), d@),
{
    match v {
        Some(JsonValue::Str(s)) => s.clone(),
        _ => d.to_string(),
    }
}

/// `v.as_bool().unwrap_or(false)`.
pub fn is_true(v: Option<&JsonValue>) -> (res: bool)
    ensures
        res == json_true(opt_json(v)),
{
    match v {
        Some(JsonValue::Bool(b)) => *b,
        _ => false,
    }
}

/// `v.as_u64()`.
pub fn u64_of(v: Option<&JsonValue>) -> (res: Option<u64>)
    ensures
        res == json_u64(opt_json(v)),
{
    match v {
        Some(JsonValue::Number(n)) => *n,
        _ => None,
    }
}

} // verus!
