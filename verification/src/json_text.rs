//! JSON text: reading a `JsonValue` from bytes and writing one as bytes,
//! both done by `serde_json`.
//!
//! What `serde_json` reads and writes is named, not restated: `parsed_json`
//! is the value it reads from some bytes, `json_bytes` the bytes it writes
//! for a value. The framing code states its contracts over these names.

use vstd::prelude::*;

use crate::json::{Json, JsonMember, JsonNumber, JsonValue};

verus! {

/// The value that `serde_json::from_slice` reads from `bytes` as a
/// `serde_json::Value`, taken member by member and item by item into the
/// library's model; `None` when the bytes are not one JSON text.
pub uninterp spec fn parsed_json(bytes: Seq<u8>) -> Option<Json>;

/// The bytes that `serde_json::to_vec` writes for the `serde_json::Value`
/// that holds this value.
pub uninterp spec fn json_bytes(value: Json) -> Seq<u8>;

#[verifier::external_type_specification]
#[verifier::external_body]
pub struct ExSerdeJsonValue(serde_json::Value);

#[verifier::external_type_specification]
#[verifier::external_body]
pub struct ExSerdeJsonNumber(serde_json::Number);

/// `serde_json::from_slice` into a `serde_json::Value`, converted one for one
/// into a `JsonValue`. The contract says only that the result is the
/// function `parsed_json` of the bytes.
#[verifier::external_body]
pub(crate) fn decode_json(body: &[u8]) -> (res: Option<JsonValue>)
    ensures
        match res {
            Some(v) => parsed_json(body@) == Some(v@),
            None => parsed_json(body@) is None,
        },
{
    match serde_json::from_slice::<serde_json::Value>(body) {
        Ok(value) => Some(value_from_serde(&value)),
        Err(_) => None,
    }
}

/// `serde_json::to_vec` of the `serde_json::Value` that holds `value`. The
/// contract says only that the result is the function `json_bytes` of the
/// value. Writing a `serde_json::Value` into memory does not fail (its
/// object keys are strings), so the empty fallback is never taken.
#[verifier::external_body]
pub(crate) fn encode_json(value: &JsonValue) -> (res: Vec<u8>)
    ensures
        res@ == json_bytes(value@),
{
    serde_json::to_vec(&value_to_serde(value)).unwrap_or_default()
}

/// Part of `decode_json`: a `serde_json::Value` as a `JsonValue`, variant by
/// variant, object members in the order the map holds them.
#[verifier::external_body]
fn value_from_serde(value: &serde_json::Value) -> JsonValue {
    match value {
        serde_json::Value::Null => JsonValue::Null,
        serde_json::Value::Bool(b) => JsonValue::Bool(*b),
        serde_json::Value::Number(n) => JsonValue::Number(number_from_serde(n)),
        serde_json::Value::String(s) => JsonValue::String(s.clone()),
        serde_json::Value::Array(items) => JsonValue::Array(items.iter().map(value_from_serde).collect()),
        serde_json::Value::Object(members) => JsonValue::Object(
            members.iter().map(|(key, v)| JsonMember { key: key.clone(), value: value_from_serde(v) }).collect(),
        ),
    }
}

/// Part of `decode_json`: a `serde_json::Number` by its kind, a number that
/// is neither a `u64` nor an `i64` kept as its text.
#[verifier::external_body]
fn number_from_serde(n: &serde_json::Number) -> JsonNumber {
    match (n.as_u64(), n.as_i64()) {
        (Some(u), _) => JsonNumber::PosInt(u),
        (None, Some(i)) => JsonNumber::NegInt(i),
        (None, None) => JsonNumber::Float(n.to_string()),
    }
}

/// Part of `encode_json`: a `JsonValue` as a `serde_json::Value`, variant by
/// variant; of two members with the same key the later one stays.
#[verifier::external_body]
fn value_to_serde(value: &JsonValue) -> serde_json::Value {
    match value {
        JsonValue::Null => serde_json::Value::Null,
        JsonValue::Bool(b) => serde_json::Value::Bool(*b),
        JsonValue::Number(n) => number_to_serde(n),
        JsonValue::String(s) => serde_json::Value::String(s.clone()),
        JsonValue::Array(items) => serde_json::Value::Array(items.iter().map(value_to_serde).collect()),
        JsonValue::Object(members) => serde_json::Value::Object(
            members.iter().map(|m| (m.key.clone(), value_to_serde(&m.value))).collect(),
        ),
    }
}

/// Part of `encode_json`: a number as a `serde_json::Value`; number text
/// that `serde_json::Number` does not read becomes `null`.
#[verifier::external_body]
fn number_to_serde(n: &JsonNumber) -> serde_json::Value {
    match n {
        JsonNumber::PosInt(u) => serde_json::Value::from(*u),
        JsonNumber::NegInt(i) => serde_json::Value::from(*i),
        JsonNumber::Float(text) => text.parse::<serde_json::Number>().map_or(serde_json::Value::Null, serde_json::Value::Number),
    }
}

} // verus!
