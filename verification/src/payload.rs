//! Job payloads: JSON objects that the module stores, measures and compares
//! without reading them.
use serde_json::Value;
use std::collections::BTreeMap;
use vstd::prelude::*;

verus! {

/// A JSON value; the module never looks inside one.
#[verifier::external_type_specification]
#[verifier::external_body]
pub struct ExValue(serde_json::Value);

/// Why a JSON value could not be written.
#[verifier::external_type_specification]
#[verifier::external_body]
pub struct ExJsonError(serde_json::Error);

/// The compact JSON text of an object with these members, if it has one.
pub uninterp spec fn object_json(members: Map<String, Value>) -> Option<Seq<u8>>;

/// The members of a JSON value, if it is an object.
pub uninterp spec fn json_members(value: Value) -> Option<Map<String, Value>>;

/// Whether two JSON values are equal as JSON.
pub uninterp spec fn json_equal(left: Value, right: Value) -> bool;

/// `serde_json::to_vec` on an object's members.
#[verifier::external_body]
fn encode_object(members: &BTreeMap<String, Value>) -> (r: Result<Vec<u8>, serde_json::Error>)
    ensures
        match r {
            Ok(bytes) => object_json(members@) == Some(bytes@),
            Err(_) => object_json(members@) is None,
        },
{
    serde_json::to_vec(members)
}

/// `Value::Object`: the JSON object with exactly these members.
#[verifier::external_body]
pub(crate) fn object_value(members: BTreeMap<String, Value>) -> (r: Value)
    ensures
        json_members(r) == Some(members@),
{
    Value::Object(members.into_iter().collect())
}

/// The members of a `Value::Object`; nothing of any other variant.
#[verifier::external_body]
pub(crate) fn object_members(value: Value) -> (r: Option<BTreeMap<String, Value>>)
    ensures
        match r {
            Some(members) => json_members(value) == Some(members@),
            None => json_members(value) is None,
        },
{
    match value {
        Value::Object(members) => Some(members.into_iter().collect()),
        Value::Null => None,
        Value::Bool(_) => None,
        Value::Number(_) => None,
        Value::String(_) => None,
        Value::Array(_) => None,
    }
}

/// `==` on `serde_json::Value`. Every number in a value is finite, so a value
/// equals itself; an object equals every object with the same members.
#[verifier::external_body]
pub(crate) fn same_json(left: &Value, right: &Value) -> (r: bool)
    ensures
        r == json_equal(*left, *right),
        *left == *right ==> r,
        json_members(*left) is Some && json_members(*left) == json_members(*right) ==> r,
{
    left == right
}

/// `Value::clone` copies the value.
pub assume_specification[ <serde_json::Value as Clone>::clone ](value: &serde_json::Value) -> (r:
    serde_json::Value)
    ensures
        r == *value,
;

/// The number of bytes an object takes as compact JSON.
pub(crate) fn encoded_len(members: &BTreeMap<String, Value>) -> (r: Option<usize>)
    ensures
        match r {
            Some(length) => object_json(members@) matches Some(bytes) && bytes.len() == length,
            None => object_json(members@) is None,
        },
{
    match encode_object(members) {
        Ok(bytes) => Some(bytes.len()),
        Err(_) => None,
    }
}

} // verus!
