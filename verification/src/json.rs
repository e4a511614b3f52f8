//! JSON values, carried as they come and read only for boolean members.

use vstd::prelude::*;

verus! {

/// A JSON value of `serde_json`. The library carries such values and looks
/// inside them through [`json_flag`] alone.
#[verifier::external_type_specification]
#[verifier::external_body]
pub struct ExJsonValue(serde_json::Value);

/// The members of a JSON object whose values are booleans, by key. A value that
/// is no object has none.
pub uninterp spec fn json_flags(value: serde_json::Value) -> Map<Seq<char>, bool>;

/// `serde_json::Value::get` with a string key, and `as_bool` on what it finds:
/// the boolean at `key`, where the value is an object that holds one there.
#[verifier::external_body]
pub(crate) fn json_flag(value: &serde_json::Value, key: &str) -> (r: Option<bool>)
    ensures
        r == json_flags(*value).get(key@),
{
    value.get(key).and_then(serde_json::Value::as_bool)
}

/// `Clone` of `serde_json::Value`: the clone is the same value.
pub assume_specification[ <serde_json::Value as Clone>::clone ](value: &serde_json::Value) -> (r:
    serde_json::Value)
    ensures
        r == *value,
;

/// A copy of an optional JSON value.
pub fn copy_json(value: &Option<serde_json::Value>) -> (r: Option<serde_json::Value>)
    ensures
        r == *value,
{
    match value {
        Some(v) => Some(v.clone()),
        None => None,
    }
}

} // verus!
