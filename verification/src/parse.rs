//! JSON parsing, behind a trusted wrapper.
//!
//! Which texts parse as JSON, and what document a text denotes, are facts
//! of the text alone; the library gives the result a name and trusts
//! serde_json to compute it.  The resulting document carries numbers as
//! serde_json renders them and object keys in serde_json's sorted order.

use vstd::prelude::*;

use crate::jsonval::{JNode, JsonValue};

verus! {

#[verifier::external_type_specification]
#[verifier::external_body]
pub struct ExValue(serde_json::Value);

/// The document a text denotes, if it parses as JSON.
pub uninterp spec fn json_parse(text: Seq<char>) -> Option<JNode>;

/// Relies on serde_json::Value and the Display of serde_json::Number:
/// each variant is carried over in one arm, a number as the text its
/// Display renders, so that two numbers are equal exactly when their
/// renderings are.
#[verifier::external_body]
fn value_to_json(v: &serde_json::Value) -> JsonValue {
    match v {
        serde_json::Value::Null => JsonValue::Null,
        serde_json::Value::Bool(b) => JsonValue::Bool(*b),
        serde_json::Value::Number(n) => JsonValue::Num(n.to_string()),
        serde_json::Value::String(s) => JsonValue::Str(s.clone()),
        serde_json::Value::Array(items) => JsonValue::Arr(
            items.iter().map(value_to_json).collect(),
        ),
        serde_json::Value::Object(map) => JsonValue::Obj(
            map.iter().map(|(k, v)| (k.clone(), value_to_json(v))).collect(),
        ),
    }
}

/// Relies on serde_json::from_str: whether a text parses, and what
/// document it denotes, depend on the text alone.
#[verifier::external_body]
pub fn parse_json(text: &str) -> (r: Option<JsonValue>)
    ensures
        r is Some <==> json_parse(text@) is Some,
        r matches Some(v) ==> json_parse(text@) == Some(v@),
{
    serde_json::from_str::<serde_json::Value>(text).ok().map(|v| value_to_json(&v))
}

} // verus!
