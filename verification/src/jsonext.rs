//! Trusted boundary to `serde_json`. Parsing is a function of the bytes
//! alone, so what the parser yields is named (`json_of`) and carried into
//! the library's own model; every decision about field names, defaults
//! and malformed input is then made, and specified, by verified code.

use crate::jsonmodel::JsonValue;
use vstd::prelude::*;

verus! {

/// What the JSON parser yields on these bytes, read into the library's
/// model: a function of the bytes alone, or `None` where they are no
/// JSON document.
pub uninterp spec fn json_of(bytes: Seq<u8>) -> Option<JsonValue>;

/// Relies on `serde_json::from_slice`: parses one complete JSON
/// document, a function of the bytes alone, and fails on malformed
/// input.
#[verifier::external_body]
pub(crate) fn parse_json(bytes: &[u8]) -> (r: Option<JsonValue>)
    ensures
        r == json_of(bytes@),
{
    match serde_json::from_slice::<serde_json::Value>(bytes) {
        Ok(v) => Some(model_of_value(v)),
        Err(_) => None,
    }
}

/// Declares `serde_json::Value`, the parser's own document type, so that
/// the converter below can take it; the value is opaque to the verifier.
#[verifier::external_type_specification]
#[verifier::external_body]
pub struct ExValue(serde_json::Value);

/// Converts one parsed document into the library's model, variant by
/// variant: a number becomes its `as_u64`/`as_i64` readings, arrays and
/// objects carry their elements over in order.
#[verifier::external_body]
fn model_of_value(v: serde_json::Value) -> JsonValue {
    match v {
        serde_json::Value::Null => JsonValue::Null,
        serde_json::Value::Bool(b) => JsonValue::Bool(b),
        serde_json::Value::Number(n) => JsonValue::Num { as_u64: n.as_u64(), as_i64: n.as_i64() },
        serde_json::Value::String(s) => JsonValue::Text(s),
        serde_json::Value::Array(items) => JsonValue::Items(
            items.into_iter().map(model_of_value).collect(),
        ),
        serde_json::Value::Object(map) => JsonValue::Fields(
            map.into_iter().map(|(k, x)| (k, model_of_value(x))).collect(),
        ),
    }
}

} // verus!
