//! Trusted boundary to `serde_json`: parsing, inspecting and re-serializing
//! JSON values.  A parsed value is opaque to the verifier; the import logic
//! reads it only through the wrappers below and is verified for every value
//! they can hand back.

use vstd::prelude::*;

verus! {

#[verifier::external_type_specification]
#[verifier::external_body]
pub struct ExValue(serde_json::Value);

/// Whether `serde_json` accepts the text as a JSON document.  The result
/// depends on the characters alone.
pub uninterp spec fn json_valid(s: Seq<char>) -> bool;

/// Relies on `serde_json::from_str::<serde_json::Value>`: succeeds exactly
/// on well-formed JSON text; the error branch converts the parse error to
/// its message.
#[verifier::external_body]
pub fn parse_json(s: &str) -> (r: Result<serde_json::Value, String>)
    ensures
        r is Ok <==> json_valid(s@),
{
    serde_json::from_str::<serde_json::Value>(s).map_err(|e| e.to_string())
}

/// Whether `serde_json` accepts the text and the parsed value's top level is
/// a JSON object.  The result depends on the characters alone.
pub uninterp spec fn json_object(s: Seq<char>) -> bool;

/// Relies on `serde_json::from_str::<serde_json::Value>` and
/// `serde_json::Value::is_object`: succeeds exactly on well-formed JSON text
/// whose top level is an object.  The parse and the shape check stand
/// together in one call so that the combined outcome is a function of the
/// characters alone; the error arm holds the reason.
#[verifier::external_body]
pub fn parse_json_object(s: &str) -> (r: Result<serde_json::Value, String>)
    ensures
        r is Ok <==> (json_valid(s@) && json_object(s@)),
{
    match serde_json::from_str::<serde_json::Value>(s) {
        Ok(v) => {
            if v.is_object() {
                Ok(v)
            } else {
                Err("Import data must be a JSON object".to_string())
            }
        },
        Err(e) => Err(format!("Error parsing JSON: {}", e)),
    }
}

/// Relies on `serde_json::Value::get`: the member of an object under the
/// given key, if the value is an object holding one.
#[verifier::external_body]
pub fn json_get<'a>(v: &'a serde_json::Value, key: &str) -> Option<&'a serde_json::Value> {
    v.get(key)
}

/// Relies on `serde_json::Value::as_str`.
#[verifier::external_body]
pub fn json_as_str<'a>(v: &'a serde_json::Value) -> Option<&'a str> {
    v.as_str()
}

/// Relies on `serde_json::Value::as_array`.
#[verifier::external_body]
pub fn json_as_array<'a>(v: &'a serde_json::Value) -> Option<&'a Vec<serde_json::Value>> {
    v.as_array()
}

/// Relies on the `Display` of `serde_json::Value`: the compact serialized
/// text of the value.  No claim ties the text back to the parser: the
/// parser refuses nesting beyond its depth limit, so the text of a value
/// deeper than that would not re-parse.
#[verifier::external_body]
pub fn json_render(v: &serde_json::Value) -> String {
    v.to_string()
}

} // verus!
