//! JSON parsing and printing, through serde_json.

use vstd::prelude::*;
use serde_json::Value;

verus! {

#[verifier::external_type_specification]
#[verifier::external_body]
pub struct ExValue(Value);

/// Whether bytes are one JSON document (the name of what serde_json accepts).
pub uninterp spec fn is_json_bytes(b: Seq<u8>) -> bool;

/// The canonical form of a JSON text: the document parsed by serde_json and
/// printed back pretty, or none when the text is not a JSON document.
pub uninterp spec fn canonical_json_of(s: Seq<char>) -> Option<Seq<char>>;

/// The characters of an optional string.
pub open spec fn opt_string_view(r: Option<String>) -> Option<Seq<char>> {
    match r {
        Some(t) => Some(t@),
        None => None,
    }
}

/// Relies on `serde_json::from_slice` into a `Value`: a value exactly when the
/// bytes are a JSON document.
#[verifier::external_body]
pub fn parse_json_bytes(b: &[u8]) -> (r: Option<Value>)
    ensures
        r is Some <==> is_json_bytes(b@),
{
    serde_json::from_slice::<Value>(b).ok()
}

/// Relies on `serde_json::from_str` into a `Value`, printed back with
/// `serde_json::to_string_pretty` (two-space indentation, one member or element
/// per line): the result depends on the text alone, and is none exactly when
/// the text is not a JSON document (printing a `Value` does not fail).
#[verifier::external_body]
pub fn canonical_json(s: &str) -> (r: Option<String>)
    ensures
        opt_string_view(r) == canonical_json_of(s@),
{
    match serde_json::from_str::<Value>(s) {
        Ok(v) => serde_json::to_string_pretty(&v).ok(),
        Err(_) => None,
    }
}

} // verus!
