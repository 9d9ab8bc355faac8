//! Carrying opaque JSON values through the engine.

use vstd::prelude::*;

verus! {

#[verifier::external_type_specification]
#[verifier::external_body]
pub struct ExValue(serde_json::Value);

/// The JSON value that a text parses to, when it is valid JSON; parsing
/// depends on the text alone.
pub uninterp spec fn json_of(s: Seq<char>) -> Option<serde_json::Value>;

/// Relies on `serde_json::from_str::<Value>`: it parses exactly the valid
/// JSON texts, to a value determined by the text alone.
#[verifier::external_body]
pub(crate) fn parse_json(s: &str) -> (r: Result<serde_json::Value, String>)
    ensures
        r is Ok <==> json_of(s@) is Some,
        r matches Ok(v) ==> json_of(s@) == Some(v),
{
    match serde_json::from_str::<serde_json::Value>(s) {
        Ok(v) => Ok(v),
        Err(e) => Err(e.to_string()),
    }
}

/// Relies on `serde_json::Value::clone`: the copy is the same value.
#[verifier::external_body]
pub(crate) fn clone_json(v: &serde_json::Value) -> (r: serde_json::Value)
    ensures
        r == *v,
{
    v.clone()
}

} // verus!
