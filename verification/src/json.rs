//! JSON values carried through queries (bound parameters and inserted rows).
use vstd::prelude::*;

verus! {

/// `serde_json::Value`, carried opaquely: the library never looks inside a value.
#[verifier::external_type_specification]
#[verifier::external_body]
pub struct ExJsonValue(serde_json::Value);

/// `Clone` of a JSON value gives an equal value.
pub assume_specification[<serde_json::Value as Clone>::clone](v: &serde_json::Value) -> (r: serde_json::Value)
    ensures
        r == *v,
;

/// A JSON string value (`serde_json::Value::String`).
#[verifier::external_body]
pub(crate) fn json_string(s: String) -> (v: serde_json::Value)
    ensures
        v == json_of_string(s@),
{
    serde_json::Value::String(s)
}

/// The JSON string value holding the given characters.
pub uninterp spec fn json_of_string(s: Seq<char>) -> serde_json::Value;

} // verus!
