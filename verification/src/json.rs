//! The crate's only boundary with `serde_json`.
//!
//! Records on disk are JSON text; what a given text parses to is a fixed
//! function of that text, so each parsing call is named by an
//! uninterpreted spec function and every contract above speaks of that
//! name. Nothing else in the crate touches `serde_json`.

use vstd::prelude::*;

verus! {

#[verifier::external_type_specification]
#[verifier::external_body]
pub struct ExValue(serde_json::Value);

/// What `serde_json::from_str::<Value>` returns on a given text:
/// `Some` exactly when the text is one well-formed JSON value.
pub uninterp spec fn json_of(s: Seq<char>) -> Option<serde_json::Value>;

/// What parsing a JSON object and reading the unsigned integer at a
/// given top-level key returns: `Some` exactly when the text is a
/// well-formed JSON object carrying a u64-representable number there.
pub uninterp spec fn u64_field_of(s: Seq<char>, key: Seq<char>) -> Option<u64>;

/// Relies on `serde_json::from_str::<Value>`: the parse of a JSON text
/// is a function of the text alone.
#[verifier::external_body]
pub fn parse_json(s: &str) -> (r: Option<serde_json::Value>)
    ensures
        r == json_of(s@),
{
    match serde_json::from_str::<serde_json::Value>(s) {
        Ok(v) => Some(v),
        Err(_) => None,
    }
}

/// Relies on `serde_json::from_str::<Value>`, `Value::get` and
/// `Value::as_u64`: each is a function of its arguments alone, so the
/// unsigned integer found at `key` in the parsed object is a function
/// of the text and the key.
#[verifier::external_body]
pub fn parse_u64_field(s: &str, key: &str) -> (r: Option<u64>)
    ensures
        r == u64_field_of(s@, key@),
{
    let v: serde_json::Value = match serde_json::from_str(s) {
        Ok(v) => v,
        Err(_) => return None,
    };
    match v.get(key) {
        Some(f) => f.as_u64(),
        None => None,
    }
}

} // verus!
