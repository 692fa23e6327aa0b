//! The trusted boundary to serde_json, used to read the JSON document
//! that the block-device enumeration command emits.
//!
//! `serde_json::Value` is opaque to the verifier, so its contents are
//! named by three uninterpreted functions: `json_size`, a structural
//! measure that shrinks on every subterm and carries termination of
//! the tree walk; `json_str`, the string content of a JSON string
//! value; and `json_field`, the member of a JSON object under a key.
//! Each wrapper below states, over those names, what the serde_json
//! source shows of the one call it makes.

use vstd::prelude::*;

verus! {

#[verifier::external_type_specification]
#[verifier::external_body]
pub struct ExValue(serde_json::Value);

pub uninterp spec fn json_size(v: serde_json::Value) -> nat;

pub uninterp spec fn json_str(v: serde_json::Value) -> Option<Seq<char>>;

pub uninterp spec fn json_field(v: serde_json::Value, key: Seq<char>) -> Option<serde_json::Value>;

/// Relies on `serde_json::from_str`: parses the text as one JSON
/// document, or fails.  Nothing is assumed of which document comes
/// back; callers state what holds whatever it is.
#[verifier::external_body]
pub fn json_parse(text: &str) -> (r: Option<serde_json::Value>) {
    serde_json::from_str::<serde_json::Value>(text).ok()
}

/// Relies on `serde_json::Value::get` with a string index: the member
/// of a JSON object under `key`, `None` for a missing key or a
/// non-object.  A member is a strict subterm of its object.
#[verifier::external_body]
pub fn json_get<'a>(v: &'a serde_json::Value, key: &str) -> (r: Option<&'a serde_json::Value>)
    ensures
        (match r {
            Some(c) => json_field(*v, key@) == Some(*c) && json_size(*c) < json_size(*v),
            None => json_field(*v, key@) is None,
        }),
{
    v.get(key)
}

/// Relies on `serde_json::Value::as_str`: the content of a JSON
/// string value, `None` for any other kind of value.
#[verifier::external_body]
pub fn json_as_str<'a>(v: &'a serde_json::Value) -> (r: Option<&'a str>)
    ensures
        (match r {
            Some(s) => json_str(*v) == Some(s@),
            None => json_str(*v) is None,
        }),
{
    v.as_str()
}

/// Relies on `serde_json::Value::as_array`: the elements of a JSON
/// array, `None` for any other kind of value.  Each element is a
/// strict subterm of the array.
#[verifier::external_body]
pub fn json_as_array<'a>(v: &'a serde_json::Value) -> (r: Option<&'a Vec<serde_json::Value>>)
    ensures
        (match r {
            Some(a) => forall|i: int|
                0 <= i < a@.len() ==> json_size(#[trigger] a@[i]) < json_size(*v),
            None => true,
        }),
{
    v.as_array()
}

} // verus!
