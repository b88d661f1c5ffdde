//! What the watch needs of JSON, taken from `serde_json`.
//!
//! Two readings are enough: the members of an object, each with the text of
//! its value as it stands in the document, and the content of a string. What
//! `serde_json` makes of a text is not spelled out here; it is given a name,
//! and the contracts of this crate speak of that name.

use vstd::prelude::*;
use serde_json::value::RawValue;
use std::collections::BTreeMap;

verus! {

/// What `serde_json` makes of `text` read as an object: `None` where it
/// rejects the text, else the object's members in the order of their keys,
/// each as its key and the JSON text of its value.
pub uninterp spec fn json_object(text: Seq<char>) -> Option<Seq<(Seq<char>, Seq<char>)>>;

/// What `serde_json` makes of `text` read as a string: `None` where it
/// rejects the text, else the characters that the string holds.
pub uninterp spec fn json_string(text: Seq<char>) -> Option<Seq<char>>;

/// Calls `serde_json::from_str` for a `BTreeMap` from `String` to
/// `Box<RawValue>`, and hands out the map's entries in its own order, with
/// `RawValue::get` for the text of each value. The contract claims no more
/// than that the outcome depends on `text` alone.
#[verifier::external_body]
pub(crate) fn object_members(text: &str) -> (r: Option<Vec<(String, String)>>)
    ensures
        r.deep_view() == json_object(text@),
{
    match serde_json::from_str::<BTreeMap<String, Box<RawValue>>>(text) {
        Ok(members) => Some(
            members.into_iter().map(|(key, value)| (key, value.get().to_owned())).collect(),
        ),
        Err(_) => None,
    }
}

/// Calls `serde_json::from_str` for a `String`. The contract claims no more
/// than that the outcome depends on `text` alone.
#[verifier::external_body]
pub(crate) fn string_value(text: &str) -> (r: Option<String>)
    ensures
        r.deep_view() == json_string(text@),
{
    match serde_json::from_str::<String>(text) {
        Ok(content) => Some(content),
        Err(_) => None,
    }
}

} // verus!
