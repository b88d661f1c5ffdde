//! How a status of the rate service is written, taken from `reqwest`.
//!
//! A status is written as its number, a space and the phrase that goes with
//! the number. Which phrase goes with which number is not spelled out here;
//! the text is given a name, and the contracts of this crate speak of that
//! name.

use vstd::prelude::*;

verus! {

/// The text that `reqwest` writes for the status of the given number:
/// `None` where it takes the number for no status.
pub uninterp spec fn status_text(status: u16) -> Option<Seq<char>>;

/// Calls `reqwest::StatusCode::from_u16`, and on the status that it gives
/// `to_string`, which goes by the status's `Display`. The contract claims no
/// more than that the outcome depends on `status` alone.
#[verifier::external_body]
pub(crate) fn status_words(status: u16) -> (r: Option<String>)
    ensures
        r.deep_view() == status_text(status),
{
    match reqwest::StatusCode::from_u16(status) {
        Ok(code) => Some(code.to_string()),
        Err(_) => None,
    }
}

} // verus!
