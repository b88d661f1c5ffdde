//! Writing a rate as text.
//!
//! A rate is written as a decimal numeral without an exponent, with no more
//! digits than it needs. Reading the text gives the rate back.

use vstd::prelude::*;
use vstd::string::*;
use crate::numeral::{
    append_decimal, append_fraction, decimal_text, fraction_text, lemma_decimal_text,
    lemma_fraction_text, lemma_padded_text, ten_to,
};
use crate::rate::{Rate, RateTextError, PLACES, UNITS_PER_ONE};
use crate::reading::{law_numeral_is_read_by_its_parts, numeral_of, reading};

verus! {

/// The text in which an amount of `units` is written: a minus sign where it
/// is below zero, the whole part without leading zeros, and, where the
/// amount is no whole number, a point and the places after it up to the
/// last one that is not zero.
pub open spec fn text_of(units: int) -> Seq<char> {
    let size = if units < 0 {
        (-units) as nat
    } else {
        units as nat
    };
    let sign = if units < 0 {
        seq!['-']
    } else {
        Seq::empty()
    };
    numeral_of(
        sign,
        decimal_text(size / (UNITS_PER_ONE as nat)),
        fraction_text(size % (UNITS_PER_ONE as nat), PLACES as nat),
        size % (UNITS_PER_ONE as nat) != 0,
    )
}

/// What is written reads back: the text of a rate is a decimal numeral, and
/// reading it gives the rate.
pub proof fn law_text_reads_back(rate: Rate)
    ensures
        reading(text_of(rate@)) == Ok::<Rate, RateTextError>(rate),
{
    let units = rate@;
    let size = if units < 0 {
        (-units) as nat
    } else {
        units as nat
    };
    let sign: Seq<char> = if units < 0 {
        seq!['-']
    } else {
        Seq::empty()
    };
    let one = UNITS_PER_ONE as nat;
    let whole = decimal_text(size / one);
    let part = size % one;
    let fraction = fraction_text(part, PLACES as nat);
    assert(ten_to(18) == 1_000_000_000_000_000_000) by {
        reveal_with_fuel(ten_to, 19);
    }
    lemma_decimal_text(size / one);
    lemma_fraction_text(part, PLACES as nat);
    lemma_padded_text(whole, part, PLACES as nat);
    law_numeral_is_read_by_its_parts(sign, whole, fraction, part != 0);
}

impl Rate {
    /// Writes this rate as a decimal numeral, such as `97250.5`, `100` or
    /// `-0.001`. Reading the text gives the rate back.
    pub fn to_text(&self) -> (text: String)
        ensures
            text@ == text_of(self@),
            reading(text@) == Ok::<Rate, RateTextError>(*self),
    {
        proof {
            law_text_reads_back(*self);
        }
        let mut text = String::new();
        let size: u128 = if self.units < 0 {
            text.append("-");
            proof {
                reveal_strlit("-");
            }
            if self.units == i128::MIN {
                170_141_183_460_469_231_731_687_303_715_884_105_728
            } else {
                (-self.units) as u128
            }
        } else {
            self.units as u128
        };
        let one: u128 = UNITS_PER_ONE as u128;
        append_decimal(&mut text, size / one);
        let part: u128 = size % one;
        if part != 0 {
            text.append(".");
            proof {
                reveal_strlit(".");
            }
            append_fraction(&mut text, part, PLACES);
        }
        text
    }
}

} // verus!
