//! Rates as exact decimal amounts.
//!
//! A [`Rate`] counts units of 10^-18, so that sums and differences of quoted
//! rates are exact. Its view is that count, as a mathematical integer.
//!
//! A rate is read from a decimal numeral with [`Rate::from_text`] and
//! written as one with [`Rate::to_text`].

use vstd::prelude::*;

verus! {

/// Number of decimal places that a [`Rate`] keeps.
pub const PLACES: usize = 18;

/// Number of units in the amount one.
pub const UNITS_PER_ONE: i128 = 1_000_000_000_000_000_000;

/// An amount of currency, in units of 10^-18.
#[derive(Clone, Copy, Debug, PartialEq, Eq, Structural)]
pub struct Rate {
    pub units: i128,
}

impl View for Rate {
    type V = int;

    open spec fn view(&self) -> int {
        self.units as int
    }
}

impl Rate {
    /// The rate of the given number of units.
    pub fn from_units(units: i128) -> (r: Rate)
        ensures
            r@ == units,
            r.units == units,
    {
        Rate { units }
    }

    /// The number of units of this rate.
    pub fn units(&self) -> (u: i128)
        ensures
            u == self@,
    {
        self.units
    }

    /// Whether this rate is above zero.
    pub fn is_positive(&self) -> (b: bool)
        ensures
            b == (self@ > 0),
    {
        self.units > 0
    }

    /// Whether this rate lies above `base` by more than `margin`, that is
    /// whether `self - base > margin` over the integers. No difference is
    /// ever formed in machine arithmetic, so every triple of rates is decided.
    pub fn exceeds_by(&self, base: Rate, margin: Rate) -> (b: bool)
        ensures
            b == (self@ - base@ > margin@),
    {
        match self.units.checked_sub(base.units) {
            Some(gap) => gap > margin.units,
            // The difference left the range of i128: it did so upward exactly
            // when `base` is negative, and then it is above every margin.
            None => base.units < 0,
        }
    }
}

/// Why a text was not read as a rate.
#[derive(Clone, Copy, Debug, PartialEq, Eq, Structural)]
pub enum RateTextError {
    /// The text is not a decimal numeral.
    Malformed,
    /// The text is a decimal numeral of an amount that a rate cannot hold.
    OutOfRange,
}

} // verus!
