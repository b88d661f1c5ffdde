//! The configuration of a run: what to watch, and by how much it must move.

use vstd::prelude::*;
use crate::rate::{Rate, RateTextError};
use crate::reading::reading;

verus! {

/// Why a configuration was refused.
#[derive(Clone, Copy, Debug, PartialEq, Eq, Structural)]
pub enum ConfigurationError {
    /// No asset symbol was given.
    EmptyAsset,
    /// No currency symbol was given.
    EmptyCurrency,
    /// The threshold is not a decimal numeral that a rate can hold.
    UnreadableThreshold(RateTextError),
    /// The threshold is zero or below.
    ThresholdNotPositive,
}

/// What is watched: an asset, the currency in which it is quoted, and the
/// threshold beyond which a move is a break. The symbols are not empty and
/// the threshold is above zero.
#[derive(Debug)]
pub struct Configuration {
    asset: String,
    currency: String,
    threshold: Rate,
}

/// A configuration as plain values.
pub struct ConfigurationView {
    pub asset: Seq<char>,
    pub currency: Seq<char>,
    pub threshold: int,
}

/// What `str::to_uppercase` makes of `s`.
pub uninterp spec fn uppercased(s: Seq<char>) -> Seq<char>;

/// Calls `str::to_uppercase`, which maps each character to its uppercase
/// form as Unicode defines it. The contract claims no more than that the
/// outcome depends on `s` alone.
#[verifier::external_body]
pub(crate) fn to_uppercase(s: &str) -> (r: String)
    ensures
        r@ == uppercased(s@),
{
    s.to_uppercase()
}

/// The configuration that symbols in their final form and a threshold make.
pub open spec fn configuration_of(asset: Seq<char>, currency: Seq<char>, threshold: int) -> Result<
    ConfigurationView,
    ConfigurationError,
> {
    if asset.len() == 0 {
        Err(ConfigurationError::EmptyAsset)
    } else if currency.len() == 0 {
        Err(ConfigurationError::EmptyCurrency)
    } else if threshold <= 0 {
        Err(ConfigurationError::ThresholdNotPositive)
    } else {
        Ok(ConfigurationView { asset, currency, threshold })
    }
}

/// The configuration that symbols as they were typed and the text of a
/// threshold make.
pub open spec fn configuration_from(
    asset: Seq<char>,
    currency: Seq<char>,
    threshold: Seq<char>,
) -> Result<ConfigurationView, ConfigurationError> {
    if uppercased(asset).len() == 0 {
        Err(ConfigurationError::EmptyAsset)
    } else if uppercased(currency).len() == 0 {
        Err(ConfigurationError::EmptyCurrency)
    } else {
        match reading(threshold) {
            Err(e) => Err(ConfigurationError::UnreadableThreshold(e)),
            Ok(rate) => configuration_of(uppercased(asset), uppercased(currency), rate@),
        }
    }
}

/// The view of a result that holds a configuration.
pub open spec fn viewed(r: Result<Configuration, ConfigurationError>) -> Result<
    ConfigurationView,
    ConfigurationError,
> {
    match r {
        Ok(c) => Ok(c@),
        Err(e) => Err(e),
    }
}

impl View for Configuration {
    type V = ConfigurationView;

    closed spec fn view(&self) -> ConfigurationView {
        ConfigurationView {
            asset: self.asset@,
            currency: self.currency@,
            threshold: self.threshold@,
        }
    }
}

impl Configuration {
    #[verifier::type_invariant]
    spec fn well_formed(&self) -> bool {
        &&& self.asset@.len() > 0
        &&& self.currency@.len() > 0
        &&& self.threshold@ > 0
    }

    /// Makes a configuration of symbols that are in their final form and of
    /// a threshold. An empty symbol is refused, the asset's first, and then
    /// a threshold that is not above zero.
    pub fn from_parts(asset: String, currency: String, threshold: Rate) -> (r: Result<
        Configuration,
        ConfigurationError,
    >)
        ensures
            viewed(r) == configuration_of(asset@, currency@, threshold@),
    {
        if asset.as_str().is_empty() {
            Err(ConfigurationError::EmptyAsset)
        } else if currency.as_str().is_empty() {
            Err(ConfigurationError::EmptyCurrency)
        } else if !threshold.is_positive() {
            Err(ConfigurationError::ThresholdNotPositive)
        } else {
            Ok(Configuration { asset, currency, threshold })
        }
    }

    /// Makes a configuration of symbols as they were typed and of the text
    /// of a threshold: the symbols are put in upper case, and the threshold
    /// is read as a decimal numeral.
    pub fn new(asset: &str, currency: &str, threshold: &str) -> (r: Result<
        Configuration,
        ConfigurationError,
    >)
        ensures
            viewed(r) == configuration_from(asset@, currency@, threshold@),
    {
        let asset = to_uppercase(asset);
        let currency = to_uppercase(currency);
        if asset.as_str().is_empty() {
            return Err(ConfigurationError::EmptyAsset);
        }
        if currency.as_str().is_empty() {
            return Err(ConfigurationError::EmptyCurrency);
        }
        match Rate::from_text(threshold) {
            Err(e) => Err(ConfigurationError::UnreadableThreshold(e)),
            Ok(rate) => Configuration::from_parts(asset, currency, rate),
        }
    }

    /// The asset's symbol.
    pub fn asset(&self) -> (s: &str)
        ensures
            s@ == self@.asset,
            s@.len() > 0,
    {
        proof {
            use_type_invariant(self);
        }
        self.asset.as_str()
    }

    /// The currency's symbol.
    pub fn currency(&self) -> (s: &str)
        ensures
            s@ == self@.currency,
            s@.len() > 0,
    {
        proof {
            use_type_invariant(self);
        }
        self.currency.as_str()
    }

    /// The threshold.
    pub fn threshold(&self) -> (t: Rate)
        ensures
            t@ == self@.threshold,
            t@ > 0,
    {
        proof {
            use_type_invariant(self);
        }
        self.threshold
    }
}

} // verus!
