use rate_watch::config::{Configuration, ConfigurationError};
use rate_watch::rate::{Rate, RateTextError};

const ONE: i128 = 1_000_000_000_000_000_000;

#[test]
fn symbols_are_put_in_upper_case() {
    let config = Configuration::new("btc", "usdc", "100.0").unwrap();
    assert_eq!(config.asset(), "BTC");
    assert_eq!(config.currency(), "USDC");
    assert_eq!(config.threshold(), Rate::from_units(100 * ONE));
}

#[test]
fn symbols_in_upper_case_stay() {
    let config = Configuration::new("ETH", "Eur", "0.5").unwrap();
    assert_eq!(config.asset(), "ETH");
    assert_eq!(config.currency(), "EUR");
    assert_eq!(config.threshold(), Rate::from_units(ONE / 2));
}

#[test]
fn upper_case_is_that_of_all_letters() {
    let config = Configuration::new("straße", "ünit", "1").unwrap();
    assert_eq!(config.asset(), "STRASSE");
    assert_eq!(config.currency(), "ÜNIT");
}

#[test]
fn an_empty_symbol_is_refused() {
    assert_eq!(Configuration::new("", "USDC", "100").err(), Some(ConfigurationError::EmptyAsset));
    assert_eq!(Configuration::new("BTC", "", "100").err(), Some(ConfigurationError::EmptyCurrency));
    assert_eq!(Configuration::new("", "", "x").err(), Some(ConfigurationError::EmptyAsset));
    assert_eq!(Configuration::new("BTC", "", "x").err(), Some(ConfigurationError::EmptyCurrency));
}

#[test]
fn a_threshold_that_is_no_numeral_is_refused() {
    for text in ["", "abc", "ten", "1e", "1,5"] {
        assert_eq!(
            Configuration::new("BTC", "USDC", text).err(),
            Some(ConfigurationError::UnreadableThreshold(RateTextError::Malformed)),
            "{:?}",
            text
        );
    }
    assert_eq!(
        Configuration::new("BTC", "USDC", "999999999999999999999999999999").err(),
        Some(ConfigurationError::UnreadableThreshold(RateTextError::OutOfRange))
    );
}

#[test]
fn a_threshold_of_zero_or_below_is_refused() {
    for text in ["0", "0.0", "-1", "-0.5", "0.0000000000000000001", "1e-19", "0e9"] {
        assert_eq!(
            Configuration::new("BTC", "USDC", text).err(),
            Some(ConfigurationError::ThresholdNotPositive),
            "{:?}",
            text
        );
    }
    assert!(Configuration::new("BTC", "USDC", "0.000000000000000001").is_ok());
    assert_eq!(
        Configuration::new("BTC", "USDC", "1e2").unwrap().threshold(),
        Rate::from_units(100 * ONE)
    );
}

#[test]
fn parts_in_their_final_form_are_taken_as_they_are() {
    let config =
        Configuration::from_parts("btc".to_string(), "Usdc".to_string(), Rate::from_units(1))
            .unwrap();
    assert_eq!(config.asset(), "btc");
    assert_eq!(config.currency(), "Usdc");
    assert_eq!(config.threshold(), Rate::from_units(1));
    assert_eq!(
        Configuration::from_parts(String::new(), "USDC".to_string(), Rate::from_units(1)).err(),
        Some(ConfigurationError::EmptyAsset)
    );
    assert_eq!(
        Configuration::from_parts("BTC".to_string(), String::new(), Rate::from_units(1)).err(),
        Some(ConfigurationError::EmptyCurrency)
    );
    assert_eq!(
        Configuration::from_parts("BTC".to_string(), "USDC".to_string(), Rate::from_units(0)).err(),
        Some(ConfigurationError::ThresholdNotPositive)
    );
}
