use rate_watch::rate::{Rate, RateTextError};

const ONE: i128 = 1_000_000_000_000_000_000;

#[test]
fn whole_numbers_are_read() {
    assert_eq!(Rate::from_text("106"), Ok(Rate::from_units(106 * ONE)));
    assert_eq!(Rate::from_text("0"), Ok(Rate::from_units(0)));
    assert_eq!(Rate::from_text("007"), Ok(Rate::from_units(7 * ONE)));
}

#[test]
fn fractions_are_read_to_the_unit() {
    assert_eq!(Rate::from_text("97250.5"), Ok(Rate::from_units(97250 * ONE + ONE / 2)));
    assert_eq!(Rate::from_text("100.0"), Ok(Rate::from_units(100 * ONE)));
    assert_eq!(Rate::from_text("0.000000000000000001"), Ok(Rate::from_units(1)));
    assert_eq!(
        Rate::from_text("1.123456789012345678"),
        Ok(Rate::from_units(1_123_456_789_012_345_678))
    );
}

#[test]
fn digits_may_be_missing_on_one_side_of_the_point() {
    assert_eq!(Rate::from_text(".25"), Ok(Rate::from_units(ONE / 4)));
    assert_eq!(Rate::from_text("5."), Ok(Rate::from_units(5 * ONE)));
    assert_eq!(Rate::from_text("."), Err(RateTextError::Malformed));
    assert_eq!(Rate::from_text("+."), Err(RateTextError::Malformed));
}

#[test]
fn signs_are_read() {
    assert_eq!(Rate::from_text("+3"), Ok(Rate::from_units(3 * ONE)));
    assert_eq!(Rate::from_text("-0.001"), Ok(Rate::from_units(-ONE / 1000)));
    assert_eq!(Rate::from_text("-.5"), Ok(Rate::from_units(-ONE / 2)));
    assert_eq!(Rate::from_text("-0"), Ok(Rate::from_units(0)));
    assert_eq!(Rate::from_text("+"), Err(RateTextError::Malformed));
    assert_eq!(Rate::from_text("-"), Err(RateTextError::Malformed));
    assert_eq!(Rate::from_text("+-1"), Err(RateTextError::Malformed));
    assert_eq!(Rate::from_text("1-"), Err(RateTextError::Malformed));
}

#[test]
fn digits_beyond_the_last_place_are_dropped() {
    assert_eq!(
        Rate::from_text("0.1234567890123456789"),
        Ok(Rate::from_units(123_456_789_012_345_678))
    );
    assert_eq!(Rate::from_text("0.0000000000000000019"), Ok(Rate::from_units(1)));
    assert_eq!(Rate::from_text("-0.0000000000000000009"), Ok(Rate::from_units(0)));
    assert_eq!(
        Rate::from_text("2.99999999999999999999999999999999999999999999"),
        Ok(Rate::from_units(2_999_999_999_999_999_999))
    );
}

#[test]
fn text_that_is_no_numeral_is_malformed() {
    for text in ["", " ", "abc", " 5", "5 ", "1.2.3", "1..2", "1,5", "inf", "-inf", "infinity",
        "NaN", "nan", "0x10", "1_000", "١٢٣", "5\u{0}", "1f", "--1", "1 000"]
    {
        assert_eq!(Rate::from_text(text), Err(RateTextError::Malformed), "{:?}", text);
    }
}

#[test]
fn malformed_goes_before_out_of_range() {
    assert_eq!(
        Rate::from_text("999999999999999999999999999999999999999999x"),
        Err(RateTextError::Malformed)
    );
    assert_eq!(
        Rate::from_text("999999999999999999999999999999999999999999.5.5"),
        Err(RateTextError::Malformed)
    );
}

#[test]
fn the_largest_amount_is_read_and_the_next_is_not() {
    assert_eq!(
        Rate::from_text("170141183460469231731.687303715884105727"),
        Ok(Rate::from_units(i128::MAX))
    );
    assert_eq!(
        Rate::from_text("-170141183460469231731.687303715884105727"),
        Ok(Rate::from_units(-i128::MAX))
    );
    assert_eq!(
        Rate::from_text("170141183460469231731.687303715884105728"),
        Err(RateTextError::OutOfRange)
    );
    assert_eq!(
        Rate::from_text("-170141183460469231731.687303715884105728"),
        Ok(Rate::from_units(i128::MIN))
    );
    assert_eq!(
        Rate::from_text("-170141183460469231731.687303715884105729"),
        Err(RateTextError::OutOfRange)
    );
    assert_eq!(
        Rate::from_text("340282366920938463463.374607431768211456"),
        Err(RateTextError::OutOfRange)
    );
    assert_eq!(
        Rate::from_text("-340282366920938463463.374607431768211455"),
        Err(RateTextError::OutOfRange)
    );
    assert_eq!(Rate::from_text("170141183460469231732"), Err(RateTextError::OutOfRange));
    assert_eq!(
        Rate::from_text("99999999999999999999999999999999999999999999999999"),
        Err(RateTextError::OutOfRange)
    );
}

#[test]
fn leading_zeros_do_not_count_against_the_range() {
    assert_eq!(
        Rate::from_text("0000000000000000000000000000000000000000000000000001.5"),
        Ok(Rate::from_units(ONE + ONE / 2))
    );
}

#[test]
fn units_go_in_and_come_out() {
    let rate = Rate::from_units(-42);
    assert_eq!(rate.units(), -42);
    assert!(!rate.is_positive());
    assert!(!Rate::from_units(0).is_positive());
    assert!(Rate::from_units(1).is_positive());
}

#[test]
fn rates_are_written_as_decimal_numerals() {
    assert_eq!(Rate::from_units(0).to_text(), "0");
    assert_eq!(Rate::from_units(100 * ONE).to_text(), "100");
    assert_eq!(Rate::from_units(97250 * ONE + ONE / 2).to_text(), "97250.5");
    assert_eq!(Rate::from_units(ONE / 4).to_text(), "0.25");
    assert_eq!(Rate::from_units(-ONE / 1000).to_text(), "-0.001");
    assert_eq!(Rate::from_units(1).to_text(), "0.000000000000000001");
    assert_eq!(Rate::from_units(-1).to_text(), "-0.000000000000000001");
    assert_eq!(Rate::from_units(10).to_text(), "0.00000000000000001");
    assert_eq!(Rate::from_units(1_000_000_000_000_000_010).to_text(), "1.00000000000000001");
    assert_eq!(Rate::from_units(1_123_456_789_012_345_678).to_text(), "1.123456789012345678");
    assert_eq!(Rate::from_units(-250 * ONE).to_text(), "-250");
    assert_eq!(Rate::from_units(10 * ONE).to_text(), "10");
    assert_eq!(
        Rate::from_units(i128::MAX).to_text(),
        "170141183460469231731.687303715884105727"
    );
    assert_eq!(
        Rate::from_units(i128::MIN).to_text(),
        "-170141183460469231731.687303715884105728"
    );
}

#[test]
fn what_is_written_reads_back() {
    let mut units: Vec<i128> = vec![0, 1, -1, 9, 10, 11, ONE - 1, ONE, ONE + 1, -ONE, i128::MAX,
        i128::MIN, i128::MIN + 1, 123_456_789 * ONE + 987_654_321];
    let mut x: i128 = 1;
    for _ in 0..120 {
        x = x.wrapping_mul(6_364_136_223_846_793_005).wrapping_add(1_442_695_040_888_963_407);
        units.push(x);
        units.push(x % ONE);
        units.push(x - x % ONE);
    }
    for u in units {
        let rate = Rate::from_units(u);
        assert_eq!(Rate::from_text(&rate.to_text()), Ok(rate), "{}", u);
    }
}

#[test]
fn an_exponent_moves_the_point() {
    assert_eq!(Rate::from_text("1e5"), Ok(Rate::from_units(100_000 * ONE)));
    assert_eq!(Rate::from_text("1E5"), Ok(Rate::from_units(100_000 * ONE)));
    assert_eq!(Rate::from_text("1e+2"), Ok(Rate::from_units(100 * ONE)));
    assert_eq!(Rate::from_text("1.5e-3"), Ok(Rate::from_units(ONE / 1000 + ONE / 2000)));
    assert_eq!(Rate::from_text("1.5E-3"), Ok(Rate::from_units(1_500_000_000_000_000)));
    assert_eq!(Rate::from_text(".5e1"), Ok(Rate::from_units(5 * ONE)));
    assert_eq!(Rate::from_text("5.e0"), Ok(Rate::from_units(5 * ONE)));
    assert_eq!(Rate::from_text("-2.5e1"), Ok(Rate::from_units(-25 * ONE)));
    assert_eq!(Rate::from_text("+97.2505e3"), Ok(Rate::from_units(97250 * ONE + ONE / 2)));
    assert_eq!(Rate::from_text("12345e-2"), Ok(Rate::from_units(123 * ONE + 45 * ONE / 100)));
    assert_eq!(Rate::from_text("1e0"), Ok(Rate::from_units(ONE)));
    assert_eq!(Rate::from_text("1e-0"), Ok(Rate::from_units(ONE)));
    assert_eq!(Rate::from_text("1e007"), Ok(Rate::from_units(10_000_000 * ONE)));
}

#[test]
fn an_exponent_may_move_digits_beyond_the_last_place() {
    assert_eq!(Rate::from_text("1e-18"), Ok(Rate::from_units(1)));
    assert_eq!(Rate::from_text("1e-19"), Ok(Rate::from_units(0)));
    assert_eq!(Rate::from_text("9.99e-19"), Ok(Rate::from_units(0)));
    assert_eq!(Rate::from_text("123456e-20"), Ok(Rate::from_units(1234)));
    assert_eq!(Rate::from_text("-123456e-20"), Ok(Rate::from_units(-1234)));
    assert_eq!(Rate::from_text("123456e-23"), Ok(Rate::from_units(1)));
    assert_eq!(Rate::from_text("123456e-24"), Ok(Rate::from_units(0)));
    assert_eq!(Rate::from_text("123456e-25"), Ok(Rate::from_units(0)));
    assert_eq!(
        Rate::from_text("1000000000000000000000000000000000000000000000000e-48"),
        Ok(Rate::from_units(ONE))
    );
    assert_eq!(
        Rate::from_text("0.000000000000000000000000000000000000000000000001e48"),
        Ok(Rate::from_units(ONE))
    );
    assert_eq!(
        Rate::from_text("0.000000000000000000000000000000000000000000000001e30"),
        Ok(Rate::from_units(1))
    );
    assert_eq!(
        Rate::from_text("0.000000000000000000000000000000000000000000000001e29"),
        Ok(Rate::from_units(0))
    );
}

#[test]
fn an_exponent_of_any_size_is_read() {
    let huge = "9".repeat(60);
    assert_eq!(Rate::from_text(&format!("1e-{}", huge)), Ok(Rate::from_units(0)));
    assert_eq!(Rate::from_text(&format!("-1e-{}", huge)), Ok(Rate::from_units(0)));
    assert_eq!(Rate::from_text(&format!("0e{}", huge)), Ok(Rate::from_units(0)));
    assert_eq!(Rate::from_text(&format!("0.000e{}", huge)), Ok(Rate::from_units(0)));
    assert_eq!(Rate::from_text(&format!("1e{}", huge)), Err(RateTextError::OutOfRange));
    assert_eq!(Rate::from_text(&format!("0.001e{}", huge)), Err(RateTextError::OutOfRange));
    assert_eq!(Rate::from_text("1e-1000000000000000000000000000001"), Ok(Rate::from_units(0)));
    assert_eq!(
        Rate::from_text("1e1000000000000000000000000000001"),
        Err(RateTextError::OutOfRange)
    );
    assert_eq!(Rate::from_text("0e1000000000000000000000000000001"), Ok(Rate::from_units(0)));
    assert_eq!(Rate::from_text("0e39"), Ok(Rate::from_units(0)));
    assert_eq!(Rate::from_text("1e38"), Err(RateTextError::OutOfRange));
    assert_eq!(Rate::from_text("1e39"), Err(RateTextError::OutOfRange));
    assert_eq!(Rate::from_text("1e40"), Err(RateTextError::OutOfRange));
}

#[test]
fn an_exponent_reaches_the_ends_of_the_range() {
    assert_eq!(
        Rate::from_text("1e20"),
        Ok(Rate::from_units(100_000_000_000_000_000_000 * ONE))
    );
    assert_eq!(
        Rate::from_text("-1.7e20"),
        Ok(Rate::from_units(-170_000_000_000_000_000_000 * ONE))
    );
    assert_eq!(Rate::from_text("1.8e20"), Err(RateTextError::OutOfRange));
    assert_eq!(Rate::from_text("-1.8e20"), Err(RateTextError::OutOfRange));
    assert_eq!(Rate::from_text("1e21"), Err(RateTextError::OutOfRange));
    assert_eq!(
        Rate::from_text("170141183460469231731687303715884105727e-18"),
        Ok(Rate::from_units(i128::MAX))
    );
    assert_eq!(
        Rate::from_text("-170141183460469231731687303715884105728e-18"),
        Ok(Rate::from_units(i128::MIN))
    );
    assert_eq!(
        Rate::from_text("170141183460469231731687303715884105728e-18"),
        Err(RateTextError::OutOfRange)
    );
    assert_eq!(
        Rate::from_text("0.170141183460469231731687303715884105727e21"),
        Ok(Rate::from_units(i128::MAX))
    );
}

#[test]
fn an_exponent_needs_its_digits() {
    for text in ["e5", "E5", "+e5", ".e5", "1e", "1E", "1e+", "1e-", "1e5x", "1e5.5", "1e 5",
        "1ee5", "1e++5", "1e+-5", "1e5e5", "1 e5", "1e٥", "1.5e", "e", "1e99999999999999999999x"]
    {
        assert_eq!(Rate::from_text(text), Err(RateTextError::Malformed), "{:?}", text);
    }
}
