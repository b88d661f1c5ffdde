use rate_watch::numeral::{append_decimal, append_fraction, append_padded, is_digit_char};

fn decimal(n: u128) -> String {
    let mut out = String::new();
    append_decimal(&mut out, n);
    out
}

fn padded(n: u128, width: usize) -> String {
    let mut out = String::new();
    append_padded(&mut out, n, width);
    out
}

fn fraction(n: u128, width: usize) -> String {
    let mut out = String::new();
    append_fraction(&mut out, n, width);
    out
}

#[test]
fn the_ten_digits_are_digits_and_nothing_else_is() {
    for c in '0'..='9' {
        assert!(is_digit_char(c));
    }
    for c in ['/', ':', 'a', ' ', '.', '-', '+', 'e', '\u{0}', '٣', '５'] {
        assert!(!is_digit_char(c), "{:?}", c);
    }
}

#[test]
fn numbers_are_written_without_leading_zeros() {
    assert_eq!(decimal(0), "0");
    assert_eq!(decimal(7), "7");
    assert_eq!(decimal(10), "10");
    assert_eq!(decimal(404), "404");
    assert_eq!(decimal(1_000_000), "1000000");
    assert_eq!(decimal(u128::MAX), "340282366920938463463374607431768211455");
}

#[test]
fn writing_adds_to_what_is_there() {
    let mut out = String::from("status: ");
    append_decimal(&mut out, 503);
    append_padded(&mut out, 7, 3);
    append_fraction(&mut out, 250, 3);
    assert_eq!(out, "status: 50300725");
}

#[test]
fn numbers_are_written_to_a_width() {
    assert_eq!(padded(0, 0), "");
    assert_eq!(padded(5, 0), "");
    assert_eq!(padded(0, 3), "000");
    assert_eq!(padded(5, 3), "005");
    assert_eq!(padded(123, 3), "123");
    assert_eq!(padded(1234, 3), "234");
    assert_eq!(padded(1, 18), "000000000000000001");
}

#[test]
fn places_are_written_without_zeros_at_their_end() {
    assert_eq!(fraction(0, 18), "");
    assert_eq!(fraction(5, 0), "");
    assert_eq!(fraction(500_000_000_000_000_000, 18), "5");
    assert_eq!(fraction(250_000_000_000_000_000, 18), "25");
    assert_eq!(fraction(1, 18), "000000000000000001");
    assert_eq!(fraction(10, 18), "00000000000000001");
    assert_eq!(fraction(120, 3), "12");
    assert_eq!(fraction(105, 3), "105");
    assert_eq!(fraction(100, 3), "1");
}
