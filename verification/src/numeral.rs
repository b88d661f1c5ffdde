//! Decimal digits: what a run of digits is worth, and how a number is
//! written in digits.

use vstd::prelude::*;
use vstd::string::*;

verus! {

/// Whether `c` is one of the ten decimal digits.
pub open spec fn is_digit(c: char) -> bool {
    '0' <= c && c <= '9'
}

/// The number that the digit `c` stands for.
pub open spec fn digit_value(c: char) -> int {
    c as int - '0' as int
}

/// Whether `s` holds decimal digits only.
pub open spec fn all_digits(s: Seq<char>) -> bool {
    forall|i: int| 0 <= i < s.len() ==> is_digit(#[trigger] s[i])
}

/// The number that the digits `s` spell in base ten; zero for no digits.
pub open spec fn digits_value(s: Seq<char>) -> int
    decreases s.len(),
{
    if s.len() == 0 {
        0
    } else {
        digits_value(s.drop_last()) * 10 + digit_value(s.last())
    }
}

/// The value of digits is not negative.
pub proof fn lemma_digits_value_bounds(s: Seq<char>)
    requires
        all_digits(s),
    ensures
        digits_value(s) >= 0,
    decreases s.len(),
{
    if s.len() > 0 {
        lemma_digits_value_bounds(s.drop_last());
    }
}

/// Whether `c` is a decimal digit.
pub fn is_digit_char(c: char) -> (b: bool)
    ensures
        b == is_digit(c),
{
    '0' <= c && c <= '9'
}

/// Ten to the power `n`.
pub open spec fn ten_to(n: nat) -> int
    decreases n,
{
    if n == 0 {
        1
    } else {
        10 * ten_to((n - 1) as nat)
    }
}

/// The character of the digit `d`.
pub open spec fn digit_char(d: int) -> char {
    ('0' as int + d) as char
}

/// The decimal numeral of `n`, without leading zeros.
pub open spec fn decimal_text(n: nat) -> Seq<char>
    decreases n,
{
    if n < 10 {
        seq![digit_char(n as int)]
    } else {
        decimal_text(n / 10).push(digit_char((n % 10) as int))
    }
}

/// The last `width` digits of `n`, with zeros in front where `n` has fewer.
pub open spec fn padded_text(n: nat, width: nat) -> Seq<char>
    decreases width,
{
    if width == 0 {
        Seq::empty()
    } else {
        padded_text(n / 10, (width - 1) as nat).push(digit_char((n % 10) as int))
    }
}

/// The last `width` digits of `n` as digits after a decimal point: without
/// the zeros at their end.
pub open spec fn fraction_text(n: nat, width: nat) -> Seq<char>
    decreases width,
{
    if width == 0 || n == 0 {
        Seq::empty()
    } else if n % 10 == 0 {
        fraction_text(n / 10, (width - 1) as nat)
    } else {
        padded_text(n, width)
    }
}

/// The digits `fraction` cut, or filled up with zeros, to `width` digits.
pub open spec fn filled(fraction: Seq<char>, width: nat) -> Seq<char> {
    Seq::new(
        width,
        |i: int|
            if i < fraction.len() {
                fraction[i]
            } else {
                '0'
            },
    )
}

/// A numeral without leading zeros holds digits, at least one, and spells
/// its number.
pub proof fn lemma_decimal_text(n: nat)
    ensures
        all_digits(decimal_text(n)),
        decimal_text(n).len() > 0,
        digits_value(decimal_text(n)) == n,
    decreases n,
{
    if n < 10 {
        assert(digits_value(decimal_text(n).drop_last()) == 0);
    } else {
        lemma_decimal_text(n / 10);
        assert(decimal_text(n).drop_last() =~= decimal_text(n / 10));
    }
}

/// A numeral of fixed width holds that many digits, and spells its number
/// after the digits in front of it.
pub proof fn lemma_padded_text(front: Seq<char>, n: nat, width: nat)
    requires
        n < ten_to(width),
    ensures
        all_digits(padded_text(n, width)),
        padded_text(n, width).len() == width,
        digits_value(front + padded_text(n, width)) == digits_value(front) * ten_to(width) + n,
    decreases width,
{
    if width > 0 {
        let shorter = (width - 1) as nat;
        lemma_padded_text(front, n / 10, shorter);
        let whole = front + padded_text(n, width);
        assert(whole.drop_last() =~= front + padded_text(n / 10, shorter));
        assert((digits_value(front) * ten_to(shorter) + n / 10) * 10 + n % 10 == digits_value(front)
            * ten_to(width) + n) by (nonlinear_arith)
            requires
                ten_to(width) == 10 * ten_to(shorter),
        ;
    }
}

/// The digits after the point are digits, no more than the width, and
/// filled up with zeros they are the numeral of fixed width.
pub proof fn lemma_fraction_text(n: nat, width: nat)
    requires
        n < ten_to(width),
    ensures
        all_digits(fraction_text(n, width)),
        fraction_text(n, width).len() <= width,
        n > 0 ==> fraction_text(n, width).len() > 0,
        filled(fraction_text(n, width), width) == padded_text(n, width),
    decreases width,
{
    lemma_padded_text(Seq::empty(), n, width);
    if width > 0 && n % 10 == 0 {
        lemma_fraction_text(n / 10, (width - 1) as nat);
    }
}

/// Powers of ten are at least one and grow with the exponent.
pub proof fn lemma_ten_to_grows(a: nat, b: nat)
    requires
        a <= b,
    ensures
        1 <= ten_to(a) <= ten_to(b),
    decreases b,
{
    if b > 0 {
        if a < b {
            lemma_ten_to_grows(a, (b - 1) as nat);
        } else {
            lemma_ten_to_grows((a - 1) as nat, (b - 1) as nat);
        }
    }
}

/// Digits filled up with zeros are digits, and spell their number times
/// ten for each zero.
pub proof fn lemma_filled_value(digits: Seq<char>, width: nat)
    requires
        all_digits(digits),
    ensures
        all_digits(filled(digits, width)),
        width >= digits.len() ==> digits_value(filled(digits, width)) == digits_value(digits)
            * ten_to((width - digits.len()) as nat),
    decreases width,
{
    if width <= digits.len() {
        if width == digits.len() {
            assert(filled(digits, width) =~= digits);
        }
    } else {
        let shorter = (width - 1) as nat;
        lemma_filled_value(digits, shorter);
        assert(filled(digits, width).drop_last() =~= filled(digits, shorter));
        assert(digits_value(digits) * ten_to((width - digits.len()) as nat) == digits_value(digits)
            * ten_to((shorter - digits.len()) as nat) * 10) by (nonlinear_arith)
            requires
                ten_to((width - digits.len()) as nat) == 10 * ten_to(
                    (shorter - digits.len()) as nat,
                ),
        ;
    }
}

/// The numeral of one digit.
fn digit_text(d: u128) -> (r: &'static str)
    requires
        d < 10,
    ensures
        r@ == seq![digit_char(d as int)],
{
    proof {
        reveal_strlit("0");
        reveal_strlit("1");
        reveal_strlit("2");
        reveal_strlit("3");
        reveal_strlit("4");
        reveal_strlit("5");
        reveal_strlit("6");
        reveal_strlit("7");
        reveal_strlit("8");
        reveal_strlit("9");
    }
    match d {
        0 => "0",
        1 => "1",
        2 => "2",
        3 => "3",
        4 => "4",
        5 => "5",
        6 => "6",
        7 => "7",
        8 => "8",
        _ => "9",
    }
}

/// Writes the decimal numeral of `n` at the end of `out`.
pub fn append_decimal(out: &mut String, n: u128)
    ensures
        final(out)@ == old(out)@ + decimal_text(n as nat),
    decreases n,
{
    if n < 10 {
        out.append(digit_text(n));
    } else {
        append_decimal(out, n / 10);
        out.append(digit_text(n % 10));
    }
}

/// Writes the last `width` digits of `n` at the end of `out`.
pub fn append_padded(out: &mut String, n: u128, width: usize)
    ensures
        final(out)@ == old(out)@ + padded_text(n as nat, width as nat),
    decreases width,
{
    if width > 0 {
        append_padded(out, n / 10, width - 1);
        out.append(digit_text(n % 10));
    }
}

/// Writes the last `width` digits of `n` at the end of `out`, without the
/// zeros at their end.
pub fn append_fraction(out: &mut String, n: u128, width: usize)
    ensures
        final(out)@ == old(out)@ + fraction_text(n as nat, width as nat),
    decreases width,
{
    if width > 0 && n > 0 {
        if n % 10 == 0 {
            append_fraction(out, n / 10, width - 1);
        } else {
            append_padded(out, n, width);
        }
    }
}

} // verus!
