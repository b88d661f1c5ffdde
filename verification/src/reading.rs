//! Reading a rate from text.
//!
//! A rate is read from a decimal numeral: an optional sign, digits with an
//! optional decimal point among them, and an optional exponent of ten, as in
//! `97250.5`, `+3`, `.25`, `5.` or `1.5e-3`. Words such as `inf` or `nan`
//! are no numerals. The amount is taken exactly, to the eighteenth place
//! after the point; what lies beyond is dropped.

use vstd::prelude::*;
use vstd::string::*;
use crate::numeral::{
    all_digits, digits_value, filled, is_digit, is_digit_char, lemma_digits_value_bounds,
    lemma_filled_value, lemma_ten_to_grows, ten_to,
};
use crate::rate::{Rate, RateTextError, PLACES};

verus! {

/// Length of the sign that `s` starts with: one for `+` or `-`, else zero.
pub open spec fn sign_len(s: Seq<char>) -> int {
    if s.len() > 0 && (s[0] == '+' || s[0] == '-') {
        1
    } else {
        0
    }
}

/// Whether `s` starts with a minus sign.
pub open spec fn is_negative(s: Seq<char>) -> bool {
    s.len() > 0 && s[0] == '-'
}

/// The place where the run of digits that starts at `from` ends: the first
/// index from `from` on that holds no digit, or the length of `s`.
pub open spec fn digits_end(s: Seq<char>, from: int) -> int
    decreases s.len() - from,
{
    if 0 <= from < s.len() && is_digit(s[from]) {
        digits_end(s, from + 1)
    } else {
        from
    }
}

/// The place where the digits before the decimal point end.
pub open spec fn whole_end(s: Seq<char>) -> int {
    digits_end(s, sign_len(s))
}

/// Whether a decimal point follows the digits before it.
pub open spec fn has_point(s: Seq<char>) -> bool {
    whole_end(s) < s.len() && s[whole_end(s)] == '.'
}

/// The place where the sign, the digits and the point among them end.
pub open spec fn mantissa_end(s: Seq<char>) -> int {
    if has_point(s) {
        digits_end(s, whole_end(s) + 1)
    } else {
        whole_end(s)
    }
}

/// The digits before the decimal point.
pub open spec fn whole_digits(s: Seq<char>) -> Seq<char> {
    s.subrange(sign_len(s), whole_end(s))
}

/// The digits after the decimal point; none where there is no point.
pub open spec fn fraction_digits(s: Seq<char>) -> Seq<char> {
    if has_point(s) {
        s.subrange(whole_end(s) + 1, mantissa_end(s))
    } else {
        Seq::empty()
    }
}

/// Whether the letter of an exponent follows the digits and the point.
pub open spec fn has_exponent(s: Seq<char>) -> bool {
    mantissa_end(s) < s.len() && (s[mantissa_end(s)] == 'e' || s[mantissa_end(s)] == 'E')
}

/// What follows the letter of the exponent; nothing where there is none.
pub open spec fn exponent_text(s: Seq<char>) -> Seq<char> {
    if has_exponent(s) {
        s.subrange(mantissa_end(s) + 1, s.len() as int)
    } else {
        Seq::empty()
    }
}

/// What follows the sign of the exponent.
pub open spec fn exponent_digits(s: Seq<char>) -> Seq<char> {
    exponent_text(s).subrange(sign_len(exponent_text(s)), exponent_text(s).len() as int)
}

/// The number of the given size, below zero where `negative` says so.
pub open spec fn with_sign(negative: bool, size: int) -> int {
    if negative {
        -size
    } else {
        size
    }
}

/// The exponent of ten; zero where none is written.
pub open spec fn exponent(s: Seq<char>) -> int {
    with_sign(is_negative(exponent_text(s)), digits_value(exponent_digits(s)))
}

/// Whether `s` is a decimal numeral: an optional sign; then digits, with a
/// decimal point before, among or after them, or without one; then
/// nothing, or the letter `e` or `E`, an optional sign and digits. At least
/// one digit stands beside the point, and at least one after the letter.
pub open spec fn is_decimal(s: Seq<char>) -> bool {
    &&& whole_digits(s).len() + fraction_digits(s).len() > 0
    &&& if has_exponent(s) {
        exponent_digits(s).len() > 0 && all_digits(exponent_digits(s))
    } else {
        mantissa_end(s) == s.len()
    }
}

/// The number of the numeral's digits that count: those before the point,
/// as many more as the exponent says, and [`PLACES`] beyond.
pub open spec fn places_width(s: Seq<char>) -> int {
    whole_digits(s).len() + exponent(s) + PLACES
}

/// The first `width` of `digits` read as one number, with zeros for digits
/// that are not there; zero where `width` is zero or below.
pub open spec fn counted(digits: Seq<char>, width: int) -> int {
    if width <= 0 {
        0
    } else {
        digits_value(filled(digits, width as nat))
    }
}

/// The amount of the numeral `s` in units, without its sign: the digits of
/// the numeral that count, read as one number, with zeros for digits that
/// the numeral does not write. Digits beyond the last place are dropped.
pub open spec fn magnitude(s: Seq<char>) -> int {
    counted(whole_digits(s) + fraction_digits(s), places_width(s))
}

/// The amount of the numeral `s` in units.
pub open spec fn signed_units(s: Seq<char>) -> int {
    with_sign(is_negative(s), magnitude(s))
}

/// What reading `s` as a rate gives.
pub open spec fn reading(s: Seq<char>) -> Result<Rate, RateTextError> {
    if !is_decimal(s) {
        Err(RateTextError::Malformed)
    } else if signed_units(s) < i128::MIN || signed_units(s) > i128::MAX {
        Err(RateTextError::OutOfRange)
    } else {
        Ok(Rate { units: signed_units(s) as i128 })
    }
}

/// An exponent beyond this moves every numeral out of range, or to zero.
const EXPONENT_CAP: u128 = 1_000_000_000_000_000_000_000_000_000_000;

/// The value `v` where a `u128` holds it.
spec fn held(v: int) -> Option<u128> {
    if 0 <= v <= u128::MAX {
        Some(v as u128)
    } else {
        None
    }
}

/// Whether `bytes` hold the characters of `s`, one byte for each.
spec fn spells(bytes: Seq<u8>, s: Seq<char>) -> bool {
    &&& bytes.len() == s.len() <= usize::MAX
    &&& forall|i: int| 0 <= i < s.len() ==> (#[trigger] bytes[i]) as char == s[i]
}

/// Whether `digits` are digits that stand in `s`: the first `whole_len` of
/// them from `start` on, and the others after the place that follows those.
spec fn stand_in(digits: Seq<char>, s: Seq<char>, start: int, whole_len: int) -> bool {
    &&& 0 <= start
    &&& 0 <= whole_len <= digits.len()
    &&& all_digits(digits)
    &&& if whole_len == digits.len() {
        start + whole_len <= s.len()
    } else {
        start + digits.len() < s.len()
    }
    &&& forall|k: int| 0 <= k < whole_len ==> #[trigger] digits[k] == s[start + k]
    &&& forall|k: int| whole_len <= k < digits.len() ==> #[trigger] digits[k] == s[start + k + 1]
}

/// The exponent that `tail` writes after the letter: whether it is
/// negative, and its size; `None` where `tail` is no sign and digits.
spec fn exponent_in(tail: Seq<char>) -> Option<(bool, int)> {
    let digits = tail.subrange(sign_len(tail), tail.len() as int);
    if digits.len() > 0 && all_digits(digits) {
        Some((is_negative(tail), digits_value(digits)))
    } else {
        None
    }
}

/// A run of digits that ends where a non-digit or the end of `s` stands is
/// the run that `digits_end` finds.
proof fn lemma_digits_end(s: Seq<char>, from: int, to: int)
    requires
        0 <= from <= to <= s.len(),
        forall|k: int| from <= k < to ==> is_digit(#[trigger] s[k]),
        to == s.len() || !is_digit(s[to]),
    ensures
        digits_end(s, from) == to,
    decreases to - from,
{
    if from < to {
        lemma_digits_end(s, from + 1, to);
    }
}

/// A run of digits lies within the text, holds digits only, and ends where
/// a non-digit or the end of the text stands.
proof fn lemma_digits_run(s: Seq<char>, from: int)
    requires
        0 <= from <= s.len(),
    ensures
        from <= digits_end(s, from) <= s.len(),
        forall|k: int| from <= k < digits_end(s, from) ==> is_digit(#[trigger] s[k]),
        digits_end(s, from) == s.len() || !is_digit(s[digits_end(s, from)]),
    decreases s.len() - from,
{
    if from < s.len() && is_digit(s[from]) {
        lemma_digits_run(s, from + 1);
    }
}

/// The digits of a numeral stand in its text, before and after the point.
proof fn lemma_digits_stand(s: Seq<char>)
    ensures
        stand_in(
            whole_digits(s) + fraction_digits(s),
            s,
            sign_len(s),
            whole_end(s) - sign_len(s),
        ),
        whole_digits(s).len() == whole_end(s) - sign_len(s),
        (whole_digits(s) + fraction_digits(s)).len() == if has_point(s) {
            mantissa_end(s) - sign_len(s) - 1
        } else {
            whole_end(s) - sign_len(s)
        },
{
    lemma_digits_run(s, sign_len(s));
    if has_point(s) {
        lemma_digits_run(s, whole_end(s) + 1);
    }
}

/// The amount of a numeral is not negative.
proof fn lemma_magnitude_bounds(s: Seq<char>)
    ensures
        magnitude(s) >= 0,
{
    lemma_digits_stand(s);
    if places_width(s) > 0 {
        let digits = whole_digits(s) + fraction_digits(s);
        lemma_digits_value_bounds(filled(digits, places_width(s) as nat));
    }
}

/// A decimal numeral is written in ASCII.
proof fn lemma_decimal_is_ascii(s: Seq<char>)
    requires
        is_decimal(s),
    ensures
        vstd::utf8::is_ascii_chars(s),
{
    let a = sign_len(s);
    lemma_digits_run(s, a);
    let b = whole_end(s);
    if has_point(s) {
        lemma_digits_run(s, b + 1);
    }
    let m = mantissa_end(s);
    assert forall|i: int| 0 <= i < s.len() implies '\0' <= #[trigger] s[i] <= '\u{7f}' by {
        if i > m {
            let tail = exponent_text(s);
            let k = i - (m + 1);
            if k >= sign_len(tail) {
                assert(exponent_digits(s)[k - sign_len(tail)] == s[i]);
            }
        }
    }
}

/// The character at `at` of a text given by its bytes.
fn char_at(bytes: &[u8], at: usize, Ghost(s): Ghost<Seq<char>>) -> (c: char)
    requires
        spells(bytes@, s),
        at < s.len(),
    ensures
        c == s[at as int],
{
    bytes[at] as char
}

/// Takes one more digit into a running value, giving `None` once the value
/// has left the range of `u128`.
fn take_digit(acc: Option<u128>, c: char, Ghost(prefix): Ghost<Seq<char>>) -> (r: Option<u128>)
    requires
        is_digit(c),
        all_digits(prefix),
        acc == held(digits_value(prefix)),
    ensures
        r == held(digits_value(prefix.push(c))),
{
    proof {
        assert(prefix.push(c).drop_last() =~= prefix);
    }
    let d: u128 = (c as u32 - '0' as u32) as u128;
    match acc {
        None => None,
        Some(a) => match a.checked_mul(10) {
            None => None,
            Some(t) => t.checked_add(d),
        },
    }
}

/// Finds where the run of digits that starts at `from` ends.
fn skip_digits(bytes: &[u8], from: usize, Ghost(s): Ghost<Seq<char>>) -> (to: usize)
    requires
        spells(bytes@, s),
        from <= s.len(),
    ensures
        from <= to <= s.len(),
        to == digits_end(s, from as int),
        forall|k: int| from <= k < to ==> is_digit(#[trigger] s[k]),
{
    let mut i: usize = from;
    while i < bytes.len() && is_digit_char(char_at(bytes, i, Ghost(s)))
        invariant
            spells(bytes@, s),
            from <= i <= s.len(),
            forall|k: int| from <= k < i ==> is_digit(#[trigger] s[k]),
        decreases s.len() - i,
    {
        i = i + 1;
    }
    proof {
        lemma_digits_end(s, from as int, i as int);
    }
    i
}

/// Where the parts of a numeral stand in its text.
struct Layout {
    /// Whether the text starts with a minus sign.
    negative: bool,
    /// Where the digits before the point start.
    start: usize,
    /// Where the digits before the point end.
    point: usize,
    /// Where the digits after the point end.
    mantissa: usize,
}

/// Finds the sign, the digits and the point that the text starts with.
fn scan_mantissa(bytes: &[u8], Ghost(s): Ghost<Seq<char>>) -> (l: Layout)
    requires
        spells(bytes@, s),
    ensures
        l.negative == is_negative(s),
        l.start == sign_len(s),
        l.point == whole_end(s),
        l.mantissa == mantissa_end(s),
        l.start <= l.point <= l.mantissa <= s.len(),
        has_point(s) == (l.point < l.mantissa),
{
    let mut start: usize = 0;
    let mut negative: bool = false;
    if bytes.len() > 0 {
        let first = char_at(bytes, 0, Ghost(s));
        if first == '+' || first == '-' {
            negative = first == '-';
            start = 1;
        }
    }
    let point: usize = skip_digits(bytes, start, Ghost(s));
    let mantissa: usize = if point < bytes.len() && char_at(bytes, point, Ghost(s)) == '.' {
        skip_digits(bytes, point + 1, Ghost(s))
    } else {
        point
    };
    Layout { negative, start, point, mantissa }
}

/// Reads the exponent that stands in the text from `from` on.
fn read_exponent(bytes: &[u8], from: usize, Ghost(s): Ghost<Seq<char>>) -> (r: Option<
    (bool, Option<u128>),
>)
    requires
        spells(bytes@, s),
        from <= s.len(),
    ensures
        match exponent_in(s.subrange(from as int, s.len() as int)) {
            None => r is None,
            Some((lowers, size)) => r == Some((lowers, held(size))),
        },
{
    let n: usize = bytes.len();
    let ghost tail = s.subrange(from as int, n as int);
    let mut j: usize = from;
    let mut lowers: bool = false;
    if j < n {
        let c = char_at(bytes, j, Ghost(s));
        if c == '+' || c == '-' {
            lowers = c == '-';
            j = j + 1;
        }
    }
    let first: usize = j;
    let ghost digits = tail.subrange(sign_len(tail), tail.len() as int);
    let mut power: Option<u128> = Some(0);
    proof {
        assert(digits =~= s.subrange(first as int, n as int));
    }
    while j < n && is_digit_char(char_at(bytes, j, Ghost(s)))
        invariant
            n == s.len(),
            spells(bytes@, s),
            first <= j <= n,
            forall|k: int| first <= k < j ==> is_digit(#[trigger] s[k]),
            power == held(digits_value(s.subrange(first as int, j as int))),
        decreases n - j,
    {
        let c = char_at(bytes, j, Ghost(s));
        proof {
            assert(s.subrange(first as int, j as int).push(c) =~= s.subrange(first as int, j + 1));
        }
        power = take_digit(power, c, Ghost(s.subrange(first as int, j as int)));
        j = j + 1;
    }
    if j < n || j == first {
        proof {
            if j < n {
                assert(digits[j - first] == s[j as int]);
            }
        }
        None
    } else {
        Some((lowers, power))
    }
}

/// Reads the first `count` of a numeral's digits as one number.
fn collect_digits(
    bytes: &[u8],
    start: usize,
    whole_len: usize,
    count: usize,
    Ghost(digits): Ghost<Seq<char>>,
    Ghost(s): Ghost<Seq<char>>,
) -> (r: Option<u128>)
    requires
        spells(bytes@, s),
        stand_in(digits, s, start as int, whole_len as int),
        count <= digits.len(),
    ensures
        r == held(digits_value(digits.take(count as int))),
{
    let mut acc: Option<u128> = Some(0);
    let mut k: usize = 0;
    while k < count
        invariant
            spells(bytes@, s),
            stand_in(digits, s, start as int, whole_len as int),
            k <= count <= digits.len(),
            acc == held(digits_value(digits.take(k as int))),
        decreases count - k,
    {
        let at: usize = if k < whole_len {
            start + k
        } else {
            start + k + 1
        };
        let c = char_at(bytes, at, Ghost(s));
        proof {
            assert(c == digits[k as int]);
            assert(digits.take(k as int).push(c) =~= digits.take(k + 1));
        }
        acc = take_digit(acc, c, Ghost(digits.take(k as int)));
        k = k + 1;
    }
    acc
}

/// A number with at least thirty-nine zeros after it: zero where it is
/// zero, and else beyond what is held.
fn scale_far(acc: Option<u128>, Ghost(value): Ghost<int>, Ghost(zeros): Ghost<nat>) -> (r: Option<
    u128,
>)
    requires
        value >= 0,
        zeros >= 39,
        acc == held(value),
    ensures
        r == held(value * ten_to(zeros)),
{
    proof {
        lemma_ten_to_grows(39, zeros);
        assert(ten_to(39) == 1_000_000_000_000_000_000_000_000_000_000_000_000_000) by {
            reveal_with_fuel(ten_to, 40);
        }
        let scale = ten_to(zeros);
        if value == 0 {
            assert(value * scale == 0) by (nonlinear_arith)
                requires
                    value == 0,
            ;
        } else {
            assert(value * scale >= scale) by (nonlinear_arith)
                requires
                    value >= 1,
                    scale >= 0,
            ;
        }
    }
    match acc {
        Some(0) => Some(0),
        _ => None,
    }
}

/// A number with `zeros` zeros after it.
fn scale_up(acc: Option<u128>, zeros: u128, Ghost(value): Ghost<int>) -> (r: Option<u128>)
    requires
        value >= 0,
        acc == held(value),
    ensures
        r == held(value * ten_to(zeros as nat)),
{
    if zeros >= 39 {
        return scale_far(acc, Ghost(value), Ghost(zeros as nat));
    }
    let mut r = acc;
    let mut k: u128 = 0;
    while k < zeros
        invariant
            k <= zeros,
            value >= 0,
            r == held(value * ten_to(k as nat)),
        decreases zeros - k,
    {
        proof {
            let before = value * ten_to(k as nat);
            assert(value * ten_to((k + 1) as nat) == before * 10) by (nonlinear_arith)
                requires
                    before == value * ten_to(k as nat),
                    ten_to((k + 1) as nat) == 10 * ten_to(k as nat),
            ;
        }
        r = match r {
            None => None,
            Some(x) => x.checked_mul(10),
        };
        k = k + 1;
    }
    r
}

/// Reads a numeral's digits cut, or filled up with zeros, to `width` digits.
fn gather_digits(
    bytes: &[u8],
    start: usize,
    whole_len: usize,
    total: usize,
    width: u128,
    Ghost(digits): Ghost<Seq<char>>,
    Ghost(s): Ghost<Seq<char>>,
) -> (r: Option<u128>)
    requires
        spells(bytes@, s),
        stand_in(digits, s, start as int, whole_len as int),
        total == digits.len(),
    ensures
        r == held(digits_value(filled(digits, width as nat))),
{
    if width <= total as u128 {
        proof {
            assert(filled(digits, width as nat) =~= digits.take(width as int));
        }
        collect_digits(bytes, start, whole_len, width as usize, Ghost(digits), Ghost(s))
    } else {
        proof {
            assert(digits.take(total as int) =~= digits);
            lemma_filled_value(digits, width as nat);
            lemma_digits_value_bounds(digits);
        }
        let acc = collect_digits(bytes, start, whole_len, total, Ghost(digits), Ghost(s));
        scale_up(acc, width - total as u128, Ghost(digits_value(digits)))
    }
}

/// Reads the digits of a numeral that count, given its exponent: whether it
/// is negative, and its size where that is held.
fn read_amount(
    bytes: &[u8],
    start: usize,
    whole_len: usize,
    total: usize,
    lowers: bool,
    power: Option<u128>,
    Ghost(digits): Ghost<Seq<char>>,
    Ghost(size): Ghost<int>,
    Ghost(s): Ghost<Seq<char>>,
) -> (r: Option<u128>)
    requires
        spells(bytes@, s),
        stand_in(digits, s, start as int, whole_len as int),
        total == digits.len(),
        size >= 0,
        power == held(size),
    ensures
        r == held(counted(digits, whole_len + with_sign(lowers, size) + PLACES)),
{
    let reach: u128 = whole_len as u128 + PLACES as u128;
    let near: Option<u128> = match power {
        None => None,
        Some(p) => if p <= EXPONENT_CAP {
            Some(p)
        } else {
            None
        },
    };
    match near {
        Some(p) => {
            if !lowers {
                gather_digits(bytes, start, whole_len, total, reach + p, Ghost(digits), Ghost(s))
            } else if p >= reach {
                Some(0)
            } else {
                gather_digits(bytes, start, whole_len, total, reach - p, Ghost(digits), Ghost(s))
            }
        },
        None => {
            if lowers {
                Some(0)
            } else {
                let ghost width = whole_len + size + PLACES;
                proof {
                    assert(digits.take(total as int) =~= digits);
                    lemma_filled_value(digits, width as nat);
                    lemma_digits_value_bounds(digits);
                }
                let acc = collect_digits(bytes, start, whole_len, total, Ghost(digits), Ghost(s));
                scale_far(acc, Ghost(digits_value(digits)), Ghost((width - total) as nat))
            }
        },
    }
}

/// Puts the sign to an amount, where a rate holds the outcome.
fn signed_rate(negative: bool, amount: Option<u128>, Ghost(size): Ghost<int>) -> (r: Result<
    Rate,
    RateTextError,
>)
    requires
        size >= 0,
        amount == held(size),
    ensures
        r == if with_sign(negative, size) < i128::MIN || with_sign(negative, size) > i128::MAX {
            Err::<Rate, RateTextError>(RateTextError::OutOfRange)
        } else {
            Ok::<Rate, RateTextError>(Rate { units: with_sign(negative, size) as i128 })
        },
{
    match amount {
        None => Err(RateTextError::OutOfRange),
        Some(m) => if negative {
            match (0 as i128).checked_sub_unsigned(m) {
                Some(units) => Ok(Rate { units }),
                None => Err(RateTextError::OutOfRange),
            }
        } else if m <= i128::MAX as u128 {
            Ok(Rate { units: m as i128 })
        } else {
            Err(RateTextError::OutOfRange)
        },
    }
}

impl Rate {
    /// Reads a rate from a decimal numeral such as `97250.5`, `+3`, `.25`,
    /// `-0.001` or `1.5e-3`. Digits after the eighteenth decimal place are
    /// dropped.
    pub fn from_text(text: &str) -> (r: Result<Rate, RateTextError>)
        ensures
            r == reading(text@),
    {
        let ghost s = text@;
        if !text.is_ascii() {
            proof {
                if is_decimal(s) {
                    lemma_decimal_is_ascii(s);
                }
            }
            return Err(RateTextError::Malformed);
        }
        let bytes = text.as_bytes();
        proof {
            is_ascii_spec_bytes(text);
            assert(bytes@.len() == bytes.len());
            lemma_digits_stand(s);
        }
        let l = scan_mantissa(bytes, Ghost(s));
        let whole_len: usize = l.point - l.start;
        let total: usize = if l.point < l.mantissa {
            l.mantissa - l.start - 1
        } else {
            whole_len
        };
        if total == 0 {
            return Err(RateTextError::Malformed);
        }
        let exponent: (bool, Option<u128>) = if l.mantissa < bytes.len() {
            let letter = char_at(bytes, l.mantissa, Ghost(s));
            if letter != 'e' && letter != 'E' {
                return Err(RateTextError::Malformed);
            }
            match read_exponent(bytes, l.mantissa + 1, Ghost(s)) {
                None => {
                    return Err(RateTextError::Malformed);
                },
                Some(exponent) => exponent,
            }
        } else {
            (false, Some(0))
        };
        let ghost digits = whole_digits(s) + fraction_digits(s);
        let ghost size = digits_value(exponent_digits(s));
        proof {
            lemma_digits_value_bounds(exponent_digits(s));
            lemma_magnitude_bounds(s);
        }
        let amount = read_amount(
            bytes,
            l.start,
            whole_len,
            total,
            exponent.0,
            exponent.1,
            Ghost(digits),
            Ghost(size),
            Ghost(s),
        );
        signed_rate(l.negative, amount, Ghost(magnitude(s)))
    }
}

/// Whether `sign` is a sign or nothing.
pub open spec fn is_sign(sign: Seq<char>) -> bool {
    sign.len() == 0 || sign == seq!['+'] || sign == seq!['-']
}

/// The numeral put together from its parts: the sign, the digits before the
/// point and, where there is a point, the point and the digits after it.
pub open spec fn numeral_of(
    sign: Seq<char>,
    whole: Seq<char>,
    fraction: Seq<char>,
    pointed: bool,
) -> Seq<char> {
    if pointed {
        sign + whole + seq!['.'] + fraction
    } else {
        sign + whole
    }
}

/// The numeral with an exponent after it: its letter, sign and digits.
pub open spec fn with_exponent(
    numeral: Seq<char>,
    letter: char,
    sign: Seq<char>,
    digits: Seq<char>,
) -> Seq<char> {
    numeral + seq![letter] + sign + digits
}

/// A text that starts with a numeral's sign, digits and point, and goes on
/// with something that cannot belong to them, is read by those parts.
proof fn lemma_mantissa(
    sign: Seq<char>,
    whole: Seq<char>,
    fraction: Seq<char>,
    pointed: bool,
    rest: Seq<char>,
)
    requires
        is_sign(sign),
        all_digits(whole),
        all_digits(fraction),
        whole.len() + fraction.len() > 0,
        !pointed ==> fraction.len() == 0,
        rest.len() > 0 ==> !is_digit(rest[0]) && (pointed || rest[0] != '.'),
    ensures
        sign_len(numeral_of(sign, whole, fraction, pointed) + rest) == sign.len(),
        is_negative(numeral_of(sign, whole, fraction, pointed) + rest) == (sign == seq!['-']),
        whole_end(numeral_of(sign, whole, fraction, pointed) + rest) == sign.len() + whole.len(),
        has_point(numeral_of(sign, whole, fraction, pointed) + rest) == pointed,
        mantissa_end(numeral_of(sign, whole, fraction, pointed) + rest) == numeral_of(
            sign,
            whole,
            fraction,
            pointed,
        ).len(),
        whole_digits(numeral_of(sign, whole, fraction, pointed) + rest) == whole,
        fraction_digits(numeral_of(sign, whole, fraction, pointed) + rest) == fraction,
{
    let s = numeral_of(sign, whole, fraction, pointed) + rest;
    let a = sign.len() as int;
    let b = a + whole.len();
    lemma_digits_end(s, a, b);
    if pointed {
        lemma_digits_end(s, b + 1, b + 1 + fraction.len());
    }
}

/// Every text put together from a sign, digits and digits after a point is
/// a decimal numeral, and is read by those parts: a text made of an
/// optional sign, digits before the point and, with a point, digits after
/// it, with a digit on at least one side, is a decimal numeral; it is
/// negative exactly when the sign is a minus; the digits found before and
/// after its point are the ones it was made of; its exponent is zero; and
/// its amount is that of its digits before the point followed by eighteen
/// places after it.
pub proof fn law_numeral_is_read_by_its_parts(
    sign: Seq<char>,
    whole: Seq<char>,
    fraction: Seq<char>,
    pointed: bool,
)
    requires
        is_sign(sign),
        all_digits(whole),
        all_digits(fraction),
        whole.len() + fraction.len() > 0,
        !pointed ==> fraction.len() == 0,
    ensures
        is_decimal(numeral_of(sign, whole, fraction, pointed)),
        is_negative(numeral_of(sign, whole, fraction, pointed)) == (sign == seq!['-']),
        whole_digits(numeral_of(sign, whole, fraction, pointed)) == whole,
        fraction_digits(numeral_of(sign, whole, fraction, pointed)) == fraction,
        exponent(numeral_of(sign, whole, fraction, pointed)) == 0,
        magnitude(numeral_of(sign, whole, fraction, pointed)) == digits_value(
            whole + filled(fraction, PLACES as nat),
        ),
{
    lemma_mantissa(sign, whole, fraction, pointed, Seq::empty());
    assert(filled(whole + fraction, (whole.len() + PLACES) as nat) =~= whole + filled(
        fraction,
        PLACES as nat,
    ));
}

/// An exponent after a numeral is read as such: a text made of a numeral
/// as above, the letter `e` or `E`, an optional sign and at least one
/// digit is a decimal numeral; its sign and the digits beside its point
/// are those of the numeral; and its exponent is the number that the
/// digits after the letter spell, below zero after a minus sign.
pub proof fn law_exponent_is_read(
    sign: Seq<char>,
    whole: Seq<char>,
    fraction: Seq<char>,
    pointed: bool,
    letter: char,
    exponent_sign: Seq<char>,
    exponent_digits: Seq<char>,
)
    requires
        is_sign(sign),
        all_digits(whole),
        all_digits(fraction),
        whole.len() + fraction.len() > 0,
        !pointed ==> fraction.len() == 0,
        letter == 'e' || letter == 'E',
        is_sign(exponent_sign),
        all_digits(exponent_digits),
        exponent_digits.len() > 0,
    ensures
        ({
            let s = with_exponent(
                numeral_of(sign, whole, fraction, pointed),
                letter,
                exponent_sign,
                exponent_digits,
            );
            &&& is_decimal(s)
            &&& is_negative(s) == (sign == seq!['-'])
            &&& whole_digits(s) == whole
            &&& fraction_digits(s) == fraction
            &&& exponent(s) == if exponent_sign == seq!['-'] {
                -digits_value(exponent_digits)
            } else {
                digits_value(exponent_digits)
            }
        }),
{
    let plain = numeral_of(sign, whole, fraction, pointed);
    let rest = seq![letter] + exponent_sign + exponent_digits;
    let s = with_exponent(plain, letter, exponent_sign, exponent_digits);
    let tail = exponent_sign + exponent_digits;
    assert(s =~= plain + rest);
    lemma_mantissa(sign, whole, fraction, pointed, rest);
    assert(exponent_text(s) =~= tail);
    assert(tail.subrange(exponent_sign.len() as int, tail.len() as int) =~= exponent_digits);
}

/// Every decimal numeral is put together from such parts: its sign, the
/// digits before its point, where it has a point the digits after it, and
/// where it has an exponent the letter, sign and digits of that.
pub proof fn law_decimal_is_made_of_parts(s: Seq<char>)
    requires
        is_decimal(s),
    ensures
        is_sign(s.subrange(0, sign_len(s))),
        all_digits(whole_digits(s)),
        all_digits(fraction_digits(s)),
        whole_digits(s).len() + fraction_digits(s).len() > 0,
        !has_exponent(s) ==> s == numeral_of(
            s.subrange(0, sign_len(s)),
            whole_digits(s),
            fraction_digits(s),
            has_point(s),
        ),
        has_exponent(s) ==> s == with_exponent(
            numeral_of(s.subrange(0, sign_len(s)), whole_digits(s), fraction_digits(s), has_point(s)),
            s[mantissa_end(s)],
            exponent_text(s).subrange(0, sign_len(exponent_text(s))),
            exponent_digits(s),
        ) && is_sign(exponent_text(s).subrange(0, sign_len(exponent_text(s)))) && all_digits(
            exponent_digits(s),
        ) && exponent_digits(s).len() > 0,
{
    let a = sign_len(s);
    lemma_digits_run(s, a);
    let b = whole_end(s);
    let sign = s.subrange(0, a);
    if a == 1 {
        assert(sign =~= seq![s[0]]);
    }
    if has_point(s) {
        lemma_digits_run(s, b + 1);
    }
    if has_exponent(s) {
        let tail = exponent_text(s);
        if sign_len(tail) == 1 {
            assert(tail.subrange(0, 1) =~= seq![tail[0]]);
        }
    }
}

} // verus!
