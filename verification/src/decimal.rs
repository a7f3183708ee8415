//! Fixed-point decimal quantities with eight fractional digits, and the
//! reading of decimal text into them.
//!
//! A quantity is a whole number of *units*; one unit is one hundred-millionth.
//! A decimal text is a run of digits, optionally followed by a point and a
//! second run of digits; one of the two runs may be empty, not both. No sign,
//! exponent or surrounding space is accepted.

use vstd::prelude::*;
use vstd::arithmetic::div_mod::lemma_fundamental_div_mod_converse;
use vstd::arithmetic::power::{lemma_pow0, lemma_pow_adds, lemma_pow_positive, pow};
use vstd::string::is_ascii_spec_bytes;

verus! {

/// Number of fixed-point units in one whole.
pub const SCALE: u64 = 100_000_000;

/// Number of fractional decimal digits that a fixed-point quantity keeps.
pub const FRACTION_DIGITS: usize = 8;

/// Why a text was not accepted as a fixed-point quantity.
#[derive(Clone, Copy, Debug, PartialEq, Eq)]
pub enum ParseError {
    /// There was no text to read.
    Missing,
    /// The text is not a decimal number.
    Malformed,
    /// The number is zero, or so small that no unit is left of it.
    NotPositive,
    /// The number is larger than the quantity can hold.
    OutOfRange,
}

/// Whether `c` is one of the ten ASCII decimal digits.
pub open spec fn is_digit(c: char) -> bool {
    '0' <= c <= '9'
}

/// The number that a decimal digit stands for.
pub open spec fn digit_value(c: char) -> nat {
    if is_digit(c) {
        (c as int - '0' as int) as nat
    } else {
        0
    }
}

/// Whether every character of `s` is a decimal digit.
pub open spec fn all_digits(s: Seq<char>) -> bool {
    forall|i: int| 0 <= i < s.len() ==> is_digit(#[trigger] s[i])
}

/// The number that a run of digits denotes in base ten; the empty run denotes 0.
pub open spec fn numeral(digits: Seq<char>) -> nat
    decreases digits.len(),
{
    if digits.len() == 0 {
        0
    } else {
        numeral(digits.drop_last()) * 10 + digit_value(digits.last())
    }
}

/// The number of characters that stand before the first point of `text`:
/// all of them where it has no point.
pub open spec fn point_index(text: Seq<char>) -> nat
    decreases text.len(),
{
    if text.len() == 0 || text[0] == '.' {
        0
    } else {
        1 + point_index(text.drop_first())
    }
}

/// What stands before the first point.
pub open spec fn whole_part(text: Seq<char>) -> Seq<char> {
    text.take(point_index(text) as int)
}

/// What stands after the first point; empty where there is no point.
pub open spec fn fraction_part(text: Seq<char>) -> Seq<char> {
    if point_index(text) < text.len() {
        text.skip(point_index(text) as int + 1)
    } else {
        Seq::empty()
    }
}

/// Whether `text` is a decimal number: digits before and after at most one
/// point, with at least one digit in all.
pub open spec fn is_decimal(text: Seq<char>) -> bool {
    &&& all_digits(whole_part(text))
    &&& all_digits(fraction_part(text))
    &&& whole_part(text).len() + fraction_part(text).len() > 0
}

/// The value of a decimal text in units, rounded down to a whole unit:
/// the digits read as one numeral, times `SCALE`, divided by ten to the
/// number of fractional digits.
pub open spec fn decimal_units(text: Seq<char>) -> nat {
    (numeral(whole_part(text) + fraction_part(text)) * SCALE / pow(
        10,
        fraction_part(text).len(),
    )) as nat
}

/// The first `FRACTION_DIGITS` digits of a fraction, with zeros standing in
/// for those that it lacks.
spec fn kept_fraction(fraction: Seq<char>) -> Seq<char> {
    Seq::new(
        FRACTION_DIGITS as nat,
        |i: int|
            if i < fraction.len() {
                fraction[i]
            } else {
                '0'
            },
    )
}

/// The point index is the one place that holds a point with none before it,
/// or the length of a text without a point.
proof fn lemma_point_index(text: Seq<char>, at: int)
    requires
        0 <= at <= text.len(),
        forall|j: int| 0 <= j < at ==> text[j] != '.',
        at < text.len() ==> text[at] == '.',
    ensures
        point_index(text) == at,
    decreases text.len(),
{
    if at > 0 {
        let rest = text.drop_first();
        assert forall|j: int| 0 <= j < at - 1 implies rest[j] != '.' by {
            assert(rest[j] == text[j + 1]);
        }
        lemma_point_index(rest, at - 1);
    }
}

/// The point index lies within the text, holds a point unless it is the
/// text's length, and no point stands before it.
proof fn lemma_point_index_bounds(text: Seq<char>)
    ensures
        point_index(text) <= text.len(),
        point_index(text) < text.len() ==> text[point_index(text) as int] == '.',
        forall|j: int| 0 <= j < point_index(text) ==> text[j] != '.',
    decreases text.len(),
{
    if !(text.len() == 0 || text[0] == '.') {
        let rest = text.drop_first();
        lemma_point_index_bounds(rest);
        assert forall|j: int| 0 <= j < point_index(text) implies text[j] != '.' by {
            if j > 0 {
                assert(text[j] == rest[j - 1]);
            }
        }
    }
}

/// A decimal text holds only digits and points, which are ASCII.
proof fn lemma_decimal_is_ascii(text: Seq<char>)
    requires
        is_decimal(text),
    ensures
        vstd::utf8::is_ascii_chars(text),
{
    lemma_point_index_bounds(text);
    let at = point_index(text) as int;
    assert forall|i: int| 0 <= i < text.len() implies '\0' <= #[trigger] text[i] <= '\u{7f}' by {
        if i < at {
            assert(whole_part(text)[i] == text[i]);
        } else if i > at {
            assert(fraction_part(text)[i - at - 1] == text[i]);
        }
    }
}

/// One more digit at the end multiplies by ten and adds the digit.
proof fn lemma_numeral_step(digits: Seq<char>, k: int)
    requires
        0 <= k < digits.len(),
    ensures
        numeral(digits.take(k + 1)) == numeral(digits.take(k)) * 10 + digit_value(digits[k]),
{
    assert(digits.take(k + 1).drop_last() =~= digits.take(k));
}

/// The numeral of two runs, one after the other.
proof fn lemma_numeral_concat(a: Seq<char>, b: Seq<char>)
    ensures
        numeral(a + b) == numeral(a) * pow(10, b.len()) + numeral(b),
    decreases b.len(),
{
    if b.len() == 0 {
        assert(a + b =~= a);
        lemma_pow0(10);
    } else {
        let front = b.drop_last();
        assert((a + b).drop_last() =~= a + front);
        lemma_numeral_concat(a, front);
        lemma_pow_adds(10, front.len(), 1);
        vstd::arithmetic::power::lemma_pow1(10);
        let p = pow(10, front.len());
        assert(pow(10, b.len()) == p * 10);
        assert((numeral(a) * p + numeral(front)) * 10 == numeral(a) * (p * 10) + numeral(front)
            * 10) by (nonlinear_arith);
    }
}

/// A run of `n` digits denotes less than ten to the `n`.
proof fn lemma_numeral_bound(digits: Seq<char>)
    requires
        all_digits(digits),
    ensures
        numeral(digits) < pow(10, digits.len()),
    decreases digits.len(),
{
    if digits.len() == 0 {
        lemma_pow0(10);
    } else {
        let front = digits.drop_last();
        assert forall|i: int| 0 <= i < front.len() implies is_digit(#[trigger] front[i]) by {
            assert(front[i] == digits[i]);
        }
        lemma_numeral_bound(front);
        lemma_pow_adds(10, front.len(), 1);
        vstd::arithmetic::power::lemma_pow1(10);
        assert(is_digit(digits[digits.len() - 1]));
    }
}

/// A run of zeros denotes zero.
proof fn lemma_numeral_zeros(digits: Seq<char>)
    requires
        forall|i: int| 0 <= i < digits.len() ==> digits[i] == '0',
    ensures
        numeral(digits) == 0,
    decreases digits.len(),
{
    if digits.len() > 0 {
        lemma_numeral_zeros(digits.drop_last());
    }
}

/// A numeral is at least the numeral of each of its prefixes.
proof fn lemma_numeral_prefix(digits: Seq<char>, k: int)
    requires
        0 <= k <= digits.len(),
    ensures
        numeral(digits.take(k)) <= numeral(digits),
{
    let rest = digits.skip(k);
    assert(digits.take(k) + rest =~= digits);
    lemma_numeral_concat(digits.take(k), rest);
    lemma_pow_positive(10, rest.len());
    assert(numeral(digits.take(k)) * pow(10, rest.len()) >= numeral(digits.take(k)))
        by (nonlinear_arith)
        requires
            pow(10, rest.len()) >= 1,
    ;
}

/// The value of a decimal text in units is the numeral of its whole digits
/// followed by the kept digits of its fraction.
proof fn lemma_units_by_digits(text: Seq<char>)
    requires
        is_decimal(text),
    ensures
        decimal_units(text) == numeral(whole_part(text) + kept_fraction(fraction_part(text))),
{
    let whole = whole_part(text);
    let fraction = fraction_part(text);
    let kept = kept_fraction(fraction);
    let f = fraction.len();
    let total = numeral(whole + fraction) as int;
    let units = numeral(whole + kept) as int;
    let divisor = pow(10, f);
    lemma_pow_positive(10, f);
    assert(pow(10, 8) == SCALE) by {
        reveal_with_fuel(pow, 9);
    }
    if f <= 8 {
        let zeros = kept.skip(f as int);
        let g = zeros.len();
        assert(g == 8 - f);
        assert(whole + kept =~= (whole + fraction) + zeros);
        lemma_numeral_concat(whole + fraction, zeros);
        lemma_numeral_zeros(zeros);
        lemma_pow_adds(10, g, f);
        assert(units == total * pow(10, g));
        assert(total * SCALE == units * divisor + 0) by (nonlinear_arith)
            requires
                units == total * pow(10, g),
                SCALE == pow(10, g) * divisor,
        ;
        lemma_fundamental_div_mod_converse(total * SCALE, divisor, units, 0);
    } else {
        let dropped = fraction.skip(8);
        let k = dropped.len();
        assert(k == f - 8);
        assert(whole + fraction =~= (whole + kept) + dropped);
        lemma_numeral_concat(whole + kept, dropped);
        assert forall|i: int| 0 <= i < dropped.len() implies is_digit(#[trigger] dropped[i]) by {
            assert(dropped[i] == fraction[i + 8]);
        }
        lemma_numeral_bound(dropped);
        lemma_pow_adds(10, k, 8);
        let low = numeral(dropped) as int;
        let tail = pow(10, k);
        assert(total == units * tail + low);
        assert(divisor == tail * SCALE);
        assert(total * SCALE == units * divisor + low * SCALE) by (nonlinear_arith)
            requires
                total == units * tail + low,
                divisor == tail * SCALE,
        ;
        assert(0 <= low * SCALE < divisor) by (nonlinear_arith)
            requires
                0 <= low < tail,
                divisor == tail * SCALE,
                SCALE == 100_000_000,
        ;
        lemma_fundamental_div_mod_converse(total * SCALE, divisor, units, low * SCALE);
    }
}

/// The ASCII code of the point.
const POINT: u8 = 46;

/// The ASCII code of the digit zero; the other digits follow it in order.
const DIGIT_ZERO: u8 = 48;

/// The ASCII code of the digit nine.
const DIGIT_NINE: u8 = 57;

/// Whether `bytes` holds the characters of `chars`, one byte for each.
spec fn spells(bytes: Seq<u8>, chars: Seq<char>) -> bool {
    &&& bytes.len() == chars.len()
    &&& forall|i: int| 0 <= i < bytes.len() ==> (#[trigger] bytes[i]) as int == chars[i] as int
}

/// Whether a byte is an ASCII decimal digit.
fn is_digit_byte(b: u8) -> (yes: bool)
    ensures
        yes == (DIGIT_ZERO <= b <= DIGIT_NINE),
{
    DIGIT_ZERO <= b && b <= DIGIT_NINE
}

/// Checks that a text is a decimal number, and finds where its point
/// stands: at the text's length where it has none.
fn find_point(bytes: &[u8], Ghost(chars): Ghost<Seq<char>>) -> (found: Option<usize>)
    requires
        spells(bytes@, chars),
    ensures
        match found {
            Some(point) => is_decimal(chars) && point == point_index(chars),
            None => !is_decimal(chars),
        },
{
    let n = bytes.len();
    let mut point: usize = 0;
    while point < n && bytes[point] != POINT
        invariant
            spells(bytes@, chars),
            n == bytes@.len(),
            point <= n,
            forall|j: int| 0 <= j < point ==> is_digit(#[trigger] chars[j]),
        decreases n - point,
    {
        if !is_digit_byte(bytes[point]) {
            proof {
                lemma_point_index_bounds(chars);
                assert(whole_part(chars)[point as int] == chars[point as int]);
            }
            return None;
        }
        point += 1;
    }
    proof {
        lemma_point_index(chars, point as int);
    }
    if point == n {
        return if n == 0 {
            None
        } else {
            Some(point)
        };
    }
    let mut i: usize = point + 1;
    while i < n
        invariant
            spells(bytes@, chars),
            n == bytes@.len(),
            point < i <= n,
            point_index(chars) == point,
            forall|j: int| point < j < i ==> is_digit(#[trigger] chars[j]),
        decreases n - i,
    {
        if !is_digit_byte(bytes[i]) {
            proof {
                assert(fraction_part(chars)[i - point - 1] == chars[i as int]);
            }
            return None;
        }
        i += 1;
    }
    proof {
        assert forall|j: int| 0 <= j < fraction_part(chars).len() implies is_digit(
            #[trigger] fraction_part(chars)[j],
        ) by {
            assert(fraction_part(chars)[j] == chars[point + 1 + j]);
        }
    }
    if n == 1 {
        None
    } else {
        Some(point)
    }
}

/// Puts one more digit at the end of a numeral, if the result fits.
fn append_digit(units: u64, digit: u8) -> (longer: Option<u64>)
    requires
        digit <= 9,
    ensures
        match longer {
            Some(value) => value == units * 10 + digit,
            None => units * 10 + digit > u64::MAX,
        },
{
    match units.checked_mul(10) {
        Some(tens) => tens.checked_add(digit as u64),
        None => None,
    }
}

/// Reads a decimal text as a fixed-point quantity, in units.
///
/// Fractional digits beyond the eighth are dropped. The text is refused as
/// `Malformed` where it is not a decimal number, and as `OutOfRange` where
/// its value in units does not fit in 64 bits.
pub fn parse_units(text: &str) -> (read: Result<u64, ParseError>)
    ensures
        match read {
            Ok(units) => is_decimal(text@) && units == decimal_units(text@),
            Err(ParseError::Malformed) => !is_decimal(text@),
            Err(ParseError::OutOfRange) => is_decimal(text@) && decimal_units(text@) > u64::MAX,
            Err(_) => false,
        },
{
    if !text.is_ascii() {
        proof {
            if is_decimal(text@) {
                lemma_decimal_is_ascii(text@);
            }
        }
        return Err(ParseError::Malformed);
    }
    let bytes = text.as_bytes();
    let n = bytes.len();
    let ghost chars = text@;
    proof {
        is_ascii_spec_bytes(text);
        assert forall|i: int| 0 <= i < n implies (#[trigger] bytes@[i]) as int == chars[i] as int by {
            assert('\0' <= chars[i] <= '\u{7f}');
        }
    }
    let point = match find_point(bytes, Ghost(chars)) {
        Some(point) => point,
        None => {
            return Err(ParseError::Malformed);
        },
    };
    let fraction_len: usize = if point < n {
        n - point - 1
    } else {
        0
    };
    let ghost whole = whole_part(chars);
    let ghost fraction = fraction_part(chars);
    let ghost digits = whole + kept_fraction(fraction);
    proof {
        lemma_point_index_bounds(chars);
        lemma_units_by_digits(chars);
        assert(digits.take(0) =~= Seq::<char>::empty());
    }

    // The whole digits, then eight places of the fraction, as one numeral.
    let mut units: u64 = 0;
    let mut k: usize = 0;
    while k < point
        invariant
            chars == text@,
            spells(bytes@, chars),
            is_decimal(chars),
            k <= point <= chars.len(),
            point == point_index(chars),
            whole == whole_part(chars),
            digits == whole + kept_fraction(fraction),
            decimal_units(chars) == numeral(digits),
            units == numeral(digits.take(k as int)),
        decreases point - k,
    {
        proof {
            assert(digits[k as int] == whole[k as int]);
            assert(whole[k as int] == chars[k as int]);
            lemma_numeral_step(digits, k as int);
            lemma_numeral_prefix(digits, k + 1);
        }
        match append_digit(units, bytes[k] - DIGIT_ZERO) {
            Some(longer) => {
                units = longer;
            },
            None => {
                return Err(ParseError::OutOfRange);
            },
        }
        k += 1;
    }
    let mut place: usize = 0;
    while place < FRACTION_DIGITS
        invariant
            chars == text@,
            spells(bytes@, chars),
            is_decimal(chars),
            place <= FRACTION_DIGITS,
            point == point_index(chars),
            point == whole.len(),
            fraction == fraction_part(chars),
            fraction_len == fraction.len(),
            fraction_len == 0 || point + fraction_len < n == bytes@.len(),
            digits == whole + kept_fraction(fraction),
            decimal_units(chars) == numeral(digits),
            units == numeral(digits.take(point + place)),
        decreases FRACTION_DIGITS - place,
    {
        let digit: u8 = if place < fraction_len {
            proof {
                assert(fraction[place as int] == chars[point + 1 + place]);
            }
            bytes[point + 1 + place] - DIGIT_ZERO
        } else {
            0
        };
        proof {
            assert(digits[point + place] == kept_fraction(fraction)[place as int]);
            lemma_numeral_step(digits, point + place);
            lemma_numeral_prefix(digits, point + place + 1);
        }
        match append_digit(units, digit) {
            Some(longer) => {
                units = longer;
            },
            None => {
                return Err(ParseError::OutOfRange);
            },
        }
        place += 1;
    }
    proof {
        assert(digits.take(point + FRACTION_DIGITS) =~= digits);
    }
    Ok(units)
}

} // verus!
