//! Double-precision numbers, carried as their IEEE-754 bit patterns.
//!
//! The language's numeric values are binary64 floating-point numbers. The
//! verified code never computes with them directly: it stores the 64-bit
//! encoding of each number and hands arithmetic to the operations below,
//! which evaluate in software via `rustc_apfloat`. Each operation is a pure
//! function of its argument bits, so its result is named by an
//! uninterpreted spec function.
//!
//! Printing searches for the shortest decimal rendering that reads back
//! as exactly the same bits, so a printed number denotes its value and
//! nothing else.
use rustc_apfloat::Float;
use vstd::prelude::*;

verus! {

/// What parsing a decimal lexeme yields: the bits of the number it
/// denotes, or nothing for text that is no number.
pub uninterp spec fn parse_opt_of(s: Seq<char>) -> Option<u64>;

/// Holds when `s` is a run of ASCII digits, optionally followed by a dot
/// and another run of digits: the only shape a numeric lexeme takes.
pub open spec fn is_number_lexeme(s: Seq<char>) -> bool {
    exists|i: int|
        1 <= i <= s.len() && #[trigger] crate::text::all_digits(s.take(i)) && (i < s.len()
            ==> s[i] == '.' && i + 1 < s.len() && crate::text::all_digits(s.skip(i + 1)))
}

/// Relies on `rustc_apfloat::ieee::Double`'s `FromStr`: correctly rounded
/// decimal-to-binary64 conversion, succeeding on every plain decimal
/// lexeme; the result depends on the text alone.
#[verifier::external_body]
pub(crate) fn parse_number(s: &str) -> (r: Option<u64>)
    ensures
        r == parse_opt_of(s@),
        is_number_lexeme(s@) ==> r is Some,
{
    match s.parse::<rustc_apfloat::ieee::Double>() {
        Ok(d) => Some(d.to_bits() as u64),
        Err(_) => None,
    }
}

/// The decimal rendering of the number the argument bits encode, with
/// the given count of significant digits (zero for the full natural
/// precision) and the given padding allowance before scientific
/// notation.
pub uninterp spec fn decimal_digits_of(b: u64, digits: usize, width: usize) -> Seq<char>;

/// Relies on `rustc_apfloat::ieee::Double`'s `Display`: a decimal
/// rendering with the requested significant digits and padding
/// allowance; it depends on the arguments alone.
#[verifier::external_body]
fn num_to_string_digits(b: u64, digits: usize, width: usize) -> (r: String)
    ensures
        r@ == decimal_digits_of(b, digits, width),
{
    format!(
        "{:width$.digits$}",
        rustc_apfloat::ieee::Double::from_bits(b as u128),
        width = width,
        digits = digits
    )
}

/// Enough leading-zero allowance that no finite number is pushed into
/// scientific notation for having a small magnitude.
pub const DISPLAY_WIDTH: usize = 400;

/// The largest significant-digit count the display search tries: the
/// seventeen digits that pin down any binary64 value, plus room for the
/// largest decimal exponent, so that every finite value has some digit
/// count under this bound whose rendering is plain decimal.
pub const DISPLAY_DIGITS_MAX: usize = 340;

/// The exponent field of the encoding.
pub open spec fn exp_field(b: u64) -> u64 {
    (b >> 52) & 0x7ff
}

/// The fraction field of the encoding.
pub open spec fn frac_field(b: u64) -> u64 {
    b & 0xf_ffff_ffff_ffff
}

/// The sign bit of the encoding.
pub open spec fn sign_field(b: u64) -> u64 {
    b >> 63
}

/// The encoding of a NaN: exponent all ones, fraction not zero.
pub open spec fn is_nan_bits(b: u64) -> bool {
    exp_field(b) == 0x7ff && frac_field(b) != 0
}

/// The encoding of an infinity: exponent all ones, fraction zero.
pub open spec fn is_inf_bits(b: u64) -> bool {
    exp_field(b) == 0x7ff && frac_field(b) == 0
}

/// Text with no scientific-notation exponent marker.
pub open spec fn plain_text(s: Seq<char>) -> bool {
    forall|i: int| 0 <= i < s.len() ==> #[trigger] s[i] != 'E' && s[i] != 'e'
}

/// Whether the rendering of `b` with `p` significant digits is plain
/// decimal and reads back as exactly `b`.
pub open spec fn reads_back(b: u64, p: usize) -> bool {
    &&& plain_text(decimal_digits_of(b, p, DISPLAY_WIDTH))
    &&& parse_opt_of(decimal_digits_of(b, p, DISPLAY_WIDTH)) == Some(b)
}

/// The least digit count from `p` up whose rendering reads back, or one
/// past the maximum when none does.
pub open spec fn first_reading_back(b: u64, p: usize) -> usize
    decreases DISPLAY_DIGITS_MAX + 1 - p,
{
    if reads_back(b, p) {
        p
    } else if p >= DISPLAY_DIGITS_MAX {
        (DISPLAY_DIGITS_MAX + 1) as usize
    } else {
        first_reading_back(b, (p + 1) as usize)
    }
}

/// A number's printed form. NaNs and the infinities have their fixed
/// texts; every other value gets the shortest plain-decimal rendering
/// that reads back as exactly the same bits, with the full
/// natural-precision rendering as the last resort when none does.
pub open spec fn number_display(b: u64) -> Seq<char> {
    if is_nan_bits(b) {
        "NaN"@
    } else if is_inf_bits(b) {
        if sign_field(b) == 1 {
            "-inf"@
        } else {
            "inf"@
        }
    } else if first_reading_back(b, 1) <= DISPLAY_DIGITS_MAX {
        decimal_digits_of(b, first_reading_back(b, 1), DISPLAY_WIDTH)
    } else {
        decimal_digits_of(b, 0, DISPLAY_WIDTH)
    }
}

/// The least digit count is found by walking up from below.
proof fn lemma_first_reading_back(b: u64, lo: usize, p: usize)
    requires
        1 <= lo <= p <= DISPLAY_DIGITS_MAX,
        forall|q: usize| lo <= q < p ==> !reads_back(b, q),
    ensures
        reads_back(b, p) ==> first_reading_back(b, lo) == p,
        (!reads_back(b, p) && p == DISPLAY_DIGITS_MAX) ==> first_reading_back(b, lo)
            == DISPLAY_DIGITS_MAX + 1,
    decreases p - lo,
{
    if lo < p {
        assert(!reads_back(b, lo));
        lemma_first_reading_back(b, (lo + 1) as usize, p);
    }
}

/// When some digit count reads back, the one the display picks does.
pub proof fn lemma_display_reads_back(b: u64, lo: usize)
    requires
        1 <= lo <= DISPLAY_DIGITS_MAX,
    ensures
        first_reading_back(b, lo) <= DISPLAY_DIGITS_MAX ==> reads_back(
            b,
            first_reading_back(b, lo),
        ),
    decreases DISPLAY_DIGITS_MAX - lo,
{
    if !reads_back(b, lo) && lo < DISPLAY_DIGITS_MAX {
        lemma_display_reads_back(b, (lo + 1) as usize);
    }
}

/// Whether the text holds a scientific-notation exponent marker.
fn has_exponent_marker(s: &str) -> (r: bool)
    ensures
        r == !plain_text(s@),
{
    let len = s.unicode_len();
    let mut i: usize = 0;
    while i < len
        invariant
            i <= len,
            len == s@.len(),
            forall|j: int| 0 <= j < i ==> #[trigger] s@[j] != 'E' && s@[j] != 'e',
        decreases len - i,
    {
        let c = s.get_char(i);
        if c == 'E' || c == 'e' {
            return true;
        }
        i = i + 1;
    }
    false
}

/// Renders a number in decimal, exactly as `number_display` states.
pub fn num_to_string(b: u64) -> (r: String)
    ensures
        r@ == number_display(b),
{
    let exponent = (b >> 52) & 0x7ff;
    let fraction = b & 0xf_ffff_ffff_ffff;
    if exponent == 0x7ff {
        if fraction != 0 {
            return String::from_str("NaN");
        }
        if b >> 63 == 1 {
            return String::from_str("-inf");
        }
        return String::from_str("inf");
    }
    let mut digits: usize = 1;
    loop
        invariant
            !is_nan_bits(b),
            !is_inf_bits(b),
            1 <= digits <= DISPLAY_DIGITS_MAX + 1,
            forall|q: usize| 1 <= q < digits ==> !reads_back(b, q),
        ensures
            digits == DISPLAY_DIGITS_MAX + 1,
            forall|q: usize| 1 <= q < digits ==> !reads_back(b, q),
        decreases DISPLAY_DIGITS_MAX + 1 - digits,
    {
        if digits > DISPLAY_DIGITS_MAX {
            break ;
        }
        let candidate = num_to_string_digits(b, digits, DISPLAY_WIDTH);
        if !has_exponent_marker(candidate.as_str()) {
            let round_trip = parse_number(candidate.as_str());
            match round_trip {
                Some(back) => {
                    if back == b {
                        proof {
                            lemma_first_reading_back(b, 1, digits);
                        }
                        return candidate;
                    }
                },
                None => {},
            }
        }
        proof {
            assert(!reads_back(b, digits));
        }
        digits = digits + 1;
    }
    proof {
        lemma_first_reading_back(b, 1, DISPLAY_DIGITS_MAX);
    }
    num_to_string_digits(b, 0, DISPLAY_WIDTH)
}

/// The bits of the sum of the two numbers the argument bits encode.
pub uninterp spec fn add_bits(a: u64, b: u64) -> u64;

/// Relies on `rustc_apfloat`'s IEEE-754 binary64 addition: the result
/// depends on the argument bits alone.
#[verifier::external_body]
pub(crate) fn num_add(a: u64, b: u64) -> (r: u64)
    ensures
        r == add_bits(a, b),
{
    let x = rustc_apfloat::ieee::Double::from_bits(a as u128);
    let y = rustc_apfloat::ieee::Double::from_bits(b as u128);
    (x + y).value.to_bits() as u64
}

/// The bits of the difference of the two numbers the argument bits encode.
pub uninterp spec fn sub_bits(a: u64, b: u64) -> u64;

/// Relies on `rustc_apfloat`'s IEEE-754 binary64 subtraction: the result
/// depends on the argument bits alone.
#[verifier::external_body]
pub(crate) fn num_sub(a: u64, b: u64) -> (r: u64)
    ensures
        r == sub_bits(a, b),
{
    let x = rustc_apfloat::ieee::Double::from_bits(a as u128);
    let y = rustc_apfloat::ieee::Double::from_bits(b as u128);
    (x - y).value.to_bits() as u64
}

/// The bits of the product of the two numbers the argument bits encode.
pub uninterp spec fn mul_bits(a: u64, b: u64) -> u64;

/// Relies on `rustc_apfloat`'s IEEE-754 binary64 multiplication: the
/// result depends on the argument bits alone.
#[verifier::external_body]
pub(crate) fn num_mul(a: u64, b: u64) -> (r: u64)
    ensures
        r == mul_bits(a, b),
{
    let x = rustc_apfloat::ieee::Double::from_bits(a as u128);
    let y = rustc_apfloat::ieee::Double::from_bits(b as u128);
    (x * y).value.to_bits() as u64
}

/// The bits of the quotient of the two numbers the argument bits encode.
pub uninterp spec fn div_bits(a: u64, b: u64) -> u64;

/// Relies on `rustc_apfloat`'s IEEE-754 binary64 division: the result
/// depends on the argument bits alone.
#[verifier::external_body]
pub(crate) fn num_div(a: u64, b: u64) -> (r: u64)
    ensures
        r == div_bits(a, b),
{
    let x = rustc_apfloat::ieee::Double::from_bits(a as u128);
    let y = rustc_apfloat::ieee::Double::from_bits(b as u128);
    (x / y).value.to_bits() as u64
}

/// The bits of the arithmetic negation of the number the argument bits
/// encode: IEEE-754 negation flips exactly the sign bit.
pub open spec fn neg_bits(a: u64) -> u64 {
    a ^ 0x8000_0000_0000_0000
}

pub(crate) fn num_neg(a: u64) -> (r: u64)
    ensures
        r == neg_bits(a),
{
    a ^ 0x8000_0000_0000_0000
}

/// Whether the numbers the argument bits encode compare equal under
/// IEEE-754: not bit equality (the two zeroes are equal, and nothing
/// equals a NaN).
pub uninterp spec fn eq_bits(a: u64, b: u64) -> bool;

/// Relies on `rustc_apfloat`'s IEEE-754 binary64 equality: the result
/// depends on the argument bits alone.
#[verifier::external_body]
pub(crate) fn num_eq(a: u64, b: u64) -> (r: bool)
    ensures
        r == eq_bits(a, b),
{
    let x = rustc_apfloat::ieee::Double::from_bits(a as u128);
    let y = rustc_apfloat::ieee::Double::from_bits(b as u128);
    x == y
}

/// Whether the first number the argument bits encode is strictly greater
/// than the second under IEEE-754 ordering.
pub uninterp spec fn gt_bits(a: u64, b: u64) -> bool;

/// Relies on `rustc_apfloat`'s IEEE-754 binary64 comparison: the result
/// depends on the argument bits alone.
#[verifier::external_body]
pub(crate) fn num_gt(a: u64, b: u64) -> (r: bool)
    ensures
        r == gt_bits(a, b),
{
    let x = rustc_apfloat::ieee::Double::from_bits(a as u128);
    let y = rustc_apfloat::ieee::Double::from_bits(b as u128);
    x > y
}

/// Whether the first number the argument bits encode is strictly less
/// than the second under IEEE-754 ordering.
pub uninterp spec fn lt_bits(a: u64, b: u64) -> bool;

/// Relies on `rustc_apfloat`'s IEEE-754 binary64 comparison: the result
/// depends on the argument bits alone.
#[verifier::external_body]
pub(crate) fn num_lt(a: u64, b: u64) -> (r: bool)
    ensures
        r == lt_bits(a, b),
{
    let x = rustc_apfloat::ieee::Double::from_bits(a as u128);
    let y = rustc_apfloat::ieee::Double::from_bits(b as u128);
    x < y
}

} // verus!
