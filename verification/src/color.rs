//! The colour in which a temperature is shown.

use vstd::prelude::*;
use vstd::arithmetic::power2::*;
use vstd::arithmetic::mul::*;
use crate::binary64::{
    exceeds, exponent, fraction, gt, is_nan, magnitude, scaled, whole, FRACTION_SPAN, SIGN_BIT,
};

verus! {

/// A temperature in degrees Celsius: a binary64 number, held as its word.
#[derive(Clone, Copy, Debug, PartialEq, Eq, Structural)]
pub struct Celsius {
    pub bits: u64,
}

/// The display colours, from the most alarming to the neutral one.
#[derive(Clone, Copy, Debug, PartialEq, Eq, Structural)]
pub enum Color {
    BrightRed,
    BrightYellow,
    BrightGreen,
    BrightBlue,
    BrightMagenta,
    White,
}

/// The word of 85.0: above it a temperature is shown in bright red.
pub const RED_ABOVE: u64 = 0x4055_4000_0000_0000;

/// The word of 65.0: above it a temperature is shown in bright yellow.
pub const YELLOW_ABOVE: u64 = 0x4050_4000_0000_0000;

/// The word of 40.0: above it a temperature is shown in bright green.
pub const GREEN_ABOVE: u64 = 0x4044_0000_0000_0000;

/// The word of 20.0: above it a temperature is shown in bright blue.
pub const BLUE_ABOVE: u64 = 0x4034_0000_0000_0000;

/// The word of 0.0: above it a temperature is shown in bright magenta.
pub const MAGENTA_ABOVE: u64 = 0;

impl Celsius {
    /// Whether this is no number at all.
    pub open spec fn is_nan(self) -> bool {
        is_nan(self.bits)
    }

    /// The temperature in units of 2^-1074 degrees.
    pub open spec fn scaled(self) -> int {
        scaled(self.bits)
    }

    /// Whether the temperature is a number strictly above `degrees`.
    pub open spec fn exceeds(self, degrees: int) -> bool {
        exceeds(self.bits, degrees)
    }

    /// The temperature whose binary64 word is `bits`.
    pub fn from_bits(bits: u64) -> (celsius: Celsius)
        ensures
            celsius.bits == bits,
    {
        Celsius { bits }
    }
}

/// The colour that belongs to a temperature: the first threshold that the
/// temperature strictly exceeds decides, and a temperature that exceeds
/// none of them, or is no number, is neutral.
pub open spec fn color_of(input: Celsius) -> Color {
    if input.exceeds(85) {
        Color::BrightRed
    } else if input.exceeds(65) {
        Color::BrightYellow
    } else if input.exceeds(40) {
        Color::BrightGreen
    } else if input.exceeds(20) {
        Color::BrightBlue
    } else if input.exceeds(0) {
        Color::BrightMagenta
    } else {
        Color::White
    }
}

/// How alarming a colour is: 0 for the neutral colour, 5 for bright red.
pub open spec fn alert_level(color: Color) -> nat {
    match color {
        Color::White => 0,
        Color::BrightMagenta => 1,
        Color::BrightBlue => 2,
        Color::BrightGreen => 3,
        Color::BrightYellow => 4,
        Color::BrightRed => 5,
    }
}

impl Color {
    /// How alarming this colour is: 0 for the neutral colour, 5 for bright red.
    pub fn alert_level(&self) -> (level: u8)
        ensures
            level == alert_level(*self),
    {
        match self {
            Color::White => 0,
            Color::BrightMagenta => 1,
            Color::BrightBlue => 2,
            Color::BrightGreen => 3,
            Color::BrightYellow => 4,
            Color::BrightRed => 5,
        }
    }
}

/// A positive normal word whose significand is `n` times a power of two
/// encodes the whole number `n`, if the exponents add up.
proof fn lemma_whole_word(bits: u64, n: nat, shift: nat)
    requires
        bits < SIGN_BIT,
        exponent(bits) >= 1,
        FRACTION_SPAN + fraction(bits) == n * pow2(shift),
        exponent(bits) - 1 + shift == 1074,
    ensures
        !is_nan(bits) || exponent(bits) == 2047,
        scaled(bits) == whole(n as int),
{
    let rest: nat = (exponent(bits) - 1) as nat;
    lemma_pow2_adds(shift, rest);
    lemma_mul_is_associative(n as int, pow2(shift) as int, pow2(rest) as int);
    assert(magnitude(bits) == (n * pow2(shift)) * pow2(rest));
}

/// The five threshold words encode the whole numbers 85, 65, 40, 20 and 0.
pub proof fn lemma_thresholds()
    ensures
        !is_nan(RED_ABOVE) && scaled(RED_ABOVE) == whole(85),
        !is_nan(YELLOW_ABOVE) && scaled(YELLOW_ABOVE) == whole(65),
        !is_nan(GREEN_ABOVE) && scaled(GREEN_ABOVE) == whole(40),
        !is_nan(BLUE_ABOVE) && scaled(BLUE_ABOVE) == whole(20),
        !is_nan(MAGENTA_ABOVE) && scaled(MAGENTA_ABOVE) == whole(0),
{
    lemma2_to64_rest();
    lemma_whole_word(RED_ABOVE, 85, 46);
    lemma_whole_word(YELLOW_ABOVE, 65, 46);
    lemma_whole_word(GREEN_ABOVE, 40, 47);
    lemma_whole_word(BLUE_ABOVE, 20, 48);
}

/// The text colour to use for a given temperature.
pub fn color_for_temperature(input: Celsius) -> (color: Color)
    ensures
        color == color_of(input),
{
    proof {
        lemma_thresholds();
    }
    if gt(input.bits, RED_ABOVE) {
        Color::BrightRed
    } else if gt(input.bits, YELLOW_ABOVE) {
        Color::BrightYellow
    } else if gt(input.bits, GREEN_ABOVE) {
        Color::BrightGreen
    } else if gt(input.bits, BLUE_ABOVE) {
        Color::BrightBlue
    } else if gt(input.bits, MAGENTA_ABOVE) {
        Color::BrightMagenta
    } else {
        Color::White
    }
}

/// Of two temperatures that are numbers, the lower one never gets the more
/// alarming colour.
pub proof fn lemma_color_is_monotonic(lower: Celsius, upper: Celsius)
    requires
        !lower.is_nan(),
        !upper.is_nan(),
        lower.scaled() <= upper.scaled(),
    ensures
        alert_level(color_of(lower)) <= alert_level(color_of(upper)),
{
}

/// A temperature exactly on a threshold falls into the bucket below it, and
/// so does every temperature that is no number.
pub proof fn lemma_boundaries_fall_below()
    ensures
        color_of(Celsius { bits: RED_ABOVE }) == Color::BrightYellow,
        color_of(Celsius { bits: YELLOW_ABOVE }) == Color::BrightGreen,
        color_of(Celsius { bits: GREEN_ABOVE }) == Color::BrightBlue,
        color_of(Celsius { bits: BLUE_ABOVE }) == Color::BrightMagenta,
        color_of(Celsius { bits: MAGENTA_ABOVE }) == Color::White,
        forall|input: Celsius| input.is_nan() ==> color_of(input) == Color::White,
{
    lemma_thresholds();
    lemma_pow2_pos(1074);
    assert(whole(85) > whole(65) > whole(40) > whole(20) > whole(0));
}

} // verus!
