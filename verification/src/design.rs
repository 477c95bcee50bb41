//! The design of second-order filters by the formulas of the audio EQ
//! cookbook.
//!
//! A design needs three values that no arithmetic gives: the amplitude
//! `10^(gain / 40)` and the cosine and sine of the angular frequency.  The
//! caller computes those; what leads up to them and what follows from
//! them is computed here.

use vstd::prelude::*;
use crate::arith::{
    add_bits, difference_of, div_bits, mul_bits, neg_bits, negated, product_of, quotient_of,
    root_of, sqrt_bits, sub_bits, sum_of,
};
use crate::filter::{Biquad, Coefficients, EqDesign};
use crate::sample::UNITY;

verus! {

/// The word of `2.0`.
pub const TWO: u32 = 0x4000_0000;

/// The word of `-2.0`.
pub const NEG_TWO: u32 = 0xc000_0000;

/// The word of `40.0`: the decibels in a factor of ten in amplitude,
/// taken twice, as a shelf or a peak is designed by the root of its gain.
pub const FORTY: u32 = 0x4220_0000;

/// The word nearest to pi.
pub const PI: u32 = 0x4049_0fdb;

/// The corner of the low shelf in hertz: the word of `200.0`.
pub const LOW_SHELF_HZ: u32 = 0x4348_0000;

/// The centre of the mid peak in hertz: the word of `1000.0`.
pub const MID_PEAK_HZ: u32 = 0x447a_0000;

/// The corner of the high shelf in hertz: the word of `4000.0`.
pub const HIGH_SHELF_HZ: u32 = 0x457a_0000;

/// The cutoff of the upmixer's high-pass in hertz: the word of `150.0`.
pub const UPMIX_HIGHPASS_HZ: u32 = 0x4316_0000;

/// The Q of the upmixer's high-pass: the word of `0.7`.
pub const UPMIX_HIGHPASS_Q: u32 = 0x3f33_3333;

/// The exponent to which ten is raised for the amplitude of a gain:
/// `gain_db / 40`.
pub open spec fn gain_exponent_of(gain_db: u32) -> u32 {
    quotient_of(gain_db, FORTY)
}

/// Computes the exponent of the amplitude of a gain.
pub fn gain_exponent(gain_db: u32) -> (r: u32)
    ensures
        r == gain_exponent_of(gain_db),
{
    div_bits(gain_db, FORTY)
}

/// The angular frequency of `freq` at `sample_rate`:
/// `2 * pi * freq / sample_rate`.
pub open spec fn angular_frequency_of(freq: u32, sample_rate: u32) -> u32 {
    quotient_of(product_of(product_of(TWO, PI), freq), sample_rate)
}

/// Computes the angular frequency of a corner or centre frequency.
pub fn angular_frequency(freq: u32, sample_rate: u32) -> (r: u32)
    ensures
        r == angular_frequency_of(freq, sample_rate),
{
    div_bits(mul_bits(mul_bits(TWO, PI), freq), sample_rate)
}

/// Six coefficients divided by the first of the feedback side.
pub open spec fn normalised(b0: u32, b1: u32, b2: u32, a0: u32, a1: u32, a2: u32) -> Coefficients {
    Coefficients {
        b0: quotient_of(b0, a0),
        b1: quotient_of(b1, a0),
        b2: quotient_of(b2, a0),
        a1: quotient_of(a1, a0),
        a2: quotient_of(a2, a0),
    }
}

fn normalise(b0: u32, b1: u32, b2: u32, a0: u32, a1: u32, a2: u32) -> (r: Coefficients)
    ensures
        r == normalised(b0, b1, b2, a0, a1, a2),
{
    Coefficients {
        b0: div_bits(b0, a0),
        b1: div_bits(b1, a0),
        b2: div_bits(b2, a0),
        a1: div_bits(a1, a0),
        a2: div_bits(a2, a0),
    }
}

/// The `alpha` of a shelf with a slope of one: `sin / 2 * sqrt(2)`.
pub open spec fn shelf_alpha(sin: u32) -> u32 {
    product_of(quotient_of(sin, TWO), root_of(TWO))
}

/// The `alpha` of a peak or a pass with the given Q: `sin / (2 * q)`.
pub open spec fn alpha_of(sin: u32, q: u32) -> u32 {
    quotient_of(sin, product_of(TWO, q))
}

/// The term `2 * sqrt(a) * alpha` of a shelf.
pub open spec fn shelf_spread(a: u32, sin: u32) -> u32 {
    product_of(product_of(TWO, root_of(a)), shelf_alpha(sin))
}

fn spread(a: u32, sin: u32) -> (r: u32)
    ensures
        r == shelf_spread(a, sin),
{
    let alpha: u32 = mul_bits(div_bits(sin, TWO), sqrt_bits(TWO));
    mul_bits(mul_bits(TWO, sqrt_bits(a)), alpha)
}

/// The low shelf of amplitude `a` at an angular frequency with the given
/// cosine and sine.
pub open spec fn low_shelf_of(a: u32, cos: u32, sin: u32) -> Coefficients {
    let up = sum_of(a, UNITY);
    let down = difference_of(a, UNITY);
    let spread = shelf_spread(a, sin);
    normalised(
        product_of(a, sum_of(difference_of(up, product_of(down, cos)), spread)),
        product_of(product_of(TWO, a), difference_of(down, product_of(up, cos))),
        product_of(a, difference_of(difference_of(up, product_of(down, cos)), spread)),
        sum_of(sum_of(up, product_of(down, cos)), spread),
        product_of(NEG_TWO, sum_of(down, product_of(up, cos))),
        difference_of(sum_of(up, product_of(down, cos)), spread),
    )
}

/// Low-shelf filter
pub fn low_shelf(a: u32, cos: u32, sin: u32) -> (r: Coefficients)
    ensures
        r == low_shelf_of(a, cos, sin),
{
    let up: u32 = add_bits(a, UNITY);
    let down: u32 = sub_bits(a, UNITY);
    let spread: u32 = spread(a, sin);
    let a0: u32 = add_bits(add_bits(up, mul_bits(down, cos)), spread);
    let a1: u32 = mul_bits(NEG_TWO, add_bits(down, mul_bits(up, cos)));
    let a2: u32 = sub_bits(add_bits(up, mul_bits(down, cos)), spread);
    let b0: u32 = mul_bits(a, add_bits(sub_bits(up, mul_bits(down, cos)), spread));
    let b1: u32 = mul_bits(mul_bits(TWO, a), sub_bits(down, mul_bits(up, cos)));
    let b2: u32 = mul_bits(a, sub_bits(sub_bits(up, mul_bits(down, cos)), spread));
    normalise(b0, b1, b2, a0, a1, a2)
}

/// The high shelf of amplitude `a` at an angular frequency with the given
/// cosine and sine.
pub open spec fn high_shelf_of(a: u32, cos: u32, sin: u32) -> Coefficients {
    let up = sum_of(a, UNITY);
    let down = difference_of(a, UNITY);
    let spread = shelf_spread(a, sin);
    normalised(
        product_of(a, sum_of(sum_of(up, product_of(down, cos)), spread)),
        product_of(product_of(NEG_TWO, a), sum_of(down, product_of(up, cos))),
        product_of(a, difference_of(sum_of(up, product_of(down, cos)), spread)),
        sum_of(difference_of(up, product_of(down, cos)), spread),
        product_of(TWO, difference_of(down, product_of(up, cos))),
        difference_of(difference_of(up, product_of(down, cos)), spread),
    )
}

/// High-shelf filter
pub fn high_shelf(a: u32, cos: u32, sin: u32) -> (r: Coefficients)
    ensures
        r == high_shelf_of(a, cos, sin),
{
    let up: u32 = add_bits(a, UNITY);
    let down: u32 = sub_bits(a, UNITY);
    let spread: u32 = spread(a, sin);
    let a0: u32 = add_bits(sub_bits(up, mul_bits(down, cos)), spread);
    let a1: u32 = mul_bits(TWO, sub_bits(down, mul_bits(up, cos)));
    let a2: u32 = sub_bits(sub_bits(up, mul_bits(down, cos)), spread);
    let b0: u32 = mul_bits(a, add_bits(add_bits(up, mul_bits(down, cos)), spread));
    let b1: u32 = mul_bits(mul_bits(NEG_TWO, a), add_bits(down, mul_bits(up, cos)));
    let b2: u32 = mul_bits(a, sub_bits(add_bits(up, mul_bits(down, cos)), spread));
    normalise(b0, b1, b2, a0, a1, a2)
}

/// The peak of amplitude `a` and the given Q at an angular frequency
/// with the given cosine and sine.
pub open spec fn peaking_of(a: u32, cos: u32, sin: u32, q: u32) -> Coefficients {
    let alpha = alpha_of(sin, q);
    normalised(
        sum_of(UNITY, product_of(alpha, a)),
        product_of(NEG_TWO, cos),
        difference_of(UNITY, product_of(alpha, a)),
        sum_of(UNITY, quotient_of(alpha, a)),
        product_of(NEG_TWO, cos),
        difference_of(UNITY, quotient_of(alpha, a)),
    )
}

/// Peaking EQ filter
pub fn peaking(a: u32, cos: u32, sin: u32, q: u32) -> (r: Coefficients)
    ensures
        r == peaking_of(a, cos, sin, q),
{
    let alpha: u32 = div_bits(sin, mul_bits(TWO, q));
    let a0: u32 = add_bits(UNITY, div_bits(alpha, a));
    let a1: u32 = mul_bits(NEG_TWO, cos);
    let a2: u32 = sub_bits(UNITY, div_bits(alpha, a));
    let b0: u32 = add_bits(UNITY, mul_bits(alpha, a));
    let b1: u32 = mul_bits(NEG_TWO, cos);
    let b2: u32 = sub_bits(UNITY, mul_bits(alpha, a));
    normalise(b0, b1, b2, a0, a1, a2)
}

/// The high-pass of the given Q at an angular frequency with the given
/// cosine and sine.
pub open spec fn highpass_of(cos: u32, sin: u32, q: u32) -> Coefficients {
    let alpha = alpha_of(sin, q);
    normalised(
        quotient_of(sum_of(UNITY, cos), TWO),
        negated(sum_of(UNITY, cos)),
        quotient_of(sum_of(UNITY, cos), TWO),
        sum_of(UNITY, alpha),
        product_of(NEG_TWO, cos),
        difference_of(UNITY, alpha),
    )
}

/// High-pass filter for upmix
pub fn highpass(cos: u32, sin: u32, q: u32) -> (r: Coefficients)
    ensures
        r == highpass_of(cos, sin, q),
{
    let alpha: u32 = div_bits(sin, mul_bits(TWO, q));
    let a0: u32 = add_bits(UNITY, alpha);
    let b0: u32 = div_bits(add_bits(UNITY, cos), TWO);
    let b1: u32 = neg_bits(add_bits(UNITY, cos));
    let b2: u32 = div_bits(add_bits(UNITY, cos), TWO);
    let a1: u32 = mul_bits(NEG_TWO, cos);
    let a2: u32 = sub_bits(UNITY, alpha);
    normalise(b0, b1, b2, a0, a1, a2)
}

impl Biquad {
    /// A low shelf with a silent history.
    pub fn low_shelf(a: u32, cos: u32, sin: u32) -> (r: Self)
        ensures
            r == Biquad::with_coefficients(low_shelf_of(a, cos, sin)),
    {
        Biquad::from_coefficients(&low_shelf(a, cos, sin))
    }

    /// A high shelf with a silent history.
    pub fn high_shelf(a: u32, cos: u32, sin: u32) -> (r: Self)
        ensures
            r == Biquad::with_coefficients(high_shelf_of(a, cos, sin)),
    {
        Biquad::from_coefficients(&high_shelf(a, cos, sin))
    }

    /// A peak with a silent history.
    pub fn peaking(a: u32, cos: u32, sin: u32, q: u32) -> (r: Self)
        ensures
            r == Biquad::with_coefficients(peaking_of(a, cos, sin, q)),
    {
        Biquad::from_coefficients(&peaking(a, cos, sin, q))
    }

    /// A high-pass with a silent history.
    pub fn highpass(cos: u32, sin: u32, q: u32) -> (r: Self)
        ensures
            r == Biquad::with_coefficients(highpass_of(cos, sin, q)),
    {
        Biquad::from_coefficients(&highpass(cos, sin, q))
    }
}

/// What a band takes from outside: the amplitude of its gain, and the
/// cosine and sine of its angular frequency.
#[derive(Debug, Clone, Copy, PartialEq, Eq, Structural)]
pub struct BandInput {
    pub amplitude: u32,
    pub cos: u32,
    pub sin: u32,
}

/// The equalizer of three bands: a low shelf, a peak with a Q of one, and
/// a high shelf.
pub open spec fn eq_design_of(low: BandInput, mid: BandInput, high: BandInput) -> EqDesign {
    EqDesign {
        low_shelf: low_shelf_of(low.amplitude, low.cos, low.sin),
        mid_peak: peaking_of(mid.amplitude, mid.cos, mid.sin, UNITY),
        high_shelf: high_shelf_of(high.amplitude, high.cos, high.sin),
    }
}

/// Designs the three bands of the equalizer.
pub fn eq_design(low: &BandInput, mid: &BandInput, high: &BandInput) -> (r: EqDesign)
    ensures
        r == eq_design_of(*low, *mid, *high),
{
    EqDesign {
        low_shelf: low_shelf(low.amplitude, low.cos, low.sin),
        mid_peak: peaking(mid.amplitude, mid.cos, mid.sin, UNITY),
        high_shelf: high_shelf(high.amplitude, high.cos, high.sin),
    }
}

} // verus!
