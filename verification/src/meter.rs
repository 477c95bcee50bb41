//! A level meter: a smoothed mean square and a decaying peak per side.

use vstd::prelude::*;
use crate::arith::{
    add_bits, difference_of, mul_bits, product_of, root_of, sqrt_bits, sub_bits, sum_of,
};
use crate::sample::{abs_bits, is_nan, less_than, lt_bits, magnitude, nan_bits, SILENCE};

verus! {

/// The word of `0.01`: how fast the mean square follows a louder signal.
pub const ATTACK: u32 = 0x3c23_d70a;

/// The word of `0.001`: how fast the mean square follows a quieter signal.
pub const RELEASE: u32 = 0x3a83_126f;

/// The word of `0.9995`: what is left of a peak after one sample.
pub const PEAK_DECAY: u32 = 0x3f7f_df3b;

/// The word of `1e-10`: the amplitude below which a level is not told
/// apart from silence.
pub const AMPLITUDE_FLOOR: u32 = 0x2edb_e6ff;

/// The word of `20.0`: the decibels in a factor of ten in amplitude.
pub const DB_PER_DECADE: u32 = 0x41a0_0000;

/// The word of `-60.0`: the lowest level that is reported.
pub const LEVEL_FLOOR: u32 = 0xc270_0000;

/// The larger of a value and a floor, and the floor for a NaN.  The floor
/// is a number other than zero.
pub open spec fn floored(value: u32, floor: u32) -> u32 {
    if is_nan(value) || less_than(value, floor) {
        floor
    } else {
        value
    }
}

/// Raises a value to a floor.
pub fn floor_bits(value: u32, floor: u32) -> (r: u32)
    ensures
        r == floored(value, floor),
{
    if nan_bits(value) || lt_bits(value, floor) {
        floor
    } else {
        value
    }
}

/// The amplitude of a mean square or of a peak, as far as it is told
/// apart from silence.
pub open spec fn audible(amplitude: u32) -> u32 {
    floored(amplitude, AMPLITUDE_FLOOR)
}

/// The level that belongs to the decimal logarithm of an amplitude:
/// twenty times the logarithm, and at least -60 dB.
pub open spec fn decibels_of(log: u32) -> u32 {
    floored(product_of(DB_PER_DECADE, log), LEVEL_FLOOR)
}

/// Computes a level in decibels from the decimal logarithm of an
/// amplitude.
pub fn decibels(log: u32) -> (r: u32)
    ensures
        r == decibels_of(log),
{
    floor_bits(mul_bits(DB_PER_DECADE, log), LEVEL_FLOOR)
}

/// The mean square after a sample: it moves towards the square of the
/// sample by a part of the distance, the attack part if the square is
/// larger and the release part if not.
pub open spec fn smoothed(mean_square: u32, sample: u32, attack: u32, release: u32) -> u32 {
    let square = product_of(sample, sample);
    let part = if less_than(mean_square, square) {
        attack
    } else {
        release
    };
    sum_of(mean_square, product_of(part, difference_of(square, mean_square)))
}

/// The peak after a sample: the magnitude of the sample if that is
/// larger, and the peak decayed if not.
pub open spec fn held_peak(peak: u32, sample: u32) -> u32 {
    if less_than(peak, magnitude(sample)) {
        magnitude(sample)
    } else {
        product_of(peak, PEAK_DECAY)
    }
}

/// Level meter for monitoring audio levels.
#[derive(Debug, Clone, Copy, PartialEq, Eq, Structural)]
pub struct LevelMeter {
    /// The smoothed mean square of the left side.
    pub left_rms: u32,
    /// The smoothed mean square of the right side.
    pub right_rms: u32,
    pub left_peak: u32,
    pub right_peak: u32,
    pub attack: u32,
    pub release: u32,
}

impl LevelMeter {
    /// The meter after a frame.
    pub open spec fn step(self, left: u32, right: u32) -> LevelMeter {
        LevelMeter {
            left_rms: smoothed(self.left_rms, left, self.attack, self.release),
            right_rms: smoothed(self.right_rms, right, self.attack, self.release),
            left_peak: held_peak(self.left_peak, left),
            right_peak: held_peak(self.right_peak, right),
            ..self
        }
    }

    /// A meter at rest, with a fast attack and a slow release.
    pub fn new() -> (r: Self)
        ensures
            r == (LevelMeter {
                left_rms: SILENCE,
                right_rms: SILENCE,
                left_peak: SILENCE,
                right_peak: SILENCE,
                attack: ATTACK,
                release: RELEASE,
            }),
    {
        LevelMeter {
            left_rms: SILENCE,
            right_rms: SILENCE,
            left_peak: SILENCE,
            right_peak: SILENCE,
            attack: ATTACK,
            release: RELEASE,
        }
    }

    /// The amplitudes whose logarithm gives the RMS levels: the root of
    /// each mean square, at least `1e-10`.
    pub fn rms_amplitudes(&self) -> (r: (u32, u32))
        ensures
            r == (audible(root_of(self.left_rms)), audible(root_of(self.right_rms))),
    {
        (
            floor_bits(sqrt_bits(self.left_rms), AMPLITUDE_FLOOR),
            floor_bits(sqrt_bits(self.right_rms), AMPLITUDE_FLOOR),
        )
    }

    /// The amplitudes whose logarithm gives the peak levels: each peak,
    /// at least `1e-10`.
    pub fn peak_amplitudes(&self) -> (r: (u32, u32))
        ensures
            r == (audible(self.left_peak), audible(self.right_peak)),
    {
        (floor_bits(self.left_peak, AMPLITUDE_FLOOR), floor_bits(self.right_peak, AMPLITUDE_FLOOR))
    }

    /// Takes one frame in.
    pub fn process(&mut self, left: u32, right: u32)
        ensures
            *final(self) == old(self).step(left, right),
    {
        self.left_rms = smooth(self.left_rms, left, self.attack, self.release);
        self.right_rms = smooth(self.right_rms, right, self.attack, self.release);
        self.left_peak = hold_peak(self.left_peak, left);
        self.right_peak = hold_peak(self.right_peak, right);
    }
}

/// Moves a mean square towards the square of a sample.
fn smooth(mean_square: u32, sample: u32, attack: u32, release: u32) -> (r: u32)
    ensures
        r == smoothed(mean_square, sample, attack, release),
{
    let square: u32 = mul_bits(sample, sample);
    let part: u32 = if lt_bits(mean_square, square) {
        attack
    } else {
        release
    };
    add_bits(mean_square, mul_bits(part, sub_bits(square, mean_square)))
}

/// Raises a peak to a sample or lets it decay.
fn hold_peak(peak: u32, sample: u32) -> (r: u32)
    ensures
        r == held_peak(peak, sample),
{
    let size: u32 = abs_bits(sample);
    if lt_bits(peak, size) {
        size
    } else {
        mul_bits(peak, PEAK_DECAY)
    }
}

} // verus!
