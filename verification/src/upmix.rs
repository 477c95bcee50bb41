//! The upmixer: rear channels made of the front pair, high-passed,
//! delayed by 10 ms and cross-fed.

use vstd::prelude::*;
use crate::arith::{add_bits, mul_bits, product_of, sum_of};
use crate::delay::{StereoDelay, StereoDelayState};
use crate::device::{upmix_delay_samples, upmix_delay_samples_of};
use crate::filter::{Biquad, Coefficients};
use crate::sample::{clamp_bits, clamped, SILENCE};

verus! {

/// The word of `10.0`, the largest upmix strength.
pub const UPMIX_STRENGTH_MAX: u32 = 0x4120_0000;

/// The word of `4.0`, the upmix strength a chain starts with.
pub const UPMIX_STRENGTH_DEFAULT: u32 = 0x4080_0000;

/// The word of `0.9`: the part of its own side in a rear channel.
pub const CROSS_FEED_OWN: u32 = 0x3f66_6666;

/// The word of `0.1`: the part of the other side in a rear channel.
pub const CROSS_FEED_OTHER: u32 = 0x3dcc_cccd;

/// One rear channel: nine parts of its own side and one of the other,
/// times the strength.
pub open spec fn cross_fed(own: u32, other: u32, strength: u32) -> u32 {
    product_of(
        sum_of(product_of(own, CROSS_FEED_OWN), product_of(other, CROSS_FEED_OTHER)),
        strength,
    )
}

/// What an upmixer is: a high-pass and a delay per side, and a strength.
pub struct UpmixState {
    pub hp_left: Biquad,
    pub hp_right: Biquad,
    pub delay: StereoDelayState,
    pub strength: u32,
}

impl UpmixState {
    /// The delay lines are well formed.
    pub open spec fn wf(self) -> bool {
        self.delay.wf()
    }

    /// An upmixer for the given rate: the high-pass silent, the rear feed
    /// delayed by 10 ms in lines of twice that length, and the strength
    /// at 4.0.
    pub open spec fn fresh(sample_rate: u32, highpass: Coefficients) -> UpmixState {
        UpmixState {
            hp_left: Biquad::with_coefficients(highpass),
            hp_right: Biquad::with_coefficients(highpass),
            delay: StereoDelayState::fresh(
                (2 * upmix_delay_samples_of(sample_rate as int)) as nat,
            ).with_delay(upmix_delay_samples_of(sample_rate as int)),
            strength: UPMIX_STRENGTH_DEFAULT,
        }
    }

    /// The rear pair that the front pair gives: each side high-passed and
    /// delayed, then cross-fed and scaled.
    pub open spec fn output(self, left: u32, right: u32) -> (u32, u32) {
        let delayed = self.delay.output(self.hp_left.output(left), self.hp_right.output(right));
        (
            cross_fed(delayed.0, delayed.1, self.strength),
            cross_fed(delayed.1, delayed.0, self.strength),
        )
    }

    /// The upmixer after a front pair went in.
    pub open spec fn step(self, left: u32, right: u32) -> UpmixState {
        UpmixState {
            hp_left: self.hp_left.step(left),
            hp_right: self.hp_right.step(right),
            delay: self.delay.step(self.hp_left.output(left), self.hp_right.output(right)),
            strength: self.strength,
        }
    }
}

/// Pseudo-surround upmixer: creates rear channel content from stereo.
pub struct Upmixer {
    hp_left: Biquad,
    hp_right: Biquad,
    delay: StereoDelay,
    strength: u32,
}

impl View for Upmixer {
    type V = UpmixState;

    closed spec fn view(&self) -> UpmixState {
        UpmixState {
            hp_left: self.hp_left,
            hp_right: self.hp_right,
            delay: self.delay@,
            strength: self.strength,
        }
    }
}

impl Upmixer {
    /// An upmixer for the given rate with the given high-pass.
    pub fn new(sample_rate: u32, highpass: &Coefficients) -> (r: Self)
        ensures
            r@ == UpmixState::fresh(sample_rate, *highpass),
            r@.wf(),
    {
        let rear: usize = upmix_delay_samples(sample_rate);
        let mut delay = StereoDelay::new(rear * 2);
        delay.set_delay_samples(rear);
        Upmixer {
            hp_left: Biquad::from_coefficients(highpass),
            hp_right: Biquad::from_coefficients(highpass),
            delay,
            strength: UPMIX_STRENGTH_DEFAULT,
        }
    }

    /// Checks the invariant that every upmixer made by `new` has and that
    /// every method keeps.
    pub fn is_well_formed(&self) -> (ok: bool)
        ensures
            ok == self@.wf(),
    {
        self.delay.is_well_formed()
    }

    /// The strength in force.
    pub fn strength(&self) -> (r: u32)
        ensures
            r == self@.strength,
    {
        self.strength
    }

    /// Sets the strength, held to the range from 0 to 10.
    pub fn set_strength(&mut self, strength: u32)
        ensures
            final(self)@ == (UpmixState {
                strength: clamped(strength, SILENCE, UPMIX_STRENGTH_MAX),
                ..old(self)@
            }),
    {
        self.strength = clamp_bits(strength, SILENCE, UPMIX_STRENGTH_MAX);
    }

    /// Process stereo input and return rear channel output: takes the
    /// front pair, returns the rear pair to be mixed with the output.
    pub fn process(&mut self, left: u32, right: u32) -> (rear: (u32, u32))
        requires
            old(self)@.wf(),
        ensures
            rear == old(self)@.output(left, right),
            final(self)@ == old(self)@.step(left, right),
            final(self)@.wf(),
    {
        let hp_l: u32 = self.hp_left.process(left);
        let hp_r: u32 = self.hp_right.process(right);
        let (delayed_l, delayed_r) = self.delay.process(hp_l, hp_r);
        let rear_l: u32 = mul_bits(
            add_bits(mul_bits(delayed_l, CROSS_FEED_OWN), mul_bits(delayed_r, CROSS_FEED_OTHER)),
            self.strength,
        );
        let rear_r: u32 = mul_bits(
            add_bits(mul_bits(delayed_r, CROSS_FEED_OWN), mul_bits(delayed_l, CROSS_FEED_OTHER)),
            self.strength,
        );
        (rear_l, rear_r)
    }
}

} // verus!
