//! The processing chain of a route: equalizer, latency delay, upmixer and
//! level meter, with the switches and the cadence at which levels are
//! published.

use vstd::prelude::*;
use crate::arith::{difference_of, sub_bits};
use crate::cadence::{Cadence, CadenceState};
use crate::delay::{
    delay_samples_for, delay_samples_of, saturated, StereoDelay, StereoDelayState,
};
use crate::device::{max_delay_samples, max_delay_samples_of};
use crate::filter::{Coefficients, EqDesign, ThreeBandEq};
use crate::levels::SharedLevels;
use crate::meter::LevelMeter;
use crate::sample::{abs_bits, clamped, less_than, lt_bits, magnitude, SILENCE, UNITY};
use crate::upmix::{UpmixState, Upmixer, UPMIX_STRENGTH_MAX};
use std::sync::Arc;

verus! {

/// The number of processed frames between two published level snapshots.
pub const LEVEL_PUBLISH_PERIOD: u32 = 256;

/// The word of `0.5`, the upmix strength of a fresh configuration.
pub const UPMIX_STRENGTH_INITIAL: u32 = 0x3f00_0000;

/// The tunable parameters of the chain, as the capture loop reads them on
/// each pass, and the level snapshot that the chain publishes to.  Numbers
/// are binary32 words.
pub struct DspConfig {
    /// The latency delay in milliseconds, from 0 to 200.
    pub delay_ms: u32,
    pub eq_enabled: bool,
    /// The gain of the low band in decibels, from -12 to 12.
    pub eq_low: u32,
    /// The gain of the mid band in decibels, from -12 to 12.
    pub eq_mid: u32,
    /// The gain of the high band in decibels, from -12 to 12.
    pub eq_high: u32,
    pub upmix_enabled: bool,
    pub upmix_strength: u32,
    pub shared_levels: Arc<SharedLevels>,
    /// The master volume of the source device, from 0 to 1.
    pub master_volume: u32,
    pub sync_master_volume: bool,
    /// Whether the source device is muted.
    pub master_muted: bool,
}

impl DspConfig {
    /// The parameters a route starts with: no delay, equalizer flat and
    /// off, upmixer off at a strength of 0.5, device volume at 1 and
    /// followed, not muted.
    pub fn new() -> (r: Self)
        ensures
            r.delay_ms == SILENCE,
            !r.eq_enabled,
            r.eq_low == SILENCE,
            r.eq_mid == SILENCE,
            r.eq_high == SILENCE,
            !r.upmix_enabled,
            r.upmix_strength == UPMIX_STRENGTH_INITIAL,
            r.master_volume == UNITY,
            r.sync_master_volume,
            !r.master_muted,
    {
        DspConfig {
            delay_ms: SILENCE,
            eq_enabled: false,
            eq_low: SILENCE,
            eq_mid: SILENCE,
            eq_high: SILENCE,
            upmix_enabled: false,
            upmix_strength: UPMIX_STRENGTH_INITIAL,
            shared_levels: SharedLevels::new(),
            master_volume: UNITY,
            sync_master_volume: true,
            master_muted: false,
        }
    }
}

/// The word of `0.1`: by how much a parameter has to move before the
/// chain follows it.
pub const HYSTERESIS: u32 = 0x3dcc_cccd;

/// Whether two parameters lie further apart than the hysteresis: whether
/// `|a - b| > 0.1`.
pub open spec fn moved(a: u32, b: u32) -> bool {
    less_than(HYSTERESIS, magnitude(difference_of(a, b)))
}

/// Tells whether a parameter has moved further than the hysteresis.
pub fn has_moved(a: u32, b: u32) -> (r: bool)
    ensures
        r == moved(a, b),
{
    lt_bits(HYSTERESIS, abs_bits(sub_bits(a, b)))
}

/// The filters that a chain is built with: the equalizer with all gains
/// at 0 dB, and the high-pass of the upmixer, at 150 Hz with a Q of 0.7.
#[derive(Debug, Clone, Copy, PartialEq, Eq, Structural)]
pub struct FilterDesign {
    pub eq: EqDesign,
    pub highpass: Coefficients,
}

/// What a processing chain is.
pub struct ChainState {
    /// The latency delay.
    pub delay: StereoDelayState,
    pub eq_l: ThreeBandEq,
    pub eq_r: ThreeBandEq,
    pub upmixer: UpmixState,
    pub meter: LevelMeter,
    /// The latency delay asked for, in milliseconds, a binary32 word.
    pub delay_ms: u32,
    pub eq_enabled: bool,
    pub upmix_enabled: bool,
    /// The rate the chain was sized for.
    pub sample_rate: u32,
    /// The count of frames towards the next level snapshot.
    pub publish: CadenceState,
    /// The gains, in decibels, that the equalizer was last designed for.
    pub eq_low_cache: u32,
    pub eq_mid_cache: u32,
    pub eq_high_cache: u32,
}

impl ChainState {
    /// The delays and the cadence are well formed.
    pub open spec fn wf(self) -> bool {
        &&& self.delay.wf()
        &&& self.upmixer.wf()
        &&& self.publish.wf()
    }

    /// A chain for the given rate: a latency delay of up to 200 ms, set
    /// to none; equalizer and upmixer built of the given filters and
    /// switched off; the meter at rest; and a level snapshot due every
    /// 256 frames.
    pub open spec fn fresh(sample_rate: u32, design: FilterDesign) -> ChainState {
        ChainState {
            delay: StereoDelayState::fresh(max_delay_samples_of(sample_rate as int) as nat),
            eq_l: ThreeBandEq::of_design(design.eq),
            eq_r: ThreeBandEq::of_design(design.eq),
            upmixer: UpmixState::fresh(sample_rate, design.highpass),
            meter: LevelMeter {
                left_rms: SILENCE,
                right_rms: SILENCE,
                left_peak: SILENCE,
                right_peak: SILENCE,
                attack: crate::meter::ATTACK,
                release: crate::meter::RELEASE,
            },
            delay_ms: SILENCE,
            eq_enabled: false,
            upmix_enabled: false,
            sample_rate,
            publish: CadenceState::fresh(LEVEL_PUBLISH_PERIOD as int),
            eq_low_cache: SILENCE,
            eq_mid_cache: SILENCE,
            eq_high_cache: SILENCE,
        }
    }

    /// What the equalizer stage hands on: the equalized frame if the
    /// equalizer is on, and the frame itself if not.
    pub open spec fn equalized(self, left: u32, right: u32) -> (u32, u32) {
        if self.eq_enabled {
            (self.eq_l.output(left), self.eq_r.output(right))
        } else {
            (left, right)
        }
    }

    /// What comes out of the chain when a frame goes in: the frame
    /// equalized, if the equalizer is on, and then delayed.
    pub open spec fn output(self, left: u32, right: u32) -> (u32, u32) {
        self.delay.output(self.equalized(left, right).0, self.equalized(left, right).1)
    }

    /// The chain after a frame went in: the equalizer, if it is on, and
    /// the delay have taken the frame, the meter has taken what came out,
    /// and the frame is counted.
    pub open spec fn step(self, left: u32, right: u32) -> ChainState {
        ChainState {
            eq_l: if self.eq_enabled {
                self.eq_l.step(left)
            } else {
                self.eq_l
            },
            eq_r: if self.eq_enabled {
                self.eq_r.step(right)
            } else {
                self.eq_r
            },
            delay: self.delay.step(self.equalized(left, right).0, self.equalized(left, right).1),
            meter: self.meter.step(self.output(left, right).0, self.output(left, right).1),
            publish: self.publish.tick(),
            ..self
        }
    }

    /// The rear pair that the upmixer adds for a front pair: silence
    /// while it is switched off.
    pub open spec fn upmix_output(self, front_left: u32, front_right: u32) -> (u32, u32) {
        if self.upmix_enabled {
            self.upmixer.output(front_left, front_right)
        } else {
            (SILENCE, SILENCE)
        }
    }

    /// The chain after the upmixer was asked: it takes the front pair in
    /// only while it is switched on.
    pub open spec fn upmix_step(self, front_left: u32, front_right: u32) -> ChainState {
        if self.upmix_enabled {
            ChainState { upmixer: self.upmixer.step(front_left, front_right), ..self }
        } else {
            self
        }
    }

    /// Whether gains asked for lie further than the hysteresis from the
    /// gains the equalizer was designed for, in any band.
    pub open spec fn eq_moved(self, low_db: u32, mid_db: u32, high_db: u32) -> bool {
        moved(low_db, self.eq_low_cache) || moved(mid_db, self.eq_mid_cache) || moved(
            high_db,
            self.eq_high_cache,
        )
    }
}

/// A chain with its equalizer off and no latency delay hands every frame
/// on as it came.
pub proof fn idle_chain_passes_frames(chain: ChainState, left: u32, right: u32)
    requires
        !chain.eq_enabled,
        chain.delay.left.delay == 0,
        chain.delay.right.delay == 0,
    ensures
        chain.output(left, right) == (left, right),
        chain.step(left, right).delay == chain.delay,
        !chain.step(left, right).eq_enabled,
{
}

/// One frame as it leaves the chain.
#[derive(Debug, Clone, Copy, PartialEq, Eq, Structural)]
pub struct ProcessedFrame {
    pub left: u32,
    pub right: u32,
    /// Whether the meter's levels are to be published now: on every
    /// 256th frame.
    pub publish_levels: bool,
}

/// DSP chain combining all effects.
pub struct DspChain {
    delay: StereoDelay,
    eq_l: ThreeBandEq,
    eq_r: ThreeBandEq,
    upmixer: Upmixer,
    meter: LevelMeter,
    delay_ms: u32,
    eq_enabled: bool,
    upmix_enabled: bool,
    sample_rate: u32,
    publish: Cadence,
    // Cache for EQ settings to avoid unnecessary recalculations
    eq_low_cache: u32,
    eq_mid_cache: u32,
    eq_high_cache: u32,
}

impl View for DspChain {
    type V = ChainState;

    closed spec fn view(&self) -> ChainState {
        ChainState {
            delay: self.delay@,
            eq_l: self.eq_l,
            eq_r: self.eq_r,
            upmixer: self.upmixer@,
            meter: self.meter,
            delay_ms: self.delay_ms,
            eq_enabled: self.eq_enabled,
            upmix_enabled: self.upmix_enabled,
            sample_rate: self.sample_rate,
            publish: self.publish@,
            eq_low_cache: self.eq_low_cache,
            eq_mid_cache: self.eq_mid_cache,
            eq_high_cache: self.eq_high_cache,
        }
    }
}

impl DspChain {
    /// A chain for the given rate, built of the given filters.
    pub fn new(sample_rate: u32, design: &FilterDesign) -> (r: Self)
        ensures
            r@ == ChainState::fresh(sample_rate, *design),
            r@.wf(),
    {
        DspChain {
            delay: StereoDelay::new(max_delay_samples(sample_rate)),
            eq_l: ThreeBandEq::new(&design.eq),
            eq_r: ThreeBandEq::new(&design.eq),
            upmixer: Upmixer::new(sample_rate, &design.highpass),
            meter: LevelMeter::new(),
            delay_ms: SILENCE,
            eq_enabled: false,
            upmix_enabled: false,
            sample_rate,
            publish: Cadence::new(LEVEL_PUBLISH_PERIOD),
            eq_low_cache: SILENCE,
            eq_mid_cache: SILENCE,
            eq_high_cache: SILENCE,
        }
    }

    /// Checks the invariant that every chain made by `new` has and that
    /// every method keeps.
    pub fn is_well_formed(&self) -> (ok: bool)
        ensures
            ok == self@.wf(),
    {
        self.delay.is_well_formed() && self.upmixer.is_well_formed()
            && self.publish.is_well_formed()
    }

    /// The rate the chain was sized for.
    pub fn sample_rate(&self) -> (r: u32)
        ensures
            r == self@.sample_rate,
    {
        self.sample_rate
    }

    /// Whether the equalizer is switched on.
    pub fn eq_enabled(&self) -> (r: bool)
        ensures
            r == self@.eq_enabled,
    {
        self.eq_enabled
    }

    /// Whether the upmixer is switched on.
    pub fn upmix_enabled(&self) -> (r: bool)
        ensures
            r == self@.upmix_enabled,
    {
        self.upmix_enabled
    }

    /// The gain of the upmixer's rear feed.
    pub fn upmix_strength(&self) -> (r: u32)
        ensures
            r == self@.upmixer.strength,
    {
        self.upmixer.strength()
    }

    /// The meter, as it stands.
    pub fn meter(&self) -> (r: LevelMeter)
        ensures
            r == self@.meter,
    {
        self.meter
    }

    /// The latency delay asked for last, in milliseconds.
    pub fn delay_ms(&self) -> (r: u32)
        ensures
            r == self@.delay_ms,
    {
        self.delay_ms
    }

    /// Switches the equalizer.
    pub fn set_eq_enabled(&mut self, enabled: bool)
        ensures
            final(self)@ == (ChainState { eq_enabled: enabled, ..old(self)@ }),
    {
        self.eq_enabled = enabled;
    }

    /// Switches the upmixer.
    pub fn set_upmix_enabled(&mut self, enabled: bool)
        ensures
            final(self)@ == (ChainState { upmix_enabled: enabled, ..old(self)@ }),
    {
        self.upmix_enabled = enabled;
    }

    /// Sets the upmix strength, held to the range from 0 to 10.
    pub fn set_upmix_strength(&mut self, strength: u32)
        ensures
            final(self)@ == (ChainState {
                upmixer: UpmixState {
                    strength: clamped(strength, SILENCE, UPMIX_STRENGTH_MAX),
                    ..old(self)@.upmixer
                },
                ..old(self)@
            }),
    {
        self.upmixer.set_strength(strength);
    }

    /// Takes the switches and the upmix strength over from the
    /// parameters; delay and equalizer gains are set apart.
    pub fn apply_switches(&mut self, config: &DspConfig)
        ensures
            final(self)@ == (ChainState {
                eq_enabled: config.eq_enabled,
                upmix_enabled: config.upmix_enabled,
                upmixer: UpmixState {
                    strength: clamped(config.upmix_strength, SILENCE, UPMIX_STRENGTH_MAX),
                    ..old(self)@.upmixer
                },
                ..old(self)@
            }),
    {
        self.eq_enabled = config.eq_enabled;
        self.upmix_enabled = config.upmix_enabled;
        self.upmixer.set_strength(config.upmix_strength);
    }

    /// Whether a delay asked for lies further than the hysteresis from
    /// the delay in force.
    pub fn delay_needs_update(&self, ms: u32) -> (r: bool)
        ensures
            r == moved(ms, self@.delay_ms),
    {
        has_moved(ms, self.delay_ms)
    }

    /// Sets the latency delay of both sides to `ms` milliseconds: to
    /// `sample_rate * ms / 1000` samples, rounded to the nearest sample and
    /// limited to the capacity of the delay lines, 200 ms.
    pub fn set_delay_ms(&mut self, ms: u32)
        requires
            old(self)@.wf(),
        ensures
            final(self)@ == (ChainState {
                delay_ms: ms,
                delay: old(self)@.delay.with_delay(
                    saturated(delay_samples_of(old(self)@.sample_rate as int, ms)),
                ),
                ..old(self)@
            }),
            final(self)@.wf(),
    {
        self.delay_ms = ms;
        let samples: usize = delay_samples_for(self.sample_rate, ms);
        self.delay.set_delay_samples(samples);
    }

    /// Whether gains asked for lie further than the hysteresis from the
    /// gains the equalizer was designed for.  Only then is a new design
    /// worth its cost.
    pub fn eq_needs_update(&self, low_db: u32, mid_db: u32, high_db: u32) -> (r: bool)
        ensures
            r == self@.eq_moved(low_db, mid_db, high_db),
    {
        has_moved(low_db, self.eq_low_cache) || has_moved(mid_db, self.eq_mid_cache) || has_moved(
            high_db,
            self.eq_high_cache,
        )
    }

    /// Takes a new equalizer design for the given gains, if the gains
    /// have moved further than the hysteresis, and leaves the equalizer
    /// alone if not.
    pub fn set_eq(&mut self, low_db: u32, mid_db: u32, high_db: u32, design: &EqDesign)
        ensures
            old(self)@.eq_moved(low_db, mid_db, high_db) ==> final(self)@ == (ChainState {
                eq_l: ThreeBandEq::of_design(*design),
                eq_r: ThreeBandEq::of_design(*design),
                eq_low_cache: low_db,
                eq_mid_cache: mid_db,
                eq_high_cache: high_db,
                ..old(self)@
            }),
            !old(self)@.eq_moved(low_db, mid_db, high_db) ==> final(self)@ == old(self)@,
    {
        if self.eq_needs_update(low_db, mid_db, high_db) {
            self.eq_l.set_gains(design);
            self.eq_r.set_gains(design);
            self.eq_low_cache = low_db;
            self.eq_mid_cache = mid_db;
            self.eq_high_cache = high_db;
        }
    }

    /// Process a stereo frame and return the processed frame: equalized
    /// if the equalizer is on, delayed, and metered; with it comes the
    /// word whether levels are due.
    pub fn process(&mut self, left: u32, right: u32) -> (frame: ProcessedFrame)
        requires
            old(self)@.wf(),
        ensures
            (frame.left, frame.right) == old(self)@.output(left, right),
            frame.publish_levels == old(self)@.publish.fires(),
            final(self)@ == old(self)@.step(left, right),
            final(self)@.wf(),
    {
        let mut l: u32 = left;
        let mut r: u32 = right;

        // Apply EQ if enabled
        if self.eq_enabled {
            l = self.eq_l.process(l);
            r = self.eq_r.process(r);
        }

        // Apply delay
        let (l, r) = self.delay.process(l, r);

        // Update level meter
        self.meter.process(l, r);

        // Levels are due periodically (every 256 frames)
        let publish_levels: bool = self.publish.tick();
        ProcessedFrame { left: l, right: r, publish_levels }
    }

    /// Get upmixed rear channels from front stereo.
    pub fn get_upmix(&mut self, front_l: u32, front_r: u32) -> (rear: (u32, u32))
        requires
            old(self)@.wf(),
        ensures
            rear == old(self)@.upmix_output(front_l, front_r),
            final(self)@ == old(self)@.upmix_step(front_l, front_r),
            final(self)@.wf(),
    {
        if self.upmix_enabled {
            self.upmixer.process(front_l, front_r)
        } else {
            (SILENCE, SILENCE)
        }
    }
}

} // verus!
