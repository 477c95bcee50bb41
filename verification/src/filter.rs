//! Second-order filters and the three-band equalizer made of them.
//!
//! A filter is run here; its coefficients are designed elsewhere, out of
//! frequencies and gains, and handed in as words.

use vstd::prelude::*;
use crate::arith::{add_bits, difference_of, mul_bits, product_of, sub_bits, sum_of};
use crate::sample::{SILENCE, UNITY};

verus! {

/// The coefficients of a second-order section, divided by its `a0`.
#[derive(Debug, Clone, Copy, PartialEq, Eq, Structural)]
pub struct Coefficients {
    pub b0: u32,
    pub b1: u32,
    pub b2: u32,
    pub a1: u32,
    pub a2: u32,
}

/// Biquad filter for EQ and filtering: the coefficients and the last two
/// samples that went in and came out.
#[derive(Debug, Clone, Copy, PartialEq, Eq, Structural)]
pub struct Biquad {
    pub b0: u32,
    pub b1: u32,
    pub b2: u32,
    pub a1: u32,
    pub a2: u32,
    pub x1: u32,
    pub x2: u32,
    pub y1: u32,
    pub y2: u32,
}

impl Biquad {
    /// A filter with the given coefficients and a silent history.
    pub open spec fn with_coefficients(c: Coefficients) -> Biquad {
        Biquad {
            b0: c.b0,
            b1: c.b1,
            b2: c.b2,
            a1: c.a1,
            a2: c.a2,
            x1: SILENCE,
            x2: SILENCE,
            y1: SILENCE,
            y2: SILENCE,
        }
    }

    /// What comes out when `input` goes in:
    /// `b0*input + b1*x1 + b2*x2 - a1*y1 - a2*y2`, each product and each
    /// sum rounded, from left to right.
    pub open spec fn output(self, input: u32) -> u32 {
        difference_of(
            difference_of(
                sum_of(
                    sum_of(product_of(self.b0, input), product_of(self.b1, self.x1)),
                    product_of(self.b2, self.x2),
                ),
                product_of(self.a1, self.y1),
            ),
            product_of(self.a2, self.y2),
        )
    }

    /// The filter after `input` went in: the history moves on by one.
    pub open spec fn step(self, input: u32) -> Biquad {
        Biquad { x2: self.x1, x1: input, y2: self.y1, y1: self.output(input), ..self }
    }

    /// The filter with its history silenced.
    pub open spec fn cleared(self) -> Biquad {
        Biquad { x1: SILENCE, x2: SILENCE, y1: SILENCE, y2: SILENCE, ..self }
    }

    /// A filter that weighs its input by one and nothing else.
    pub fn new() -> (r: Self)
        ensures
            r == Biquad::with_coefficients(
                Coefficients { b0: UNITY, b1: SILENCE, b2: SILENCE, a1: SILENCE, a2: SILENCE },
            ),
    {
        Biquad {
            b0: UNITY,
            b1: SILENCE,
            b2: SILENCE,
            a1: SILENCE,
            a2: SILENCE,
            x1: SILENCE,
            x2: SILENCE,
            y1: SILENCE,
            y2: SILENCE,
        }
    }

    /// A filter with the given coefficients and a silent history.
    pub fn from_coefficients(c: &Coefficients) -> (r: Self)
        ensures
            r == Biquad::with_coefficients(*c),
    {
        Biquad {
            b0: c.b0,
            b1: c.b1,
            b2: c.b2,
            a1: c.a1,
            a2: c.a2,
            x1: SILENCE,
            x2: SILENCE,
            y1: SILENCE,
            y2: SILENCE,
        }
    }

    /// Filters one sample.
    pub fn process(&mut self, input: u32) -> (output: u32)
        ensures
            output == old(self).output(input),
            *final(self) == old(self).step(input),
    {
        let feed: u32 = add_bits(
            add_bits(mul_bits(self.b0, input), mul_bits(self.b1, self.x1)),
            mul_bits(self.b2, self.x2),
        );
        let output: u32 = sub_bits(
            sub_bits(feed, mul_bits(self.a1, self.y1)),
            mul_bits(self.a2, self.y2),
        );
        self.x2 = self.x1;
        self.x1 = input;
        self.y2 = self.y1;
        self.y1 = output;
        output
    }

    /// Silences the history.
    pub fn reset(&mut self)
        ensures
            *final(self) == old(self).cleared(),
    {
        self.x1 = SILENCE;
        self.x2 = SILENCE;
        self.y1 = SILENCE;
        self.y2 = SILENCE;
    }
}

/// The coefficients of the three bands of an equalizer.
#[derive(Debug, Clone, Copy, PartialEq, Eq, Structural)]
pub struct EqDesign {
    /// The low shelf, at 200 Hz.
    pub low_shelf: Coefficients,
    /// The peak in the middle, at 1 kHz with a Q of 1.
    pub mid_peak: Coefficients,
    /// The high shelf, at 4 kHz.
    pub high_shelf: Coefficients,
}

/// 3-band equalizer: a low shelf, a mid peak and a high shelf in cascade.
#[derive(Debug, Clone, Copy, PartialEq, Eq, Structural)]
pub struct ThreeBandEq {
    pub low_shelf: Biquad,
    pub mid_peak: Biquad,
    pub high_shelf: Biquad,
}

impl ThreeBandEq {
    /// An equalizer of the given design with a silent history.
    pub open spec fn of_design(design: EqDesign) -> ThreeBandEq {
        ThreeBandEq {
            low_shelf: Biquad::with_coefficients(design.low_shelf),
            mid_peak: Biquad::with_coefficients(design.mid_peak),
            high_shelf: Biquad::with_coefficients(design.high_shelf),
        }
    }

    /// What comes out when `sample` goes in: the output of the high shelf
    /// fed by the mid peak fed by the low shelf.
    pub open spec fn output(self, sample: u32) -> u32 {
        self.high_shelf.output(self.mid_peak.output(self.low_shelf.output(sample)))
    }

    /// The equalizer after `sample` went in.
    pub open spec fn step(self, sample: u32) -> ThreeBandEq {
        ThreeBandEq {
            low_shelf: self.low_shelf.step(sample),
            mid_peak: self.mid_peak.step(self.low_shelf.output(sample)),
            high_shelf: self.high_shelf.step(self.mid_peak.output(self.low_shelf.output(sample))),
        }
    }

    /// An equalizer of the given design.
    pub fn new(design: &EqDesign) -> (r: Self)
        ensures
            r == ThreeBandEq::of_design(*design),
    {
        ThreeBandEq {
            low_shelf: Biquad::from_coefficients(&design.low_shelf),
            mid_peak: Biquad::from_coefficients(&design.mid_peak),
            high_shelf: Biquad::from_coefficients(&design.high_shelf),
        }
    }

    /// Replaces all three bands by a new design; their history starts
    /// anew.
    pub fn set_gains(&mut self, design: &EqDesign)
        ensures
            *final(self) == ThreeBandEq::of_design(*design),
    {
        self.low_shelf = Biquad::from_coefficients(&design.low_shelf);
        self.mid_peak = Biquad::from_coefficients(&design.mid_peak);
        self.high_shelf = Biquad::from_coefficients(&design.high_shelf);
    }

    /// Equalizes one sample.
    pub fn process(&mut self, sample: u32) -> (output: u32)
        ensures
            output == old(self).output(sample),
            *final(self) == old(self).step(sample),
    {
        let s: u32 = self.low_shelf.process(sample);
        let s: u32 = self.mid_peak.process(s);
        self.high_shelf.process(s)
    }
}

} // verus!
