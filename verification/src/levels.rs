//! Level snapshots shared between the processing thread and a display.
//!
//! A level is published as a code from 0 to 600: tenths of a decibel above
//! the floor of -60 dB, so that 600 stands for 0 dB.

use std::sync::atomic::AtomicU32;
use std::sync::atomic::Ordering;
use std::sync::Arc;
use vstd::arithmetic::power2::{lemma_pow2_strictly_increases, pow2};
use vstd::prelude::*;
use crate::arith::{
    add_bits, difference_of, div_bits, from_integer, mul_bits, product_of, quotient_of, sub_bits,
    sum_of, truncate_bits, truncated_of, word_of_integer,
};
use crate::sample::{clamp_bits, clamped, exponent_field, fraction_field, is_nan, magnitude, SILENCE};

verus! {

/// The code of 0 dB, the highest that is published.
pub const LEVEL_CODE_MAX: u32 = 600;

/// The word of `60.0`: what is added to a level to count it from the
/// floor.
pub const FLOOR_OFFSET: u32 = 0x4270_0000;

/// The word of `10.0`: the codes in a decibel.
pub const CODES_PER_DB: u32 = 0x4120_0000;

/// The word of `600.0`, the highest code.
pub const CODE_CEILING: u32 = 0x4416_0000;

/// The code of a level in decibels: `(level + 60) * 10`, held to the range
/// from 0 to 600 and cut to an integer.  A NaN has the code 0.
pub open spec fn level_code_of(db: u32) -> int {
    truncated_of(
        clamped(product_of(sum_of(db, FLOOR_OFFSET), CODES_PER_DB), SILENCE, CODE_CEILING),
    )
}

/// Encodes a level in decibels for publication.
pub fn level_code(db: u32) -> (r: u32)
    ensures
        r == level_code_of(db),
        r <= LEVEL_CODE_MAX,
{
    let scaled: u32 = mul_bits(add_bits(db, FLOOR_OFFSET), CODES_PER_DB);
    let held: u32 = clamp_bits(scaled, SILENCE, CODE_CEILING);
    proof {
        lemma_codes_stay_in_range(held);
    }
    truncate_bits(held)
}

/// A number from zero to 600 is cut to an integer from 0 to 600.
proof fn lemma_codes_stay_in_range(held: u32)
    requires
        is_nan(held) || magnitude(held) <= CODE_CEILING,
    ensures
        0 <= truncated_of(held) <= 600,
{
    vstd::arithmetic::power2::lemma2_to64();
    if !is_nan(held) && held < 0x8000_0000 {
        let field = exponent_field(held);
        let fraction = fraction_field(held);
        assert(magnitude(held) == held);
        assert(held == 0x80_0000 * field + fraction);
        assert(field <= 136);
        if field == 0 {
            lemma_pow2_strictly_increases(24, 149);
            let p = pow2(149) as int;
            vstd::arithmetic::div_mod::lemma_fundamental_div_mod_converse(
                fraction,
                p,
                0,
                fraction,
            );
        } else if field == 136 {
            assert(pow2(14) == 0x4000);
            assert(fraction <= 0x16_0000);
        } else {
            let k = (150 - field) as nat;
            let p = pow2(k) as int;
            if k > 15 {
                lemma_pow2_strictly_increases(15, k);
            }
            assert(p >= 0x8000);
            let sig = 0x80_0000 + fraction;
            assert(sig / p <= 512) by (nonlinear_arith)
                requires
                    0 <= sig < 0x100_0000,
                    p >= 0x8000,
            ;
            assert(sig / p >= 0) by (nonlinear_arith)
                requires
                    0 <= sig,
                    p > 0,
            ;
        }
    }
}

/// The level in decibels that a code stands for: `code / 10 - 60`.
pub open spec fn level_of_code(code: int) -> u32 {
    difference_of(quotient_of(word_of_integer(code), CODES_PER_DB), FLOOR_OFFSET)
}

/// Decodes a published code into decibels.
pub fn level_of(code: u32) -> (r: u32)
    ensures
        r == level_of_code(code as int),
{
    sub_bits(div_bits(from_integer(code), CODES_PER_DB), FLOOR_OFFSET)
}

/// A stored code as a reader takes it: the code itself, and the highest
/// code for a value beyond it, which no update stores.
pub open spec fn held_code_of(stored: u32) -> u32 {
    if stored > LEVEL_CODE_MAX {
        LEVEL_CODE_MAX
    } else {
        stored
    }
}

/// Holds a value read from the store to the range of the codes.
pub fn held_code(stored: u32) -> (r: u32)
    ensures
        r == held_code_of(stored),
        r <= LEVEL_CODE_MAX,
{
    if stored > LEVEL_CODE_MAX {
        LEVEL_CODE_MAX
    } else {
        stored
    }
}

/// Shared level values for display (thread-safe).
pub struct SharedLevels {
    // Store as integer (dB * 10) for atomic access
    left_db: AtomicU32,
    right_db: AtomicU32,
}

impl SharedLevels {
    /// A snapshot that reads as the floor on both sides until the first
    /// update.
    pub fn new() -> Arc<Self> {
        Arc::new(SharedLevels { left_db: AtomicU32::new(0), right_db: AtomicU32::new(0) })
    }

    /// Publishes the level of both sides, each given in decibels and
    /// stored as its code.
    pub fn update(&self, left_db: u32, right_db: u32) {
        let left: u32 = level_code(left_db);
        let right: u32 = level_code(right_db);
        self.left_db.store(left, Ordering::Relaxed);
        self.right_db.store(right, Ordering::Relaxed);
    }

    /// Reads the levels published last, in decibels, left first.  Another
    /// thread may publish at any time, so all that is known of a level
    /// is that it is the level of a code.
    pub fn get(&self) -> (r: (u32, u32))
        ensures
            exists|left: int, right: int|
                0 <= left <= 600 && 0 <= right <= 600 && r == (
                    #[trigger] level_of_code(left),
                    #[trigger] level_of_code(right),
                ),
    {
        let (left, right) = self.codes();
        (level_of(left), level_of(right))
    }

    /// Reads the codes published last, left first.  What the store
    /// holds is another thread's to change, so all that is known of a
    /// code is that it was held to the range of the codes.
    pub fn codes(&self) -> (r: (u32, u32))
        ensures
            r.0 <= LEVEL_CODE_MAX,
            r.1 <= LEVEL_CODE_MAX,
    {
        let left: u32 = self.left_db.load(Ordering::Relaxed);
        let right: u32 = self.right_db.load(Ordering::Relaxed);
        (held_code(left), held_code(right))
    }
}

} // verus!
