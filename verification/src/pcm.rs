//! Decoding captured PCM bytes into sample words.
//!
//! A capture buffer holds little-endian samples of 2, 3 or 4 bytes: signed
//! 16-bit integers, signed 24-bit integers, or binary32 words.  Integers are
//! scaled so that full scale is 1.0, which binary32 holds without rounding.

use vstd::prelude::*;
use crate::sample::{
    in_unit_range, is_word_of_ratio, word_of_ratio, word_of_small_ratio_is_in_unit_range,
};

verus! {

/// Whether samples of `width` bytes can be decoded.
pub open spec fn supported_width(width: int) -> bool {
    width == 2 || width == 3 || width == 4
}

/// How many whole samples of `width` bytes lie in `len` bytes; none where the
/// width is not supported.
pub open spec fn sample_count(len: int, width: int) -> int {
    if supported_width(width) {
        len / width
    } else {
        0
    }
}

/// The unsigned little-endian integer that the bytes of sample `i` spell.
pub open spec fn raw_value(data: Seq<u8>, width: int, i: int) -> int {
    let b = i * width;
    if width == 2 {
        data[b] + 0x100 * data[b + 1]
    } else if width == 3 {
        data[b] + 0x100 * data[b + 1] + 0x1_0000 * data[b + 2]
    } else {
        data[b] + 0x100 * data[b + 1] + 0x1_0000 * data[b + 2] + 0x100_0000 * data[b + 3]
    }
}

/// An unsigned integer of `bits` bits read as two's complement.
pub open spec fn twos_complement(raw: int, half: int) -> int {
    if raw >= half {
        raw - 2 * half
    } else {
        raw
    }
}

/// Whether `word` is what sample `i` of the buffer decodes to: the word
/// itself for 4 bytes, `v / 32768` for a 16-bit integer `v`, and
/// `v / 8388608` for a 24-bit integer `v`.
pub open spec fn is_sample_of(word: u32, data: Seq<u8>, width: int, i: int) -> bool {
    if width == 4 {
        word == raw_value(data, 4, i)
    } else if width == 2 {
        is_word_of_ratio(word, twos_complement(raw_value(data, 2, i), 0x8000), 15)
    } else {
        is_word_of_ratio(word, twos_complement(raw_value(data, 3, i), 0x80_0000), 23)
    }
}

/// A sample decoded from an integer never exceeds full scale: it lies in
/// `[-1, 1]`.
pub proof fn integer_samples_are_in_unit_range(word: u32, data: Seq<u8>, width: int, i: int)
    requires
        width == 2 || width == 3,
        is_sample_of(word, data, width, i),
    ensures
        in_unit_range(word),
{
    vstd::arithmetic::power2::lemma2_to64();
    if width == 2 {
        word_of_small_ratio_is_in_unit_range(
            word,
            twos_complement(raw_value(data, 2, i), 0x8000),
            15,
        );
    } else {
        word_of_small_ratio_is_in_unit_range(
            word,
            twos_complement(raw_value(data, 3, i), 0x80_0000),
            23,
        );
    }
}

/// Decodes a buffer of PCM bytes into sample words, one per whole sample.
///
/// Trailing bytes that do not fill a sample are dropped, and a width other
/// than 2, 3 or 4 bytes gives no samples.
pub fn bytes_to_f32(data: &[u8], bytes_per_sample: usize) -> (out: Vec<u32>)
    ensures
        out.len() == sample_count(data.len() as int, bytes_per_sample as int),
        forall|i: int|
            0 <= i < out.len() ==> is_sample_of(
                #[trigger] out[i],
                data@,
                bytes_per_sample as int,
                i,
            ),
{
    let mut out: Vec<u32> = Vec::new();
    if bytes_per_sample != 2 && bytes_per_sample != 3 && bytes_per_sample != 4 {
        return out;
    }
    let len: usize = data.len();
    let mut base: usize = 0;
    while len - base >= bytes_per_sample
        invariant
            supported_width(bytes_per_sample as int),
            len == data.len(),
            base <= len,
            base == out.len() * bytes_per_sample,
            forall|i: int|
                0 <= i < out.len() ==> is_sample_of(
                    #[trigger] out[i],
                    data@,
                    bytes_per_sample as int,
                    i,
                ),
        decreases len - base,
    {
        let word: u32 = if bytes_per_sample == 4 {
            (data[base] as u32) + 0x100 * (data[base + 1] as u32) + 0x1_0000 * (data[base
                + 2] as u32) + 0x100_0000 * (data[base + 3] as u32)
        } else if bytes_per_sample == 2 {
            let raw: i32 = (data[base] as i32) + 0x100 * (data[base + 1] as i32);
            let value: i32 = if raw >= 0x8000 {
                raw - 0x1_0000
            } else {
                raw
            };
            word_of_ratio(value, 15)
        } else {
            let raw: i32 = (data[base] as i32) + 0x100 * (data[base + 1] as i32) + 0x1_0000 * (
            data[base + 2] as i32);
            let value: i32 = if raw >= 0x80_0000 {
                raw - 0x100_0000
            } else {
                raw
            };
            word_of_ratio(value, 23)
        };
        out.push(word);
        base = base + bytes_per_sample;
    }
    proof {
        let w = bytes_per_sample as int;
        let n = out.len() as int;
        assert(len as int == n * w + (len - base));
        vstd::arithmetic::div_mod::lemma_fundamental_div_mod_converse(
            len as int,
            w,
            n,
            (len - base) as int,
        );
    }
    out
}

} // verus!
