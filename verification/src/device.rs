//! Audio endpoints and the sizes that follow from a sample rate.

use vstd::prelude::*;

verus! {

/// An audio endpoint as the host reports it.
pub struct AudioDevice {
    pub name: String,
    pub channels: u16,
    pub sample_rate: u32,
}

/// The format in which a capture source delivers its stream.
#[derive(Debug, Clone, Copy, PartialEq, Eq, Structural)]
pub struct StreamFormat {
    /// The number of interleaved channels.
    pub channels: u16,
    /// The number of frames per second.
    pub sample_rate: u32,
    /// The width of one sample in bits: 16, 24 or 32.
    pub bits_per_sample: u16,
    /// The number of bytes of one frame.
    pub block_align: u16,
}

impl StreamFormat {
    /// The width of one sample in bytes.
    pub open spec fn bytes_per_sample_of(self) -> int {
        self.bits_per_sample as int / 8
    }

    /// The width of one sample in bytes.
    pub fn bytes_per_sample(&self) -> (r: usize)
        ensures
            r == self.bytes_per_sample_of(),
    {
        (self.bits_per_sample / 8) as usize
    }

    /// The number of bytes that a buffer of `frames` frames holds, a
    /// multiple of the frame size; `None` if no buffer can be that long.
    pub fn buffer_len(&self, frames: u32) -> (r: Option<usize>)
        ensures
            r is Some <==> frames * self.block_align <= usize::MAX,
            r matches Some(len) ==> len == frames * self.block_align,
    {
        (frames as usize).checked_mul(self.block_align as usize)
    }

    /// Whether the stream has to be converted to reach a sink that runs
    /// at `target_sample_rate`: exactly if the two rates differ.
    pub fn needs_resample(&self, target_sample_rate: u32) -> (r: bool)
        ensures
            r == (self.sample_rate != target_sample_rate),
    {
        self.sample_rate != target_sample_rate
    }
}

/// The longest delay that a delay line at this rate holds: 200 ms.
pub open spec fn max_delay_samples_of(sample_rate: int) -> int {
    sample_rate / 5
}

/// The delay of the upmixer's rear feed at this rate: 10 ms.
pub open spec fn upmix_delay_samples_of(sample_rate: int) -> int {
    sample_rate / 100
}

/// The capacity of the transport at this rate: 100 ms of stereo samples.
pub open spec fn transport_capacity_of(sample_rate: int) -> int {
    (sample_rate / 10) * 2
}

/// The capacity of a delay line that can compensate up to 200 ms.
pub fn max_delay_samples(sample_rate: u32) -> (r: usize)
    ensures
        r == max_delay_samples_of(sample_rate as int),
{
    (sample_rate / 5) as usize
}

/// The number of samples in the upmixer's 10 ms delay.
pub fn upmix_delay_samples(sample_rate: u32) -> (r: usize)
    ensures
        r == upmix_delay_samples_of(sample_rate as int),
{
    (sample_rate / 100) as usize
}

/// The number of samples that 100 ms of stereo take in the transport.
pub fn transport_capacity(sample_rate: u32) -> (r: usize)
    ensures
        r == transport_capacity_of(sample_rate as int),
{
    (sample_rate / 10) as usize * 2
}

} // verus!
