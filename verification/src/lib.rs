//! Verified core of a stereo audio splitter: the capture-to-render pipeline
//! from the captured bytes to the samples handed to the render device.
//!
//! Samples travel through this crate as IEEE-754 binary32 words (`u32` bit
//! patterns), and everything here is bit-exact: decoding PCM, the channel
//! router with its gains and clamp, equalizer, delay, upmixer and meter,
//! the queues in front of the rate converter and the render device, and
//! the bookkeeping of a capture session.  Products and sums are rounded as
//! binary32 arithmetic rounds them.  What takes a transcendental function
//! (the design of a filter, a level in decibels) is left to the caller.

pub mod arith;
pub mod cadence;
pub mod delay;
pub mod design;
pub mod device;
pub mod dsp;
pub mod filter;
pub mod icon;
pub mod levels;
pub mod meter;
pub mod pcm;
pub mod resample;
pub mod router;
pub mod sample;
pub mod selection;
pub mod session;
pub mod transport;
pub mod upmix;
