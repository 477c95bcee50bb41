//! Channel routing: which samples of a captured frame feed each output side,
//! and the clamp that ends the route.

use vstd::prelude::*;
use crate::arith::{add_bits, difference_of, mul_bits, product_of, sub_bits, sum_of};
use crate::dsp::{ChainState, DspChain};
use crate::sample::{
    clamp_bits, clamp_unit, clamped, in_unit_range, is_nan, less_than, lt_bits, NEG_UNITY,
    SILENCE, UNITY,
};

verus! {

/// A channel of the captured stream.
#[derive(Debug, Clone, Copy, PartialEq, Eq, Structural)]
pub enum ChannelSource {
    /// Front left, channel 0.
    FL,
    /// Front right, channel 1.
    FR,
    /// Rear left, channel 2 where the stream has it.
    RL,
    /// Rear right, channel 3 where the stream has it.
    RR,
}

impl Default for ChannelSource {
    fn default() -> (r: Self)
        ensures
            r == ChannelSource::RL,
    {
        ChannelSource::RL
    }
}

/// What one output side plays: its source channel, its gain as a binary32
/// word, and whether it is muted.
#[derive(Debug, Clone, Copy, PartialEq, Eq, Structural)]
pub struct ChannelSettings {
    pub source: ChannelSource,
    pub volume: u32,
    pub muted: bool,
}

impl Default for ChannelSettings {
    fn default() -> (r: Self)
        ensures
            r == (ChannelSettings { source: ChannelSource::RL, volume: UNITY, muted: false }),
    {
        ChannelSettings { source: ChannelSource::RL, volume: UNITY, muted: false }
    }
}

/// The index of a source channel within a frame of `channels` channels.  A
/// stream with fewer than four channels has no rear pair, and the rear
/// sources fall back to the front pair.
pub open spec fn channel_index_of(source: ChannelSource, channels: int) -> int {
    match source {
        ChannelSource::FL => 0,
        ChannelSource::FR => 1,
        ChannelSource::RL => if channels >= 4 {
            2
        } else {
            0
        },
        ChannelSource::RR => if channels >= 4 {
            3
        } else {
            1
        },
    }
}

/// Resolves a source channel to its index within a frame.
pub fn channel_index(source: ChannelSource, channels: u16) -> (r: usize)
    ensures
        r == channel_index_of(source, channels as int),
{
    match source {
        ChannelSource::FL => 0,
        ChannelSource::FR => 1,
        ChannelSource::RL => if channels >= 4 {
            2
        } else {
            0
        },
        ChannelSource::RR => if channels >= 4 {
            3
        } else {
            1
        },
    }
}

/// On a stream without a rear pair each rear source resolves to the front
/// channel of its side; with four channels or more it resolves to its own.
pub proof fn rear_sources_degrade_to_front(channels: int)
    ensures
        channels < 4 ==> channel_index_of(ChannelSource::RL, channels) == channel_index_of(
            ChannelSource::FL,
            channels,
        ) && channel_index_of(ChannelSource::RL, channels) == 0,
        channels < 4 ==> channel_index_of(ChannelSource::RR, channels) == channel_index_of(
            ChannelSource::FR,
            channels,
        ) && channel_index_of(ChannelSource::RR, channels) == 1,
        channels >= 4 ==> channel_index_of(ChannelSource::RL, channels) == 2,
        channels >= 4 ==> channel_index_of(ChannelSource::RR, channels) == 3,
{
}

/// How many whole frames of `channels` samples lie in `len` samples.
pub open spec fn frame_count_of(len: int, channels: int) -> int {
    if channels <= 0 {
        0
    } else {
        len / channels
    }
}

/// Counts the whole frames of an interleaved buffer.
pub fn frame_count(len: usize, channels: u16) -> (r: usize)
    ensures
        r == frame_count_of(len as int, channels as int),
{
    if channels == 0 {
        0
    } else {
        len / (channels as usize)
    }
}

/// The sample at a position of the buffer, and silence beyond its end.
pub open spec fn tap(input: Seq<u32>, pos: int) -> u32 {
    if 0 <= pos < input.len() {
        input[pos]
    } else {
        SILENCE
    }
}

/// The samples that one frame contributes: the front pair, which feeds the
/// upmixer, and the source sample of each output side, `None` for a muted
/// side.
#[derive(Debug, Clone, Copy, PartialEq, Eq, Structural)]
pub struct FrameTaps {
    pub front_left: u32,
    pub front_right: u32,
    pub left: Option<u32>,
    pub right: Option<u32>,
}

/// The source sample of one side in the frame that starts at `base`.
pub open spec fn side_tap(
    input: Seq<u32>,
    channels: int,
    base: int,
    side: ChannelSettings,
) -> Option<u32> {
    if side.muted {
        None
    } else {
        Some(tap(input, base + channel_index_of(side.source, channels)))
    }
}

/// The taps of frame number `frame` of an interleaved buffer.
pub open spec fn taps_of(
    input: Seq<u32>,
    channels: int,
    frame: int,
    left: ChannelSettings,
    right: ChannelSettings,
) -> FrameTaps {
    let base = frame * channels;
    FrameTaps {
        front_left: tap(input, base),
        front_right: tap(input, base + 1),
        left: side_tap(input, channels, base, left),
        right: side_tap(input, channels, base, right),
    }
}

/// Reads the sample at `base + offset`, where `base` is `None` if the
/// frame starts beyond every buffer.
fn read_tap(input: &[u32], base: Option<usize>, offset: usize) -> (r: u32)
    requires
        offset <= 3,
    ensures
        base matches Some(b) ==> r == tap(input@, b + offset),
        base is None ==> r == SILENCE,
{
    match base {
        Some(b) => {
            if b < input.len() && offset < input.len() - b {
                input[b + offset]
            } else {
                SILENCE
            }
        },
        None => SILENCE,
    }
}

/// Picks out of frame number `frame` the samples that the route needs.
///
/// A position beyond the end of the buffer reads as silence, so a frame
/// number past the last frame gives silent taps.
pub fn frame_taps(
    input: &[u32],
    channels: u16,
    frame: usize,
    left: &ChannelSettings,
    right: &ChannelSettings,
) -> (r: FrameTaps)
    ensures
        r == taps_of(input@, channels as int, frame as int, *left, *right),
{
    let base: Option<usize> = frame.checked_mul(channels as usize);
    proof {
        if base is None {
            assert(frame * channels > usize::MAX);
            assert(frame * channels >= input.len());
        }
    }
    let left_tap: Option<u32> = if left.muted {
        None
    } else {
        Some(read_tap(input, base, channel_index(left.source, channels)))
    };
    let right_tap: Option<u32> = if right.muted {
        None
    } else {
        Some(read_tap(input, base, channel_index(right.source, channels)))
    };
    FrameTaps {
        front_left: read_tap(input, base, 0),
        front_right: read_tap(input, base, 1),
        left: left_tap,
        right: right_tap,
    }
}

/// The master gain of a route: the user's volume alone while the sync
/// with the source device is off; with the sync on, the user's volume
/// times the device's, and zero while the device is muted.
pub open spec fn effective_volume_of(
    user_volume: u32,
    device_volume: u32,
    sync_master_volume: bool,
    device_muted: bool,
) -> u32 {
    if !sync_master_volume {
        user_volume
    } else if device_muted {
        SILENCE
    } else {
        product_of(user_volume, device_volume)
    }
}

/// Computes the master gain of a route.
pub fn effective_volume(
    user_volume: u32,
    device_volume: u32,
    sync_master_volume: bool,
    device_muted: bool,
) -> (r: u32)
    ensures
        r == effective_volume_of(user_volume, device_volume, sync_master_volume, device_muted),
{
    if !sync_master_volume {
        user_volume
    } else if device_muted {
        SILENCE
    } else {
        mul_bits(user_volume, device_volume)
    }
}

/// The multipliers, left first, that a balance puts on the two sides.  A
/// balance above zero turns the left side down to `1 - balance`, one
/// below zero turns the right side down to `1 + balance`, and the side
/// leaned towards is never boosted.
pub open spec fn balance_gains(balance: u32) -> (u32, u32) {
    (
        if less_than(SILENCE, balance) {
            difference_of(UNITY, balance)
        } else {
            UNITY
        },
        if less_than(balance, SILENCE) {
            sum_of(UNITY, balance)
        } else {
            UNITY
        },
    )
}

/// Computes the multipliers of the two sides for a balance setting.
pub fn balance_multipliers(balance: u32) -> (gains: (u32, u32))
    ensures
        gains == balance_gains(balance),
{
    let left: u32 = if lt_bits(SILENCE, balance) {
        sub_bits(UNITY, balance)
    } else {
        UNITY
    };
    let right: u32 = if lt_bits(balance, SILENCE) {
        add_bits(UNITY, balance)
    } else {
        UNITY
    };
    (left, right)
}

/// Full left silences the right side and leaves the left side as it is;
/// full right does the same the other way round; and a centred balance
/// leaves both sides as they are.
pub proof fn balance_law()
    ensures
        balance_gains(NEG_UNITY) == (UNITY, SILENCE),
        balance_gains(UNITY) == (SILENCE, UNITY),
        balance_gains(SILENCE) == (UNITY, UNITY),
{
    vstd::arithmetic::power2::lemma2_to64();
    assert(crate::sample::magnitude(UNITY) == 0x3f80_0000);
    assert(crate::sample::magnitude(NEG_UNITY) == 0x3f80_0000);
    assert(crate::sample::exponent_field(UNITY) == 127);
    assert(crate::sample::fraction_field(UNITY) == 0);
    assert(crate::sample::exponent_field(NEG_UNITY) == 127);
    assert(crate::sample::fraction_field(NEG_UNITY) == 0);
    assert(crate::arith::negated(UNITY) == NEG_UNITY);
    assert(crate::arith::finite_sum(false, 0x80_0000, -23, true, 0x80_0000, -23) == 0);
    assert(sum_of(UNITY, NEG_UNITY) == SILENCE);
}

/// What one side carries before the master gain: its source sample times
/// its volume, or zero while it is muted, plus what the upmixer adds.
pub open spec fn side_value(tap: Option<u32>, volume: u32, upmix: u32) -> u32 {
    sum_of(
        match tap {
            Some(sample) => product_of(sample, volume),
            None => SILENCE,
        },
        upmix,
    )
}

/// One side as it leaves the router: its value times the master gain
/// times its balance multiplier, clamped to `[-1, 1]`.
pub open spec fn finished(value: u32, volume: u32, gain: u32) -> u32 {
    clamped(product_of(product_of(value, volume), gain), NEG_UNITY, UNITY)
}

/// The stereo pair that one frame is routed to.  The sides are exchanged,
/// if they are to be, before master gain and balance are applied.
pub open spec fn routed_frame(
    taps: FrameTaps,
    left: ChannelSettings,
    right: ChannelSettings,
    upmix: (u32, u32),
    swap: bool,
    volume: u32,
    balance: u32,
) -> (u32, u32) {
    let l = side_value(taps.left, left.volume, upmix.0);
    let r = side_value(taps.right, right.volume, upmix.1);
    let gains = balance_gains(balance);
    if swap {
        (finished(r, volume, gains.0), finished(l, volume, gains.1))
    } else {
        (finished(l, volume, gains.0), finished(r, volume, gains.1))
    }
}

/// The first `frames` frames of a buffer, routed: the interleaved stereo
/// output and the chain as the upmixer leaves it.
pub open spec fn routed(
    input: Seq<u32>,
    channels: int,
    volume: u32,
    swap: bool,
    balance: u32,
    left: ChannelSettings,
    right: ChannelSettings,
    chain: ChainState,
    frames: nat,
) -> (Seq<u32>, ChainState)
    decreases frames,
{
    if frames == 0 {
        (Seq::empty(), chain)
    } else {
        let before = routed(
            input,
            channels,
            volume,
            swap,
            balance,
            left,
            right,
            chain,
            (frames - 1) as nat,
        );
        let taps = taps_of(input, channels, frames - 1, left, right);
        let upmix = before.1.upmix_output(taps.front_left, taps.front_right);
        let pair = routed_frame(taps, left, right, upmix, swap, volume, balance);
        (
            before.0.push(pair.0).push(pair.1),
            before.1.upmix_step(taps.front_left, taps.front_right),
        )
    }
}

/// At unity the router changes nothing: with both volumes and the master
/// gain at one, a centred balance, no swap and no upmix, the samples of
/// the two sources come out as they are, as long as they lie in `[-1, 1]`.
/// (A negative zero alone comes out as the positive one.)
pub proof fn unity_route_passes_samples(
    taps: FrameTaps,
    left: ChannelSettings,
    right: ChannelSettings,
    l: u32,
    r: u32,
)
    requires
        left.volume == UNITY,
        right.volume == UNITY,
        taps.left == Some(l),
        taps.right == Some(r),
        in_unit_range(l),
        in_unit_range(r),
        l != crate::sample::SIGN_BIT,
        r != crate::sample::SIGN_BIT,
    ensures
        routed_frame(taps, left, right, (SILENCE, SILENCE), false, UNITY, SILENCE) == (l, r),
{
    crate::arith::one_is_neutral(l);
    crate::arith::one_is_neutral(r);
    crate::arith::zero_is_neutral(l);
    crate::arith::zero_is_neutral(r);
    balance_law();
}

/// Routes one frame whose taps and upmix contribution are at hand.
pub fn route_frame(
    taps: &FrameTaps,
    left: &ChannelSettings,
    right: &ChannelSettings,
    upmix: (u32, u32),
    swap: bool,
    volume: u32,
    balance: u32,
) -> (pair: (u32, u32))
    ensures
        pair == routed_frame(*taps, *left, *right, upmix, swap, volume, balance),
        is_nan(pair.0) || in_unit_range(pair.0),
        is_nan(pair.1) || in_unit_range(pair.1),
{
    let gains = balance_multipliers(balance);
    finish_frame(taps, left, right, upmix, swap, volume, gains)
}

/// Routes one frame with the balance multipliers at hand.
fn finish_frame(
    taps: &FrameTaps,
    left: &ChannelSettings,
    right: &ChannelSettings,
    upmix: (u32, u32),
    swap: bool,
    volume: u32,
    gains: (u32, u32),
) -> (pair: (u32, u32))
    ensures
        forall|balance: u32|
            gains == balance_gains(balance) ==> pair == #[trigger] routed_frame(
                *taps,
                *left,
                *right,
                upmix,
                swap,
                volume,
                balance,
            ),
        is_nan(pair.0) || in_unit_range(pair.0),
        is_nan(pair.1) || in_unit_range(pair.1),
{
    let mut l: u32 = match taps.left {
        Some(sample) => mul_bits(sample, left.volume),
        None => SILENCE,
    };
    let mut r: u32 = match taps.right {
        Some(sample) => mul_bits(sample, right.volume),
        None => SILENCE,
    };
    // Add upmix contribution
    l = add_bits(l, upmix.0);
    r = add_bits(r, upmix.1);
    if swap {
        let was_left: u32 = l;
        l = r;
        r = was_left;
    }
    // Apply final volume and clamp to prevent clipping
    (
        clamp_unit(mul_bits(mul_bits(l, volume), gains.0)),
        clamp_unit(mul_bits(mul_bits(r, volume), gains.1)),
    )
}

/// Extract channels from multichannel audio with per-channel control:
/// routes every whole frame of the buffer to a stereo pair and hands the
/// pairs out interleaved, left first.
///
/// Whatever the gains are, a sample that comes out is a number in
/// `[-1, 1]`; only a NaN, which no clamp can hold, comes out as it is.
pub fn process_channels(
    input: &[u32],
    channels: u16,
    volume: u32,
    swap: bool,
    balance: u32,
    left_ch: &ChannelSettings,
    right_ch: &ChannelSettings,
    dsp: &mut DspChain,
) -> (output: Vec<u32>)
    requires
        old(dsp)@.wf(),
    ensures
        (output@, final(dsp)@) == routed(
            input@,
            channels as int,
            volume,
            swap,
            balance,
            *left_ch,
            *right_ch,
            old(dsp)@,
            frame_count_of(input.len() as int, channels as int) as nat,
        ),
        output.len() == 2 * frame_count_of(input.len() as int, channels as int),
        forall|i: int|
            0 <= i < output.len() ==> is_nan(#[trigger] output[i]) || in_unit_range(output[i]),
        final(dsp)@.wf(),
{
    let frames: usize = frame_count(input.len(), channels);
    // The output is sized once, before the first frame.
    let mut output: Vec<u32> = Vec::with_capacity(
        if frames <= usize::MAX / 2 {
            frames * 2
        } else {
            0
        },
    );
    // Calculate balance multipliers
    let gains = balance_multipliers(balance);
    let mut frame: usize = 0;
    while frame < frames
        invariant
            frame <= frames,
            frames == frame_count_of(input.len() as int, channels as int),
            gains == balance_gains(balance),
            dsp@.wf(),
            output.len() == 2 * frame,
            (output@, dsp@) == routed(
                input@,
                channels as int,
                volume,
                swap,
                balance,
                *left_ch,
                *right_ch,
                old(dsp)@,
                frame as nat,
            ),
            forall|i: int|
                0 <= i < output.len() ==> is_nan(#[trigger] output[i]) || in_unit_range(output[i]),
        decreases frames - frame,
    {
        let taps = frame_taps(input, channels, frame, left_ch, right_ch);
        // Get upmix contribution (pseudo surround from front channels)
        let upmix = dsp.get_upmix(taps.front_left, taps.front_right);
        let pair = finish_frame(&taps, left_ch, right_ch, upmix, swap, volume, gains);
        output.push(pair.0);
        output.push(pair.1);
        frame = frame + 1;
    }
    output
}

/// The tunable state of a route, as the capture loop reads it for each
/// buffer.  Gains and balance are binary32 words.
#[derive(Debug, Clone, Copy, PartialEq, Eq, Structural)]
pub struct RoutingState {
    pub master_volume: u32,
    pub swap_channels: bool,
    pub balance: u32,
    pub left: ChannelSettings,
    pub right: ChannelSettings,
}

impl RoutingState {
    /// The state a router starts with: full volume, centred, not swapped,
    /// the left side fed from rear left and the right side from rear
    /// right, both at unity and unmuted.
    pub fn new() -> (r: Self)
        ensures
            r == (RoutingState {
                master_volume: UNITY,
                swap_channels: false,
                balance: SILENCE,
                left: ChannelSettings { source: ChannelSource::RL, volume: UNITY, muted: false },
                right: ChannelSettings { source: ChannelSource::RR, volume: UNITY, muted: false },
            }),
    {
        RoutingState {
            master_volume: UNITY,
            swap_channels: false,
            balance: SILENCE,
            left: ChannelSettings { source: ChannelSource::RL, volume: UNITY, muted: false },
            right: ChannelSettings { source: ChannelSource::RR, volume: UNITY, muted: false },
        }
    }

    /// Sets the balance, held to the range from -1 (full left) to 1 (full
    /// right).
    pub fn set_balance(&mut self, balance: u32)
        ensures
            *final(self) == (RoutingState {
                balance: clamped(balance, NEG_UNITY, UNITY),
                ..*old(self)
            }),
    {
        self.balance = clamp_bits(balance, NEG_UNITY, UNITY);
    }
}

} // verus!
