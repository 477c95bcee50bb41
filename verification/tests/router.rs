use split51::router::{
    balance_multipliers, channel_index, effective_volume, frame_count, frame_taps, route_frame,
    ChannelSettings, ChannelSource, FrameTaps, RoutingState,
};
use split51::sample::{NEG_UNITY, SILENCE, UNITY};

fn side(source: ChannelSource, muted: bool) -> ChannelSettings {
    ChannelSettings { source, volume: UNITY, muted }
}

#[test]
fn rear_sources_fall_back_to_front_on_stereo() {
    assert_eq!(channel_index(ChannelSource::RL, 2), 0);
    assert_eq!(channel_index(ChannelSource::RR, 2), 1);
    assert_eq!(channel_index(ChannelSource::FL, 2), 0);
    assert_eq!(channel_index(ChannelSource::FR, 2), 1);
}

#[test]
fn rear_sources_resolve_to_the_rear_pair_from_four_channels_on() {
    for channels in [4u16, 5, 6, 8, u16::MAX] {
        assert_eq!(channel_index(ChannelSource::FL, channels), 0);
        assert_eq!(channel_index(ChannelSource::FR, channels), 1);
        assert_eq!(channel_index(ChannelSource::RL, channels), 2);
        assert_eq!(channel_index(ChannelSource::RR, channels), 3);
    }
    for channels in [0u16, 1, 3] {
        assert_eq!(channel_index(ChannelSource::RL, channels), 0);
        assert_eq!(channel_index(ChannelSource::RR, channels), 1);
    }
}

#[test]
fn defaults_feed_from_rear_left_at_unity() {
    assert_eq!(ChannelSource::default(), ChannelSource::RL);
    let settings = ChannelSettings::default();
    assert_eq!(settings.source, ChannelSource::RL);
    assert_eq!(f32::from_bits(settings.volume), 1.0);
    assert!(!settings.muted);
}

#[test]
fn frames_are_counted_whole() {
    assert_eq!(frame_count(0, 2), 0);
    assert_eq!(frame_count(9, 2), 4);
    assert_eq!(frame_count(12, 4), 3);
    assert_eq!(frame_count(13, 6), 2);
    assert_eq!(frame_count(100, 0), 0);
}

#[test]
fn taps_pick_the_rear_pair_of_a_four_channel_frame() {
    let input: Vec<u32> = (10..22).collect();
    let left = side(ChannelSource::RL, false);
    let right = side(ChannelSource::RR, false);
    assert_eq!(
        frame_taps(&input, 4, 0, &left, &right),
        FrameTaps { front_left: 10, front_right: 11, left: Some(12), right: Some(13) }
    );
    assert_eq!(
        frame_taps(&input, 4, 2, &left, &right),
        FrameTaps { front_left: 18, front_right: 19, left: Some(20), right: Some(21) }
    );
}

#[test]
fn taps_of_a_stereo_frame_degrade_to_the_front_pair() {
    let input: Vec<u32> = vec![1, 2, 3, 4];
    let left = side(ChannelSource::RL, false);
    let right = side(ChannelSource::RR, false);
    assert_eq!(
        frame_taps(&input, 2, 1, &left, &right),
        FrameTaps { front_left: 3, front_right: 4, left: Some(3), right: Some(4) }
    );
    let crossed = frame_taps(&input, 2, 0, &side(ChannelSource::FR, false), &side(ChannelSource::FL, false));
    assert_eq!(crossed.left, Some(2));
    assert_eq!(crossed.right, Some(1));
}

#[test]
fn a_muted_side_has_no_tap() {
    let input: Vec<u32> = vec![1, 2, 3, 4];
    let taps = frame_taps(&input, 4, 0, &side(ChannelSource::RL, true), &side(ChannelSource::RR, false));
    assert_eq!(taps.left, None);
    assert_eq!(taps.right, Some(4));
    assert_eq!(taps.front_left, 1);
}

#[test]
fn positions_beyond_the_buffer_read_as_silence() {
    let input: Vec<u32> = vec![7, 8, 9];
    let left = side(ChannelSource::FL, false);
    let right = side(ChannelSource::FR, false);
    let mono_last = frame_taps(&input, 1, 2, &left, &right);
    assert_eq!(mono_last, FrameTaps { front_left: 9, front_right: SILENCE, left: Some(9), right: Some(SILENCE) });
    let mono_first = frame_taps(&input, 1, 0, &left, &right);
    assert_eq!(mono_first.right, Some(8));
    let past = frame_taps(&input, 2, 5, &left, &right);
    assert_eq!(past, FrameTaps { front_left: 0, front_right: 0, left: Some(0), right: Some(0) });
    let far = frame_taps(&input, u16::MAX, usize::MAX, &left, &right);
    assert_eq!(far, FrameTaps { front_left: 0, front_right: 0, left: Some(0), right: Some(0) });
    let empty = frame_taps(&[], 2, 0, &left, &right);
    assert_eq!(empty.front_left, 0);
}

#[test]
fn output_stays_in_range_for_any_gain() {
    let amplitudes = [-1.0f32, -0.3, 0.0, 0.5, 1.0];
    let gains = [0.0f32, 0.25, 1.0, 1.5, 2.0, 1.0e30, f32::INFINITY];
    let balances = [-1.0f32, -0.5, 0.0, 0.5, 1.0];
    let left = ChannelSettings { source: ChannelSource::FL, volume: UNITY, muted: false };
    let right = ChannelSettings { source: ChannelSource::FR, volume: 1.5f32.to_bits(), muted: false };
    for a in amplitudes {
        for g in gains {
            for b in balances {
                let taps = FrameTaps {
                    front_left: 0,
                    front_right: 0,
                    left: Some(a.to_bits()),
                    right: Some((-a).to_bits()),
                };
                let pair = route_frame(&taps, &left, &right, (0, 0), false, g.to_bits(), b.to_bits());
                let left_mult: f32 = if b > 0.0 { 1.0 - b } else { 1.0 };
                let right_mult: f32 = if b < 0.0 { 1.0 + b } else { 1.0 };
                let expected = [
                    ((a * 1.0 + 0.0) * g * left_mult).clamp(-1.0, 1.0),
                    ((-a * 1.5 + 0.0) * g * right_mult).clamp(-1.0, 1.0),
                ];
                for (y, e) in [pair.0, pair.1].iter().zip(expected.iter()) {
                    let y = f32::from_bits(*y);
                    assert!(y.is_nan() || (-1.0..=1.0).contains(&y));
                    assert_eq!(y.is_nan(), e.is_nan());
                    if !e.is_nan() {
                        assert_eq!(y.to_bits(), e.to_bits());
                    }
                }
            }
        }
    }
}

#[test]
fn effective_volume_follows_the_device_only_when_synced() {
    let user = 0.8f32;
    let device = 0.5f32;
    assert_eq!(effective_volume(user.to_bits(), device.to_bits(), false, false), user.to_bits());
    assert_eq!(effective_volume(user.to_bits(), device.to_bits(), false, true), user.to_bits());
    assert_eq!(effective_volume(user.to_bits(), device.to_bits(), true, false), (user * device).to_bits());
    assert_eq!(effective_volume(user.to_bits(), device.to_bits(), true, true), 0);
}

#[test]
fn one_frame_is_routed_by_the_formula() {
    let taps = FrameTaps {
        front_left: 0,
        front_right: 0,
        left: Some(0.5f32.to_bits()),
        right: Some((-0.25f32).to_bits()),
    };
    let left = ChannelSettings { source: ChannelSource::RL, volume: 1.5f32.to_bits(), muted: false };
    let right = ChannelSettings { source: ChannelSource::RR, volume: 2.0f32.to_bits(), muted: false };
    let upmix = (0.125f32.to_bits(), 0.0f32.to_bits());
    let plain = route_frame(&taps, &left, &right, upmix, false, 0.5f32.to_bits(), 0.5f32.to_bits());
    assert_eq!(f32::from_bits(plain.0), (0.5 * 1.5 + 0.125) * 0.5 * 0.5);
    assert_eq!(f32::from_bits(plain.1), (-0.25 * 2.0 + 0.0) * 0.5 * 1.0);
    let swapped = route_frame(&taps, &left, &right, upmix, true, 0.5f32.to_bits(), 0.5f32.to_bits());
    assert_eq!(f32::from_bits(swapped.0), (-0.25 * 2.0 + 0.0) * 0.5 * 0.5);
    assert_eq!(f32::from_bits(swapped.1), (0.5 * 1.5 + 0.125) * 0.5 * 1.0);
    let loud = route_frame(&taps, &left, &right, upmix, false, 8.0f32.to_bits(), 0);
    assert_eq!((f32::from_bits(loud.0), f32::from_bits(loud.1)), (1.0, -1.0));
    let muted = FrameTaps { left: None, ..taps };
    let quiet = route_frame(&muted, &left, &right, upmix, false, 1.0f32.to_bits(), 0);
    assert_eq!(f32::from_bits(quiet.0), 0.125);
}

#[test]
fn routing_state_starts_centred_on_the_rear_pair() {
    let state = RoutingState::new();
    assert_eq!(f32::from_bits(state.master_volume), 1.0);
    assert!(!state.swap_channels);
    assert_eq!(f32::from_bits(state.balance), 0.0);
    assert_eq!(state.left, ChannelSettings { source: ChannelSource::RL, volume: UNITY, muted: false });
    assert_eq!(state.right, ChannelSettings { source: ChannelSource::RR, volume: UNITY, muted: false });
}

#[test]
fn balance_is_held_to_its_range() {
    let mut state = RoutingState::new();
    state.set_balance(0.5f32.to_bits());
    assert_eq!(f32::from_bits(state.balance), 0.5);
    state.set_balance(3.0f32.to_bits());
    assert_eq!(f32::from_bits(state.balance), 1.0);
    state.set_balance((-1.25f32).to_bits());
    assert_eq!(f32::from_bits(state.balance), -1.0);
    let before = state;
    state.set_balance(0.0f32.to_bits());
    assert_eq!(state, RoutingState { balance: 0, ..before });
}

#[test]
fn full_left_silences_the_right_side() {
    let (left, right) = balance_multipliers((-1.0f32).to_bits());
    assert_eq!(f32::from_bits(left), 1.0);
    assert_eq!(f32::from_bits(right), 0.0);
    assert_eq!(right, SILENCE);
}

#[test]
fn centred_balance_leaves_both_sides() {
    assert_eq!(balance_multipliers(0.0f32.to_bits()), (UNITY, UNITY));
    assert_eq!(balance_multipliers((-0.0f32).to_bits()), (UNITY, UNITY));
    assert_eq!(balance_multipliers(f32::NAN.to_bits()), (UNITY, UNITY));
}

#[test]
fn full_right_silences_the_left_side() {
    assert_eq!(balance_multipliers(1.0f32.to_bits()), (SILENCE, UNITY));
}

#[test]
fn balance_multipliers_agree_with_the_float_law() {
    let mut bits: u32 = 0;
    while bits <= 0x4100_0000 {
        for balance in [f32::from_bits(bits), -f32::from_bits(bits)] {
            let left_mult: f32 = if balance > 0.0 { 1.0 - balance } else { 1.0 };
            let right_mult: f32 = if balance < 0.0 { 1.0 + balance } else { 1.0 };
            let (left, right) = balance_multipliers(balance.to_bits());
            assert_eq!(left, left_mult.to_bits(), "{balance}");
            assert_eq!(right, right_mult.to_bits(), "{balance}");
        }
        bits += 0x0001_0203;
    }
    assert_eq!(balance_multipliers(0.5f32.to_bits()), (0.5f32.to_bits(), UNITY));
    assert_eq!(balance_multipliers((-0.25f32).to_bits()), (UNITY, 0.75f32.to_bits()));
}
