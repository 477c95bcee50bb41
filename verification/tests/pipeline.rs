use rubato::{
    Resampler, SincFixedIn, SincInterpolationParameters, SincInterpolationType, WindowFunction,
};
use split51::device::transport_capacity;
use split51::dsp::{DspChain, FilterDesign};
use split51::filter::{Coefficients, EqDesign};
use split51::pcm::bytes_to_f32;
use split51::resample::ChunkAccumulator;
use split51::router::{effective_volume, process_channels, ChannelSource, RoutingState};
use split51::transport::{PushOutcome, Transport};

const SOURCE_RATE: u32 = 48_000;
const SINK_RATE: u32 = 44_100;
const CHUNK: usize = 1024;

fn converter() -> SincFixedIn<f32> {
    let params = SincInterpolationParameters {
        sinc_len: 256,
        f_cutoff: 0.95,
        interpolation: SincInterpolationType::Linear,
        oversampling_factor: 256,
        window: WindowFunction::BlackmanHarris2,
    };
    SincFixedIn::<f32>::new(SINK_RATE as f64 / SOURCE_RATE as f64, 2.0, params, CHUNK, 2).unwrap()
}

fn tone(frame: usize, hz: f32, amplitude: f32) -> f32 {
    let t = frame as f32 / SOURCE_RATE as f32;
    (t * hz * 2.0 * std::f32::consts::PI).sin() * amplitude
}

/// One captured buffer of four interleaved binary32 channels.
fn capture_buffer(first_frame: usize, frames: usize) -> Vec<u8> {
    let mut bytes = Vec::new();
    for f in first_frame..first_frame + frames {
        for sample in [tone(f, 1000.0, 0.9), tone(f, 1500.0, 0.8), tone(f, 440.0, 0.5), tone(f, 880.0, 0.25)] {
            bytes.extend_from_slice(&sample.to_le_bytes());
        }
    }
    bytes
}

/// Filters that weigh their input by one and nothing else.
fn plain() -> FilterDesign {
    let pass = Coefficients { b0: 0x3f80_0000, b1: 0, b2: 0, a1: 0, a2: 0 };
    FilterDesign { eq: EqDesign { low_shelf: pass, mid_peak: pass, high_shelf: pass }, highpass: pass }
}

fn route(words: &[u32], channels: u16, state: &RoutingState, chain: &mut DspChain) -> Vec<u32> {
    let volume = effective_volume(state.master_volume, 0x3f80_0000, false, false);
    process_channels(
        words,
        channels,
        volume,
        state.swap_channels,
        state.balance,
        &state.left,
        &state.right,
        chain,
    )
}

#[test]
fn rear_pair_of_a_four_channel_source_reaches_the_sink_resampled_and_unchanged() {
    let state = RoutingState::new();
    assert_eq!(state.left.source, ChannelSource::RL);
    assert_eq!(state.right.source, ChannelSource::RR);

    let mut chain = DspChain::new(SINK_RATE, &plain());
    let mut rs = converter();
    let mut feed = ChunkAccumulator::new();
    let mut transport = Transport::new(transport_capacity(SINK_RATE)).unwrap();
    let mut played: Vec<f32> = Vec::new();

    let buffers = 12;
    let frames_per_buffer = 960;
    for b in 0..buffers {
        let bytes = capture_buffer(b * frames_per_buffer, frames_per_buffer);
        let words = bytes_to_f32(&bytes, 4);
        assert_eq!(words.len(), frames_per_buffer * 4);
        let stereo = route(&words, 4, &state, &mut chain);
        assert_eq!(stereo.len(), frames_per_buffer * 2);
        feed.extend_interleaved(&stereo);
        while let Some(chunk) = feed.take_chunk(rs.input_frames_next()) {
            let left: Vec<f32> = chunk.left.iter().map(|w| f32::from_bits(*w)).collect();
            let right: Vec<f32> = chunk.right.iter().map(|w| f32::from_bits(*w)).collect();
            let resampled = rs.process(&[left, right], None).unwrap();
            for i in 0..resampled[0].len() {
                let frame = chain.process(resampled[0][i].to_bits(), resampled[1][i].to_bits());
                assert_eq!(transport.push(frame.left), PushOutcome::Accepted);
                assert_eq!(transport.push(frame.right), PushOutcome::Accepted);
            }
            while let Some(w) = transport.pop() {
                played.push(f32::from_bits(w));
            }
        }
    }
    let total = buffers * frames_per_buffer;
    assert_eq!(feed.pending(), total % CHUNK);

    // The same converter fed the rear pair directly.
    let mut direct = converter();
    let mut expected: Vec<f32> = Vec::new();
    for c in 0..total / CHUNK {
        let left: Vec<f32> = (c * CHUNK..(c + 1) * CHUNK).map(|f| tone(f, 440.0, 0.5)).collect();
        let right: Vec<f32> = (c * CHUNK..(c + 1) * CHUNK).map(|f| tone(f, 880.0, 0.25)).collect();
        let out = direct.process(&[left, right], None).unwrap();
        for i in 0..out[0].len() {
            expected.push(out[0][i]);
            expected.push(out[1][i]);
        }
    }
    assert_eq!(played.len(), expected.len());
    for (got, want) in played.iter().zip(expected.iter()) {
        assert_eq!(got.to_bits(), want.to_bits());
    }

    // The stream runs at the sink's rate and keeps the level of the rear pair.
    let out_frames = played.len() / 2;
    let ideal = (total / CHUNK * CHUNK) as f64 * SINK_RATE as f64 / SOURCE_RATE as f64;
    assert!((out_frames as f64 - ideal).abs() <= 256.0, "{out_frames} frames");
    let settled = &played[2 * 1000..];
    let peak_left = settled.iter().step_by(2).fold(0.0f32, |m, x| m.max(x.abs()));
    let peak_right = settled.iter().skip(1).step_by(2).fold(0.0f32, |m, x| m.max(x.abs()));
    assert!((peak_left - 0.5).abs() < 0.01, "{peak_left}");
    assert!((peak_right - 0.25).abs() < 0.01, "{peak_right}");
}

#[test]
fn unequal_rates_are_the_only_reason_to_convert() {
    // With equal rates the routed frames go to the transport directly.
    let state = RoutingState::new();
    let mut chain = DspChain::new(SOURCE_RATE, &plain());
    let mut transport = Transport::new(transport_capacity(SOURCE_RATE)).unwrap();
    let bytes = capture_buffer(0, 480);
    let stereo = route(&bytes_to_f32(&bytes, 4), 4, &state, &mut chain);
    for frame in stereo.chunks(2) {
        let out = chain.process(frame[0], frame[1]);
        assert_eq!(transport.push(out.left), PushOutcome::Accepted);
        assert_eq!(transport.push(out.right), PushOutcome::Accepted);
    }
    for f in 0..480 {
        assert_eq!(transport.pop(), Some(tone(f, 440.0, 0.5).to_bits()));
        assert_eq!(transport.pop(), Some(tone(f, 880.0, 0.25).to_bits()));
    }
    assert_eq!(transport.pop(), None);
}
