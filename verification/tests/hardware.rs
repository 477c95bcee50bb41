//! The chain and the router against the same computations in hardware
//! floats.

use split51::design::{
    angular_frequency, eq_design, gain_exponent, high_shelf, highpass, low_shelf, peaking,
    BandInput,
};
use split51::dsp::{DspChain, FilterDesign};
use split51::filter::{Biquad, Coefficients, EqDesign, ThreeBandEq};
use split51::meter::{decibels, LevelMeter, ATTACK, PEAK_DECAY, RELEASE};
use split51::router::{process_channels, ChannelSettings, ChannelSource};

use std::f32::consts::PI;

#[derive(Clone)]
struct FloatBiquad {
    b0: f32,
    b1: f32,
    b2: f32,
    a1: f32,
    a2: f32,
    x1: f32,
    x2: f32,
    y1: f32,
    y2: f32,
}

impl FloatBiquad {
    fn low_shelf(freq: f32, gain_db: f32, sample_rate: f32) -> Self {
        let a = 10.0_f32.powf(gain_db / 40.0);
        let w0 = 2.0 * PI * freq / sample_rate;
        let cos_w0 = w0.cos();
        let sin_w0 = w0.sin();
        let alpha = sin_w0 / 2.0 * (2.0_f32).sqrt();

        let a0 = (a + 1.0) + (a - 1.0) * cos_w0 + 2.0 * a.sqrt() * alpha;
        let a1 = -2.0 * ((a - 1.0) + (a + 1.0) * cos_w0);
        let a2 = (a + 1.0) + (a - 1.0) * cos_w0 - 2.0 * a.sqrt() * alpha;
        let b0 = a * ((a + 1.0) - (a - 1.0) * cos_w0 + 2.0 * a.sqrt() * alpha);
        let b1 = 2.0 * a * ((a - 1.0) - (a + 1.0) * cos_w0);
        let b2 = a * ((a + 1.0) - (a - 1.0) * cos_w0 - 2.0 * a.sqrt() * alpha);
        Self::normalised(b0, b1, b2, a0, a1, a2)
    }

    fn high_shelf(freq: f32, gain_db: f32, sample_rate: f32) -> Self {
        let a = 10.0_f32.powf(gain_db / 40.0);
        let w0 = 2.0 * PI * freq / sample_rate;
        let cos_w0 = w0.cos();
        let sin_w0 = w0.sin();
        let alpha = sin_w0 / 2.0 * (2.0_f32).sqrt();

        let a0 = (a + 1.0) - (a - 1.0) * cos_w0 + 2.0 * a.sqrt() * alpha;
        let a1 = 2.0 * ((a - 1.0) - (a + 1.0) * cos_w0);
        let a2 = (a + 1.0) - (a - 1.0) * cos_w0 - 2.0 * a.sqrt() * alpha;
        let b0 = a * ((a + 1.0) + (a - 1.0) * cos_w0 + 2.0 * a.sqrt() * alpha);
        let b1 = -2.0 * a * ((a - 1.0) + (a + 1.0) * cos_w0);
        let b2 = a * ((a + 1.0) + (a - 1.0) * cos_w0 - 2.0 * a.sqrt() * alpha);
        Self::normalised(b0, b1, b2, a0, a1, a2)
    }

    fn peaking(freq: f32, gain_db: f32, q: f32, sample_rate: f32) -> Self {
        let a = 10.0_f32.powf(gain_db / 40.0);
        let w0 = 2.0 * PI * freq / sample_rate;
        let cos_w0 = w0.cos();
        let sin_w0 = w0.sin();
        let alpha = sin_w0 / (2.0 * q);

        let a0 = 1.0 + alpha / a;
        let a1 = -2.0 * cos_w0;
        let a2 = 1.0 - alpha / a;
        let b0 = 1.0 + alpha * a;
        let b1 = -2.0 * cos_w0;
        let b2 = 1.0 - alpha * a;
        Self::normalised(b0, b1, b2, a0, a1, a2)
    }

    fn highpass(freq: f32, q: f32, sample_rate: f32) -> Self {
        let w0 = 2.0 * PI * freq / sample_rate;
        let cos_w0 = w0.cos();
        let sin_w0 = w0.sin();
        let alpha = sin_w0 / (2.0 * q);

        let a0 = 1.0 + alpha;
        let b0 = (1.0 + cos_w0) / 2.0;
        let b1 = -(1.0 + cos_w0);
        let b2 = (1.0 + cos_w0) / 2.0;
        let a1 = -2.0 * cos_w0;
        let a2 = 1.0 - alpha;
        Self::normalised(b0, b1, b2, a0, a1, a2)
    }

    fn normalised(b0: f32, b1: f32, b2: f32, a0: f32, a1: f32, a2: f32) -> Self {
        Self {
            b0: b0 / a0,
            b1: b1 / a0,
            b2: b2 / a0,
            a1: a1 / a0,
            a2: a2 / a0,
            x1: 0.0,
            x2: 0.0,
            y1: 0.0,
            y2: 0.0,
        }
    }

    fn coefficients(&self) -> Coefficients {
        Coefficients {
            b0: self.b0.to_bits(),
            b1: self.b1.to_bits(),
            b2: self.b2.to_bits(),
            a1: self.a1.to_bits(),
            a2: self.a2.to_bits(),
        }
    }

    fn process(&mut self, input: f32) -> f32 {
        let output = self.b0 * input + self.b1 * self.x1 + self.b2 * self.x2
            - self.a1 * self.y1
            - self.a2 * self.y2;

        self.x2 = self.x1;
        self.x1 = input;
        self.y2 = self.y1;
        self.y1 = output;

        output
    }
}

struct FloatEq {
    low_shelf: FloatBiquad,
    mid_peak: FloatBiquad,
    high_shelf: FloatBiquad,
}

impl FloatEq {
    fn new(low_db: f32, mid_db: f32, high_db: f32, sample_rate: f32) -> Self {
        Self {
            low_shelf: FloatBiquad::low_shelf(200.0, low_db, sample_rate),
            mid_peak: FloatBiquad::peaking(1000.0, mid_db, 1.0, sample_rate),
            high_shelf: FloatBiquad::high_shelf(4000.0, high_db, sample_rate),
        }
    }

    fn design(&self) -> EqDesign {
        EqDesign {
            low_shelf: self.low_shelf.coefficients(),
            mid_peak: self.mid_peak.coefficients(),
            high_shelf: self.high_shelf.coefficients(),
        }
    }

    fn process(&mut self, sample: f32) -> f32 {
        let s = self.low_shelf.process(sample);
        let s = self.mid_peak.process(s);
        self.high_shelf.process(s)
    }
}

struct FloatDelay {
    buffer: Vec<f32>,
    write_pos: usize,
    delay_samples: usize,
}

impl FloatDelay {
    fn new(max_delay_samples: usize) -> Self {
        Self { buffer: vec![0.0; max_delay_samples], write_pos: 0, delay_samples: 0 }
    }

    fn set_delay_samples(&mut self, samples: usize) {
        self.delay_samples = samples.min(self.buffer.len());
    }

    fn process(&mut self, sample: f32) -> f32 {
        if self.delay_samples == 0 {
            return sample;
        }
        let read_pos = (self.write_pos + self.buffer.len() - self.delay_samples) % self.buffer.len();
        let output = self.buffer[read_pos];
        self.buffer[self.write_pos] = sample;
        self.write_pos = (self.write_pos + 1) % self.buffer.len();
        output
    }
}

struct FloatUpmixer {
    hp_left: FloatBiquad,
    hp_right: FloatBiquad,
    delay_left: FloatDelay,
    delay_right: FloatDelay,
    strength: f32,
}

impl FloatUpmixer {
    fn new(sample_rate: u32) -> Self {
        let sr = sample_rate as f32;
        let delay_samples = (sr * 0.010) as usize;
        let mut delay_left = FloatDelay::new(delay_samples * 2);
        let mut delay_right = FloatDelay::new(delay_samples * 2);
        delay_left.set_delay_samples(delay_samples);
        delay_right.set_delay_samples(delay_samples);
        Self {
            hp_left: FloatBiquad::highpass(150.0, 0.7, sr),
            hp_right: FloatBiquad::highpass(150.0, 0.7, sr),
            delay_left,
            delay_right,
            strength: 4.0,
        }
    }

    fn process(&mut self, left: f32, right: f32) -> (f32, f32) {
        let hp_l = self.hp_left.process(left);
        let hp_r = self.hp_right.process(right);
        let delayed_l = self.delay_left.process(hp_l);
        let delayed_r = self.delay_right.process(hp_r);
        let rear_l = (delayed_l * 0.9 + delayed_r * 0.1) * self.strength;
        let rear_r = (delayed_r * 0.9 + delayed_l * 0.1) * self.strength;
        (rear_l, rear_r)
    }
}

struct FloatMeter {
    left_rms: f32,
    right_rms: f32,
    left_peak: f32,
    right_peak: f32,
    attack: f32,
    release: f32,
}

impl FloatMeter {
    fn new() -> Self {
        Self {
            left_rms: 0.0,
            right_rms: 0.0,
            left_peak: 0.0,
            right_peak: 0.0,
            attack: 0.01,
            release: 0.001,
        }
    }

    fn process(&mut self, left: f32, right: f32) {
        let left_sq = left * left;
        let right_sq = right * right;

        let coeff = if left_sq > self.left_rms { self.attack } else { self.release };
        self.left_rms += coeff * (left_sq - self.left_rms);

        let coeff = if right_sq > self.right_rms { self.attack } else { self.release };
        self.right_rms += coeff * (right_sq - self.right_rms);

        let left_abs = left.abs();
        let right_abs = right.abs();

        if left_abs > self.left_peak {
            self.left_peak = left_abs;
        } else {
            self.left_peak *= 0.9995;
        }

        if right_abs > self.right_peak {
            self.right_peak = right_abs;
        } else {
            self.right_peak *= 0.9995;
        }
    }
}

struct FloatChain {
    delay_l: FloatDelay,
    delay_r: FloatDelay,
    eq_l: FloatEq,
    eq_r: FloatEq,
    upmixer: FloatUpmixer,
    meter: FloatMeter,
    eq_enabled: bool,
    upmix_enabled: bool,
}

impl FloatChain {
    fn new(sample_rate: u32) -> Self {
        let max_delay = (sample_rate as f32 * 0.2) as usize;
        Self {
            delay_l: FloatDelay::new(max_delay),
            delay_r: FloatDelay::new(max_delay),
            eq_l: FloatEq::new(0.0, 0.0, 0.0, sample_rate as f32),
            eq_r: FloatEq::new(0.0, 0.0, 0.0, sample_rate as f32),
            upmixer: FloatUpmixer::new(sample_rate),
            meter: FloatMeter::new(),
            eq_enabled: false,
            upmix_enabled: false,
        }
    }

    fn process(&mut self, left: f32, right: f32) -> (f32, f32) {
        let mut l = left;
        let mut r = right;
        if self.eq_enabled {
            l = self.eq_l.process(l);
            r = self.eq_r.process(r);
        }
        l = self.delay_l.process(l);
        r = self.delay_r.process(r);
        self.meter.process(l, r);
        (l, r)
    }

    fn get_upmix(&mut self, front_l: f32, front_r: f32) -> (f32, f32) {
        if self.upmix_enabled {
            self.upmixer.process(front_l, front_r)
        } else {
            (0.0, 0.0)
        }
    }
}

struct FloatSettings {
    source: ChannelSource,
    volume: f32,
    muted: bool,
}

fn float_process_channels(
    input: &[f32],
    channels: u16,
    volume: f32,
    swap: bool,
    balance: f32,
    left_ch: &FloatSettings,
    right_ch: &FloatSettings,
    dsp: &mut FloatChain,
) -> Vec<f32> {
    if input.is_empty() || channels == 0 {
        return Vec::new();
    }

    let frames = input.len() / channels as usize;
    let mut output = Vec::with_capacity(frames * 2);

    let left_mult = if balance > 0.0 { 1.0 - balance } else { 1.0 };
    let right_mult = if balance < 0.0 { 1.0 + balance } else { 1.0 };

    let get_channel_idx = |source: ChannelSource, channels: u16| -> usize {
        match source {
            ChannelSource::FL => 0,
            ChannelSource::FR => 1,
            ChannelSource::RL => {
                if channels >= 4 {
                    2
                } else {
                    0
                }
            }
            ChannelSource::RR => {
                if channels >= 4 {
                    3
                } else {
                    1
                }
            }
        }
    };

    for frame in 0..frames {
        let base = frame * channels as usize;
        let fl = input.get(base).copied().unwrap_or(0.0);
        let fr = input.get(base + 1).copied().unwrap_or(0.0);
        let (upmix_l, upmix_r) = dsp.get_upmix(fl, fr);
        let left_idx = get_channel_idx(left_ch.source, channels);
        let right_idx = get_channel_idx(right_ch.source, channels);

        let mut left = if left_ch.muted {
            0.0
        } else {
            input.get(base + left_idx).copied().unwrap_or(0.0) * left_ch.volume
        };

        let mut right = if right_ch.muted {
            0.0
        } else {
            input.get(base + right_idx).copied().unwrap_or(0.0) * right_ch.volume
        };

        left += upmix_l;
        right += upmix_r;

        if swap {
            std::mem::swap(&mut left, &mut right);
        }

        let out_l = (left * volume * left_mult).clamp(-1.0, 1.0);
        let out_r = (right * volume * right_mult).clamp(-1.0, 1.0);
        output.push(out_l);
        output.push(out_r);
    }
    output
}

fn design_for(sample_rate: u32) -> FilterDesign {
    FilterDesign {
        eq: FloatEq::new(0.0, 0.0, 0.0, sample_rate as f32).design(),
        highpass: FloatBiquad::highpass(150.0, 0.7, sample_rate as f32).coefficients(),
    }
}

struct Lcg(u64);

impl Lcg {
    fn next(&mut self) -> u32 {
        self.0 = self.0.wrapping_mul(6364136223846793005).wrapping_add(1442695040888963407);
        (self.0 >> 32) as u32
    }

    /// A sample in [-1, 1).
    fn sample(&mut self) -> f32 {
        (self.next() >> 8) as f32 / 8_388_608.0 - 1.0
    }
}

#[test]
fn meter_constants_are_the_words_of_their_values() {
    assert_eq!(ATTACK, 0.01f32.to_bits());
    assert_eq!(RELEASE, 0.001f32.to_bits());
    assert_eq!(PEAK_DECAY, 0.9995f32.to_bits());
    assert_eq!(split51::upmix::CROSS_FEED_OWN, 0.9f32.to_bits());
    assert_eq!(split51::upmix::CROSS_FEED_OTHER, 0.1f32.to_bits());
    assert_eq!(split51::dsp::HYSTERESIS, 0.1f32.to_bits());
    assert_eq!(split51::upmix::UPMIX_STRENGTH_MAX, 10.0f32.to_bits());
    assert_eq!(split51::upmix::UPMIX_STRENGTH_DEFAULT, 4.0f32.to_bits());
    assert_eq!(split51::dsp::UPMIX_STRENGTH_INITIAL, 0.5f32.to_bits());
}

#[test]
fn biquads_agree_with_float_filters() {
    let mut rng = Lcg(1);
    for (mut model, name) in [
        (FloatBiquad::low_shelf(200.0, 6.0, 48_000.0), "low shelf"),
        (FloatBiquad::high_shelf(4000.0, -12.0, 44_100.0), "high shelf"),
        (FloatBiquad::peaking(1000.0, 3.0, 1.0, 48_000.0), "peaking"),
        (FloatBiquad::highpass(150.0, 0.7, 48_000.0), "highpass"),
    ] {
        let mut filter = Biquad::from_coefficients(&model.coefficients());
        for t in 0..5000 {
            let x = rng.sample();
            let expected = model.process(x);
            assert_eq!(filter.process(x.to_bits()), expected.to_bits(), "{name} at {t}");
        }
        filter.reset();
        assert_eq!((filter.x1, filter.x2, filter.y1, filter.y2), (0, 0, 0, 0));
        assert_eq!(filter.b0, model.b0.to_bits());
    }
}

#[test]
fn a_fresh_biquad_weighs_its_input_by_one() {
    let mut filter = Biquad::new();
    for x in [0.5f32, -0.25, 1.0, 0.0, 0.125] {
        assert_eq!(f32::from_bits(filter.process(x.to_bits())), x);
    }
}

#[test]
fn flat_equalizer_is_an_identity_within_tolerance() {
    for rate in [44_100u32, 48_000] {
        let mut eq = ThreeBandEq::new(&FloatEq::new(0.0, 0.0, 0.0, rate as f32).design());
        let mut last = 0.0f32;
        for _ in 0..2000 {
            last = f32::from_bits(eq.process(1.0f32.to_bits()));
        }
        assert!((last - 1.0).abs() < 1e-3, "{last}");
        let mut rng = Lcg(3);
        let mut eq = ThreeBandEq::new(&FloatEq::new(0.0, 0.0, 0.0, rate as f32).design());
        for _ in 0..2000 {
            let x = rng.sample();
            let y = f32::from_bits(eq.process(x.to_bits()));
            assert!((y - x).abs() < 1e-3, "{x} -> {y}");
        }
    }
}

#[test]
fn equalizer_agrees_with_float_equalizer() {
    let mut rng = Lcg(2);
    let mut model = FloatEq::new(6.0, -3.0, 12.0, 48_000.0);
    let mut eq = ThreeBandEq::new(&model.design());
    for t in 0..5000 {
        let x = rng.sample();
        assert_eq!(eq.process(x.to_bits()), model.process(x).to_bits(), "{t}");
    }
    model = FloatEq::new(-12.0, 0.0, 3.0, 48_000.0);
    eq.set_gains(&model.design());
    for t in 0..1000 {
        let x = rng.sample();
        assert_eq!(eq.process(x.to_bits()), model.process(x).to_bits(), "{t}");
    }
}

fn rms_db(meter: &LevelMeter) -> (f32, f32) {
    let (left, right) = meter.rms_amplitudes();
    (
        f32::from_bits(decibels(f32::from_bits(left).log10().to_bits())),
        f32::from_bits(decibels(f32::from_bits(right).log10().to_bits())),
    )
}

#[test]
fn levels_agree_with_the_float_formulas() {
    assert_eq!(split51::meter::AMPLITUDE_FLOOR, 1e-10f32.to_bits());
    assert_eq!(split51::meter::DB_PER_DECADE, 20.0f32.to_bits());
    assert_eq!(split51::meter::LEVEL_FLOOR, (-60.0f32).to_bits());
    let mut rng = Lcg(12);
    for _ in 0..20_000 {
        let mut meter = LevelMeter::new();
        let scale = f32::from_bits((rng.next() % 70 + 60) << 23);
        meter.left_rms = (rng.sample().abs() * scale).to_bits();
        meter.right_rms = (rng.sample().abs() * scale).to_bits();
        meter.left_peak = (rng.sample().abs() * scale).to_bits();
        meter.right_peak = (rng.sample().abs() * scale).to_bits();
        let (l, r) = rms_db(&meter);
        let left_db = 20.0 * f32::from_bits(meter.left_rms).sqrt().max(1e-10).log10();
        let right_db = 20.0 * f32::from_bits(meter.right_rms).sqrt().max(1e-10).log10();
        assert_eq!((l.to_bits(), r.to_bits()), (left_db.max(-60.0).to_bits(), right_db.max(-60.0).to_bits()));
        let (pl, pr) = meter.peak_amplitudes();
        let left_db = 20.0 * f32::from_bits(meter.left_peak).max(1e-10).log10();
        let right_db = 20.0 * f32::from_bits(meter.right_peak).max(1e-10).log10();
        assert_eq!(decibels(f32::from_bits(pl).log10().to_bits()), left_db.max(-60.0).to_bits());
        assert_eq!(decibels(f32::from_bits(pr).log10().to_bits()), right_db.max(-60.0).to_bits());
    }
    let silent = LevelMeter::new();
    assert_eq!(rms_db(&silent), (-60.0, -60.0));
    assert_eq!(decibels(f32::NAN.to_bits()), (-60.0f32).to_bits());
}

#[test]
fn test_level_meter() {
    let mut meter = LevelMeter::new();
    for _ in 0..1000 {
        meter.process(0.5f32.to_bits(), 0.5f32.to_bits());
    }
    let (l, r) = rms_db(&meter);
    // 0.5 amplitude = ~-6 dB
    assert!(l > -10.0 && l < -4.0);
    assert!(r > -10.0 && r < -4.0);
}

#[test]
fn meter_agrees_with_float_meter() {
    let mut rng = Lcg(4);
    let mut model = FloatMeter::new();
    let mut meter = LevelMeter::new();
    for t in 0..20_000 {
        let scale = if (t / 2000) % 2 == 0 { 1.0 } else { 0.01 };
        let l = rng.sample() * scale;
        let r = rng.sample() * scale;
        model.process(l, r);
        meter.process(l.to_bits(), r.to_bits());
        assert_eq!(meter.left_rms, model.left_rms.to_bits(), "{t}");
        assert_eq!(meter.right_rms, model.right_rms.to_bits(), "{t}");
        assert_eq!(meter.left_peak, model.left_peak.to_bits(), "{t}");
        assert_eq!(meter.right_peak, model.right_peak.to_bits(), "{t}");
    }
    assert_eq!(meter.attack, model.attack.to_bits());
    assert_eq!(meter.release, model.release.to_bits());
}

#[test]
fn chain_agrees_with_float_chain() {
    let rate = 48_000;
    let mut rng = Lcg(6);
    let mut model = FloatChain::new(rate);
    let mut chain = DspChain::new(rate, &design_for(rate));
    // equalizer on with new gains, a delay of 5 ms
    model.eq_enabled = true;
    model.eq_l = FloatEq::new(6.0, -6.0, 3.0, rate as f32);
    model.eq_r = FloatEq::new(6.0, -6.0, 3.0, rate as f32);
    model.delay_l.set_delay_samples(240);
    model.delay_r.set_delay_samples(240);
    chain.set_eq_enabled(true);
    assert!(chain.eq_needs_update(6.0f32.to_bits(), (-6.0f32).to_bits(), 3.0f32.to_bits()));
    chain.set_eq(
        6.0f32.to_bits(),
        (-6.0f32).to_bits(),
        3.0f32.to_bits(),
        &FloatEq::new(6.0, -6.0, 3.0, rate as f32).design(),
    );
    assert!(chain.delay_needs_update(5.0f32.to_bits()));
    chain.set_delay_ms(5.0f32.to_bits());
    for t in 1..=3000u32 {
        let l = rng.sample();
        let r = rng.sample();
        let expected = model.process(l, r);
        let frame = chain.process(l.to_bits(), r.to_bits());
        assert_eq!((frame.left, frame.right), (expected.0.to_bits(), expected.1.to_bits()), "{t}");
        assert_eq!(frame.publish_levels, t % 256 == 0, "{t}");
    }
    let meter = chain.meter();
    assert_eq!(meter.left_rms, model.meter.left_rms.to_bits());
    assert_eq!(meter.right_peak, model.meter.right_peak.to_bits());
}

#[test]
fn router_agrees_with_float_router() {
    let rate = 48_000;
    let mut rng = Lcg(8);
    for case in 0..24u32 {
        let channels = [1u16, 2, 3, 4, 6, 8][(case % 6) as usize];
        let swap = case % 2 == 1;
        let upmix = case % 3 != 0;
        let balance = [-1.0f32, -0.3, 0.0, 0.25, 1.0, 0.7][(case % 6) as usize];
        let volume = [1.0f32, 0.5, 1.5, 0.75][(case % 4) as usize];
        let sources = [ChannelSource::FL, ChannelSource::FR, ChannelSource::RL, ChannelSource::RR];
        let left = FloatSettings {
            source: sources[(case % 4) as usize],
            volume: [1.0f32, 0.25, 2.0][(case % 3) as usize],
            muted: case % 5 == 4,
        };
        let right = FloatSettings {
            source: sources[((case + 1) % 4) as usize],
            volume: [1.25f32, 1.0][(case % 2) as usize],
            muted: case % 7 == 6,
        };
        let mut model = FloatChain::new(rate);
        let mut chain = DspChain::new(rate, &design_for(rate));
        model.upmix_enabled = upmix;
        chain.set_upmix_enabled(upmix);
        for _buffer in 0..3 {
            let frames = 700 + (rng.next() % 50) as usize;
            let extra = (rng.next() % channels as u32) as usize;
            let input: Vec<f32> =
                (0..frames * channels as usize + extra).map(|_| rng.sample()).collect();
            let words: Vec<u32> = input.iter().map(|x| x.to_bits()).collect();
            let expected = float_process_channels(
                &input, channels, volume, swap, balance, &left, &right, &mut model,
            );
            let got = process_channels(
                &words,
                channels,
                volume.to_bits(),
                swap,
                balance.to_bits(),
                &ChannelSettings { source: left.source, volume: left.volume.to_bits(), muted: left.muted },
                &ChannelSettings { source: right.source, volume: right.volume.to_bits(), muted: right.muted },
                &mut chain,
            );
            assert_eq!(got.len(), expected.len());
            for (i, (g, e)) in got.iter().zip(expected.iter()).enumerate() {
                assert_eq!(*g, e.to_bits(), "case {case}, sample {i}");
                assert!((-1.0..=1.0).contains(&f32::from_bits(*g)));
            }
        }
    }
}

#[test]
fn router_gives_nothing_for_nothing() {
    let mut chain = DspChain::new(48_000, &design_for(48_000));
    let side = ChannelSettings::default();
    assert!(process_channels(&[], 2, 0x3f80_0000, false, 0, &side, &side, &mut chain).is_empty());
    assert!(process_channels(&[1, 2, 3], 0, 0x3f80_0000, false, 0, &side, &side, &mut chain).is_empty());
    assert!(process_channels(&[1, 2, 3], 4, 0x3f80_0000, false, 0, &side, &side, &mut chain).is_empty());
}

fn band(freq: f32, gain_db: f32, sample_rate: f32) -> BandInput {
    let a = 10.0_f32.powf(f32::from_bits(gain_exponent(gain_db.to_bits())));
    let w0 = f32::from_bits(angular_frequency(freq.to_bits(), sample_rate.to_bits()));
    BandInput { amplitude: a.to_bits(), cos: w0.cos().to_bits(), sin: w0.sin().to_bits() }
}

#[test]
fn design_inputs_agree_with_the_float_formulas() {
    for gain_db in [-12.0f32, -6.0, -3.0, 0.0, 0.1, 3.0, 6.0, 12.0] {
        assert_eq!(gain_exponent(gain_db.to_bits()), (gain_db / 40.0).to_bits());
    }
    for rate in [44_100.0f32, 48_000.0, 96_000.0] {
        for freq in [150.0f32, 200.0, 1000.0, 4000.0] {
            assert_eq!(
                angular_frequency(freq.to_bits(), rate.to_bits()),
                (2.0 * PI * freq / rate).to_bits()
            );
        }
    }
    assert_eq!(split51::design::PI, PI.to_bits());
    assert_eq!(split51::design::FORTY, 40.0f32.to_bits());
    assert_eq!(split51::design::TWO, 2.0f32.to_bits());
    assert_eq!(split51::design::NEG_TWO, (-2.0f32).to_bits());
    assert_eq!(split51::design::LOW_SHELF_HZ, 200.0f32.to_bits());
    assert_eq!(split51::design::MID_PEAK_HZ, 1000.0f32.to_bits());
    assert_eq!(split51::design::HIGH_SHELF_HZ, 4000.0f32.to_bits());
    assert_eq!(split51::design::UPMIX_HIGHPASS_HZ, 150.0f32.to_bits());
    assert_eq!(split51::design::UPMIX_HIGHPASS_Q, 0.7f32.to_bits());
}

#[test]
fn designs_agree_with_the_float_cookbook() {
    for rate in [44_100.0f32, 48_000.0, 96_000.0, 8_000.0] {
        for gain_db in [-12.0f32, -6.0, -3.0, 0.0, 0.05, 3.0, 6.0, 12.0] {
            let low = band(200.0, gain_db, rate);
            assert_eq!(
                low_shelf(low.amplitude, low.cos, low.sin),
                FloatBiquad::low_shelf(200.0, gain_db, rate).coefficients(),
                "low shelf {gain_db} dB at {rate}"
            );
            let high = band(4000.0, gain_db, rate);
            assert_eq!(
                high_shelf(high.amplitude, high.cos, high.sin),
                FloatBiquad::high_shelf(4000.0, gain_db, rate).coefficients(),
                "high shelf {gain_db} dB at {rate}"
            );
            let mid = band(1000.0, gain_db, rate);
            assert_eq!(
                peaking(mid.amplitude, mid.cos, mid.sin, 1.0f32.to_bits()),
                FloatBiquad::peaking(1000.0, gain_db, 1.0, rate).coefficients(),
                "peak {gain_db} dB at {rate}"
            );
            assert_eq!(
                eq_design(&low, &mid, &high),
                FloatEq::new(gain_db, gain_db, gain_db, rate).design()
            );
        }
        let pass = band(150.0, 0.0, rate);
        assert_eq!(
            highpass(pass.cos, pass.sin, 0.7f32.to_bits()),
            FloatBiquad::highpass(150.0, 0.7, rate).coefficients(),
            "highpass at {rate}"
        );
    }
}

#[test]
fn designed_biquads_start_with_a_silent_history() {
    let input = band(1000.0, 6.0, 48_000.0);
    let one = 1.0f32.to_bits();
    assert_eq!(
        Biquad::low_shelf(input.amplitude, input.cos, input.sin),
        Biquad::from_coefficients(&low_shelf(input.amplitude, input.cos, input.sin))
    );
    assert_eq!(
        Biquad::high_shelf(input.amplitude, input.cos, input.sin),
        Biquad::from_coefficients(&high_shelf(input.amplitude, input.cos, input.sin))
    );
    assert_eq!(
        Biquad::peaking(input.amplitude, input.cos, input.sin, one),
        Biquad::from_coefficients(&peaking(input.amplitude, input.cos, input.sin, one))
    );
    let pass = Biquad::highpass(input.cos, input.sin, one);
    assert_eq!(pass, Biquad::from_coefficients(&highpass(input.cos, input.sin, one)));
    assert_eq!((pass.x1, pass.x2, pass.y1, pass.y2), (0, 0, 0, 0));
}

#[test]
fn flat_design_feeds_back_what_it_feeds_forward() {
    let low = band(200.0, 0.0, 48_000.0);
    let c = low_shelf(low.amplitude, low.cos, low.sin);
    assert_eq!(f32::from_bits(c.b0), 1.0);
    assert_eq!(c.b1, c.a1);
    assert_eq!(c.b2, c.a2);
}
