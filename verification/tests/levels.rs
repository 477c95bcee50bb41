use split51::cadence::Cadence;
use split51::arith::{from_integer, truncate_bits};
use split51::levels::{
    held_code, level_code, level_of, SharedLevels, CODES_PER_DB, CODE_CEILING, FLOOR_OFFSET, LEVEL_CODE_MAX,
};

#[test]
fn level_codes_are_tenths_above_the_floor() {
    assert_eq!(level_code((-60.0f32).to_bits()), 0);
    assert_eq!(level_code((-59.875f32).to_bits()), 1);
    assert_eq!(level_code((-12.375f32).to_bits()), 476);
    assert_eq!(level_code((-6.0f32).to_bits()), 540);
    assert_eq!(level_code(0.0f32.to_bits()), 600);
    assert_eq!(level_code(3.0f32.to_bits()), 600);
    assert_eq!(level_code((-80.0f32).to_bits()), 0);
    assert_eq!(level_code(f32::INFINITY.to_bits()), 600);
    assert_eq!(level_code(f32::NEG_INFINITY.to_bits()), 0);
    assert_eq!(level_code(f32::NAN.to_bits()), 0);
    assert_eq!(LEVEL_CODE_MAX, 600);
    assert_eq!(FLOOR_OFFSET, 60.0f32.to_bits());
    assert_eq!(CODES_PER_DB, 10.0f32.to_bits());
    assert_eq!(CODE_CEILING, 600.0f32.to_bits());
}

#[test]
fn level_code_agrees_with_the_float_encoding() {
    let mut bits: u32 = 0;
    loop {
        let db = f32::from_bits(bits);
        let expected = ((db + 60.0) * 10.0).clamp(0.0, 600.0) as u32;
        assert_eq!(level_code(bits), expected, "{bits:#x}");
        match bits.checked_add(0x0000_7003) {
            Some(next) => bits = next,
            None => break,
        }
    }
    let mut tenths = -700i32;
    while tenths <= 100 {
        let db = tenths as f32 / 10.0;
        let expected = ((db + 60.0) * 10.0).clamp(0.0, 600.0) as u32;
        assert_eq!(level_code(db.to_bits()), expected, "{db}");
        tenths += 1;
    }
}

#[test]
fn truncation_agrees_with_the_float_cast() {
    let mut bits: u32 = 0;
    loop {
        let expected = f32::from_bits(bits) as u32;
        assert_eq!(truncate_bits(bits), expected, "{bits:#x}");
        match bits.checked_add(0x0000_6fff) {
            Some(next) => bits = next,
            None => break,
        }
    }
    for x in [0.0f32, 0.99, 1.0, 1.5, 599.99, 600.0, 16_777_216.0, 4_294_967_040.0, 4_294_967_296.0, -0.5, -2.0] {
        assert_eq!(truncate_bits(x.to_bits()), x as u32, "{x}");
    }
}

#[test]
fn shared_levels_start_at_the_floor() {
    let levels = SharedLevels::new();
    assert_eq!(levels.codes(), (0, 0));
    let (l, r) = levels.get();
    assert_eq!((f32::from_bits(l), f32::from_bits(r)), (-60.0, -60.0));
}

#[test]
fn codes_decode_as_the_float_formula_does() {
    for code in 0..=600u32 {
        assert_eq!(level_of(code), (code as f32 / 10.0 - 60.0).to_bits(), "{code}");
    }
    for code in [601u32, 16_777_217, u32::MAX] {
        assert_eq!(level_of(code), (code as f32 / 10.0 - 60.0).to_bits(), "{code}");
    }
}

#[test]
fn integers_convert_as_the_float_cast_does() {
    let mut n: u32 = 0;
    loop {
        assert_eq!(from_integer(n), (n as f32).to_bits(), "{n}");
        match n.checked_add(65_521) {
            Some(next) => n = next,
            None => break,
        }
    }
    for n in [0u32, 1, 16_777_215, 16_777_216, 16_777_217, 16_777_219, 33_554_433, u32::MAX - 64, u32::MAX] {
        assert_eq!(from_integer(n), (n as f32).to_bits(), "{n}");
    }
}

#[test]
fn shared_levels_hand_back_what_was_published() {
    let levels = SharedLevels::new();
    levels.update((-6.0f32).to_bits(), (-47.75f32).to_bits());
    assert_eq!(levels.codes(), (540, 122));
    let (l, r) = levels.get();
    assert_eq!((f32::from_bits(l), f32::from_bits(r)), (540.0 / 10.0 - 60.0, 122.0 / 10.0 - 60.0));
    levels.update((-70.0f32).to_bits(), 12.0f32.to_bits());
    assert_eq!(levels.codes(), (0, 600));
    let reader = levels.clone();
    levels.update(0.0f32.to_bits(), (-60.0f32).to_bits());
    assert_eq!(reader.codes(), (600, 0));
    let (l, r) = reader.get();
    assert_eq!(f32::from_bits(l), 0.0);
    assert_eq!(f32::from_bits(r), -60.0);
}

#[test]
fn cadence_fires_on_every_nth_tick() {
    let mut cadence = Cadence::new(5);
    let fired: Vec<bool> = (0..12).map(|_| cadence.tick()).collect();
    assert_eq!(
        fired,
        vec![false, false, false, false, true, false, false, false, false, true, false, false]
    );
}

#[test]
fn cadence_of_256_fires_on_the_256th_tick() {
    let mut cadence = Cadence::new(256);
    for k in 1..=1024u32 {
        assert_eq!(cadence.tick(), k % 256 == 0, "{k}");
    }
}

#[test]
fn cadence_of_zero_or_one_fires_always() {
    for period in [0u32, 1] {
        let mut cadence = Cadence::new(period);
        for _ in 0..4 {
            assert!(cadence.tick());
        }
    }
}

#[test]
fn stored_values_are_held_to_the_range_of_the_codes() {
    assert_eq!(held_code(0), 0);
    assert_eq!(held_code(123), 123);
    assert_eq!(held_code(600), 600);
    assert_eq!(held_code(601), 600);
    assert_eq!(held_code(u32::MAX), 600);
}
