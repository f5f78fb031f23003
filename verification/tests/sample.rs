use eigenplayer::sample::{clamp_level, INFINITY_MAGNITUDE, SIGN_BIT, SILENCE, UNITY};

fn clamped(value: f32) -> f32 {
    f32::from_bits(clamp_level(value.to_bits()))
}

#[test]
fn constants_are_the_words_of_zero_and_one() {
    assert_eq!(SILENCE, 0.0f32.to_bits());
    assert_eq!(UNITY, 1.0f32.to_bits());
    assert_eq!(SIGN_BIT, (-0.0f32).to_bits());
    assert_eq!(INFINITY_MAGNITUDE, f32::INFINITY.to_bits());
}

#[test]
fn clamp_keeps_levels_inside_the_range() {
    assert_eq!(clamped(0.0), 0.0);
    assert_eq!(clamped(0.25), 0.25);
    assert_eq!(clamped(0.5), 0.5);
    assert_eq!(clamped(1.0), 1.0);
    assert_eq!(clamp_level(0.75f32.to_bits()), 0.75f32.to_bits());
}

#[test]
fn clamp_raises_negative_levels_to_zero() {
    assert_eq!(clamp_level((-0.5f32).to_bits()), SILENCE);
    assert_eq!(clamp_level((-3.0f32).to_bits()), SILENCE);
    assert_eq!(clamp_level(f32::NEG_INFINITY.to_bits()), SILENCE);
    assert_eq!(clamp_level((-f32::MIN_POSITIVE).to_bits()), SILENCE);
}

#[test]
fn clamp_lowers_high_levels_to_one() {
    assert_eq!(clamp_level(1.5f32.to_bits()), UNITY);
    assert_eq!(clamp_level(2.0f32.to_bits()), UNITY);
    assert_eq!(clamp_level(f32::MAX.to_bits()), UNITY);
    assert_eq!(clamp_level(f32::INFINITY.to_bits()), UNITY);
    assert_eq!(clamp_level(UNITY + 1), UNITY);
}

#[test]
fn clamp_keeps_negative_zero() {
    assert_eq!(clamp_level((-0.0f32).to_bits()), (-0.0f32).to_bits());
    assert_eq!(clamped(-0.0), 0.0);
}

#[test]
fn clamp_turns_what_is_no_number_into_silence() {
    assert_eq!(clamp_level(f32::NAN.to_bits()), SILENCE);
    assert_eq!(clamp_level((-f32::NAN).to_bits()), SILENCE);
    assert_eq!(clamp_level(0x7fc0_0000), SILENCE);
    assert_eq!(clamp_level(0x7fc0_0001), SILENCE);
    assert_eq!(clamp_level(0xffc0_0001), SILENCE);
    assert_eq!(clamp_level(0x7f80_0001), SILENCE);
    assert_eq!(clamp_level(0xffff_ffff), SILENCE);
    assert_eq!(clamped(f32::NAN), 0.0);
}

#[test]
fn clamp_gives_a_number_in_the_range_for_every_kind_of_word() {
    let mut word: u32 = 0;
    loop {
        let got = clamped(f32::from_bits(word));
        assert!(!got.is_nan(), "word {:#x}", word);
        assert!((0.0..=1.0).contains(&got), "word {:#x} gave {}", word, got);
        match word.checked_add(0x0000_fff1) {
            Some(next) => word = next,
            None => break,
        }
    }
}

#[test]
fn clamp_agrees_with_the_float_clamp_on_a_sweep() {
    let mut word: u32 = 0;
    loop {
        let value = f32::from_bits(word);
        let expected = if value.is_nan() { 0.0 } else { value.clamp(0.0, 1.0) };
        let got = clamped(value);
        assert_eq!(got.to_bits(), expected.to_bits(), "word {:#x}", word);
        match word.checked_add(0x0001_2345) {
            Some(next) => word = next,
            None => break,
        }
    }
}

#[test]
fn clamp_is_idempotent() {
    for value in [-2.0f32, -0.0, 0.0, 0.3, 1.0, 1.0001, 7.5, f32::INFINITY] {
        let once = clamp_level(value.to_bits());
        assert_eq!(clamp_level(once), once);
    }
}
