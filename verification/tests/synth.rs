use giribeat::synth::{envelope_ratio, lcg_next, noise_bits, SNARE_SEED};

#[test]
fn noise_generator_steps_like_the_lcg() {
    let expected = SNARE_SEED.wrapping_mul(1_664_525).wrapping_add(1_013_904_223);
    assert_eq!(lcg_next(SNARE_SEED), expected);
    assert_eq!(lcg_next(0), 1_013_904_223);
    assert_eq!(noise_bits(0xFFFF_0000), 0xFFFF);
}

#[test]
fn envelope_rises_holds_and_falls() {
    assert_eq!(envelope_ratio(0, 100, 10, 20), (0, 10));
    assert_eq!(envelope_ratio(5, 100, 10, 20), (5, 10));
    assert_eq!(envelope_ratio(50, 100, 10, 20), (1, 1));
    assert_eq!(envelope_ratio(80, 100, 10, 20), (20, 20));
    assert_eq!(envelope_ratio(99, 100, 10, 20), (1, 20));
    assert_eq!(envelope_ratio(5, 15, 0, 20), (1, 1));
}
