use pngtuber_core::level::{clamp_gain, meter_level_permille, GAIN_FLOOR_UNITS};

#[test]
fn silence_clamps_to_the_floor() {
    // A zero gain and a gain at the floor itself clamp to the same value.
    assert_eq!(clamp_gain(0), clamp_gain(GAIN_FLOOR_UNITS as i64));
    assert_eq!(clamp_gain(0), 1);
}

#[test]
fn clamp_discards_the_sign() {
    assert_eq!(clamp_gain(-500), clamp_gain(500));
    assert_eq!(clamp_gain(-500), 500);
    assert_eq!(clamp_gain(-1), clamp_gain(1));
    assert_eq!(clamp_gain(i64::MIN + 1), clamp_gain(i64::MAX));
}

#[test]
fn clamp_keeps_audible_gains() {
    assert_eq!(clamp_gain(100000), 100000);
    assert_eq!(clamp_gain(2), 2);
    assert_eq!(clamp_gain(i64::MIN), 9223372036854775808u64);
}

#[test]
fn meter_spans_minus_sixty_to_zero() {
    assert_eq!(meter_level_permille(-60000), 0);
    assert_eq!(meter_level_permille(-90000), 0);
    assert_eq!(meter_level_permille(-30000), 500);
    assert_eq!(meter_level_permille(0), 1000);
    assert_eq!(meter_level_permille(6000), 1100);
}
