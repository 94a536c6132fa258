use pngtuber_core::talking::{TalkingState, RELEASE_HOLD_MICROS};

#[test]
fn attack_is_instantaneous() {
    // Starting quiet, one tick at -30 dB (above the -40 dB threshold) with
    // any elapsed time makes the state talking at once.
    let mut t = TalkingState::new();
    assert!(!t.is_talking());
    t.tick(-30000, 999999);
    assert!(t.is_talking());
    assert_eq!(t.release_left_micros(), RELEASE_HOLD_MICROS);
}

#[test]
fn release_needs_the_full_hold() {
    // After going loud once, quiet ticks whose elapsed times sum to exactly
    // 0.25 s end the talking state — but a microsecond short of that the
    // state is still talking.
    let mut t = TalkingState::new();
    t.tick(-30000, 10);
    t.tick(-50000, 100000);
    assert!(t.is_talking());
    t.tick(-50000, 149999);
    assert!(t.is_talking());
    assert_eq!(t.release_left_micros(), 1);
    t.tick(-50000, 1);
    assert!(!t.is_talking());
    assert_eq!(t.release_left_micros(), 0);
}

#[test]
fn release_at_exactly_the_hold() {
    let mut t = TalkingState::new();
    t.tick(-30000, 10);
    t.tick(-50000, RELEASE_HOLD_MICROS);
    assert!(!t.is_talking());
}

#[test]
fn quiet_stays_quiet() {
    let mut t = TalkingState::new();
    t.tick(-50000, 123456);
    assert!(!t.is_talking());
    assert_eq!(t.release_left_micros(), 0);
}

#[test]
fn loud_tick_rewinds_the_hold() {
    let mut t = TalkingState::new();
    t.tick(-30000, 10);
    t.tick(-50000, 200000);
    assert!(t.is_talking());
    t.tick(-30000, 40);
    assert_eq!(t.release_left_micros(), RELEASE_HOLD_MICROS);
    t.tick(-50000, 249999);
    assert!(t.is_talking());
}

#[test]
fn threshold_itself_is_not_loud() {
    // -40 dB exactly does not exceed the threshold.
    let mut t = TalkingState::new();
    t.tick(-40000, 10);
    assert!(!t.is_talking());
}
