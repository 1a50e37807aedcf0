use gyromouse::binary64::Binary64;
use gyromouse::config::{GyroSettings, GyroSpace};
use gyromouse::engine::motion_wake::MotionWake;
use gyromouse::time::Duration;

fn bits(x: f64) -> Binary64 {
    Binary64 { bits: x.to_bits() }
}

fn settings(enabled: bool, wake: f64, sleep: f64, dwell_ms: u64) -> GyroSettings {
    GyroSettings {
        space: GyroSpace::Local,
        invert: (false, false),
        smooth_threshold: bits(0.),
        smooth_time: ms(125),
        cutoff_speed: bits(0.),
        cutoff_recovery: bits(0.),
        precision_enabled: false,
        precision_enter_speed: bits(3.),
        precision_exit_speed: bits(8.),
        motion_wake_enabled: enabled,
        motion_wake_speed: bits(wake),
        motion_sleep_speed: bits(sleep),
        motion_sleep_dwell: ms(dwell_ms),
    }
}

fn ms(n: u64) -> Duration {
    Duration::from_millis(n)
}

fn update(m: &mut MotionWake, s: &GyroSettings, speed: f64, dt: Duration) -> bool {
    m.update(s, bits(speed), dt)
}

#[test]
fn initial_state_asleep() {
    // Starts asleep so the cursor never jumps on launch.
    assert!(!MotionWake::default().awake);
}

#[test]
fn disabled_transparent() {
    // Disabled = always awake + dwell cleared + transparent gate (NOT "no
    // state change"): this is the root of default-OFF bit-identical.
    let mut m = MotionWake::default();
    let s = settings(false, 8., 3., 500);
    assert!(update(&mut m, &s, 0., ms(16))); // still input, yet awake
    assert!(m.awake);
    m.still_for = ms(999); // stale dwell from a prior enabled run
    assert!(update(&mut m, &s, 0., ms(16)));
    assert_eq!(m.still_for, Duration::zero()); // cleared
}

#[test]
fn wakes_above_wake_speed() {
    let mut m = MotionWake::default(); // asleep
    assert!(update(&mut m, &settings(true, 8., 3., 500), 9., ms(16)));
    assert!(m.awake);
}

#[test]
fn stays_asleep_below_wake() {
    // In the (sleep 3, wake 8) band: not enough to wake from sleep.
    let mut m = MotionWake::default();
    assert!(!update(&mut m, &settings(true, 8., 3., 500), 5., ms(16)));
    assert!(!m.awake);
}

#[test]
fn dwell_required_to_sleep() {
    let s = settings(true, 8., 3., 100);
    let mut m = MotionWake::default();
    update(&mut m, &s, 50., ms(16)); // wake
    assert!(m.awake);
    for _ in 0..5 {
        update(&mut m, &s, 0., ms(16)); // 80ms < 100ms dwell -> still awake
    }
    assert!(m.awake);
    update(&mut m, &s, 0., ms(40)); // total 120ms >= 100ms -> sleep
    assert!(!m.awake);
}

#[test]
fn motion_resets_dwell() {
    let s = settings(true, 8., 3., 100);
    let mut m = MotionWake::default();
    update(&mut m, &s, 50., ms(16)); // wake
    update(&mut m, &s, 0., ms(60)); // 60ms still
    assert!(m.awake);
    update(&mut m, &s, 50., ms(16)); // real motion resets dwell
    assert_eq!(m.still_for, Duration::zero());
    update(&mut m, &s, 0., ms(60)); // only 60ms again -> still awake
    assert!(m.awake);
}

#[test]
fn hysteresis_band_holds_awake() {
    // Awake + speed in (sleep, wake) -> stays awake, dwell not counting.
    let s = settings(true, 8., 3., 100);
    let mut m = MotionWake::default();
    update(&mut m, &s, 50., ms(16)); // awake
    assert!(update(&mut m, &s, 5., ms(16)));
    assert_eq!(m.still_for, Duration::zero());
    assert!(m.awake);
}

#[test]
fn sleep_clamped_to_wake_when_inverted() {
    // Inverted config sleep(9) > wake(8): use-time clamp makes sleep = 8.
    let s = settings(true, 8., 9., 100);
    let mut m = MotionWake::default();
    update(&mut m, &s, 50., ms(16)); // awake
    assert!(update(&mut m, &s, 8.5, ms(16))); // >= clamped sleep -> dwell resets, awake
    assert_eq!(m.still_for, Duration::zero());
    update(&mut m, &s, 1., ms(200)); // < sleep, past dwell -> sleep
    assert!(!m.awake);
}

#[test]
fn non_finite_speed_parked() {
    // NaN/inf live readings are treated as parked (0), never as wake motion.
    let s = settings(true, 8., 3., 100);
    let mut m = MotionWake::default(); // asleep
    assert!(!update(&mut m, &s, f64::NAN, ms(16)));
    assert!(!update(&mut m, &s, f64::INFINITY, ms(16)));
    assert!(!m.awake);
}

#[test]
fn engine_negative_speed_clamped() {
    let s = settings(true, 8., 3., 100);
    let mut m = MotionWake::default();
    update(&mut m, &s, 50., ms(16)); // awake
    update(&mut m, &s, -5., ms(200)); // negative clamps to 0 -> past dwell -> sleep
    assert!(!m.awake);
}

#[test]
fn wake_speed_itself_does_not_wake() {
    let s = settings(true, 8., 3., 100);
    let mut m = MotionWake::default();
    assert!(!update(&mut m, &s, 8., ms(16)));
    assert!(update(&mut m, &s, 8.000001, ms(16)));
}

#[test]
fn sleep_speed_itself_is_no_stillness() {
    let s = settings(true, 8., 3., 100);
    let mut m = MotionWake::default();
    update(&mut m, &s, 50., ms(16));
    assert!(update(&mut m, &s, 3., ms(500)));
    assert_eq!(m.still_for, Duration::zero());
    assert!(!update(&mut m, &s, 2.999, ms(100)));
}

#[test]
fn dwell_is_reached_exactly() {
    let s = settings(true, 8., 3., 100);
    let mut m = MotionWake::default();
    update(&mut m, &s, 50., ms(16));
    assert!(update(&mut m, &s, 0., ms(99)));
    assert!(!update(&mut m, &s, 0., ms(1)));
    assert_eq!(m.still_for, ms(100));
}

#[test]
fn stillness_saturates() {
    let s = settings(true, 8., 3., u64::MAX);
    let mut m = MotionWake::default();
    update(&mut m, &s, 50., ms(16));
    m.still_for = Duration::new(u64::MAX, 999_999_999);
    assert!(!update(&mut m, &s, 0., ms(5)));
    assert_eq!(m.still_for, Duration::new(u64::MAX, 999_999_999));
}

#[test]
fn negative_infinity_is_stillness() {
    let s = settings(true, 8., 3., 100);
    let mut m = MotionWake::default();
    update(&mut m, &s, 50., ms(16));
    assert!(!update(&mut m, &s, f64::NEG_INFINITY, ms(100)));
}
