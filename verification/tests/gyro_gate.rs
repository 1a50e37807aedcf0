use gyromouse::binary64::Binary64;
use gyromouse::config::{GyroSettings, GyroSpace};
use gyromouse::engine::gyro::{Gyro, SpaceMapping, SubFrame};
use gyromouse::mouse::MouseMovement;
use gyromouse::time::Duration;
use gyromouse::vector::Vec2;

fn bits(x: f64) -> Binary64 {
    Binary64 { bits: x.to_bits() }
}

fn num(b: Binary64) -> f64 {
    f64::from_bits(b.bits)
}

fn ms(n: u64) -> Duration {
    Duration::from_millis(n)
}

fn secs(d: Duration) -> f64 {
    std::time::Duration::from_nanos(d.as_nanos() as u64).as_secs_f64()
}

/// The raw angular speed of a sample whose movement is horizontal.
fn motion(speed: f64) -> f64 {
    speed
}

fn local_settings() -> GyroSettings {
    GyroSettings {
        space: GyroSpace::Local,
        invert: (false, false),
        smooth_threshold: bits(0.),
        smooth_time: ms(125),
        cutoff_speed: bits(0.),
        cutoff_recovery: bits(0.),
        precision_enabled: false,
        precision_enter_speed: bits(3.),
        precision_exit_speed: bits(8.),
        motion_wake_enabled: false,
        motion_wake_speed: bits(8.),
        motion_sleep_speed: bits(3.),
        motion_sleep_dwell: ms(500),
    }
}

/// Feeds a frame of horizontal samples, each filtered with a sensitivity of one
/// and no smoothing, and sums up what goes out.
fn handle_frame(gyro: &mut Gyro, settings: &GyroSettings, speeds: &[f64], dt: Duration) -> MouseMovement {
    let each = match Gyro::sub_frame_dt(dt, speeds.len() as u32) {
        Some(each) => secs(each),
        None => 0.,
    };
    let frames: Vec<SubFrame> = speeds
        .iter()
        .map(|speed| SubFrame {
            speed: bits(*speed),
            offset: MouseMovement::from_vec_deg(Vec2 { x: bits(*speed * each), y: bits(0.) }),
        })
        .collect();
    let mut sum = (0., 0.);
    for m in gyro.handle_frame(settings, &frames, dt) {
        sum = (sum.0 + num(m.x), sum.1 + num(m.y));
    }
    MouseMovement::new(bits(sum.0), bits(sum.1))
}

/// Switching the gyro off overrides the clutch: motion never switches it on
/// again.
#[test]
fn estop_overrides_motion_wake() {
    let mut settings = local_settings();
    settings.motion_wake_enabled = true;
    settings.motion_wake_speed = bits(0.); // any motion would wake it
    let mut gyro = Gyro::new(&settings);
    gyro.enabled = false;
    assert_eq!(
        handle_frame(&mut gyro, &settings, &[motion(50.)], ms(16)),
        MouseMovement::zero()
    );
    assert!(!gyro.enabled);
    gyro.enabled = true;
    assert_ne!(
        handle_frame(&mut gyro, &settings, &[motion(50.)], ms(16)),
        MouseMovement::zero()
    );
}

/// With the clutch off, which is the default, everything goes out.
#[test]
fn default_off_preserves_movement_exactly() {
    let settings = local_settings();
    assert!(!settings.motion_wake_enabled);
    let mut gyro = Gyro::new(&settings);
    let dt = ms(10);
    let out = handle_frame(&mut gyro, &settings, &[motion(100.)], dt);
    let expected = MouseMovement::from_vec_deg(Vec2 { x: bits(100. * secs(dt)), y: bits(0.) });
    assert_eq!(out, expected);
    gyro.enabled = false;
    assert_eq!(
        handle_frame(&mut gyro, &settings, &[motion(100.)], dt),
        MouseMovement::zero()
    );
}

/// After the dwell the cursor is still even for real motion below the wake
/// speed, and motion above it wakes it again.
#[test]
fn auto_stop_then_rewake() {
    let mut settings = local_settings();
    settings.motion_wake_enabled = true;
    settings.motion_wake_speed = bits(8.);
    settings.motion_sleep_speed = bits(3.);
    settings.motion_sleep_dwell = ms(100);
    let mut gyro = Gyro::new(&settings); // starts asleep
    let dt = ms(16);
    assert_ne!(
        handle_frame(&mut gyro, &settings, &[motion(50.)], dt), // wake
        MouseMovement::zero()
    );
    for _ in 0..8 {
        handle_frame(&mut gyro, &settings, &[motion(0.)], dt); // 128ms still >= dwell
    }
    // asleep: a real in-band motion (sleep < 5 < wake) stays frozen
    assert_eq!(
        handle_frame(&mut gyro, &settings, &[motion(5.)], dt),
        MouseMovement::zero()
    );
    // above-wake motion re-wakes -> moves again
    assert_ne!(
        handle_frame(&mut gyro, &settings, &[motion(50.)], dt),
        MouseMovement::zero()
    );
}

#[test]
fn empty_motions_returns_zero() {
    let settings = local_settings();
    let mut gyro = Gyro::new(&settings);
    assert_eq!(
        handle_frame(&mut gyro, &settings, &[], ms(16)),
        MouseMovement::zero()
    );
}

fn motion_wake_settings() -> GyroSettings {
    let mut s = local_settings();
    s.motion_wake_enabled = true;
    s.motion_wake_speed = bits(8.);
    s.motion_sleep_speed = bits(3.);
    s.motion_sleep_dwell = ms(1); // a single still sample sleeps it
    s
}

#[test]
fn multi_motion_keeps_awake_subframe_when_batch_ends_asleep() {
    // awake -> sleep within one batch: the earlier awake movement must still be
    // emitted.
    let settings = motion_wake_settings();
    let mut gyro = Gyro::new(&settings);
    assert_ne!(
        handle_frame(&mut gyro, &settings, &[motion(50.)], ms(16)), // wake first
        MouseMovement::zero()
    );
    let out = handle_frame(&mut gyro, &settings, &[motion(50.), motion(0.)], ms(16));
    assert_ne!(out, MouseMovement::zero());
}

#[test]
fn multi_motion_suppresses_asleep_subframe_when_batch_ends_awake() {
    // asleep -> wake within one batch: the leading asleep sample must contribute
    // nothing; only the waking one emits.
    let settings = motion_wake_settings();
    let mut g1 = Gyro::new(&settings); // asleep
    let batch_out = handle_frame(&mut g1, &settings, &[motion(5.), motion(50.)], ms(16));
    let mut g2 = Gyro::new(&settings); // asleep
    let ref_out = handle_frame(&mut g2, &settings, &[motion(50.)], ms(8)); // dt 16/2
    assert_eq!(batch_out, ref_out);
    assert_ne!(batch_out, MouseMovement::zero());
}

#[test]
fn spaces_have_their_mappings() {
    let mut s = local_settings();
    assert_eq!(Gyro::new(&s).space_mapper, SpaceMapping::Local);
    s.space = GyroSpace::WorldTurn;
    assert_eq!(Gyro::new(&s).space_mapper, SpaceMapping::World);
    s.space = GyroSpace::PlayerTurn;
    assert_eq!(Gyro::new(&s).space_mapper, SpaceMapping::Player);
}

#[test]
fn samples_share_the_time_of_a_frame() {
    assert_eq!(Gyro::sub_frame_dt(ms(16), 3), Some(Duration::new(0, 5_333_333)));
    assert_eq!(Gyro::sub_frame_dt(ms(16), 0), None);
}

#[test]
fn clutch_off_keeps_order() {
    let settings = local_settings();
    let mut gyro = Gyro::new(&settings);
    let frames: Vec<SubFrame> = (1..4)
        .map(|i| SubFrame {
            speed: bits(0.),
            offset: MouseMovement::new(bits(i as f64), bits(-(i as f64))),
        })
        .collect();
    let out = gyro.handle_frame(&settings, &frames, ms(9));
    let xs: Vec<f64> = out.iter().map(|m| num(m.x)).collect();
    assert_eq!(xs, vec![1., 2., 3.]);
}
