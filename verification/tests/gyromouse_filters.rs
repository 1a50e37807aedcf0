use gyromouse::binary64::Binary64;
use gyromouse::config::{GyroSettings, GyroSpace};
use gyromouse::gyromouse::{
    accelerates, get_sign, tightens, unit_clamp, FilterPlan, GyroMouse, PrecisionMode,
};
use gyromouse::time::Duration;
use gyromouse::vector::Vec2;

fn bits(x: f64) -> Binary64 {
    Binary64 { bits: x.to_bits() }
}

fn num(b: Binary64) -> f64 {
    f64::from_bits(b.bits)
}

fn settings(enabled: bool, enter: f64, exit: f64) -> GyroSettings {
    GyroSettings {
        space: GyroSpace::Local,
        invert: (false, false),
        smooth_threshold: bits(0.),
        smooth_time: Duration::from_millis(125),
        cutoff_speed: bits(0.),
        cutoff_recovery: bits(0.),
        precision_enabled: enabled,
        precision_enter_speed: bits(enter),
        precision_exit_speed: bits(exit),
        motion_wake_enabled: false,
        motion_wake_speed: bits(8.),
        motion_sleep_speed: bits(3.),
        motion_sleep_dwell: Duration::from_millis(500),
    }
}

#[test]
fn disabled_never_active() {
    let mut p = PrecisionMode::default();
    assert!(!p.update(&settings(false, 3., 8.), bits(0.)));
    assert!(!p.active);
}

#[test]
fn enter_below_enter_speed() {
    let mut p = PrecisionMode::default();
    assert!(p.update(&settings(true, 3., 8.), bits(2.)));
}

#[test]
fn exit_above_exit_speed() {
    let mut p = PrecisionMode::default();
    let s = settings(true, 3., 8.);
    p.update(&s, bits(2.)); // active
    assert!(!p.update(&s, bits(9.)));
}

#[test]
fn hysteresis_band_holds_state() {
    let s = settings(true, 3., 8.);
    let mut inactive = PrecisionMode::default();
    assert!(!inactive.update(&s, bits(5.))); // stays inactive in the band
    let mut active = PrecisionMode::default();
    active.update(&s, bits(1.)); // active
    assert!(active.update(&s, bits(5.))); // stays active in the band
}

#[test]
fn exit_clamped_to_enter_when_inverted() {
    // exit < enter -> use-time clamp makes exit = enter; speed 2 < 8 -> active
    let mut p = PrecisionMode::default();
    assert!(p.update(&settings(true, 8., 3.), bits(2.)));
}

#[test]
fn gyromouse_negative_speed_clamped() {
    // negative speed clamps to 0 (treated as parked).
    let mut p = PrecisionMode::default();
    assert!(p.update(&settings(true, 3., 8.), bits(-5.)));
}

#[test]
fn speeds_on_the_edges_keep_the_state() {
    let s = settings(true, 3., 8.);
    let mut p = PrecisionMode::default();
    assert!(!p.update(&s, bits(3.)));
    assert!(p.update(&s, bits(2.9)));
    assert!(p.update(&s, bits(8.)));
    assert!(!p.update(&s, bits(8.1)));
}

#[test]
fn no_number_for_a_speed_is_stillness() {
    let s = settings(true, 3., 8.);
    let mut p = PrecisionMode::default();
    assert!(p.update(&s, bits(f64::NAN)));
}

#[test]
fn switching_off_forgets_precision() {
    let mut p = PrecisionMode::default();
    assert!(p.update(&settings(true, 3., 8.), bits(1.)));
    assert!(!p.update(&settings(false, 3., 8.), bits(1.)));
    assert!(!p.update(&settings(true, 3., 8.), bits(5.)));
}

#[test]
fn plan_follows_precision() {
    let mut s = settings(true, 3., 8.);
    s.smooth_threshold = bits(2.);
    s.cutoff_recovery = bits(0.5);
    let mut g = GyroMouse::default();
    assert_eq!(
        g.plan(&s, bits(100.), bits(6.), bits(1.5)),
        FilterPlan { precise: false, smooth: Some(bits(2.)), tighten: Some(bits(0.5)) }
    );
    assert!(!g.precision.active);
    assert_eq!(
        g.plan(&s, bits(1.), bits(6.), bits(1.5)),
        FilterPlan { precise: true, smooth: Some(bits(6.)), tighten: Some(bits(1.5)) }
    );
    assert!(g.precision.active);
}

#[test]
fn zero_thresholds_leave_the_filters_off() {
    let s = settings(true, 3., 8.);
    let mut g = GyroMouse::default();
    assert_eq!(
        g.plan(&s, bits(1.), bits(0.), bits(-0.)),
        FilterPlan { precise: true, smooth: None, tighten: None }
    );
}

fn sample(x: f64) -> Vec2 {
    Vec2 { x: bits(x), y: bits(0.) }
}

fn samples(g: &GyroMouse) -> Vec<f64> {
    g.smooth_buffer.iter().map(|v| num(v.x)).collect()
}

#[test]
fn smoothing_buffer_covers_its_time() {
    let mut s = settings(false, 3., 8.);
    s.smooth_time = Duration::from_millis(30);
    let mut g = GyroMouse::default();
    let dt = Duration::from_millis(10);
    g.smooth(&s, sample(1.), dt);
    g.smooth(&s, sample(2.), dt);
    g.smooth(&s, sample(3.), dt);
    assert_eq!(samples(&g), vec![3., 2., 1.]);
    g.smooth(&s, sample(4.), dt);
    assert_eq!(samples(&g), vec![4., 3., 2.]);
    // longer samples fill the time sooner
    g.smooth(&s, sample(5.), Duration::from_millis(16));
    assert_eq!(samples(&g), vec![5.]);
}

#[test]
fn a_sample_longer_than_the_smoothing_time_empties_the_buffer() {
    let mut s = settings(false, 3., 8.);
    s.smooth_time = Duration::from_millis(30);
    let mut g = GyroMouse::default();
    g.smooth(&s, sample(1.), Duration::from_millis(31));
    assert_eq!(samples(&g), Vec::<f64>::new());
}

#[test]
fn signs_follow_inversion() {
    let mut s = settings(false, 3., 8.);
    assert_eq!(get_sign(&s), (1, 1));
    s.invert = (true, false);
    assert_eq!(get_sign(&s), (-1, 1));
    s.invert = (false, true);
    assert_eq!(get_sign(&s), (1, -1));
}

#[test]
fn mixing_factor_is_clamped() {
    assert_eq!(num(unit_clamp(bits(-0.5))), 0.);
    assert_eq!(num(unit_clamp(bits(0.25))), 0.25);
    assert_eq!(num(unit_clamp(bits(7.))), 1.);
    assert_eq!(num(unit_clamp(bits(f64::NAN))), 0.);
}

#[test]
fn tightening_and_acceleration_thresholds() {
    assert!(tightens(bits(1.), bits(2.)));
    assert!(!tightens(bits(2.), bits(2.)));
    assert!(accelerates(bits(0.01)));
    assert!(!accelerates(bits(0.)));
}
