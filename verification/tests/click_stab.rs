use gyromouse::binary64::Binary64;
use gyromouse::config::ClickStabSettings;
use gyromouse::engine::click_stab::{click_button_key, ClickStabilizer, MouseButton};
use gyromouse::time::{Duration, Instant};
use gyromouse::vector::Vec2;

fn settings() -> ClickStabSettings {
    ClickStabSettings::default() // enabled, window 60ms, drag dist 40px
}

fn v(x: f64, y: f64) -> (f64, f64) {
    (x, y)
}

fn ms(n: u64) -> Duration {
    Duration::from_millis(n)
}

fn t0() -> Instant {
    Instant::after_origin(Duration::from_secs(50))
}

fn at(t: Instant, d: Duration) -> Instant {
    t.checked_add(d).unwrap()
}

fn bits(x: f64) -> Binary64 {
    Binary64 { bits: x.to_bits() }
}

fn num(b: Binary64) -> f64 {
    f64::from_bits(b.bits)
}

/// Filters a movement, with the sums made in floating point.
fn filter(
    cs: &mut ClickStabilizer,
    s: &ClickStabSettings,
    delta: (f64, f64),
    now: Instant,
) -> (f64, f64) {
    let cand = (num(cs.accum.x) + delta.0, num(cs.accum.y) + delta.1);
    let reach = (cand.0 * cand.0 + cand.1 * cand.1).sqrt();
    let out = cs.filter(
        s,
        Vec2 { x: bits(delta.0), y: bits(delta.1) },
        Vec2 { x: bits(cand.0), y: bits(cand.1) },
        bits(reach),
        now,
    );
    (num(out.x), num(out.y))
}

#[test]
fn idle_passes_through() {
    let mut cs = ClickStabilizer::default();
    let s = settings();
    assert_eq!(filter(&mut cs, &s, v(5., 5.), t0()), v(5., 5.));
    assert!(!cs.suppressing);
}

#[test]
fn disabled_passes_through() {
    let mut cs = ClickStabilizer::default();
    let mut s = settings();
    s.enabled = false;
    let t = t0();
    cs.on_click_down(&s, MouseButton::Left, t);
    assert!(!cs.suppressing);
    assert_eq!(filter(&mut cs, &s, v(5., 0.), at(t, ms(1))), v(5., 0.));
}

#[test]
fn suppress_then_window_drops() {
    let mut cs = ClickStabilizer::default();
    let s = settings();
    let t = t0();
    cs.on_click_down(&s, MouseButton::Left, t);
    assert_eq!(filter(&mut cs, &s, v(3., 0.), at(t, ms(10))), v(0., 0.));
    assert_eq!(filter(&mut cs, &s, v(1., 0.), at(t, s.window)), v(0., 0.)); // window -> drop
    assert!(!cs.suppressing);
    assert_eq!(filter(&mut cs, &s, v(5., 0.), at(t, ms(70))), v(5., 0.)); // passes through
}

#[test]
fn click_up_releases_when_all_buttons_up() {
    let mut cs = ClickStabilizer::default();
    let s = settings();
    let t = t0();
    cs.on_click_down(&s, MouseButton::Left, t);
    assert_eq!(filter(&mut cs, &s, v(2., 0.), at(t, ms(5))), v(0., 0.));
    cs.on_click_up(MouseButton::Left);
    assert!(!cs.suppressing);
    assert_eq!(filter(&mut cs, &s, v(5., 0.), at(t, ms(6))), v(5., 0.));
}

#[test]
fn fast_drag_crosses_distance_flushes() {
    let mut cs = ClickStabilizer::default();
    let s = settings();
    let t = t0();
    cs.on_click_down(&s, MouseButton::Left, t);
    assert_eq!(filter(&mut cs, &s, v(30., 0.), at(t, ms(5))), v(0., 0.));
    assert_eq!(filter(&mut cs, &s, v(20., 0.), at(t, ms(10))), v(50., 0.)); // flush 50 >= 40
    assert!(!cs.suppressing);
}

#[test]
fn double_button_overlap_no_premature_release() {
    let mut cs = ClickStabilizer::default();
    let s = settings();
    let t = t0();
    cs.on_click_down(&s, MouseButton::Left, t);
    cs.on_click_down(&s, MouseButton::Right, at(t, ms(1))); // second button: no re-arm
    assert_eq!(filter(&mut cs, &s, v(3., 0.), at(t, ms(2))), v(0., 0.));
    cs.on_click_up(MouseButton::Right);
    assert!(cs.suppressing); // L still held -> stay suppressing
}

#[test]
fn second_press_during_suppress_does_not_rearm() {
    let mut cs = ClickStabilizer::default();
    let s = settings();
    let t = t0();
    cs.on_click_down(&s, MouseButton::Left, t);
    assert_eq!(filter(&mut cs, &s, v(35., 0.), at(t, ms(5))), v(0., 0.)); // accum (35,0)
    cs.on_click_down(&s, MouseButton::Right, at(t, ms(6))); // must NOT reset accum
    // not re-armed: 35 + 10 = 45 >= 40 -> drag flush
    assert_eq!(filter(&mut cs, &s, v(10., 0.), at(t, ms(7))), v(45., 0.));
}

#[test]
fn exact_distance_boundary_is_drag() {
    let mut cs = ClickStabilizer::default();
    let s = settings();
    let t = t0();
    cs.on_click_down(&s, MouseButton::Left, t);
    assert_eq!(filter(&mut cs, &s, v(40., 0.), at(t, ms(5))), v(40., 0.)); // |.|==dist -> drag
    assert!(!cs.suppressing);
}

#[test]
fn negative_vector_accumulation() {
    let mut cs = ClickStabilizer::default();
    let s = settings();
    let t = t0();
    cs.on_click_down(&s, MouseButton::Left, t);
    assert_eq!(filter(&mut cs, &s, v(-30., 0.), at(t, ms(5))), v(0., 0.));
    assert_eq!(filter(&mut cs, &s, v(-20., 0.), at(t, ms(10))), v(-50., 0.)); // hypot 50 >= 40
}

#[test]
fn rearm_after_all_up() {
    let mut cs = ClickStabilizer::default();
    let s = settings();
    let t = t0();
    cs.on_click_down(&s, MouseButton::Left, t);
    cs.on_click_up(MouseButton::Left);
    assert!(!cs.suppressing);
    cs.on_click_down(&s, MouseButton::Left, at(t, ms(1000))); // fresh arm
    assert!(cs.suppressing);
    assert_eq!(filter(&mut cs, &s, v(3., 0.), at(t, ms(1001))), v(0., 0.));
}

#[test]
fn release_tick_motion_passes_through() {
    // Only press-down jitter is suppressed; after all
    // buttons up, motion passes through (no release-jerk suppression).
    let mut cs = ClickStabilizer::default();
    let s = settings();
    let t = t0();
    cs.on_click_down(&s, MouseButton::Left, t);
    assert_eq!(filter(&mut cs, &s, v(2., 0.), at(t, ms(5))), v(0., 0.));
    cs.on_click_up(MouseButton::Left);
    assert_eq!(filter(&mut cs, &s, v(7., 3.), at(t, ms(6))), v(7., 3.));
}

#[test]
fn tap_arms_one_shot_then_window_releases() {
    // ClickType::Click path: arm a time-bounded one-shot suppression.
    let mut cs = ClickStabilizer::default();
    let s = settings();
    let t = t0();
    cs.on_click_tap(&s, t);
    assert!(cs.suppressing);
    assert_eq!(filter(&mut cs, &s, v(2., 0.), at(t, ms(5))), v(0., 0.)); // tap jitter eaten
    assert_eq!(filter(&mut cs, &s, v(1., 0.), at(t, s.window)), v(0., 0.)); // window -> release
    assert!(!cs.suppressing);
    assert_eq!(filter(&mut cs, &s, v(5., 0.), at(t, ms(70))), v(5., 0.)); // passes through
}

#[test]
fn tap_ignored_while_held() {
    let mut cs = ClickStabilizer::default();
    let s = settings();
    let t = t0();
    cs.on_click_down(&s, MouseButton::Left, t);
    cs.on_click_tap(&s, at(t, ms(5))); // must be a no-op during a hold
    assert!(cs.suppressing);
    assert!(cs.pressed.contains(&0)); // Left still tracked
}

#[test]
fn default_click_settings() {
    let s = settings();
    assert!(s.enabled);
    assert_eq!(s.window, ms(60));
    assert_eq!(num(s.drag_release_dist), 40.);
}

#[test]
fn button_keys() {
    assert_eq!(click_button_key(MouseButton::Left), 0);
    assert_eq!(click_button_key(MouseButton::Right), 1);
    assert_eq!(click_button_key(MouseButton::Middle), 2);
    for b in [
        MouseButton::Back,
        MouseButton::Forward,
        MouseButton::ScrollUp,
        MouseButton::ScrollDown,
        MouseButton::ScrollLeft,
        MouseButton::ScrollRight,
    ] {
        assert_eq!(click_button_key(b), 3);
    }
}

#[test]
fn drag_wins_over_the_window() {
    let mut cs = ClickStabilizer::default();
    let s = settings();
    let t = t0();
    cs.on_click_down(&s, MouseButton::Left, t);
    assert_eq!(filter(&mut cs, &s, v(30., 0.), at(t, ms(5))), v(0., 0.));
    assert_eq!(filter(&mut cs, &s, v(30., 0.), at(t, ms(500))), v(60., 0.));
}

#[test]
fn what_is_no_number_is_no_drag() {
    let mut cs = ClickStabilizer::default();
    let s = settings();
    let t = t0();
    cs.on_click_down(&s, MouseButton::Left, t);
    assert_eq!(filter(&mut cs, &s, v(f64::NAN, 0.), at(t, ms(5))), v(0., 0.));
    assert!(cs.suppressing);
    assert_eq!(filter(&mut cs, &s, v(100., 0.), at(t, ms(60))), v(0., 0.));
    assert!(!cs.suppressing);
}

#[test]
fn a_clock_that_goes_back_ends_no_window() {
    let mut cs = ClickStabilizer::default();
    let s = settings();
    let t = t0();
    cs.on_click_down(&s, MouseButton::Left, at(t, ms(100)));
    assert_eq!(filter(&mut cs, &s, v(3., 0.), t), v(0., 0.));
    assert!(cs.suppressing);
}

#[test]
fn buttons_beyond_the_main_three_share_a_key() {
    let mut cs = ClickStabilizer::default();
    let s = settings();
    let t = t0();
    cs.on_click_down(&s, MouseButton::Back, t);
    cs.on_click_up(MouseButton::Forward);
    assert!(!cs.suppressing);
    assert!(cs.pressed.is_empty());
}

#[test]
fn tap_without_stabilisation_arms_nothing() {
    let mut cs = ClickStabilizer::default();
    let mut s = settings();
    s.enabled = false;
    cs.on_click_tap(&s, t0());
    assert!(!cs.suppressing);
    assert!(cs.armed_at.is_none());
}
