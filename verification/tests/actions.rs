use std::collections::VecDeque;

use gyromouse::binary64::Binary64;
use gyromouse::config::{ClickStabSettings, GyroSettings, GyroSpace};
use gyromouse::engine::actions::{
    is_supported, ActionRun, ClickType, Effect, ExtAction, Step, Warning,
};
use gyromouse::engine::click_stab::MouseButton;
use gyromouse::engine::Engine;
use gyromouse::mouse::Direction;
use gyromouse::time::{Duration, Instant};
use gyromouse::vector::Vec2;

type Act = ExtAction<char, u8>;

fn bits(x: f64) -> Binary64 {
    Binary64 { bits: x.to_bits() }
}

fn at(ms: u64) -> Instant {
    Instant::after_origin(Duration::from_millis(ms))
}

fn engine(gamepad: bool) -> Engine {
    let gyro = GyroSettings {
        space: GyroSpace::Local,
        invert: (false, false),
        smooth_threshold: bits(0.),
        smooth_time: Duration::from_millis(125),
        cutoff_speed: bits(0.),
        cutoff_recovery: bits(0.),
        precision_enabled: false,
        precision_enter_speed: bits(3.),
        precision_exit_speed: bits(8.),
        motion_wake_enabled: false,
        motion_wake_speed: bits(8.),
        motion_sleep_speed: bits(3.),
        motion_sleep_dwell: Duration::from_millis(500),
    };
    Engine::new(ClickStabSettings::default(), &gyro, gamepad)
}

fn effect(e: &mut Engine, a: Act) -> String {
    format!("{:?}", e.apply_action(a, at(0)))
}

fn shown(e: Effect<char, u8>) -> String {
    format!("{:?}", e)
}

#[test]
fn gyro_buttons_switch_the_gyro() {
    let mut e = engine(false);
    for (action, on) in [
        (ExtAction::GyroOff(ClickType::Press), false),
        (ExtAction::GyroOff(ClickType::Release), true),
        (ExtAction::GyroOn(ClickType::Release), false),
        (ExtAction::GyroOn(ClickType::Press), true),
        (ExtAction::GyroOn(ClickType::Toggle), false),
        (ExtAction::GyroOff(ClickType::Toggle), true),
    ] {
        assert_eq!(effect(&mut e, action), shown(Effect::Nothing));
        assert_eq!(e.gyro.enabled, on);
    }
}

#[test]
fn actions_without_effect_warn() {
    let mut e = engine(false);
    for (action, warning, text) in [
        (
            ExtAction::GyroOn(ClickType::Click),
            Warning::GyroClick,
            "Warning: event type Click has no effect on gyro on/off",
        ),
        (
            ExtAction::GyroOff(ClickType::Click),
            Warning::GyroClick,
            "Warning: event type Click has no effect on gyro on/off",
        ),
        (
            ExtAction::KeyPress('a', ClickType::Toggle),
            Warning::KeyToggle,
            "Warning: key press toggle is not implemented",
        ),
        (
            ExtAction::MousePress(MouseButton::Left, ClickType::Toggle),
            Warning::MouseToggle,
            "Warning: mouse click toggle is not implemented",
        ),
    ] {
        assert_eq!(effect(&mut e, action), shown(Effect::Warn(warning)));
        assert_eq!(warning.text(), text);
    }
    assert!(e.gyro.enabled);
    assert!(!e.click_stab.suppressing);
}

#[test]
fn keys_and_buttons_are_sent() {
    let mut e = engine(false);
    for (click, direction) in [
        (ClickType::Press, Direction::Press),
        (ClickType::Release, Direction::Release),
        (ClickType::Click, Direction::Click),
    ] {
        assert_eq!(
            effect(&mut e, ExtAction::KeyPress('k', click)),
            shown(Effect::Key('k', direction))
        );
        assert_eq!(
            effect(&mut e, ExtAction::MousePress(MouseButton::Right, click)),
            shown(Effect::Button(MouseButton::Right, direction))
        );
    }
    assert_eq!(effect(&mut e, ExtAction::Idle), shown(Effect::Nothing));
}

#[test]
fn clicks_arm_the_stabiliser() {
    let mut e = engine(false);
    effect(&mut e, ExtAction::MousePress(MouseButton::Left, ClickType::Press));
    assert!(e.click_stab.suppressing);
    assert!(e.click_stab.pressed.contains(&0));
    effect(&mut e, ExtAction::MousePress(MouseButton::Left, ClickType::Release));
    assert!(!e.click_stab.suppressing);
    effect(&mut e, ExtAction::MousePress(MouseButton::Left, ClickType::Click));
    assert!(e.click_stab.suppressing);
    assert!(e.click_stab.pressed.is_empty());
}

#[test]
fn held_back_movement_is_not_emitted() {
    let mut e = engine(false);
    let px = Vec2 { x: bits(3.), y: bits(0.) };
    assert_eq!(e.handle_motion_frame(px, px, bits(3.), at(0)), Some(px));
    effect(&mut e, ExtAction::MousePress(MouseButton::Left, ClickType::Press));
    assert_eq!(e.handle_motion_frame(px, px, bits(3.), at(5)), None);
    let all = Vec2 { x: bits(43.), y: bits(0.) };
    let step = Vec2 { x: bits(40.), y: bits(0.) };
    assert_eq!(e.handle_motion_frame(step, all, bits(43.), at(6)), Some(all));
    let none = Vec2::zero();
    assert_eq!(e.handle_motion_frame(none, none, bits(0.), at(7)), None);
}

#[test]
fn gamepad_keys_need_a_gamepad() {
    let press: Act = ExtAction::GamepadKeyPress(4, ClickType::Press);
    let release: Act = ExtAction::GamepadKeyPress(4, ClickType::Release);
    assert_eq!(effect(&mut engine(false), press), shown(Effect::Nothing));
    assert_eq!(effect(&mut engine(true), press), shown(Effect::GamepadKey(4, true)));
    assert_eq!(effect(&mut engine(true), release), shown(Effect::GamepadKey(4, false)));
    assert!(is_supported(&press));
    assert!(is_supported(&release));
    assert!(!is_supported(&ExtAction::<char, u8>::GamepadKeyPress(4, ClickType::Click)));
    assert!(!is_supported(&ExtAction::<char, u8>::GamepadKeyPress(4, ClickType::Toggle)));
}

/// Runs through the actions; the send with the number `fails`, if any, fails.
fn run(e: &mut Engine, actions: Vec<Act>, fails: Option<usize>) -> Vec<String> {
    let mut run = ActionRun::new(VecDeque::from(actions));
    let mut log = Vec::new();
    loop {
        let step = e.apply_actions(&mut run, at(0));
        match step {
            Step::Done => return log,
            Step::Push => log.push("push".to_string()),
            Step::Send(effect) => {
                let ok = fails != Some(log.len());
                log.push(shown(effect));
                run.report(&effect, ok);
            }
        }
    }
}

#[test]
fn a_full_run_sends_everything_and_pushes_once() {
    let actions = vec![
        ExtAction::KeyPress('a', ClickType::Click),
        ExtAction::GamepadKeyPress(1, ClickType::Press),
        ExtAction::GyroOff(ClickType::Press),
        ExtAction::GamepadKeyPress(1, ClickType::Release),
    ];
    let mut e = engine(true);
    assert_eq!(
        run(&mut e, actions.clone(), None),
        vec![
            shown(Effect::Key('a', Direction::Click)),
            shown(Effect::GamepadKey(1, true)),
            shown(Effect::Nothing),
            shown(Effect::GamepadKey(1, false)),
            "push".to_string(),
        ]
    );
    assert!(!e.gyro.enabled);
    assert_eq!(run(&mut engine(false), actions, None).len(), 4);
}

#[test]
fn a_failed_send_ends_the_run() {
    let actions = vec![
        ExtAction::GamepadKeyPress(1, ClickType::Press),
        ExtAction::KeyPress('a', ClickType::Click),
        ExtAction::GyroOff(ClickType::Press),
    ];
    let mut e = engine(true);
    assert_eq!(
        run(&mut e, actions, Some(1)),
        vec![
            shown(Effect::GamepadKey(1, true)),
            shown(Effect::Key('a', Direction::Click)),
        ]
    );
    assert!(e.gyro.enabled);
}

#[test]
fn nothing_is_pushed_without_a_gamepad_key() {
    let mut e = engine(true);
    assert_eq!(
        run(&mut e, vec![ExtAction::KeyPress('a', ClickType::Press)], None),
        vec![shown(Effect::Key('a', Direction::Press))]
    );
    assert_eq!(
        run(&mut e, vec![ExtAction::GamepadKeyPress(1, ClickType::Press)], Some(0)),
        vec![shown(Effect::GamepadKey(1, true))]
    );
    assert!(run(&mut e, Vec::new(), None).is_empty());
}

#[test]
fn a_new_engine_is_idle() {
    let e = engine(true);
    assert!(e.gyro.enabled);
    assert!(!e.gyro.motion_wake.awake);
    assert!(!e.click_stab.suppressing);
    assert!(e.mouse.error_accumulator.is_zero());
    assert!(e.gamepad);
}

#[test]
fn only_gyro_actions_switch_the_gyro_on_again() {
    let mut e = engine(false);
    effect(&mut e, ExtAction::GyroOff(ClickType::Press));
    effect(&mut e, ExtAction::KeyPress('a', ClickType::Press));
    effect(&mut e, ExtAction::MousePress(MouseButton::Left, ClickType::Click));
    effect(&mut e, ExtAction::GyroOn(ClickType::Click));
    assert!(!e.gyro.enabled);
    effect(&mut e, ExtAction::GyroOff(ClickType::Release));
    assert!(e.gyro.enabled);
}

#[test]
fn a_run_that_is_over_minds_no_later_action() {
    let mut e = engine(true);
    let actions: Vec<Act> = vec![
        ExtAction::MousePress(MouseButton::Left, ClickType::Press),
        ExtAction::GamepadKeyPress(1, ClickType::Click),
    ];
    assert_eq!(run(&mut e, actions, Some(0)).len(), 1);
    // the failed action itself has been carried out as far as the engine goes
    assert!(e.click_stab.suppressing);
}

#[test]
fn a_run_leaves_the_engine_where_its_actions_do() {
    let actions: Vec<Act> = vec![
        ExtAction::GyroOff(ClickType::Press),
        ExtAction::MousePress(MouseButton::Left, ClickType::Press),
        ExtAction::GyroOn(ClickType::Toggle),
        ExtAction::MousePress(MouseButton::Left, ClickType::Release),
    ];
    let mut e = engine(false);
    run(&mut e, actions.clone(), None);
    assert!(e.gyro.enabled);
    assert!(!e.click_stab.suppressing);
    let mut e = engine(false);
    run(&mut e, actions, Some(1));
    assert!(!e.gyro.enabled);
    assert!(e.click_stab.suppressing);
}
