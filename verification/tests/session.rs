use gyromouse::backend::events::{on_event, EventStep, PumpEvent};
use gyromouse::backend::keys::{JoyKey, PadButton};
use gyromouse::backend::name_map::NameMap;
use gyromouse::backend::reopen::{
    Lookup, Opening, ReopenEvent, ReopenOutcome, ReopenRun,
};
use gyromouse::backend::session::{ControllerState, MotionStep, OpenPlan, Session};
use gyromouse::backend::stall_watchdog::{Action, WatchdogCfg};
use gyromouse::backend::watch::{Binary32, GyroData, Telemetry};
use gyromouse::time::{Duration, Instant};

/// A session with text for handles, engines and calibrators.
type S = Session<String, String, String>;

fn at(ms: u64) -> Instant {
    Instant::after_origin(Duration::from_millis(ms))
}

fn s(text: &str) -> String {
    text.to_string()
}

fn session() -> S {
    Session::new(WatchdogCfg::default(), at(0))
}

fn gyro(x: f32, y: f32, z: f32) -> Option<GyroData> {
    Some(GyroData {
        x: Binary32 { bits: x.to_bits() },
        y: Binary32 { bits: y.to_bits() },
        z: Binary32 { bits: z.to_bits() },
    })
}

/// Opens a device as a backend would. Returns whether it was opened.
fn open(session: &mut S, name: &str, instance: u32, sensors_ok: bool, now: Instant) -> bool {
    let name = s(name);
    if !session.screen(&name) {
        return false;
    }
    let (engine, calibrator) = match session.prepare(&name, instance, sensors_ok, now) {
        OpenPlan::Adopt(engine) => (engine, None),
        OpenPlan::Fresh { calibrate } => (
            format!("engine of {}", name),
            if calibrate { Some(s("calibrator")) } else { None },
        ),
    };
    session.activate(ControllerState {
        instance,
        controller: format!("handle {}", instance),
        engine,
        calibrator,
        name,
        zl_pressed: false,
        zr_pressed: false,
    });
    true
}

fn instances(session: &S) -> Vec<u32> {
    (0..session.len()).map(|i| session.controller(i).instance).collect()
}

#[test]
fn names_map_to_values() {
    let mut m: NameMap<u32> = NameMap::new();
    m.insert(s("a"), 1);
    m.insert(s("b"), 2);
    m.insert(s("a"), 3);
    assert_eq!(m.len(), 2);
    assert_eq!(m.get(&s("a")), Some(&3));
    assert_eq!(m.name(0), "b");
    assert_eq!(m.name(1), "a");
    m.set(&s("b"), 5);
    assert_eq!(m.name(0), "b");
    assert_eq!(m.get(&s("b")), Some(&5));
    assert!(m.contains(&s("b")));
    assert_eq!(m.remove(&s("b")), Some(5));
    assert_eq!(m.remove(&s("b")), None);
    assert!(!m.contains(&s("b")));
    assert_eq!(m.len(), 1);
}

#[test]
fn new_controllers_are_calibrated_where_sensors_work() {
    let mut session = session();
    assert!(open(&mut session, "left", 1, true, at(0)));
    assert!(open(&mut session, "right", 2, false, at(0)));
    assert_eq!(instances(&session), vec![1, 2]);
    assert!(session.controller(0).calibrator.is_some());
    assert!(session.controller(1).calibrator.is_none());
    assert_eq!(session.index_of(2), Some(1));
    assert_eq!(session.index_of(3), None);
}

#[test]
fn duplicates_and_mirror_pads_are_refused() {
    let mut session = session();
    assert!(open(&mut session, "left", 1, true, at(0)));
    assert!(!open(&mut session, "left", 2, true, at(0)));
    assert!(!open(&mut session, "Steam Virtual Gamepad", 3, true, at(0)));
    assert_eq!(instances(&session), vec![1]);
}

#[test]
fn a_new_controller_takes_the_place_of_its_instance() {
    let mut session = session();
    assert!(open(&mut session, "left", 1, true, at(0)));
    assert!(open(&mut session, "right", 1, true, at(0)));
    assert_eq!(instances(&session), vec![1]);
    assert_eq!(session.controller(0).name, "right");
    assert!(session.screen(&s("left")));
}

#[test]
fn removed_controller_is_parked_and_adopted() {
    let mut session = session();
    open(&mut session, "left", 1, true, at(0));
    *session.engine_mut(0) = s("calibrated engine");
    assert_eq!(session.on_device_removed(9, at(100)), None);
    assert_eq!(session.on_device_removed(1, at(100)), Some(s("handle 1")));
    assert!(session.len() == 0);
    assert_eq!(session.parked_engine(&s("left")), Some(&s("calibrated engine")));
    assert!(open(&mut session, "left", 5, true, at(1000)));
    assert_eq!(session.controller(0).engine, "calibrated engine");
    assert!(session.controller(0).calibrator.is_none());
    assert!(session.parked_engine(&s("left")).is_none());
    assert_eq!(session.motion_step(0, true, true, at(1299)), MotionStep::Swallow);
    assert_eq!(session.motion_step(0, true, true, at(1300)), MotionStep::Apply);
}

#[test]
fn motion_goes_to_the_calibrator_first() {
    let mut session = session();
    open(&mut session, "left", 1, true, at(0));
    assert_eq!(session.motion_step(0, true, true, at(1)), MotionStep::Calibrate);
    assert_eq!(session.calibration_finished(0), Some(s("calibrator")));
    assert_eq!(session.motion_step(0, true, true, at(1)), MotionStep::Apply);
    assert_eq!(session.motion_step(0, false, true, at(1)), MotionStep::Skip);
}

#[test]
fn read_errors_are_logged_once_a_second() {
    let mut session = session();
    open(&mut session, "left", 1, false, at(0));
    assert_eq!(session.motion_step(0, true, false, at(10)), MotionStep::LogReadError);
    assert_eq!(session.motion_step(0, true, false, at(11)), MotionStep::Skip);
    assert_eq!(session.motion_step(0, true, false, at(1010)), MotionStep::LogReadError);
    // failed actions have a limit of their own
    assert!(session.action_failed(at(1011)));
    assert!(!session.action_failed(at(1012)));
    assert!(session.action_failed(at(2011)));
}

#[test]
fn buttons_of_open_controllers_are_keys() {
    let mut session = session();
    open(&mut session, "left", 1, true, at(0));
    assert_eq!(session.on_button(1, PadButton::A), Some(JoyKey::S));
    assert_eq!(session.on_button(1, PadButton::Touchpad), None);
    assert_eq!(session.on_button(2, PadButton::A), None);
}

#[test]
fn trigger_axes_make_key_edges() {
    let mut session = session();
    open(&mut session, "left", 1, true, at(0));
    assert_eq!(session.update_triggers(0, 0, 0), (None, None));
    assert_eq!(session.update_triggers(0, 32767, 0), (Some(true), None));
    assert_eq!(session.update_triggers(0, 32767, 20000), (None, Some(true)));
    assert_eq!(session.update_triggers(0, 0, 100), (Some(false), Some(false)));
    let c = session.controller(0);
    assert!(!c.zl_pressed && !c.zr_pressed);
}

#[test]
fn a_stall_climbs_the_ladder() {
    let mut session = session();
    open(&mut session, "left", 1, false, at(0));
    open(&mut session, "right", 2, false, at(0));
    session.on_sensor_updated(1, None, at(0));
    // the other one never had a sensor event
    assert!(session.due_actions(at(1999)).is_empty());
    let due = session.due_actions(at(2000));
    assert_eq!(due, vec![(s("left"), Action::ReopenController)]);
    assert_eq!(session.reopen_target(&s("left")), Some(1));
    assert_eq!(session.detach(1), Some(s("handle 1")));
    // the last known instance is looked for while the handle is gone
    assert_eq!(session.reopen_target(&s("left")), Some(1));
    assert_eq!(session.reopen_target(&s("nobody")), None);
    session.on_reopen_result(&s("left"), false, at(2000));
    assert_eq!(session.due_actions(at(3000)), vec![(s("left"), Action::ReopenController)]);
    assert!(open(&mut session, "left", 7, true, at(3000)));
    session.on_reopen_result(&s("left"), true, at(3000));
    assert_eq!(session.due_actions(at(4000)), vec![(s("left"), Action::ReopenController)]);
    session.on_reopen_result(&s("left"), true, at(4000));
    let due = session.due_actions(at(5000));
    assert_eq!(due, vec![(s("left"), Action::ReinitSubsystem)]);
    session.on_reinit_attempted(&s("left"), at(5000));
    let handles = session.park_all();
    assert_eq!(handles, vec![s("handle 2"), s("handle 7")]);
    assert!(session.len() == 0);
    assert!(session.parked_engine(&s("left")).is_some());
    assert!(session.parked_engine(&s("right")).is_some());
    assert!(session.due_actions(at(14_999)).is_empty());
    assert_eq!(session.due_actions(at(15_000)).len(), 1);
}

#[test]
fn stale_events_do_not_reset_a_recovery() {
    let mut session = session();
    open(&mut session, "left", 1, false, at(0));
    session.on_sensor_updated(1, None, at(0));
    session.on_device_removed(1, at(1000));
    session.on_sensor_updated(1, None, at(1500));
    assert!(session.due_actions(at(5999)).is_empty());
    assert_eq!(session.due_actions(at(6000)), vec![(s("left"), Action::ReinitSubsystem)]);
}

#[test]
fn reports_for_unknown_names_are_ignored() {
    let mut session = session();
    session.on_reopen_result(&s("nobody"), true, at(0));
    session.on_reinit_attempted(&s("nobody"), at(0));
    assert!(session.due_actions(at(100_000)).is_empty());
}

#[test]
fn heartbeat_every_half_minute() {
    let mut session = session();
    open(&mut session, "left", 1, false, at(0));
    open(&mut session, "right", 2, false, at(0));
    for _ in 0..3 {
        assert!(session.can_count(1, None));
        session.on_sensor_updated(1, gyro(1., 2., 3.), at(10));
    }
    session.on_sensor_updated(1, None, at(11));
    session.on_sensor_updated(1, gyro(1., 2., 4.), at(12));
    session.on_sensor_updated(1, gyro(-0., 2., 4.), at(13));
    session.on_sensor_updated(1, gyro(0., 2., 4.), at(14));
    session.on_device_removed(2, at(20));
    assert!(session.heartbeat(at(29_999)).is_none());
    let lines = session.heartbeat(at(30_000)).unwrap();
    assert_eq!(lines.len(), 2);
    let left = lines.iter().find(|l| l.name == "left").unwrap();
    assert!(left.active);
    assert_eq!(left.sensor_events, 7);
    assert_eq!(left.max_identical_gyro_streak, 2);
    let right = lines.iter().find(|l| l.name == "right").unwrap();
    assert!(!right.active);
    assert_eq!(right.sensor_events, 0);
    assert!(session.heartbeat(at(30_001)).is_none());
    let lines = session.heartbeat(at(60_000)).unwrap();
    assert!(lines.iter().all(|l| l.sensor_events == 0 && l.max_identical_gyro_streak == 0));
}

#[test]
fn readings_that_are_no_numbers_are_never_equal() {
    let mut session = session();
    open(&mut session, "left", 1, false, at(0));
    for _ in 0..4 {
        session.on_sensor_updated(1, gyro(f32::NAN, 0., 0.), at(10));
    }
    let lines = session.heartbeat(at(30_000)).unwrap();
    assert_eq!(lines[0].sensor_events, 4);
    assert_eq!(lines[0].max_identical_gyro_streak, 0);
}

#[test]
fn full_counters_are_noticed() {
    let reading = gyro(1., 2., 3.);
    let mut t = Telemetry {
        events_in_window: u64::MAX,
        last_gyro: reading,
        cur_streak: 0,
        window_max_streak: 0,
    };
    assert!(!t.room_left(None));
    t.events_in_window = 5;
    t.cur_streak = u32::MAX;
    // a full streak is in the way of an equal reading alone
    assert!(!t.room_left(reading));
    assert!(t.room_left(None));
    assert!(t.room_left(gyro(1., 2., 4.)));
    t.count(gyro(1., 2., 4.));
    assert_eq!(t.cur_streak, 0);
    assert_eq!(t.events_in_window, 6);
}

#[test]
fn handles_and_calibrators_are_at_hand() {
    let mut session = session();
    open(&mut session, "left", 1, true, at(0));
    session.handle_mut(0).push_str(" shaken");
    assert_eq!(session.controller(0).controller, "handle 1 shaken");
    *session.calibrator_mut(0) = None;
    assert_eq!(session.motion_step(0, true, true, at(1)), MotionStep::Apply);
}

#[test]
fn events_lead_to_steps() {
    let mut session = session();
    open(&mut session, "left", 1, false, at(0));
    open(&mut session, "right", 2, false, at(0));
    let button = PadButton::A;
    for (event, step) in [
        (PumpEvent::Quit, EventStep::Quit),
        (PumpEvent::Escape, EventStep::Quit),
        (PumpEvent::Other, EventStep::Nothing),
        (PumpEvent::DeviceAdded { index: 4 }, EventStep::Open { index: 4 }),
        (PumpEvent::DeviceRemoved { which: 2 }, EventStep::Close { i: 1 }),
        (PumpEvent::DeviceRemoved { which: 9 }, EventStep::Nothing),
        (
            PumpEvent::ButtonDown { which: 2, button },
            EventStep::KeyDown { i: 1, key: JoyKey::S },
        ),
        (
            PumpEvent::ButtonUp { which: 1, button },
            EventStep::KeyUp { i: 0, key: JoyKey::S },
        ),
        (PumpEvent::ButtonDown { which: 9, button }, EventStep::Nothing),
        (
            PumpEvent::ButtonDown { which: 1, button: PadButton::Touchpad },
            EventStep::Nothing,
        ),
    ] {
        assert_eq!(on_event(&mut session, event, at(0)), step);
    }
    let sensor = PumpEvent::SensorUpdated { which: 1, gyro: None };
    assert_eq!(on_event(&mut session, sensor, at(0)), EventStep::Nothing);
    assert_eq!(session.due_actions(at(2000)).len(), 1);
}

/// A session whose only controller is due for a reopen.
fn stalled() -> S {
    let mut session = session();
    open(&mut session, "left", 1, false, at(0));
    session.on_sensor_updated(1, None, at(0));
    assert_eq!(session.due_actions(at(2000)), vec![(s("left"), Action::ReopenController)]);
    session
}

/// Goes on with a reopen, and shows what is to be done next.
fn go_on(
    run: &mut ReopenRun,
    session: &mut S,
    event: ReopenEvent<String, String, String>,
) -> String {
    assert!(run.expects(&event));
    format!("{:?}", run.next(session, event, at(2000)))
}

#[test]
fn a_reopen_that_goes_well() {
    let mut session = stalled();
    let mut run = ReopenRun::new(s("left"));
    assert!(!run.expects(&ReopenEvent::<String, String, String>::Released));
    assert_eq!(go_on(&mut run, &mut session, ReopenEvent::Begin), "Release { instance: 1 }");
    assert_eq!(session.len(), 1);
    assert_eq!(
        go_on(&mut run, &mut session, ReopenEvent::Released),
        "LookUp { instance: 1, closed: Some(\"handle 1\") }"
    );
    assert_eq!(session.len(), 0);
    assert_eq!(
        go_on(&mut run, &mut session, ReopenEvent::LookedUp(Lookup::At { index: 3 })),
        "Open { index: 3 }"
    );
    let engine = match session.prepare(&s("left"), 8, true, at(2000)) {
        OpenPlan::Adopt(engine) => engine,
        OpenPlan::Fresh { .. } => panic!("the engine was parked"),
    };
    let ready = Opening::Ready(ControllerState {
        instance: 8,
        controller: s("handle 8"),
        engine,
        calibrator: None,
        name: s("left"),
        zl_pressed: false,
        zr_pressed: false,
    });
    assert_eq!(
        go_on(&mut run, &mut session, ReopenEvent::Opened(ready)),
        "Done(Reopened)"
    );
    assert!(!run.expects(&ReopenEvent::<String, String, String>::Begin));
    assert_eq!(instances(&session), vec![8]);
    assert!(session.due_actions(at(2999)).is_empty());
    assert_eq!(session.due_actions(at(3000)).len(), 1);
}

#[test]
fn a_reopen_that_fails_is_reported_too() {
    for (lookup, opening, outcome) in [
        (Lookup::NoSubsystem, None, ReopenOutcome::NoSubsystem),
        (Lookup::Gone, None, ReopenOutcome::Gone),
        (Lookup::At { index: 0 }, Some(Opening::Refused), ReopenOutcome::Refused),
        (Lookup::At { index: 0 }, Some(Opening::Failed), ReopenOutcome::Failed),
    ] {
        let mut session = stalled();
        let mut run = ReopenRun::new(s("left"));
        go_on(&mut run, &mut session, ReopenEvent::Begin);
        go_on(&mut run, &mut session, ReopenEvent::Released);
        let mut last = go_on(&mut run, &mut session, ReopenEvent::LookedUp(lookup));
        if let Some(opening) = opening {
            last = go_on(&mut run, &mut session, ReopenEvent::Opened(opening));
        }
        assert_eq!(last, format!("Done({:?})", outcome));
        assert!(!outcome.ok());
        assert_eq!(session.len(), 0);
        assert!(session.parked_engine(&s("left")).is_some());
        assert_eq!(session.due_actions(at(3000)), vec![(s("left"), Action::ReopenController)]);
    }
    assert!(ReopenOutcome::Reopened.ok());
}

#[test]
fn a_reopen_of_nothing_ends_at_once() {
    let mut session = session();
    let mut run = ReopenRun::new(s("nobody"));
    assert_eq!(go_on(&mut run, &mut session, ReopenEvent::Begin), "Done(NoTarget)");
}
