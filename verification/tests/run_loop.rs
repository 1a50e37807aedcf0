use gyromouse::backend::events::PumpEvent;
use gyromouse::backend::keys::PadButton;
use gyromouse::backend::run_loop::{RunLoop, RunReport, RunStep};
use gyromouse::backend::session::{ControllerState, OpenPlan, Session};
use gyromouse::backend::stall_watchdog::WatchdogCfg;
use gyromouse::time::{Duration, Instant};

type S = Session<String, String, String>;

fn at(ms: u64) -> Instant {
    Instant::after_origin(Duration::from_millis(ms))
}

fn session() -> S {
    let mut session: S = Session::new(WatchdogCfg::default(), at(0));
    let name = "left".to_string();
    assert!(session.screen(&name));
    assert!(matches!(
        session.prepare(&name, 1, false, at(0)),
        OpenPlan::Fresh { calibrate: false }
    ));
    session.activate(ControllerState {
        instance: 1,
        controller: "handle".to_string(),
        engine: "engine".to_string(),
        calibrator: None,
        name,
        zl_pressed: false,
        zr_pressed: false,
    });
    session
}

/// Reports, and shows the next step.
fn go_on(run: &mut RunLoop, session: &mut S, report: RunReport, now: Instant) -> String {
    assert!(run.expects(&report));
    format!("{:?}", run.next(session, report, now))
}

#[test]
fn a_tick_from_events_to_rest() {
    let mut s = session();
    let mut run = RunLoop::new();
    assert!(!run.expects(&RunReport::NoEvent));
    assert_eq!(go_on(&mut run, &mut s, RunReport::Done, at(0)), "Pump");
    assert!(!run.expects(&RunReport::Done));
    let sensor = PumpEvent::SensorUpdated { which: 1, gyro: None };
    assert_eq!(go_on(&mut run, &mut s, RunReport::Event(sensor), at(0)), "Pump");
    let button = PumpEvent::ButtonDown { which: 1, button: PadButton::A };
    assert_eq!(
        go_on(&mut run, &mut s, RunReport::Event(button), at(0)),
        "Handle(KeyDown { i: 0, key: S })"
    );
    assert_eq!(go_on(&mut run, &mut s, RunReport::Done, at(0)), "Pump");
    // the order of a tick, with failures all along
    let mut report = RunReport::NoEvent;
    for step in [
        "Serve(Sticks(0))",
        "Serve(Triggers(0))",
        "Serve(Motion(0))",
        "Serve(Actions(0))",
        "Recover(Reopen(\"left\"))",
        "Rest",
        "Pump",
    ] {
        assert_eq!(go_on(&mut run, &mut s, report, at(2000)), step);
        report = RunReport::Failed;
    }
}

#[test]
fn a_restart_lets_go_first() {
    let mut s = session();
    s.on_sensor_updated(1, None, at(0));
    assert_eq!(s.on_device_removed(1, at(0)), Some("handle".to_string()));
    let mut run = RunLoop::new();
    let mut report = RunReport::Done;
    for step in [
        "Pump",
        "Recover(NoteReinit(\"left\"))",
        "Recover(ReleaseAll)",
        "Recover(CloseAll)",
        "Recover(DropSubsystem)",
        "Recover(StartSubsystem)",
        "Rest",
    ] {
        assert_eq!(go_on(&mut run, &mut s, report, at(5000)), step);
        report = if step == "Pump" { RunReport::NoEvent } else { RunReport::Failed };
    }
}

#[test]
fn a_disconnected_controller_lets_go_before_it_is_closed() {
    let mut s = session();
    let mut run = RunLoop::new();
    assert_eq!(go_on(&mut run, &mut s, RunReport::Done, at(0)), "Pump");
    let gone = PumpEvent::DeviceRemoved { which: 1 };
    assert_eq!(
        go_on(&mut run, &mut s, RunReport::Event(gone), at(0)),
        "Release { i: 0 }"
    );
    assert_eq!(s.len(), 1);
    assert_eq!(
        go_on(&mut run, &mut s, RunReport::Failed, at(0)),
        "Close { closed: Some(\"handle\") }"
    );
    assert_eq!(s.len(), 0);
    assert!(s.parked_engine(&"left".to_string()).is_some());
    assert_eq!(go_on(&mut run, &mut s, RunReport::Done, at(0)), "Pump");
}

#[test]
fn a_heartbeat_comes_before_the_rest() {
    let mut s = session();
    let mut run = RunLoop::new();
    let mut report = RunReport::Done;
    let mut steps = Vec::new();
    for _ in 0..8 {
        let step = run.next(&mut s, report, at(30_000));
        report = if matches!(step, RunStep::Pump) { RunReport::NoEvent } else { RunReport::Done };
        steps.push(step);
    }
    assert!(matches!(&steps[5], RunStep::Beat(lines) if lines.len() == 1 && lines[0].active));
    assert!(matches!(steps[6], RunStep::Rest));
    assert!(matches!(steps[7], RunStep::Pump));
}

#[test]
fn a_run_ends_by_quitting_alone() {
    for event in [PumpEvent::Quit, PumpEvent::Escape] {
        let mut s = session();
        let mut run = RunLoop::new();
        go_on(&mut run, &mut s, RunReport::Done, at(0));
        let added = RunReport::Event(PumpEvent::DeviceAdded { index: 3 });
        assert_eq!(go_on(&mut run, &mut s, added, at(0)), "Handle(Open { index: 3 })");
        assert_eq!(go_on(&mut run, &mut s, RunReport::Failed, at(0)), "Pump");
        assert_eq!(go_on(&mut run, &mut s, RunReport::Event(event), at(0)), "End");
        assert!(!run.expects(&RunReport::Done));
        assert!(!run.expects(&RunReport::NoEvent));
    }
}
