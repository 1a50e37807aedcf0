use gyromouse::backend::diag::diag_line;
use gyromouse::backend::stall_watchdog::Action;
use gyromouse::backend::tick::{controller_jobs, recovery_jobs, ControllerJob, Subsystem};

fn jobs(due: &[(&str, Action)]) -> Vec<String> {
    let due = due.iter().map(|(name, action)| (name.to_string(), *action)).collect();
    recovery_jobs(due).iter().map(|job| format!("{:?}", job)).collect()
}

#[test]
fn motion_comes_before_actions() {
    assert_eq!(
        controller_jobs(2),
        vec![
            ControllerJob::Sticks(0),
            ControllerJob::Triggers(0),
            ControllerJob::Motion(0),
            ControllerJob::Actions(0),
            ControllerJob::Sticks(1),
            ControllerJob::Triggers(1),
            ControllerJob::Motion(1),
            ControllerJob::Actions(1),
        ]
    );
    assert_eq!(controller_jobs(0), Vec::new());
}

#[test]
fn reopens_alone_leave_the_subsystem_up() {
    assert_eq!(
        jobs(&[("a", Action::ReopenController), ("b", Action::ReopenController)]),
        vec!["Reopen(\"a\")", "Reopen(\"b\")"]
    );
    assert!(jobs(&[]).is_empty());
}

#[test]
fn the_subsystem_is_restarted_once() {
    assert_eq!(
        jobs(&[
            ("a", Action::ReinitSubsystem),
            ("b", Action::ReopenController),
            ("c", Action::ReinitSubsystem),
        ]),
        vec![
            "NoteReinit(\"a\")",
            "Reopen(\"b\")",
            "NoteReinit(\"c\")",
            "ReleaseAll",
            "CloseAll",
            "DropSubsystem",
            "StartSubsystem",
        ]
    );
}

#[test]
fn diagnostic_lines_carry_their_prefix() {
    assert_eq!(diag_line("12.345", "error: it"), "[diag] 12.345 error: it");
    assert!(!diag_line("", "").starts_with("error:"));
}

#[test]
fn a_failed_start_leaves_no_subsystem() {
    let mut slot = Subsystem::new(1);
    assert_eq!(slot.get(), Some(&1));
    assert_eq!(slot.give_up(), Some(1));
    assert_eq!(slot.get(), None);
    slot.started(None);
    assert_eq!(slot.get(), None);
    assert_eq!(slot.give_up(), None);
    slot.started(Some(2));
    assert_eq!(slot.get(), Some(&2));
}
