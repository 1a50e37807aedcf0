use gyromouse::backend::stall_watchdog::{Action, RecoveryLadder, WatchdogCfg};
use gyromouse::time::{Duration, Instant};

fn cfg() -> WatchdogCfg {
    WatchdogCfg::default()
}

/// Fake timeline: t(ms) after an arbitrary moment.
fn timeline() -> impl Fn(u64) -> Instant {
    let t0 = Instant::after_origin(Duration::from_secs(1_000));
    move |ms: u64| t0.checked_add(Duration::from_millis(ms)).unwrap()
}

// 1. Never fires while unarmed, no matter how long the silence.
#[test]
fn unarmed_never_fires() {
    let t = timeline();
    let mut l = RecoveryLadder::new(cfg());
    assert_eq!(l.poll(t(0)), None);
    assert_eq!(l.poll(t(60_000)), None);
    assert_eq!(l.poll(t(3_600_000)), None);
}

// 2. Healthy event flow -> poll always None.
#[test]
fn healthy_flow_never_fires() {
    let t = timeline();
    let mut l = RecoveryLadder::new(cfg());
    for i in 0..100 {
        l.on_sensor_event(t(i * 100)); // 10 Hz is plenty below stall_after
        assert_eq!(l.poll(t(i * 100 + 50)), None);
    }
}

// 3. Silence reaching stall_after -> exactly one ReopenController; not
//    repeated within reopen_interval.
#[test]
fn stall_fires_single_reopen() {
    let t = timeline();
    let mut l = RecoveryLadder::new(cfg());
    l.on_sensor_event(t(0));
    assert_eq!(l.poll(t(1999)), None);
    assert_eq!(l.poll(t(2000)), Some(Action::ReopenController));
    l.on_reopen_result(true, t(2000));
    // Within reopen_interval: nothing.
    assert_eq!(l.poll(t(2500)), None);
    assert_eq!(l.poll(t(2999)), None);
}

// 4. Still silent after reopen -> retries at reopen_interval, up to
//    max_reopens total attempts.
#[test]
fn silent_reopen_retries_at_interval() {
    let t = timeline();
    let mut l = RecoveryLadder::new(cfg());
    l.on_sensor_event(t(0));
    assert_eq!(l.poll(t(2000)), Some(Action::ReopenController)); // attempt 1
    l.on_reopen_result(true, t(2000));
    assert_eq!(l.poll(t(3000)), Some(Action::ReopenController)); // attempt 2
    l.on_reopen_result(true, t(3000));
    assert_eq!(l.poll(t(4000)), Some(Action::ReopenController)); // attempt 3
    l.on_reopen_result(true, t(4000));
    // max_reopens = 3 reached -> next due poll escalates instead.
    assert_eq!(l.poll(t(5000)), Some(Action::ReinitSubsystem));
}

// 5. Failed opens count as attempts too: all-failing L1
//    still escalates to L2, no dead zone.
#[test]
fn failed_opens_count_and_escalate() {
    let t = timeline();
    let mut l = RecoveryLadder::new(cfg());
    l.on_sensor_event(t(0));
    assert_eq!(l.poll(t(2000)), Some(Action::ReopenController));
    l.on_reopen_result(false, t(2000));
    assert_eq!(l.poll(t(3000)), Some(Action::ReopenController));
    l.on_reopen_result(false, t(3000));
    assert_eq!(l.poll(t(4000)), Some(Action::ReopenController));
    l.on_reopen_result(false, t(4000));
    assert_eq!(l.poll(t(5000)), Some(Action::ReinitSubsystem));
}

// 6. After max_reopens the next action is ReinitSubsystem (escalation
//    happens exactly once at the due tick, not before).
#[test]
fn escalation_waits_for_due_tick() {
    let t = timeline();
    let mut l = RecoveryLadder::new(cfg());
    l.on_sensor_event(t(0));
    assert_eq!(l.poll(t(2000)), Some(Action::ReopenController));
    l.on_reopen_result(false, t(2000));
    assert_eq!(l.poll(t(3000)), Some(Action::ReopenController));
    l.on_reopen_result(false, t(3000));
    assert_eq!(l.poll(t(4000)), Some(Action::ReopenController));
    l.on_reopen_result(false, t(4000));
    // Not due yet (attempt scheduled next_at = 5000).
    assert_eq!(l.poll(t(4500)), None);
    assert_eq!(l.poll(t(5000)), Some(Action::ReinitSubsystem));
}

// 7. A sensor event at any point fully resets the ladder; a later stall
//    starts again from L1.
#[test]
fn event_resets_everything() {
    let t = timeline();
    let mut l = RecoveryLadder::new(cfg());
    l.on_sensor_event(t(0));
    assert_eq!(l.poll(t(2000)), Some(Action::ReopenController));
    l.on_reopen_result(false, t(2000));
    // Spontaneous recovery mid-ladder.
    l.on_sensor_event(t(2500));
    assert_eq!(l.poll(t(3000)), None);
    // New stall much later -> starts from L1 again, attempts reset.
    assert_eq!(l.poll(t(4499)), None);
    assert_eq!(l.poll(t(4500)), Some(Action::ReopenController));
    l.on_reopen_result(true, t(4500));
    assert_eq!(l.poll(t(5000)), None); // interval respected, still L1
}

// 8. Grace window: true after start, false after expiry.
#[test]
fn grace_window() {
    let t = timeline();
    let mut l = RecoveryLadder::new(cfg());
    assert!(!l.in_grace(t(0)));
    l.start_grace(t(1000));
    assert!(l.in_grace(t(1000)));
    assert!(l.in_grace(t(1299)));
    assert!(!l.in_grace(t(1300)));
}

// 9. Removal of the device -> quiet for orphan_after (spontaneous re-add
//    window), then ReinitSubsystem.
#[test]
fn device_removed_waits_orphan_then_reinit() {
    let t = timeline();
    let mut l = RecoveryLadder::new(cfg());
    l.on_sensor_event(t(0));
    l.on_device_removed(t(1000));
    assert_eq!(l.poll(t(1001)), None);
    assert_eq!(l.poll(t(5999)), None);
    assert_eq!(l.poll(t(6000)), Some(Action::ReinitSubsystem));
}

// 10. L2 backoff: 10s -> 20s -> 40s -> 60s cap, never gives up.
#[test]
fn reinit_backoff_doubles_and_caps() {
    let t = timeline();
    let mut l = RecoveryLadder::new(cfg());
    l.on_sensor_event(t(0));
    l.on_device_removed(t(0));
    let mut now = 5_000; // orphan_after elapsed
    assert_eq!(l.poll(t(now)), Some(Action::ReinitSubsystem));
    l.on_reinit_attempted(t(now));
    for expected_gap in [10_000, 20_000, 40_000, 60_000, 60_000] {
        // Just before the deadline: nothing.
        assert_eq!(l.poll(t(now + expected_gap - 1)), None);
        now += expected_gap;
        assert_eq!(l.poll(t(now)), Some(Action::ReinitSubsystem));
        l.on_reinit_attempted(t(now));
    }
}

// 11. ReinitPending + sensor event (the re-added controller was adopted
//     and produced data) -> reset to Armed.
#[test]
fn reinit_pending_event_resets() {
    let t = timeline();
    let mut l = RecoveryLadder::new(cfg());
    l.on_sensor_event(t(0));
    l.on_device_removed(t(1000));
    l.on_sensor_event(t(3000)); // spontaneous re-add + data before orphan_after
    assert_eq!(l.poll(t(6000)), None);
    // Healthy again: next stall fires from L1.
    assert_eq!(l.poll(t(5000 - 1)), None);
    assert_eq!(l.poll(t(3000 + 2000)), Some(Action::ReopenController));
}

// 12. A reopen that succeeds but yields no events is NOT recovery: the
//     ladder keeps counting and escalates on schedule.
#[test]
fn successful_but_silent_reopen_is_not_recovery() {
    let t = timeline();
    let mut l = RecoveryLadder::new(cfg());
    l.on_sensor_event(t(0));
    assert_eq!(l.poll(t(2000)), Some(Action::ReopenController));
    l.on_reopen_result(true, t(2000)); // open ok, but stream still dead
    assert_eq!(l.poll(t(3000)), Some(Action::ReopenController));
    l.on_reopen_result(true, t(3000));
    assert_eq!(l.poll(t(4000)), Some(Action::ReopenController));
    l.on_reopen_result(true, t(4000));
    assert_eq!(l.poll(t(5000)), Some(Action::ReinitSubsystem));
}

// A removal before the first sensor event leaves the ladder unarmed.
#[test]
fn removal_while_unarmed_never_fires() {
    let t = timeline();
    let mut l = RecoveryLadder::new(cfg());
    l.on_device_removed(t(0));
    assert_eq!(l.poll(t(5_000)), None);
    assert_eq!(l.poll(t(600_000)), None);
}

// Polling again before the result is reported hands out nothing.
#[test]
fn action_is_not_repeated_before_its_report() {
    let t = timeline();
    let mut l = RecoveryLadder::new(cfg());
    l.on_sensor_event(t(0));
    assert_eq!(l.poll(t(2000)), Some(Action::ReopenController));
    assert_eq!(l.poll(t(2001)), None);
    assert_eq!(l.poll(t(60_000)), None);
    l.on_reopen_result(false, t(60_000));
    assert_eq!(l.poll(t(60_999)), None);
    assert_eq!(l.poll(t(61_000)), Some(Action::ReopenController));
}

// A report that nothing was handed out for changes nothing.
#[test]
fn stray_reports_are_ignored() {
    let t = timeline();
    let mut l = RecoveryLadder::new(cfg());
    l.on_reopen_result(true, t(0));
    l.on_reinit_attempted(t(0));
    assert_eq!(l.poll(t(100_000)), None);
    l.on_sensor_event(t(100_000));
    l.on_reinit_attempted(t(100_000));
    assert_eq!(l.poll(t(101_999)), None);
    assert_eq!(l.poll(t(102_000)), Some(Action::ReopenController));
}

// The second rung is reached with the first backoff, also from the first rung.
#[test]
fn escalated_reinit_backs_off_from_the_start() {
    let t = timeline();
    let mut c = cfg();
    c.max_reopens = 1;
    let mut l = RecoveryLadder::new(c);
    l.on_sensor_event(t(0));
    assert_eq!(l.poll(t(2000)), Some(Action::ReopenController));
    l.on_reopen_result(true, t(2000));
    assert_eq!(l.poll(t(3000)), Some(Action::ReinitSubsystem));
    l.on_reinit_attempted(t(3000));
    assert_eq!(l.poll(t(12_999)), None);
    assert_eq!(l.poll(t(13_000)), Some(Action::ReinitSubsystem));
}

// The default thresholds.
#[test]
fn default_thresholds() {
    let c = cfg();
    assert_eq!(c.stall_after, Duration::from_millis(2000));
    assert_eq!(c.reopen_interval, Duration::from_millis(1000));
    assert_eq!(c.max_reopens, 3);
    assert_eq!(c.orphan_after, Duration::from_millis(5000));
    assert_eq!(c.reinit_backoff_start, Duration::from_secs(10));
    assert_eq!(c.reinit_backoff_max, Duration::from_secs(60));
    assert_eq!(c.grace, Duration::from_millis(300));
}

// A second grace window replaces the first.
#[test]
fn grace_window_restarts() {
    let t = timeline();
    let mut l = RecoveryLadder::new(cfg());
    l.start_grace(t(1000));
    l.start_grace(t(1200));
    assert!(l.in_grace(t(1499)));
    assert!(!l.in_grace(t(1500)));
}

// Deadlines beyond the clock's range are no trouble: they never come.
#[test]
fn far_deadlines_never_come() {
    let end = Instant::after_origin(Duration::new(u64::MAX, 999_999_999));
    let mut l = RecoveryLadder::new(cfg());
    l.on_sensor_event(end);
    assert_eq!(l.poll(end), None);
    l.start_grace(end);
    assert!(l.in_grace(end));
    l.on_device_removed(end);
    assert_eq!(l.poll(end), None);
}

// An event before the orphan deadline resets in full: the stall that follows
// fires on time, whether or not the deadline lies before it.
#[test]
fn event_after_removal_resets_in_full() {
    let t = timeline();
    for removed in [false, true] {
        for polled in [false, true] {
            let mut l = RecoveryLadder::new(cfg());
            l.on_sensor_event(t(0));
            if removed {
                l.on_device_removed(t(1000));
            }
            l.on_sensor_event(t(5000));
            if polled {
                assert_eq!(l.poll(t(6000)), None);
                assert_eq!(l.poll(t(6500)), None);
            }
            assert_eq!(l.poll(t(6999)), None);
            assert_eq!(l.poll(t(7000)), Some(Action::ReopenController));
        }
    }
}

// A called-off deadline beyond the stall silences its own moment alone.
#[test]
fn called_off_deadline_silences_one_moment() {
    let t = timeline();
    let ladder = || {
        let mut l = RecoveryLadder::new(cfg());
        l.on_sensor_event(t(0));
        l.on_device_removed(t(1000));
        l.on_sensor_event(t(3000));
        l
    };
    assert_eq!(ladder().poll(t(5000)), Some(Action::ReopenController));
    assert_eq!(ladder().poll(t(5999)), Some(Action::ReopenController));
    assert_eq!(ladder().poll(t(6001)), Some(Action::ReopenController));
    let mut l = ladder();
    assert_eq!(l.poll(t(6000)), None);
    assert_eq!(l.poll(t(6000)), None);
    assert_eq!(l.poll(t(6001)), Some(Action::ReopenController));
    // a second event leaves nothing of it
    let mut l = ladder();
    l.on_sensor_event(t(3001));
    assert_eq!(l.poll(t(6000)), Some(Action::ReopenController));
}

// The wait between two retries of the second rung leaves nothing behind: after an
// event the ladder is as a fresh one with the same event.
#[test]
fn event_in_a_retry_wait_resets_in_full() {
    let t = timeline();
    let mut l = RecoveryLadder::new(cfg());
    l.on_sensor_event(t(0));
    for at in [2000, 3000, 4000] {
        assert_eq!(l.poll(t(at)), Some(Action::ReopenController));
        l.on_reopen_result(false, t(at));
    }
    assert_eq!(l.poll(t(5000)), Some(Action::ReinitSubsystem));
    l.on_reinit_attempted(t(5000)); // the retry is due at 15 s
    l.on_sensor_event(t(6000));
    assert_eq!(l.poll(t(7999)), None);
    assert_eq!(l.poll(t(15_000)), Some(Action::ReopenController));
}

// The same for a retry wait that began with a removal.
#[test]
fn event_in_a_retry_wait_after_removal_resets_in_full() {
    let t = timeline();
    let mut l = RecoveryLadder::new(cfg());
    l.on_sensor_event(t(0));
    l.on_device_removed(t(0));
    assert_eq!(l.poll(t(5000)), Some(Action::ReinitSubsystem));
    l.on_reinit_attempted(t(5000));
    l.on_sensor_event(t(6000));
    assert_eq!(l.poll(t(15_000)), Some(Action::ReopenController));
}

// Late polls and late reports move what follows them, and nothing else.
#[test]
fn late_polls_and_reports_shift_the_schedule() {
    let t = timeline();
    let mut l = RecoveryLadder::new(cfg());
    l.on_sensor_event(t(0));
    for (polled, reported) in [(2700, 3100), (4500, 4600), (9000, 9900)] {
        assert_eq!(l.poll(t(polled)), Some(Action::ReopenController));
        l.on_reopen_result(true, t(reported));
        assert_eq!(l.poll(t(reported + 999)), None);
    }
    assert_eq!(l.poll(t(11_000)), Some(Action::ReinitSubsystem));
    l.on_reinit_attempted(t(12_000));
    assert_eq!(l.poll(t(21_999)), None);
    assert_eq!(l.poll(t(30_000)), Some(Action::ReinitSubsystem));
    l.on_reinit_attempted(t(31_000));
    assert_eq!(l.poll(t(50_999)), None);
    assert_eq!(l.poll(t(51_000)), Some(Action::ReinitSubsystem));
}

// A removed device is never reopened before the next event.
#[test]
fn removal_hands_out_no_reopen() {
    let t = timeline();
    let mut l = RecoveryLadder::new(cfg());
    l.on_sensor_event(t(0));
    assert_eq!(l.poll(t(2000)), Some(Action::ReopenController));
    l.on_device_removed(t(2100));
    l.on_reopen_result(true, t(2200));
    for at in (2200..200_000).step_by(100) {
        let action = l.poll(t(at));
        assert_ne!(action, Some(Action::ReopenController));
        if action.is_some() {
            l.on_reinit_attempted(t(at));
        }
    }
}
