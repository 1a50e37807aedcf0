//! HID-stall recovery ladder: timing and escalation, no device access.
//!
//! A controller's report stream can stop silently while its link stays up.
//! The ladder decides when that has happened and what to try next; the backend
//! performs the attempt and reports back.
//!
//! One ladder exists per controller identity, and outlives the live handle:
//! while a recovery is in flight there is no handle, but the ladder keeps
//! being polled, so a failed attempt never leaves nobody in charge.
//!
//! Stages:
//!   `Unarmed`: no sensor event yet; never fires. A controller whose sensors
//!              could not be enabled must not trip the watchdog.
//!   `Armed`: sensor events flow; fires the first rung after `stall_after` of
//!              silence.
//!   `Reopening`: first rung; reopen the controller every `reopen_interval`.
//!              Failed opens count as attempts. After `max_reopens` attempts
//!              the next due poll goes to the second rung.
//!   `ReinitPending`: second rung; reinitialise the whole subsystem with
//!              exponential backoff, capped, without ever giving up.
//!
//! Any sensor event takes the ladder back to `Armed`. A reopen that succeeds is
//! not a recovery: only a sensor event is.
use vstd::prelude::*;

use crate::time::{Duration, Instant};

verus! {

/// Recovery action that the backend must perform.
#[derive(Debug, Clone, Copy, PartialEq, Eq, Structural)]
pub enum Action {
    /// First rung: drop and reopen this controller.
    ReopenController,
    /// Second rung: quit and reinitialise the game-controller subsystem.
    ReinitSubsystem,
}

/// All thresholds of the ladder.
#[derive(Debug, Clone, Copy)]
pub struct WatchdogCfg {
    /// Sensor-event silence after which a stall is declared.
    pub stall_after: Duration,
    /// Interval between reopen attempts.
    pub reopen_interval: Duration,
    /// Reopen attempts, silent or failed, before the second rung.
    pub max_reopens: u32,
    /// After a logical disconnect, how long to wait for the device to come
    /// back on its own before the second rung.
    pub orphan_after: Duration,
    /// First retry interval of the second rung; doubles with each attempt.
    pub reinit_backoff_start: Duration,
    /// Cap on the retry interval of the second rung.
    pub reinit_backoff_max: Duration,
    /// Window after a recovery in which motion must not be applied.
    pub grace: Duration,
}

impl Default for WatchdogCfg {
    fn default() -> (cfg: Self)
        ensures
            cfg.stall_after@ == 2_000_000_000,
            cfg.reopen_interval@ == 1_000_000_000,
            cfg.max_reopens == 3,
            cfg.orphan_after@ == 5_000_000_000,
            cfg.reinit_backoff_start@ == 10_000_000_000,
            cfg.reinit_backoff_max@ == 60_000_000_000,
            cfg.grace@ == 300_000_000,
    {
        WatchdogCfg {
            stall_after: Duration::from_millis(2000),
            reopen_interval: Duration::from_millis(1000),
            max_reopens: 3,
            orphan_after: Duration::from_millis(5000),
            reinit_backoff_start: Duration::from_secs(10),
            reinit_backoff_max: Duration::from_secs(60),
            grace: Duration::from_millis(300),
        }
    }
}

/// Where a ladder stands. Points in time are nanoseconds after the clock's
/// origin.
pub enum Stage {
    /// No sensor event so far.
    Unarmed,
    /// Sensor events flow. `called_off` is the end of the wait for a removed
    /// device that the last event cut short, where it lies beyond the next stall:
    /// a poll at that very moment hands out nothing.
    Armed { last_event: nat, called_off: Option<nat> },
    /// `attempts` reopens have been reported. The next one is due at `due`;
    /// without a `due`, one is out and its result has not come.
    Reopening { attempts: nat, due: Option<nat> },
    /// The next reinitialisation is due at `due`; without a `due`, one is out
    /// and has not been reported. `backoff` is the interval to wait after it.
    /// `orphan` says that this is the wait for a removed device to come back.
    ReinitPending { due: Option<nat>, backoff: nat, orphan: bool },
}

pub open spec fn shorter(a: nat, b: nat) -> nat {
    if a <= b {
        a
    } else {
        b
    }
}

impl Stage {
    /// Whether an action has been handed out whose result has not come.
    pub open spec fn outstanding(self) -> bool {
        match self {
            Stage::Reopening { due, .. } => due is None,
            Stage::ReinitPending { due, .. } => due is None,
            _ => false,
        }
    }

    /// The end of the wait for a removed device that a sensor event at `now` cuts
    /// short, where it lies beyond the moment at which silence would be a stall.
    /// The waits between retries leave nothing behind.
    pub open spec fn calls_off(self, cfg: WatchdogCfg, now: nat) -> Option<nat> {
        match self {
            Stage::ReinitPending { due: Some(t), orphan: true, .. } => if t > now + cfg.stall_after@ {
                Some(t)
            } else {
                None
            },
            _ => None,
        }
    }

    pub open spec fn after_sensor_event(self, cfg: WatchdogCfg, now: nat) -> Stage {
        Stage::Armed { last_event: now, called_off: self.calls_off(cfg, now) }
    }

    pub open spec fn after_device_removed(self, cfg: WatchdogCfg, now: nat) -> Stage {
        match self {
            Stage::Unarmed => Stage::Unarmed,
            _ => Stage::ReinitPending {
                due: Some(now + cfg.orphan_after@),
                backoff: cfg.reinit_backoff_start@,
                orphan: true,
            },
        }
    }

    /// What a poll at `now` returns.
    pub open spec fn due_action(self, cfg: WatchdogCfg, now: nat) -> Option<Action> {
        match self {
            Stage::Unarmed => None,
            Stage::Armed { last_event, called_off } => if now >= last_event + cfg.stall_after@
                && called_off != Some(now) {
                Some(Action::ReopenController)
            } else {
                None
            },
            Stage::Reopening { attempts, due } => if due matches Some(t) && now >= t {
                if attempts < cfg.max_reopens {
                    Some(Action::ReopenController)
                } else {
                    Some(Action::ReinitSubsystem)
                }
            } else {
                None
            },
            Stage::ReinitPending { due, .. } => if due matches Some(t) && now >= t {
                Some(Action::ReinitSubsystem)
            } else {
                None
            },
        }
    }

    pub open spec fn after_poll(self, cfg: WatchdogCfg, now: nat) -> Stage {
        match self.due_action(cfg, now) {
            Some(Action::ReopenController) => Stage::Reopening {
                attempts: match self {
                    Stage::Reopening { attempts, .. } => attempts,
                    _ => 0,
                },
                due: None,
            },
            Some(Action::ReinitSubsystem) => Stage::ReinitPending {
                due: None,
                backoff: match self {
                    Stage::ReinitPending { backoff, .. } => backoff,
                    _ => cfg.reinit_backoff_start@,
                },
                orphan: false,
            },
            None => self,
        }
    }

    pub open spec fn after_reopen_result(self, cfg: WatchdogCfg, now: nat) -> Stage {
        match self {
            Stage::Reopening { attempts, due: None } => Stage::Reopening {
                attempts: attempts + 1,
                due: Some(now + cfg.reopen_interval@),
            },
            _ => self,
        }
    }

    pub open spec fn after_reinit_attempted(self, cfg: WatchdogCfg, now: nat) -> Stage {
        match self {
            Stage::ReinitPending { due: None, backoff, .. } => Stage::ReinitPending {
                due: Some(now + shorter(backoff, cfg.reinit_backoff_max@)),
                backoff: shorter(2 * backoff, cfg.reinit_backoff_max@),
                orphan: false,
            },
            _ => self,
        }
    }
}

/// The instant `wait` after `start`, kept apart so that no deadline is beyond
/// the clock's range.
#[derive(Debug, Clone, Copy)]
struct Deadline {
    start: Instant,
    wait: Duration,
}

impl View for Deadline {
    type V = nat;

    closed spec fn view(&self) -> nat {
        self.start@ + self.wait@
    }
}

impl Deadline {
    fn passed(self, now: Instant) -> (r: bool)
        ensures
            r == (now@ >= self@),
    {
        now.reached(self.start, self.wait)
    }

    /// Whether this deadline is later than the one `wait` after `now`.
    fn beyond(self, now: Instant, wait: Duration) -> (r: bool)
        ensures
            r == (self@ > now@ + wait@),
    {
        self.start.nanos_after(self.wait) > now.nanos_after(wait)
    }

    fn is_now(self, now: Instant) -> (r: bool)
        ensures
            r == (self@ == now@),
    {
        self.start.nanos_after(self.wait) == now.nanos_after(Duration::zero())
    }
}

#[derive(Debug, Clone, Copy)]
enum State {
    Unarmed,
    Armed { last_event: Instant, called_off: Option<Deadline> },
    Reopening { attempts: u32, due: Option<Deadline> },
    ReinitPending { due: Option<Deadline>, backoff: Duration, orphan: bool },
}

spec fn at(d: Option<Deadline>) -> Option<nat> {
    match d {
        Some(deadline) => Some(deadline@),
        None => None,
    }
}

impl State {
    spec fn stage(self) -> Stage {
        match self {
            State::Unarmed => Stage::Unarmed,
            State::Armed { last_event, called_off } => Stage::Armed {
                last_event: last_event@,
                called_off: at(called_off),
            },
            State::Reopening { attempts, due } => Stage::Reopening {
                attempts: attempts as nat,
                due: at(due),
            },
            State::ReinitPending { due, backoff, orphan } => Stage::ReinitPending {
                due: at(due),
                backoff: backoff@,
                orphan,
            },
        }
    }
}

/// Stall watchdog and escalation ladder of one controller identity.
#[derive(Debug, Clone, Copy)]
pub struct RecoveryLadder {
    cfg: WatchdogCfg,
    state: State,
    grace_until: Option<Deadline>,
}

impl RecoveryLadder {
    #[verifier::type_invariant]
    spec fn attempts_can_grow(self) -> bool {
        self.state matches State::Reopening { attempts, due: None } ==> attempts < u32::MAX
    }

    /// The thresholds it was made with.
    pub closed spec fn cfg(self) -> WatchdogCfg {
        self.cfg
    }

    pub closed spec fn stage(self) -> Stage {
        self.state.stage()
    }

    /// When the last grace window ends.
    pub closed spec fn grace_until(self) -> Option<nat> {
        at(self.grace_until)
    }

    pub fn new(cfg: WatchdogCfg) -> (ladder: Self)
        ensures
            ladder.cfg() == cfg,
            ladder.stage() == Stage::Unarmed,
            ladder.grace_until() is None,
    {
        RecoveryLadder { cfg, state: State::Unarmed, grace_until: None }
    }

    /// A sensor event arrived for this controller: arms the ladder, feeds the
    /// watchdog and takes back all escalation.
    ///
    /// The wait for a removed device to come back is cut short. Where its end
    /// lies beyond the next stall, a poll at the very moment of it still hands out
    /// nothing; at every other moment, and after everything else, the ladder
    /// answers as if it had never left `Armed`.
    pub fn on_sensor_event(&mut self, now: Instant)
        ensures
            final(self).stage() == old(self).stage().after_sensor_event(old(self).cfg(), now@),
            final(self).cfg() == old(self).cfg(),
            final(self).grace_until() == old(self).grace_until(),
    {
        let called_off = match self.state {
            State::ReinitPending { due: Some(deadline), orphan: true, .. } => if deadline.beyond(
                now,
                self.cfg.stall_after,
            ) {
                Some(deadline)
            } else {
                None
            },
            _ => None,
        };
        self.state = State::Armed { last_event: now, called_off };
    }

    /// The device was declared disconnected, so it cannot be reopened. Waits
    /// `orphan_after` for it to come back, then starts the second rung. An
    /// unarmed ladder stays unarmed.
    pub fn on_device_removed(&mut self, now: Instant)
        ensures
            final(self).stage() == old(self).stage().after_device_removed(old(self).cfg(), now@),
            final(self).cfg() == old(self).cfg(),
            final(self).grace_until() == old(self).grace_until(),
    {
        match self.state {
            State::Unarmed => {},
            _ => {
                self.state = State::ReinitPending {
                    due: Some(Deadline { start: now, wait: self.cfg.orphan_after }),
                    backoff: self.cfg.reinit_backoff_start,
                    orphan: true,
                };
            },
        }
    }

    /// Poll once per tick. Returns the action that is due, if any. The same
    /// action is not returned again before its result is reported. A poll that
    /// returns none changes nothing.
    pub fn poll(&mut self, now: Instant) -> (action: Option<Action>)
        ensures
            action == old(self).stage().due_action(old(self).cfg(), now@),
            final(self).stage() == old(self).stage().after_poll(old(self).cfg(), now@),
            final(self).cfg() == old(self).cfg(),
            final(self).grace_until() == old(self).grace_until(),
    {
        match self.state {
            State::Unarmed => None,
            State::Armed { last_event, called_off } => {
                let silenced = match called_off {
                    Some(deadline) => deadline.is_now(now),
                    None => false,
                };
                if now.reached(last_event, self.cfg.stall_after) && !silenced {
                    self.state = State::Reopening { attempts: 0, due: None };
                    Some(Action::ReopenController)
                } else {
                    None
                }
            },
            State::Reopening { attempts, due } => {
                match due {
                    Some(deadline) => {
                        if !deadline.passed(now) {
                            None
                        } else if attempts < self.cfg.max_reopens {
                            self.state = State::Reopening { attempts, due: None };
                            Some(Action::ReopenController)
                        } else {
                            self.state = State::ReinitPending {
                                due: None,
                                backoff: self.cfg.reinit_backoff_start,
                                orphan: false,
                            };
                            Some(Action::ReinitSubsystem)
                        }
                    },
                    None => None,
                }
            },
            State::ReinitPending { due, backoff, .. } => {
                match due {
                    Some(deadline) => {
                        if deadline.passed(now) {
                            self.state = State::ReinitPending { due: None, backoff, orphan: false };
                            Some(Action::ReinitSubsystem)
                        } else {
                            None
                        }
                    },
                    None => None,
                }
            },
        }
    }

    /// Report the outcome of a `ReopenController` action. A failed open is an
    /// attempt too, and a successful one is no recovery, so `ok` changes
    /// nothing: only a sensor event resets the ladder.
    pub fn on_reopen_result(&mut self, ok: bool, now: Instant)
        ensures
            final(self).stage() == old(self).stage().after_reopen_result(old(self).cfg(), now@),
            final(self).cfg() == old(self).cfg(),
            final(self).grace_until() == old(self).grace_until(),
    {
        proof {
            use_type_invariant(&*self);
        }
        if let State::Reopening { attempts, due: None } = self.state {
            self.state = State::Reopening {
                attempts: attempts + 1,
                due: Some(Deadline { start: now, wait: self.cfg.reopen_interval }),
            };
        }
    }

    /// Report that a `ReinitSubsystem` action was performed: schedules the next
    /// one, twice as far off each time up to the cap.
    pub fn on_reinit_attempted(&mut self, now: Instant)
        ensures
            final(self).stage() == old(self).stage().after_reinit_attempted(old(self).cfg(), now@),
            final(self).cfg() == old(self).cfg(),
            final(self).grace_until() == old(self).grace_until(),
    {
        if let State::ReinitPending { due: None, backoff, .. } = self.state {
            let cap = self.cfg.reinit_backoff_max;
            self.state = State::ReinitPending {
                due: Some(Deadline { start: now, wait: backoff.min(cap) }),
                backoff: backoff.saturating_add(backoff).min(cap),
                orphan: false,
            };
        }
    }

    /// Begin the window after a recovery in which motion is suppressed.
    pub fn start_grace(&mut self, now: Instant)
        ensures
            final(self).grace_until() == Some(now@ + old(self).cfg().grace@),
            final(self).stage() == old(self).stage(),
            final(self).cfg() == old(self).cfg(),
    {
        proof {
            use_type_invariant(&*self);
        }
        self.grace_until = Some(Deadline { start: now, wait: self.cfg.grace });
    }

    /// Whether `now` is before the end of the grace window.
    pub fn in_grace(&self, now: Instant) -> (r: bool)
        ensures
            r == (self.grace_until() matches Some(t) && now@ < t),
    {
        match self.grace_until {
            Some(deadline) => !deadline.passed(now),
            None => false,
        }
    }
}

} // verus!
