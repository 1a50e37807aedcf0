//! What is remembered of one controller identity.
use vstd::prelude::*;

use super::stall_watchdog::{RecoveryLadder, Stage, WatchdogCfg};
use crate::time::Instant;

verus! {

/// A single-precision number, given by its bits.
#[derive(Debug, Clone, Copy, PartialEq, Eq, Structural)]
pub struct Binary32 {
    pub bits: u32,
}

impl Binary32 {
    /// The bits without the sign.
    pub open spec fn payload(self) -> int {
        if self.bits >= 0x8000_0000 {
            self.bits - 0x8000_0000
        } else {
            self.bits as int
        }
    }

    /// `self == other` on numbers: the two zeros are equal, and what is no
    /// number equals nothing.
    pub open spec fn same(self, other: Binary32) -> bool {
        &&& self.payload() <= 0x7f80_0000
        &&& other.payload() <= 0x7f80_0000
        &&& self.bits == other.bits || (self.payload() == 0 && other.payload() == 0)
    }

    fn payload_bits(self) -> (p: u32)
        ensures
            p == self.payload(),
    {
        if self.bits >= 0x8000_0000 {
            self.bits - 0x8000_0000
        } else {
            self.bits
        }
    }

    pub fn equals(self, other: Binary32) -> (r: bool)
        ensures
            r == self.same(other),
    {
        self.payload_bits() <= 0x7f80_0000 && other.payload_bits() <= 0x7f80_0000 && (self.bits
            == other.bits || (self.payload_bits() == 0 && other.payload_bits() == 0))
    }
}

/// A gyroscope reading.
#[derive(Debug, Clone, Copy, PartialEq, Eq, Structural)]
pub struct GyroData {
    pub x: Binary32,
    pub y: Binary32,
    pub z: Binary32,
}

impl GyroData {
    pub open spec fn same(self, other: GyroData) -> bool {
        self.x.same(other.x) && self.y.same(other.y) && self.z.same(other.z)
    }

    pub fn equals(self, other: GyroData) -> (r: bool)
        ensures
            r == self.same(other),
    {
        self.x.equals(other.x) && self.y.equals(other.y) && self.z.equals(other.z)
    }
}

/// Counts for the heartbeat. They never trigger anything.
#[derive(Debug, Clone, Copy, PartialEq, Eq, Structural)]
pub struct Telemetry {
    /// Sensor events since the last heartbeat.
    pub events_in_window: u64,
    pub last_gyro: Option<GyroData>,
    /// How many gyro readings in a row have been equal to the one before.
    pub cur_streak: u32,
    /// The longest such run since the last heartbeat.
    pub window_max_streak: u32,
}

impl Telemetry {
    pub open spec fn blank() -> Telemetry {
        Telemetry { events_in_window: 0, last_gyro: None, cur_streak: 0, window_max_streak: 0 }
    }

    /// Whether a reading equals the one before.
    pub open spec fn repeats(self, gyro: Option<GyroData>) -> bool {
        gyro matches Some(data) && (self.last_gyro matches Some(last) && last.same(data))
    }

    /// Whether another event can be counted.
    pub open spec fn has_room(self, gyro: Option<GyroData>) -> bool {
        &&& self.events_in_window < u64::MAX
        &&& self.repeats(gyro) ==> self.cur_streak < u32::MAX
    }

    fn is_repeated(&self, gyro: Option<GyroData>) -> (r: bool)
        ensures
            r == self.repeats(gyro),
    {
        match (self.last_gyro, gyro) {
            (Some(last), Some(data)) => last.equals(data),
            _ => false,
        }
    }

    pub fn room_left(&self, gyro: Option<GyroData>) -> (r: bool)
        ensures
            r == self.has_room(gyro),
    {
        self.events_in_window < u64::MAX && (!self.is_repeated(gyro) || self.cur_streak < u32::MAX)
    }

    pub open spec fn after_event(self, gyro: Option<GyroData>) -> Telemetry {
        let events_in_window = (self.events_in_window + 1) as u64;
        match gyro {
            None => Telemetry { events_in_window, ..self },
            Some(data) => if self.repeats(gyro) {
                let cur_streak = (self.cur_streak + 1) as u32;
                Telemetry {
                    events_in_window,
                    last_gyro: Some(data),
                    cur_streak,
                    window_max_streak: if self.window_max_streak >= cur_streak {
                        self.window_max_streak
                    } else {
                        cur_streak
                    },
                }
            } else {
                Telemetry { events_in_window, last_gyro: Some(data), cur_streak: 0, ..self }
            },
        }
    }

    /// The start of a new heartbeat window.
    pub open spec fn after_heartbeat(self) -> Telemetry {
        Telemetry { events_in_window: 0, cur_streak: 0, window_max_streak: 0, ..self }
    }

    /// Counts a sensor event, with the reading where it is the gyroscope's.
    pub fn count(&mut self, gyro: Option<GyroData>)
        requires
            old(self).has_room(gyro),
        ensures
            *final(self) == old(self).after_event(gyro),
    {
        let repeated = self.is_repeated(gyro);
        self.events_in_window = self.events_in_window + 1;
        if let Some(data) = gyro {
            if repeated {
                self.cur_streak = self.cur_streak + 1;
                if self.window_max_streak < self.cur_streak {
                    self.window_max_streak = self.cur_streak;
                }
            } else {
                self.cur_streak = 0;
            }
            self.last_gyro = Some(data);
        }
    }

    pub fn start_window(&mut self)
        ensures
            *final(self) == old(self).after_heartbeat(),
    {
        self.events_in_window = 0;
        self.window_max_streak = 0;
        self.cur_streak = 0;
    }
}

/// The watchdog entry of one controller identity. It outlives the live handle.
#[derive(Debug, Clone, Copy)]
pub struct WatchEntry {
    pub ladder: RecoveryLadder,
    /// The last known instance id, by which the device is looked up once the
    /// live handle is gone.
    pub last_instance: Option<u32>,
    pub telemetry: Telemetry,
}

impl WatchEntry {
    /// Whether `self` is `before` with its ladder moved to `stage`, and nothing
    /// else changed.
    pub open spec fn moved(self, before: WatchEntry, stage: Stage) -> bool {
        &&& self.ladder.stage() == stage
        &&& self.ladder.cfg() == before.ladder.cfg()
        &&& self.ladder.grace_until() == before.ladder.grace_until()
        &&& self.last_instance == before.last_instance
        &&& self.telemetry == before.telemetry
    }

    pub fn new(cfg: WatchdogCfg) -> (w: Self)
        ensures
            w.ladder.cfg() == cfg,
            w.ladder.stage() == Stage::Unarmed,
            w.ladder.grace_until() is None,
            w.last_instance is None,
            w.telemetry == Telemetry::blank(),
    {
        WatchEntry {
            ladder: RecoveryLadder::new(cfg),
            last_instance: None,
            telemetry: Telemetry {
                events_in_window: 0,
                last_gyro: None,
                cur_streak: 0,
                window_max_streak: 0,
            },
        }
    }

    /// A sensor event arrived, with the reading where it is the gyroscope's.
    pub fn on_sensor_event(&mut self, gyro: Option<GyroData>, now: Instant)
        requires
            old(self).telemetry.has_room(gyro),
        ensures
            final(self).ladder.stage() == old(self).ladder.stage().after_sensor_event(
                old(self).ladder.cfg(),
                now@,
            ),
            final(self).ladder.cfg() == old(self).ladder.cfg(),
            final(self).ladder.grace_until() == old(self).ladder.grace_until(),
            final(self).last_instance == old(self).last_instance,
            final(self).telemetry == old(self).telemetry.after_event(gyro),
    {
        self.ladder.on_sensor_event(now);
        self.telemetry.count(gyro);
    }
}

/// Equality of numbers is an equality: it goes both ways and along, holds of every
/// number with itself and of what is no number never, and only the two zeros are
/// equal without being the same bits.
pub proof fn law_equal_numbers(a: Binary32, b: Binary32, c: Binary32)
    ensures
        a.same(b) ==> b.same(a),
        a.same(b) && b.same(c) ==> a.same(c),
        a.same(a) <==> !(0x7f80_0000 < a.bits < 0x8000_0000 || a.bits > 0xff80_0000),
        a.same(b) && a.bits != b.bits ==> (a.bits == 0 || a.bits == 0x8000_0000) && (b.bits == 0
            || b.bits == 0x8000_0000),
        (Binary32 { bits: 0 }).same(Binary32 { bits: 0x8000_0000 }),
{
}

/// Readings are equal where all three of their numbers are.
pub proof fn law_equal_readings(a: GyroData, b: GyroData)
    ensures
        a.same(b) ==> a.x.same(b.x) && a.y.same(b.y) && a.z.same(b.z),
        !a.same(b) ==> !a.x.same(b.x) || !a.y.same(b.y) || !a.z.same(b.z),
{
}

/// What one event does to the counts. It is counted once. Where it is no gyroscope
/// reading, that is all. A reading is remembered; one that equals the last one
/// lengthens the run, any other ends it; and the longest run is never shorter than
/// it was, nor than the run there is.
pub proof fn law_counting_an_event(t: Telemetry, gyro: Option<GyroData>)
    requires
        t.has_room(gyro),
    ensures
        ({
            let after = t.after_event(gyro);
            &&& after.events_in_window == t.events_in_window + 1
            &&& match gyro {
                None => after.last_gyro == t.last_gyro && after.cur_streak == t.cur_streak
                    && after.window_max_streak == t.window_max_streak,
                Some(data) => {
                    let equal = match t.last_gyro {
                        Some(last) => last.same(data),
                        None => false,
                    };
                    &&& after.last_gyro == Some(data)
                    &&& equal ==> after.cur_streak == t.cur_streak + 1
                    &&& !equal ==> after.cur_streak == 0
                    &&& after.window_max_streak >= t.window_max_streak
                    &&& equal ==> after.window_max_streak >= after.cur_streak
                    &&& after.window_max_streak == t.window_max_streak || (equal
                        && after.window_max_streak == after.cur_streak)
                },
            }
        }),
{
}

/// Events are lost to no count: a series of them is counted one by one.
pub proof fn law_every_event_is_counted(t: Telemetry, events: Seq<Option<GyroData>>)
    requires
        t.events_in_window + events.len() < u64::MAX,
        t.cur_streak + events.len() < u32::MAX,
    ensures
        after_events(t, events).events_in_window == t.events_in_window + events.len(),
        after_events(t, events).cur_streak <= t.cur_streak + events.len(),
    decreases events.len(),
{
    if events.len() > 0 {
        law_every_event_is_counted(t, events.drop_last());
        law_counting_an_event(after_events(t, events.drop_last()), events.last());
    }
}

/// The counts after a series of events.
pub open spec fn after_events(t: Telemetry, events: Seq<Option<GyroData>>) -> Telemetry
    decreases events.len(),
{
    if events.len() == 0 {
        t
    } else {
        after_events(t, events.drop_last()).after_event(events.last())
    }
}

/// A heartbeat starts all counts anew, and forgets nothing else.
pub proof fn law_heartbeat_starts_anew(t: Telemetry)
    ensures
        t.after_heartbeat().events_in_window == 0,
        t.after_heartbeat().cur_streak == 0,
        t.after_heartbeat().window_max_streak == 0,
        t.after_heartbeat().last_gyro == t.last_gyro,
        Telemetry::blank().events_in_window == 0,
        Telemetry::blank().cur_streak == 0,
        Telemetry::blank().window_max_streak == 0,
        Telemetry::blank().last_gyro is None,
{
}

/// Room is short only where a count is full: that of the events, or that of the
/// run which the reading would lengthen.
pub proof fn law_room_is_short_only_when_full(t: Telemetry, gyro: Option<GyroData>)
    ensures
        !t.has_room(gyro) ==> t.events_in_window == u64::MAX || t.cur_streak == u32::MAX,
        t.events_in_window == u64::MAX ==> !t.has_room(gyro),
{
}

/// A ladder that moves takes nothing else along: its thresholds and grace window,
/// the last instance and the counts stay.
pub proof fn law_moving_keeps_the_rest(after: WatchEntry, before: WatchEntry, stage: Stage)
    requires
        after.moved(before, stage),
    ensures
        after.ladder.stage() == stage,
        after.ladder.cfg() == before.ladder.cfg(),
        after.ladder.grace_until() == before.ladder.grace_until(),
        after.last_instance == before.last_instance,
        after.telemetry == before.telemetry,
{
}

} // verus!
