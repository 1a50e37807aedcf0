//! What holds of a session across several calls.
use vstd::prelude::*;

use super::session::{
    by_name, due_among, edge, mirror_pad, parked_with, ControllerState, Heartbeat, MotionStep, OpenPlan,
    Session,
};
use super::stall_watchdog::{Action, Stage};
use super::watch::{GyroData, WatchEntry};
use crate::time::Instant;

verus! {

/// A controller that is closed and opened anew, under whatever instance id,
/// takes over the very engine that it had and is not calibrated again. What was
/// parked before is parked again, the ladder stands where it stood, and motion
/// is let go from then on for as long as the grace window is.
pub proof fn law_reopening_keeps_the_engine<H, E, L>(
    open: Session<H, E, L>,
    closed: Session<H, E, L>,
    ready: Session<H, E, L>,
    which: u32,
    handle: Option<H>,
    instance: u32,
    sensors_ok: bool,
    now: nat,
    plan: OpenPlan<E>,
)
    requires
        open.wf(),
        open.active().contains_key(which),
        closed.detached(open, which, handle),
        closed.wf(),
        ready.prepared(closed, open.active()[which].name@, instance, sensors_ok, now, plan),
    ensures
        plan == OpenPlan::Adopt(open.active()[which].engine),
        ready.parked_engines() == open.parked_engines(),
        ({
            let name = open.active()[which].name@;
            let watch = ready.watched()[name];
            &&& watch.ladder.stage() == open.watched()[name].ladder.stage()
            &&& watch.ladder.grace_until() == Some(now + open.thresholds().grace@)
            &&& watch.telemetry == open.watched()[name].telemetry
            &&& watch.last_instance == Some(instance)
        }),
{
    open.lemma_active();
    let c = open.active()[which];
    assert(open.listed().contains(c));
    assert(!open.parked_engines().contains_key(c.name@));
    assert(open.parked_engines().insert(c.name@, c.engine).remove(c.name@) =~= open.parked_engines());
}

/// A controller that is closed may be opened again, unless it is a mirror pad:
/// its own name does not stand in its way.
pub proof fn law_closed_controller_may_return<H, E, L>(
    open: Session<H, E, L>,
    closed: Session<H, E, L>,
    which: u32,
    handle: Option<H>,
)
    requires
        open.wf(),
        closed.wf(),
        open.active().contains_key(which),
        closed.detached(open, which, handle),
        open.active()[which].name@ != mirror_pad(),
    ensures
        closed.may_open(open.active()[which].name@),
{
    open.lemma_active();
    closed.lemma_active();
    let name = open.active()[which].name@;
    if closed.is_open(name) {
        let i = choose|i: int|
            0 <= i < closed.listed().len() && (#[trigger] closed.listed()[i]).name@ == name;
        assert(closed.parked_engines().contains_key(name));
        assert(!closed.parked_engines().contains_key(closed.listed()[i].name@));
    }
}

/// Right after a recovery the motion of the controller is not applied: for as
/// long as the grace window that its adoption started is the last one, and has
/// not ended.
pub proof fn law_grace_withholds_motion<H, E, L>(
    before: Session<H, E, L>,
    ready: Session<H, E, L>,
    later: Session<H, E, L>,
    name: Seq<char>,
    instance: u32,
    adopted_at: nat,
    engine: E,
    i: int,
    sensors_enabled: bool,
    read_ok: bool,
    sensors_ok: bool,
    now: Instant,
)
    requires
        before.wf(),
        ready.prepared(before, name, instance, sensors_ok, adopted_at, OpenPlan::Adopt(engine)),
        0 <= i < later.listed().len(),
        later.listed()[i].name@ == name,
        later.watched().contains_key(name),
        later.watched()[name].ladder.grace_until() == ready.watched()[name].ladder.grace_until(),
        now@ < adopted_at + before.thresholds().grace@,
    ensures
        later.step_for(i, sensors_enabled, read_ok, now) != MotionStep::Apply,
{
}

/// Starting the subsystem anew loses no engine: each one that was in use is
/// parked under the name of its controller, and what was parked stays so.
pub proof fn law_reinit_parks_every_engine<H, E, L>(s: Session<H, E, L>)
    requires
        s.wf(),
    ensures
        ({
            let n = s.listed().len() as int;
            let parked = parked_with(s.parked_engines(), s.listed(), n);
            &&& forall|i: int|
                0 <= i < n ==> parked.contains_key((#[trigger] s.listed()[i]).name@)
                    && parked[s.listed()[i].name@] == s.listed()[i].engine
            &&& forall|name: Seq<char>| #[trigger]
                s.parked_engines().contains_key(name) ==> parked.contains_key(name) && parked[name]
                    == s.parked_engines()[name]
            &&& forall|name: Seq<char>| #[trigger]
                parked.contains_key(name) ==> s.parked_engines().contains_key(name) || s.is_open(name)
        }),
{
    lemma_parked(s, s.listed().len() as int);
}

proof fn lemma_parked<H, E, L>(s: Session<H, E, L>, n: int)
    requires
        s.wf(),
        0 <= n <= s.listed().len(),
    ensures
        ({
            let parked = parked_with(s.parked_engines(), s.listed(), n);
            &&& forall|i: int|
                0 <= i < n ==> parked.contains_key((#[trigger] s.listed()[i]).name@)
                    && parked[s.listed()[i].name@] == s.listed()[i].engine
            &&& forall|name: Seq<char>| #[trigger]
                s.parked_engines().contains_key(name) ==> parked.contains_key(name) && parked[name]
                    == s.parked_engines()[name]
            &&& forall|name: Seq<char>| #[trigger]
                parked.contains_key(name) ==> s.parked_engines().contains_key(name) || s.is_open(name)
        }),
    decreases n,
{
    if n > 0 {
        lemma_parked(s, n - 1);
        let before = parked_with(s.parked_engines(), s.listed(), n - 1);
        let parked = parked_with(s.parked_engines(), s.listed(), n);
        let last = s.listed()[n - 1];
        assert(parked == before.insert(last.name@, last.engine));
        assert forall|i: int| 0 <= i < n implies parked.contains_key(
            (#[trigger] s.listed()[i]).name@,
        ) && parked[s.listed()[i].name@] == s.listed()[i].engine by {
            if i < n - 1 {
                assert(s.listed()[i].name@ != s.listed()[n - 1].name@);
            }
        }
        assert forall|name: Seq<char>| #[trigger] s.parked_engines().contains_key(name) implies (
        parked.contains_key(name) && parked[name] == s.parked_engines()[name]) by {
            assert(!s.parked_engines().contains_key(last.name@));
        }
        assert(s.is_open(last.name@));
    }
}

/// No two controllers of one name are open at a time.
pub proof fn law_one_controller_per_name<H, E, L>(s: Session<H, E, L>, a: u32, b: u32)
    requires
        s.wf(),
        s.active().contains_key(a),
        s.active().contains_key(b),
        s.active()[a].name@ == s.active()[b].name@,
    ensures
        a == b,
{
    s.lemma_active();
    let i = choose|i: int| 0 <= i < s.listed().len() && s.listed()[i] == s.active()[a];
    let j = choose|j: int| 0 <= j < s.listed().len() && s.listed()[j] == s.active()[b];
    assert(s.listed().contains(s.active()[a]));
    assert(s.listed().contains(s.active()[b]));
    if i < j {
        assert(s.listed()[i].name@ != s.listed()[j].name@);
    } else if j < i {
        assert(s.listed()[j].name@ != s.listed()[i].name@);
    }
}

/// A trigger that does not move makes no key edge, and the edges of a trigger
/// alternate: down is followed by up, and up by down.
pub proof fn law_edges_alternate(first: bool, second: bool, third: bool)
    ensures
        edge(first, first) is None,
        (edge(first, second) is Some && edge(second, third) is Some)
            ==> edge(first, second)->0 != edge(second, third)->0,
{
}

/// An event that comes for a controller after it was closed moves no ladder, and
/// so cannot stop a recovery that is under way.
pub proof fn law_stale_event_moves_no_ladder<H, E, L>(
    open: Session<H, E, L>,
    closed: Session<H, E, L>,
    after: Session<H, E, L>,
    which: u32,
    handle: Option<H>,
    gyro: Option<GyroData>,
    now: nat,
)
    requires
        open.wf(),
        closed.detached(open, which, handle),
        after.sensed(closed, which, gyro, now),
    ensures
        after.same_watches(closed),
{
}

/// Nothing that a ladder hands out is lost: an action is among those that are due
/// if and only if the ladder of its name, which is watched, hands it out.
pub proof fn law_every_due_ladder_is_listed<H, E, L>(
    s: Session<H, E, L>,
    now: nat,
    name: Seq<char>,
    action: Action,
)
    requires
        s.wf(),
    ensures
        s.due_at(now).contains((name, action)) <==> s.watched().contains_key(name)
            && s.watched()[name].ladder.stage().due_action(
            s.watched()[name].ladder.cfg(),
            now,
        ) == Some(action),
{
    s.lemma_watch_names();
    lemma_due_among(s.watch_names(), s.watched(), now, s.watch_names().len() as int, name, action);
    if s.watched().contains_key(name) {
        assert(s.watch_names().contains(name));
    }
    assert forall|k: int|
        0 <= k < s.watch_names().len() && #[trigger] s.watch_names()[k] == name implies s.watched().contains_key(
        name,
    ) by {
        assert(s.watch_names().contains(name));
    }
}

proof fn lemma_due_among(
    names: Seq<Seq<char>>,
    watches: Map<Seq<char>, WatchEntry>,
    now: nat,
    n: int,
    name: Seq<char>,
    action: Action,
)
    requires
        0 <= n <= names.len(),
    ensures
        due_among(names, watches, now, n).contains((name, action)) <==> (exists|k: int|
            0 <= k < n && #[trigger] names[k] == name) && watches[name].ladder.stage().due_action(
            watches[name].ladder.cfg(),
            now,
        ) == Some(action),
    decreases n,
{
    if n > 0 {
        lemma_due_among(names, watches, now, n - 1, name, action);
        let before = due_among(names, watches, now, n - 1);
        let ladder = watches[names[n - 1]].ladder;
        let all = due_among(names, watches, now, n);
        if let Some(a) = ladder.stage().due_action(ladder.cfg(), now) {
            assert(all == before.push((names[n - 1], a)));
            if before.contains((name, action)) {
                let k = choose|k: int| 0 <= k < before.len() && before[k] == (name, action);
                assert(all[k] == (name, action));
            }
            if all.contains((name, action)) {
                let k = choose|k: int| 0 <= k < all.len() && all[k] == (name, action);
                if k < before.len() {
                    assert(before[k] == (name, action));
                }
            }
            assert(all[before.len() as int] == (names[n - 1], a));
        }
        if exists|k: int| 0 <= k < n && #[trigger] names[k] == name {
            let k = choose|k: int| 0 <= k < n && #[trigger] names[k] == name;
            if k < n - 1 {
                assert(0 <= k < n - 1 && names[k] == name);
            }
        }
    }
}

/// A controller of a name is open where the open controllers, by their instance
/// ids, hold one of that name.
pub proof fn law_open_by_name<H, E, L>(s: Session<H, E, L>, name: Seq<char>)
    requires
        s.wf(),
    ensures
        s.is_open(name) <==> exists|w: u32| #[trigger]
            s.active().contains_key(w) && s.active()[w].name@ == name,
{
    s.lemma_active();
    if s.is_open(name) {
        let i = choose|i: int| 0 <= i < s.listed().len() && (#[trigger] s.listed()[i]).name@ == name;
        assert(s.active().contains_key(s.listed()[i].instance));
    }
    if exists|w: u32| #[trigger] s.active().contains_key(w) && s.active()[w].name@ == name {
        let w = choose|w: u32| #[trigger]
            s.active().contains_key(w) && s.active()[w].name@ == name;
        assert(s.listed().contains(s.active()[w]));
        let i = choose|i: int| 0 <= i < s.listed().len() && s.listed()[i] == s.active()[w];
        assert(s.listed()[i].name@ == name);
    }
}

/// A reopen is aimed at the controller of its name. Where one is open, the target
/// is the instance id under which exactly that controller is open; where none is,
/// it is the last one known of the name; and there is one target at most.
pub proof fn law_target_is_the_controller_of_the_name<H, E, L>(
    s: Session<H, E, L>,
    name: Seq<char>,
    target: Option<u32>,
    other: Option<u32>,
)
    requires
        s.wf(),
        s.is_target(name, target),
    ensures
        s.is_open(name) ==> (target matches Some(w) && s.active().contains_key(w)
            && s.active()[w].name@ == name),
        !s.is_open(name) && s.watched().contains_key(name) ==> target
            == s.watched()[name].last_instance,
        !s.is_open(name) && !s.watched().contains_key(name) ==> target is None,
        s.is_target(name, other) ==> other == target,
{
    s.lemma_active();
    if s.is_open(name) {
        let i = choose|i: int| 0 <= i < s.listed().len() && (#[trigger] s.listed()[i]).name@ == name;
        assert(target == Some(s.listed()[i].instance));
    }
}

/// Closing a controller takes that one and no other. The others stay open as they
/// were; its engine is parked under its name, and the other parked engines stay;
/// what is left of it is its own handle. Ladders, counts and clocks stay. Closing
/// one that is not open changes nothing.
pub proof fn law_closing_takes_one<H, E, L>(
    open: Session<H, E, L>,
    closed: Session<H, E, L>,
    which: u32,
    handle: Option<H>,
    other: u32,
    name: Seq<char>,
)
    requires
        open.wf(),
        closed.detached(open, which, handle),
    ensures
        other != which ==> (closed.active().contains_key(other) <==> open.active().contains_key(
            other,
        )),
        other != which && open.active().contains_key(other) ==> closed.active()[other]
            == open.active()[other],
        !closed.active().contains_key(which),
        open.active().contains_key(which) ==> {
            let c = open.active()[which];
            &&& handle == Some(c.controller)
            &&& closed.parked_engines().contains_key(c.name@)
            &&& closed.parked_engines()[c.name@] == c.engine
            &&& name != c.name@ ==> (closed.parked_engines().contains_key(name)
                <==> open.parked_engines().contains_key(name))
            &&& name != c.name@ && open.parked_engines().contains_key(name)
                ==> closed.parked_engines()[name] == open.parked_engines()[name]
        },
        !open.active().contains_key(which) ==> handle is None && closed.parked_engines()
            == open.parked_engines() && closed.listed() == open.listed(),
        closed.watched() == open.watched(),
        closed.watch_names() == open.watch_names(),
        closed.thresholds() == open.thresholds(),
        closed.heartbeat_at() == open.heartbeat_at(),
        closed.read_error_logged() == open.read_error_logged(),
        closed.action_error_logged() == open.action_error_logged(),
{
}

/// A disconnection closes its controller as closing does, and lets the ladder of
/// that name wait for the device. Every other ladder stays as it was.
pub proof fn law_removal_reaches_its_own_ladder<H, E, L>(
    open: Session<H, E, L>,
    after: Session<H, E, L>,
    which: u32,
    now: nat,
    handle: Option<H>,
    other: u32,
    name: Seq<char>,
)
    requires
        open.wf(),
        after.removed(open, which, now, handle),
        open.active().contains_key(which),
    ensures
        ({
            let c = open.active()[which];
            let w = open.watched()[c.name@];
            &&& handle == Some(c.controller)
            &&& !after.active().contains_key(which)
            &&& other != which && open.active().contains_key(other) ==> after.active().contains_key(
                other,
            ) && after.active()[other] == open.active()[other]
            &&& after.parked_engines().contains_key(c.name@) && after.parked_engines()[c.name@]
                == c.engine
            &&& name != c.name@ && open.watched().contains_key(name) ==> after.watched().contains_key(
                name,
            ) && after.watched()[name] == open.watched()[name]
            &&& after.watched()[c.name@].ladder.stage() == w.ladder.stage().after_device_removed(
                open.thresholds(),
                now,
            )
            &&& after.watched()[c.name@].ladder.grace_until() == w.ladder.grace_until()
            &&& after.watched()[c.name@].last_instance == w.last_instance
            &&& after.watched()[c.name@].telemetry == w.telemetry
            &&& name != c.name@ ==> (after.parked_engines().contains_key(name)
                <==> open.parked_engines().contains_key(name))
            &&& name != c.name@ && open.parked_engines().contains_key(name)
                ==> after.parked_engines()[name] == open.parked_engines()[name]
        }),
        after.active().contains_key(other) ==> open.active().contains_key(other),
        after.watched().contains_key(name) <==> open.watched().contains_key(name),
        after.thresholds() == open.thresholds(),
        after.heartbeat_at() == open.heartbeat_at(),
        after.read_error_logged() == open.read_error_logged(),
        after.action_error_logged() == open.action_error_logged(),
{
    open.lemma_active();
    assert(open.listed().contains(open.active()[which]));
}

/// The disconnection of a device that is not open changes nothing and leaves no
/// handle.
pub proof fn law_removal_of_a_stranger<H, E, L>(
    before: Session<H, E, L>,
    after: Session<H, E, L>,
    which: u32,
    now: nat,
    handle: Option<H>,
)
    requires
        after.removed(before, which, now, handle),
        !before.active().contains_key(which),
    ensures
        handle is None,
        after.listed() == before.listed(),
        after.parked_engines() == before.parked_engines(),
        after.watched() == before.watched(),
        after.watch_names() == before.watch_names(),
        after.thresholds() == before.thresholds(),
        after.heartbeat_at() == before.heartbeat_at(),
        after.read_error_logged() == before.read_error_logged(),
        after.action_error_logged() == before.action_error_logged(),
{
}

/// A device may be opened exactly where no controller of its name is open and it
/// is no mirror pad.
pub proof fn law_screening<H, E, L>(s: Session<H, E, L>, name: Seq<char>)
    requires
        s.wf(),
    ensures
        s.may_open(name) ==> name != "Steam Virtual Gamepad"@ && (forall|w: u32| #[trigger]
            s.active().contains_key(w) ==> s.active()[w].name@ != name),
        !s.may_open(name) ==> name == "Steam Virtual Gamepad"@ || (exists|w: u32| #[trigger]
            s.active().contains_key(w) && s.active()[w].name@ == name),
{
    law_open_by_name(s, name);
}

/// A device that no engine is parked for gets a new one, calibrated exactly where
/// its sensors work, and no grace window. It is watched from then on under its
/// name and instance id: as before where the name was known, and else from the
/// start.
pub proof fn law_new_controller_starts_afresh<H, E, L>(
    before: Session<H, E, L>,
    ready: Session<H, E, L>,
    name: Seq<char>,
    instance: u32,
    sensors_ok: bool,
    now: nat,
    plan: OpenPlan<E>,
)
    requires
        ready.prepared(before, name, instance, sensors_ok, now, plan),
        !before.parked_engines().contains_key(name),
    ensures
        plan matches OpenPlan::Fresh { calibrate } && calibrate == sensors_ok,
        ready.watched().contains_key(name),
        ready.watched()[name].last_instance == Some(instance),
        before.watched().contains_key(name) ==> {
            let w = before.watched()[name];
            &&& ready.watched()[name].ladder.stage() == w.ladder.stage()
            &&& ready.watched()[name].ladder.grace_until() == w.ladder.grace_until()
            &&& ready.watched()[name].telemetry == w.telemetry
        },
        !before.watched().contains_key(name) ==> {
            let w = ready.watched()[name];
            &&& w.ladder.stage() is Unarmed
            &&& w.ladder.grace_until() is None
            &&& w.ladder.cfg() == before.thresholds()
            &&& w.telemetry.events_in_window == 0
            &&& w.telemetry.cur_streak == 0
            &&& w.telemetry.window_max_streak == 0
            &&& w.telemetry.last_gyro is None
        },
        ready.parked_engines() == before.parked_engines(),
{
    assert(before.parked_engines().remove(name) =~= before.parked_engines());
}

/// Preparing one device touches nothing of another: not the open controllers, not
/// what is parked or watched under other names, and no clock. An engine is taken
/// over at most once.
pub proof fn law_preparing_touches_one_name<H, E, L>(
    before: Session<H, E, L>,
    ready: Session<H, E, L>,
    name: Seq<char>,
    instance: u32,
    sensors_ok: bool,
    now: nat,
    plan: OpenPlan<E>,
    other: Seq<char>,
)
    requires
        ready.prepared(before, name, instance, sensors_ok, now, plan),
    ensures
        ready.listed() == before.listed(),
        plan matches OpenPlan::Adopt(engine) ==> before.parked_engines().contains_key(name)
            && before.parked_engines()[name] == engine,
        before.parked_engines().contains_key(name) ==> plan is Adopt,
        before.parked_engines().contains_key(name) ==> ready.watched()[name].ladder.grace_until()
            == Some(now + before.thresholds().grace@),
        before.watched().contains_key(name) ==> ready.watched()[name].ladder.stage()
            == before.watched()[name].ladder.stage() && ready.watched()[name].telemetry
            == before.watched()[name].telemetry,
        ready.watched().contains_key(name) && ready.watched()[name].last_instance == Some(instance),
        !ready.parked_engines().contains_key(name),
        other != name ==> (ready.parked_engines().contains_key(other)
            <==> before.parked_engines().contains_key(other)),
        other != name && before.parked_engines().contains_key(other)
            ==> ready.parked_engines()[other] == before.parked_engines()[other],
        other != name ==> (ready.watched().contains_key(other) <==> before.watched().contains_key(
            other,
        )),
        other != name && before.watched().contains_key(other) ==> ready.watched()[other]
            == before.watched()[other],
        ready.thresholds() == before.thresholds(),
        ready.heartbeat_at() == before.heartbeat_at(),
        ready.read_error_logged() == before.read_error_logged(),
        ready.action_error_logged() == before.action_error_logged(),
{
}

/// A sensor event feeds the ladder of its own controller, and is counted there; no
/// other name, and nothing else, is touched.
pub proof fn law_sensor_event_feeds_its_own_ladder<H, E, L>(
    before: Session<H, E, L>,
    after: Session<H, E, L>,
    which: u32,
    gyro: Option<GyroData>,
    now: nat,
    other: Seq<char>,
)
    requires
        before.wf(),
        before.active().contains_key(which),
        after.sensed(before, which, gyro, now),
    ensures
        ({
            let name = before.active()[which].name@;
            let w = before.watched()[name];
            let v = after.watched()[name];
            &&& v.ladder.stage() matches Stage::Armed { last_event, .. } && last_event == now
            &&& v.ladder.grace_until() == w.ladder.grace_until()
            &&& v.last_instance == w.last_instance
            &&& v.telemetry == w.telemetry.after_event(gyro)
            &&& other != name && before.watched().contains_key(other)
                ==> after.watched().contains_key(other) && after.watched()[other]
                == before.watched()[other]
        }),
        after.watched().contains_key(other) <==> before.watched().contains_key(other),
        after.listed() == before.listed(),
        after.parked_engines() == before.parked_engines(),
        after.thresholds() == before.thresholds(),
        after.heartbeat_at() == before.heartbeat_at(),
        after.read_error_logged() == before.read_error_logged(),
        after.action_error_logged() == before.action_error_logged(),
{
    before.lemma_active();
    assert(before.listed().contains(before.active()[which]));
}

/// A report moves the ladder of its own name, and nothing else.
pub proof fn law_report_reaches_its_own_ladder<H, E, L>(
    before: Session<H, E, L>,
    after: Session<H, E, L>,
    name: Seq<char>,
    stage: Stage,
    other: Seq<char>,
)
    requires
        after.told(before, name, stage),
    ensures
        before.watched().contains_key(name) ==> {
            let w = before.watched()[name];
            let v = after.watched()[name];
            &&& v.ladder.stage() == stage
            &&& v.ladder.grace_until() == w.ladder.grace_until()
            &&& v.last_instance == w.last_instance
            &&& v.telemetry == w.telemetry
        },
        other != name && before.watched().contains_key(other) ==> after.watched().contains_key(
            other,
        ) && after.watched()[other] == before.watched()[other],
        !before.watched().contains_key(name) ==> after == before,
        after.listed() == before.listed(),
        after.parked_engines() == before.parked_engines(),
        after.thresholds() == before.thresholds(),
        after.heartbeat_at() == before.heartbeat_at(),
        after.read_error_logged() == before.read_error_logged(),
        after.action_error_logged() == before.action_error_logged(),
{
}

/// Polling polls every ladder, and nothing else changes: each one whose time has
/// come waits for its report, and each other one stays where it is.
pub proof fn law_polling_polls_every_ladder<H, E, L>(
    before: Session<H, E, L>,
    after: Session<H, E, L>,
    now: nat,
    name: Seq<char>,
)
    requires
        before.wf(),
        after.polled(before, now),
        before.watched().contains_key(name),
    ensures
        ({
            let w = before.watched()[name];
            let v = after.watched()[name];
            &&& after.watched().contains_key(name)
            &&& w.ladder.stage().due_action(before.thresholds(), now) is Some
                ==> v.ladder.stage().outstanding()
            &&& w.ladder.stage().due_action(before.thresholds(), now) is None ==> v.ladder.stage()
                == w.ladder.stage()
            &&& v.ladder.grace_until() == w.ladder.grace_until()
            &&& v.last_instance == w.last_instance
            &&& v.telemetry == w.telemetry
        }),
        after.listed() == before.listed(),
        after.parked_engines() == before.parked_engines(),
        after.watch_names() == before.watch_names(),
        after.thresholds() == before.thresholds(),
        after.heartbeat_at() == before.heartbeat_at(),
        after.read_error_logged() == before.read_error_logged(),
        after.action_error_logged() == before.action_error_logged(),
{
    assert(after.watched().dom().contains(name));
}

/// A heartbeat comes once the half minute is over and not before, has a line for
/// each name that is watched, which says whether a controller of the name is open
/// and what was counted, and starts the counts anew. Ladders, controllers and
/// engines stay.
pub proof fn law_heartbeat_tells_of_every_name<H, E, L>(
    before: Session<H, E, L>,
    after: Session<H, E, L>,
    now: Instant,
    lines: Option<Vec<Heartbeat>>,
    name: Seq<char>,
)
    requires
        before.wf(),
        after.beaten(before, now, lines),
        before.watched().contains_key(name),
    ensures
        lines is Some <==> now@ >= before.heartbeat_at()@ + 30_000_000_000,
        lines is None ==> after == before,
        lines matches Some(v) ==> {
            let w = before.watched()[name];
            &&& v@.len() == before.watch_names().len()
            &&& exists|i: int|
                0 <= i < v@.len() && (#[trigger] v@[i]).name@ == name && v@[i].sensor_events
                    == w.telemetry.events_in_window && v@[i].max_identical_gyro_streak
                    == w.telemetry.window_max_streak && (v@[i].active <==> before.is_open(name))
            &&& after.heartbeat_at() == now
            &&& after.watched()[name].telemetry.events_in_window == 0
            &&& after.watched()[name].telemetry.window_max_streak == 0
            &&& after.watched()[name].ladder == w.ladder
            &&& after.watched()[name].last_instance == w.last_instance
            &&& after.watched()[name].telemetry.cur_streak == 0
            &&& after.watched()[name].telemetry.last_gyro == w.telemetry.last_gyro
            &&& after.listed() == before.listed()
            &&& after.parked_engines() == before.parked_engines()
            &&& after.watch_names() == before.watch_names()
            &&& after.thresholds() == before.thresholds()
            &&& after.read_error_logged() == before.read_error_logged()
            &&& after.action_error_logged() == before.action_error_logged()
        },
{
    before.lemma_watch_names();
    assert(before.watch_names().contains(name));
    if let Some(v) = lines {
        let i = choose|i: int|
            0 <= i < before.watch_names().len() && before.watch_names()[i] == name;
        assert(before.line_for(before.watch_names()[i], v@[i]));
    }
}

/// What motion is for. It is applied exactly where it was read, no calibration is
/// under way and no grace window is open; it goes to the calibrator exactly where
/// it was read and one is under way; a failed read is logged at most once a
/// second; and without sensors nothing happens.
pub proof fn law_motion_goes_where_it_should<H, E, L>(
    s: Session<H, E, L>,
    i: int,
    sensors_enabled: bool,
    read_ok: bool,
    now: Instant,
)
    requires
        s.wf(),
        0 <= i < s.listed().len(),
    ensures
        ({
            let c = s.listed()[i];
            let step = s.step_for(i, sensors_enabled, read_ok, now);
            let quiet = match s.watched()[c.name@].ladder.grace_until() {
                Some(until) => now@ < until,
                None => false,
            };
            let logged = match s.read_error_logged() {
                Some(last) => now@ < last@ + 1_000_000_000,
                None => false,
            };
            &&& step is Apply <==> sensors_enabled && read_ok && c.calibrator is None && !quiet
            &&& step is Swallow <==> sensors_enabled && read_ok && c.calibrator is None && quiet
            &&& step is Calibrate <==> sensors_enabled && read_ok && c.calibrator is Some
            &&& step is LogReadError <==> sensors_enabled && !read_ok && !logged
            &&& step is Skip <==> !sensors_enabled || (!read_ok && logged)
        }),
{
    assert(s.watched().contains_key(s.listed()[i].name@));
}

/// A key edge is a change, and leads to where the trigger now is.
pub proof fn law_edge_is_a_change(before: bool, after: bool)
    ensures
        edge(before, after) is Some <==> before != after,
        edge(before, after) matches Some(down) ==> down == after,
{
}

/// Working with a controller leaves every other one, and all else, as it was.
pub proof fn law_working_with_one_controller<H, E, L>(
    before: Session<H, E, L>,
    after: Session<H, E, L>,
    i: int,
    c: ControllerState<H, E, L>,
    k: int,
)
    requires
        0 <= i < before.listed().len(),
        0 <= k < before.listed().len(),
        after.with_controller(before, i, c),
    ensures
        after.listed().len() == before.listed().len(),
        after.listed()[i] == c,
        k != i ==> after.listed()[k] == before.listed()[k],
        after.parked_engines() == before.parked_engines(),
        after.watched() == before.watched(),
        after.watch_names() == before.watch_names(),
        after.thresholds() == before.thresholds(),
        after.heartbeat_at() == before.heartbeat_at(),
        after.read_error_logged() == before.read_error_logged(),
        after.action_error_logged() == before.action_error_logged(),
{
}

/// No name is due twice at a time, and what is due comes in the order in which the
/// names are polled.
pub proof fn law_due_in_order_and_once<H, E, L>(s: Session<H, E, L>, now: nat, a: int, b: int)
    requires
        s.wf(),
        0 <= a < b < s.due_at(now).len(),
    ensures
        s.due_at(now)[a].0 != s.due_at(now)[b].0,
        exists|i: int, j: int|
            0 <= i < j < s.watch_names().len() && #[trigger] s.watch_names()[i] == s.due_at(
                now,
            )[a].0 && #[trigger] s.watch_names()[j] == s.due_at(now)[b].0,
{
    s.lemma_watch_names();
    let n = s.watch_names().len() as int;
    let (i, j) = lemma_due_places(s.watch_names(), s.watched(), now, n, a, b);
    assert(s.watch_names()[i] != s.watch_names()[j]);
}

proof fn lemma_due_places(
    names: Seq<Seq<char>>,
    watches: Map<Seq<char>, WatchEntry>,
    now: nat,
    n: int,
    a: int,
    b: int,
) -> (places: (int, int))
    requires
        0 <= n <= names.len(),
        0 <= a < b < due_among(names, watches, now, n).len(),
    ensures
        0 <= places.0 < places.1 < n,
        names[places.0] == due_among(names, watches, now, n)[a].0,
        names[places.1] == due_among(names, watches, now, n)[b].0,
    decreases n,
{
    let before = due_among(names, watches, now, n - 1);
    if b < before.len() {
        lemma_due_places(names, watches, now, n - 1, a, b)
    } else {
        (lemma_due_place(names, watches, now, n - 1, a), n - 1)
    }
}

proof fn lemma_due_place(
    names: Seq<Seq<char>>,
    watches: Map<Seq<char>, WatchEntry>,
    now: nat,
    n: int,
    a: int,
) -> (place: int)
    requires
        0 <= n <= names.len(),
        0 <= a < due_among(names, watches, now, n).len(),
    ensures
        0 <= place < n,
        names[place] == due_among(names, watches, now, n)[a].0,
    decreases n,
{
    if a < due_among(names, watches, now, n - 1).len() {
        lemma_due_place(names, watches, now, n - 1, a)
    } else {
        n - 1
    }
}

/// A name goes with its own action in what is handed out.
pub proof fn law_actions_go_with_their_names(due: Seq<(String, Action)>, i: int)
    requires
        0 <= i < due.len(),
    ensures
        by_name(due).len() == due.len(),
        by_name(due)[i].0 == due[i].0@,
        by_name(due)[i].1 == due[i].1,
{
}

/// An event can always be counted where its controller is not open, and else
/// exactly where the counts of that controller's own name have room for it.
pub proof fn law_room_is_that_of_the_controller<H, E, L>(
    s: Session<H, E, L>,
    which: u32,
    gyro: Option<GyroData>,
)
    ensures
        !s.active().contains_key(which) ==> s.has_room_for(which, gyro),
        s.active().contains_key(which) ==> (s.has_room_for(which, gyro)
            <==> s.watched()[s.active()[which].name@].telemetry.has_room(gyro)),
{
}

/// A device that may be opened and was prepared may join the open controllers under
/// its name, whatever its handle and its engine are.
pub proof fn law_prepared_controller_may_join<H, E, L>(
    before: Session<H, E, L>,
    ready: Session<H, E, L>,
    instance: u32,
    sensors_ok: bool,
    now: nat,
    plan: OpenPlan<E>,
    state: ControllerState<H, E, L>,
)
    requires
        before.may_open(state.name@),
        ready.prepared(before, state.name@, instance, sensors_ok, now, plan),
    ensures
        ready.may_join(state),
{
}

} // verus!
