//! The bookkeeping of a run: which controllers are active, which engines are
//! parked across a recovery, and what each controller identity is watched for.
//!
//! A session knows a controller by its instance id and by its name. Handles of
//! type `H`, engines of type `E` and calibrators of type `L` pass through it
//! untouched.
use vstd::prelude::*;

use super::keys::{key_of, pulled, sdl_to_sys, trigger_pressed, JoyKey, PadButton};
use super::name_map::NameMap;
use super::rate_limit::{allowed, DiagRateLimit};
use super::stall_watchdog::{Action, Stage, WatchdogCfg};
use super::watch::{GyroData, Telemetry, WatchEntry};
use crate::time::{Duration, Instant};

verus! {

/// Seconds between two heartbeats.
pub const HEARTBEAT_INTERVAL_SECS: u64 = 30;

/// The same in nanoseconds.
pub const HEARTBEAT_INTERVAL_NANOS: u64 = 30_000_000_000;

/// A controller that is open.
#[derive(Debug)]
pub struct ControllerState<H, E, L> {
    pub instance: u32,
    pub controller: H,
    pub engine: E,
    /// Present until calibration is finished.
    pub calibrator: Option<L>,
    /// The identity for parking and watching.
    pub name: String,
    /// The triggers arrive as axes; whether each is pressed is kept here, so
    /// that key edges can be made of them.
    pub zl_pressed: bool,
    pub zr_pressed: bool,
}

/// The key edge that takes `before` to `after`, if any: `true` for down.
pub open spec fn edge(before: bool, after: bool) -> Option<bool> {
    if before == after {
        None
    } else {
        Some(after)
    }
}

impl<H, E, L> ControllerState<H, E, L> {
    /// Takes in the trigger axes and returns the key edges of the left and of
    /// the right trigger.
    pub fn update_triggers(&mut self, left: i16, right: i16) -> (edges: (
        Option<bool>,
        Option<bool>,
    ))
        ensures
            edges.0 == edge(old(self).zl_pressed, pulled(left)),
            edges.1 == edge(old(self).zr_pressed, pulled(right)),
            *final(self) == (ControllerState {
                zl_pressed: pulled(left),
                zr_pressed: pulled(right),
                ..*old(self)
            }),
    {
        let zl_now = trigger_pressed(left);
        let zr_now = trigger_pressed(right);
        let zl_edge = if zl_now != self.zl_pressed {
            Some(zl_now)
        } else {
            None
        };
        let zr_edge = if zr_now != self.zr_pressed {
            Some(zr_now)
        } else {
            None
        };
        self.zl_pressed = zl_now;
        self.zr_pressed = zr_now;
        (zl_edge, zr_edge)
    }
}

/// How a device that is being opened gets its engine.
#[derive(Debug)]
pub enum OpenPlan<E> {
    /// A recovery: the parked engine, with its calibration.
    Adopt(E),
    /// A new controller: an engine has to be made, and calibrated where the
    /// sensors work.
    Fresh { calibrate: bool },
}

/// What to do with the motion of a controller in this tick.
#[derive(Debug, Clone, Copy, PartialEq, Eq, Structural)]
pub enum MotionStep {
    /// Feed it to the calibrator.
    Calibrate,
    /// Apply it.
    Apply,
    /// Let it go: a recovery has just happened.
    Swallow,
    /// There is none, because reading failed; say so in the log.
    LogReadError,
    /// There is none.
    Skip,
}

/// One line of a heartbeat.
#[derive(Debug)]
pub struct Heartbeat {
    pub name: String,
    pub active: bool,
    pub sensor_events: u64,
    pub max_identical_gyro_streak: u32,
}

/// The books of a run. What they hold is kept to itself, so that nothing breaks
/// the order that `wf` states.
#[derive(Debug)]
pub struct Session<H, E, L> {
    controllers: Vec<ControllerState<H, E, L>>,
    parked: NameMap<E>,
    watches: NameMap<WatchEntry>,
    cfg: WatchdogCfg,
    last_heartbeat: Instant,
    sensor_err_limit: DiagRateLimit,
    action_err_limit: DiagRateLimit,
}

/// The name of a pad that mirrors others and is never opened.
pub open spec fn mirror_pad() -> Seq<char> {
    "Steam Virtual Gamepad"@
}

fn mirror_pad_name() -> (name: String)
    ensures
        name@ == mirror_pad(),
{
    "Steam Virtual Gamepad".to_owned()
}

/// What is due among the first `n` names, in their order.
pub open spec fn due_among(
    names: Seq<Seq<char>>,
    watches: Map<Seq<char>, WatchEntry>,
    now: nat,
    n: int,
) -> Seq<(Seq<char>, Action)>
    decreases n,
{
    if n <= 0 {
        seq![]
    } else {
        let before = due_among(names, watches, now, n - 1);
        let ladder = watches[names[n - 1]].ladder;
        match ladder.stage().due_action(ladder.cfg(), now) {
            Some(action) => before.push((names[n - 1], action)),
            None => before,
        }
    }
}

pub open spec fn by_name(due: Seq<(String, Action)>) -> Seq<(Seq<char>, Action)> {
    Seq::new(due.len(), |i: int| (due[i].0@, due[i].1))
}

/// The engines of the first `n` controllers put among the parked ones.
pub open spec fn parked_with<H, E, L>(
    parked: Map<Seq<char>, E>,
    controllers: Seq<ControllerState<H, E, L>>,
    n: int,
) -> Map<Seq<char>, E>
    decreases n,
{
    if n <= 0 {
        parked
    } else {
        parked_with(parked, controllers, n - 1).insert(
            controllers[n - 1].name@,
            controllers[n - 1].engine,
        )
    }
}

spec fn open_at<H, E, L>(
    controllers: Seq<ControllerState<H, E, L>>,
    which: u32,
    i: int,
) -> bool {
    0 <= i < controllers.len() && controllers[i].instance == which
}

/// Controllers by their instance ids.
pub closed spec fn by_instance<H, E, L>(controllers: Seq<ControllerState<H, E, L>>) -> Map<
    u32,
    ControllerState<H, E, L>,
> {
    Map::new(
        |which: u32| exists|i: int| open_at(controllers, which, i),
        |which: u32| controllers[choose|i: int| open_at(controllers, which, i)],
    )
}

proof fn lemma_found<H, E, L>(controllers: Seq<ControllerState<H, E, L>>, i: int)
    requires
        0 <= i < controllers.len(),
        forall|a: int, b: int|
            0 <= a < b < controllers.len() ==> (#[trigger] controllers[a]).instance != (
            #[trigger] controllers[b]).instance,
    ensures
        by_instance(controllers).contains_key(controllers[i].instance),
        by_instance(controllers)[controllers[i].instance] == controllers[i],
{
    let which = controllers[i].instance;
    assert(open_at(controllers, which, i));
    let k = choose|k: int| open_at(controllers, which, k);
    assert(open_at(controllers, which, k));
    if k < i {
        assert(controllers[k].instance != controllers[i].instance);
    } else if i < k {
        assert(controllers[i].instance != controllers[k].instance);
    }
}

proof fn lemma_without<H, E, L>(controllers: Seq<ControllerState<H, E, L>>, i: int)
    requires
        0 <= i < controllers.len(),
        forall|a: int, b: int|
            0 <= a < b < controllers.len() ==> (#[trigger] controllers[a]).instance != (
            #[trigger] controllers[b]).instance,
    ensures
        by_instance(controllers.remove(i)) == by_instance(controllers).remove(
            controllers[i].instance,
        ),
{
    let rest = controllers.remove(i);
    let gone = controllers[i].instance;
    assert forall|a: int, b: int| 0 <= a < b < rest.len() implies (#[trigger] rest[a]).instance != (
    #[trigger] rest[b]).instance by {
        let a0 = if a < i { a } else { a + 1 };
        let b0 = if b < i { b } else { b + 1 };
        assert(controllers[a0].instance != controllers[b0].instance);
    }
    assert forall|which: u32| by_instance(rest).contains_key(which) <==> by_instance(
        controllers,
    ).remove(gone).contains_key(which) by {
        if by_instance(rest).contains_key(which) {
            let a = choose|a: int| open_at(rest, which, a);
            assert(open_at(rest, which, a));
            let a0 = if a < i { a } else { a + 1 };
            lemma_found(controllers, a0);
            if a0 < i {
                assert(controllers[a0].instance != controllers[i].instance);
            } else {
                assert(controllers[i].instance != controllers[a0].instance);
            }
        }
        if by_instance(controllers).remove(gone).contains_key(which) {
            let a0 = choose|a0: int| open_at(controllers, which, a0);
            assert(open_at(controllers, which, a0));
            let a = if a0 < i { a0 } else { a0 - 1 };
            lemma_found(rest, a);
        }
    }
    assert forall|which: u32| by_instance(rest).contains_key(which) implies by_instance(rest)[which]
        == by_instance(controllers).remove(gone)[which] by {
        let a = choose|a: int| open_at(rest, which, a);
        assert(open_at(rest, which, a));
        let a0 = if a < i { a } else { a + 1 };
        lemma_found(rest, a);
        lemma_found(controllers, a0);
    }
    assert(by_instance(rest) =~= by_instance(controllers).remove(gone));
}

impl<H, E, L> Session<H, E, L> {
    /// The open controllers, in the order in which they are served.
    pub closed spec fn listed(self) -> Seq<ControllerState<H, E, L>> {
        self.controllers@
    }

    /// Engines kept across a recovery, by controller name.
    pub closed spec fn parked_engines(self) -> Map<Seq<char>, E> {
        self.parked@
    }

    /// Watchdog entries, by controller name.
    pub closed spec fn watched(self) -> Map<Seq<char>, WatchEntry> {
        self.watches@
    }

    /// The names that are watched, in the order in which they are polled.
    pub closed spec fn watch_names(self) -> Seq<Seq<char>> {
        self.watches.names()
    }

    /// The thresholds of every ladder.
    pub closed spec fn thresholds(self) -> WatchdogCfg {
        self.cfg
    }

    /// When the last heartbeat was, or the start of the run.
    pub closed spec fn heartbeat_at(self) -> Instant {
        self.last_heartbeat
    }

    /// When a failed sensor read was last logged.
    pub closed spec fn read_error_logged(self) -> Option<Instant> {
        self.sensor_err_limit.last
    }

    /// When a failed action was last logged.
    pub closed spec fn action_error_logged(self) -> Option<Instant> {
        self.action_err_limit.last
    }

    pub closed spec fn maps_wf(self) -> bool {
        self.parked.wf() && self.watches.wf()
    }

    /// What the books hold, as the module itself sees it.
    proof fn lemma_books(self)
        ensures
            self.listed() == self.controllers@,
            self.parked_engines() == self.parked@,
            self.watched() == self.watches@,
            self.watch_names() == self.watches.names(),
            self.thresholds() == self.cfg,
    {
    }

    /// The names that are watched are polled each once, and no others are.
    pub proof fn lemma_watch_names(self)
        requires
            self.wf(),
        ensures
            self.watch_names().no_duplicates(),
            forall|name: Seq<char>|
                #![trigger self.watch_names().contains(name)]
                #![trigger self.watched().contains_key(name)]
                self.watch_names().contains(name) <==> self.watched().contains_key(name),
    {
        self.lemma_books();
        self.watches.lemma_names();
        assert forall|name: Seq<char>|
            #![trigger self.watch_names().contains(name)]
            #![trigger self.watched().contains_key(name)]
            self.watch_names().contains(name) <==> self.watched().contains_key(name) by {
            if self.watch_names().contains(name) {
                let i = choose|i: int|
                    0 <= i < self.watch_names().len() && self.watch_names()[i] == name;
                assert(self.watches@.contains_key(self.watches.names()[i]));
            }
        }
    }

    pub open spec fn same_watches(self, before: Self) -> bool {
        self.watched() == before.watched() && self.watch_names() == before.watch_names()
    }

    /// The open controllers by their instance ids.
    pub open spec fn active(self) -> Map<u32, ControllerState<H, E, L>> {
        by_instance(self.listed())
    }

    /// Whether a controller of this name is open.
    pub open spec fn is_open(self, name: Seq<char>) -> bool {
        exists|i: int| 0 <= i < self.listed().len() && (#[trigger] self.listed()[i]).name@
            == name
    }

    /// No instance id and no name is open twice; every controller that is open
    /// and every engine that is parked is watched; no engine is parked for a
    /// controller that is open; and every ladder has the session's thresholds.
    pub open spec fn wf(self) -> bool {
        &&& self.maps_wf()
        &&& forall|i: int, j: int|
            0 <= i < j < self.listed().len() ==> (#[trigger] self.listed()[i]).instance != (
            #[trigger] self.listed()[j]).instance && self.listed()[i].name@
                != self.listed()[j].name@
        &&& forall|i: int|
            0 <= i < self.listed().len() ==> self.watched().contains_key(
                (#[trigger] self.listed()[i]).name@,
            ) && !self.parked_engines().contains_key(self.listed()[i].name@)
        &&& forall|name: Seq<char>|
            #[trigger] self.parked_engines().contains_key(name) ==> self.watched().contains_key(name)
        &&& forall|name: Seq<char>| #[trigger]
            self.watched().contains_key(name) ==> self.watched()[name].ladder.cfg() == self.thresholds()
    }

    /// Whether `self` has the controllers, engines, watches and thresholds of
    /// `before`.
    pub open spec fn same_books(self, before: Self) -> bool {
        &&& self.listed() == before.listed()
        &&& self.parked_engines() == before.parked_engines()
        &&& self.same_watches(before)
        &&& self.thresholds() == before.thresholds()
    }

    /// Whether `self` differs from `before` in its controllers, its parked
    /// engines and its watches at most.
    pub open spec fn same_clocks(self, before: Self) -> bool {
        &&& self.thresholds() == before.thresholds()
        &&& self.heartbeat_at() == before.heartbeat_at()
        &&& self.read_error_logged() == before.read_error_logged()
        &&& self.action_error_logged() == before.action_error_logged()
    }

    /// Whether `self` is `before` after the controller `which` was closed and
    /// its engine parked, and `handle` is what is left of it.
    pub open spec fn detached(self, before: Self, which: u32, handle: Option<H>) -> bool {
        &&& self.same_clocks(before)
        &&& self.same_watches(before)
        &&& if before.active().contains_key(which) {
            let c = before.active()[which];
            &&& handle == Some(c.controller)
            &&& self.active() == before.active().remove(which)
            &&& self.parked_engines() == before.parked_engines().insert(c.name@, c.engine)
        } else {
            &&& handle is None
            &&& self.listed() == before.listed()
            &&& self.active() == before.active()
            &&& self.parked_engines() == before.parked_engines()
        }
    }

    /// Whether a device of this name may be opened: there is none open, and it
    /// is no mirror pad.
    pub open spec fn may_open(self, name: Seq<char>) -> bool {
        !self.is_open(name) && name != mirror_pad()
    }

    /// Whether `self` is `before` after a device was prepared for opening, with
    /// `plan` for its engine.
    pub open spec fn prepared(
        self,
        before: Self,
        name: Seq<char>,
        instance: u32,
        sensors_ok: bool,
        now: nat,
        plan: OpenPlan<E>,
    ) -> bool {
        let adopted = before.parked_engines().contains_key(name);
        let known = before.watched().contains_key(name);
        let watch = self.watched()[name];
        &&& self.same_clocks(before)
        &&& self.listed() == before.listed()
        &&& self.parked_engines() == before.parked_engines().remove(name)
        &&& plan == if adopted {
            OpenPlan::Adopt(before.parked_engines()[name])
        } else {
            OpenPlan::Fresh { calibrate: sensors_ok }
        }
        &&& self.watched() == before.watched().insert(name, watch)
        &&& watch.last_instance == Some(instance)
        &&& watch.telemetry == if known {
            before.watched()[name].telemetry
        } else {
            Telemetry::blank()
        }
        &&& watch.ladder.cfg() == before.thresholds()
        &&& watch.ladder.stage() == if known {
            before.watched()[name].ladder.stage()
        } else {
            Stage::Unarmed
        }
        &&& watch.ladder.grace_until() == if adopted {
            Some(now + before.thresholds().grace@)
        } else if known {
            before.watched()[name].ladder.grace_until()
        } else {
            None
        }
    }

    /// Whether `self` is `before` with the ladder of one name moved to `stage`.
    pub open spec fn ladder_moved(self, before: Self, name: Seq<char>, stage: Stage) -> bool {
        &&& self.same_clocks(before)
        &&& self.listed() == before.listed()
        &&& self.active() == before.active()
        &&& self.parked_engines() == before.parked_engines()
        &&& self.watched() == before.watched().insert(name, self.watched()[name])
        &&& self.watched()[name].moved(before.watched()[name], stage)
    }

    proof fn lemma_active_at(self, i: int)
        requires
            self.wf(),
            0 <= i < self.listed().len(),
        ensures
            self.active().contains_key(self.listed()[i].instance),
            self.active()[self.listed()[i].instance] == self.listed()[i],
    {
        lemma_found(self.listed(), i);
    }

    /// Every open controller is found under its instance id, and under no
    /// other.
    pub proof fn lemma_active(self)
        requires
            self.wf(),
        ensures
            forall|i: int|
                0 <= i < self.listed().len() ==> self.active().contains_key(
                    (#[trigger] self.listed()[i]).instance,
                ) && self.active()[self.listed()[i].instance] == self.listed()[i],
            forall|which: u32| #[trigger]
                self.active().contains_key(which) ==> self.active()[which].instance == which
                    && self.listed().contains(self.active()[which]),
    {
        assert forall|i: int| 0 <= i < self.listed().len() implies self.active().contains_key(
            (#[trigger] self.listed()[i]).instance,
        ) && self.active()[self.listed()[i].instance] == self.listed()[i] by {
            self.lemma_active_at(i);
        }
        assert forall|which: u32| #[trigger] self.active().contains_key(which) implies
            self.active()[which].instance == which && self.listed().contains(
            self.active()[which],
        ) by {
            let k = choose|k: int| open_at(self.listed(), which, k);
            assert(open_at(self.listed(), which, k));
            assert(self.active()[which] == self.listed()[k]);
        }
    }

    pub fn new(cfg: WatchdogCfg, now: Instant) -> (s: Self)
        ensures
            s.wf(),
            s.listed().len() == 0,
            s.active() == Map::<u32, ControllerState<H, E, L>>::empty(),
            s.parked_engines() == Map::<Seq<char>, E>::empty(),
            s.watched() == Map::<Seq<char>, WatchEntry>::empty(),
            s.thresholds() == cfg,
            s.heartbeat_at() == now,
            s.read_error_logged() is None,
            s.action_error_logged() is None,
    {
        let s = Session {
            controllers: Vec::new(),
            parked: NameMap::new(),
            watches: NameMap::new(),
            cfg,
            last_heartbeat: now,
            sensor_err_limit: DiagRateLimit::new(),
            action_err_limit: DiagRateLimit::new(),
        };
        proof {
            assert(s.active() =~= Map::<u32, ControllerState<H, E, L>>::empty());
        }
        s
    }

    /// How many controllers are open.
    pub fn len(&self) -> (n: usize)
        ensures
            n == self.listed().len(),
    {
        self.controllers.len()
    }

    /// The `i`-th open controller.
    pub fn controller(&self, i: usize) -> (c: &ControllerState<H, E, L>)
        requires
            i < self.listed().len(),
        ensures
            *c == self.listed()[i as int],
    {
        &self.controllers[i]
    }

    /// The engine that is parked for a name.
    pub fn parked_engine(&self, name: &String) -> (engine: Option<&E>)
        requires
            self.wf(),
        ensures
            engine is Some <==> self.parked_engines().contains_key(name@),
            engine matches Some(e) ==> *e == self.parked_engines()[name@],
    {
        self.parked.get(name)
    }

    /// Whether `self` is `before` with its `i`-th controller replaced by `c`,
    /// which has the same instance id and name.
    pub open spec fn with_controller(
        self,
        before: Self,
        i: int,
        c: ControllerState<H, E, L>,
    ) -> bool {
        &&& self.same_clocks(before)
        &&& self.parked_engines() == before.parked_engines()
        &&& self.same_watches(before)
        &&& self.listed() == before.listed().update(i, c)
        &&& before.wf() ==> self.wf()
    }

    /// The engine of the `i`-th open controller, to work with.
    pub fn engine_mut(&mut self, i: usize) -> (engine: &mut E)
        requires
            i < old(self).listed().len(),
        ensures
            *engine == old(self).listed()[i as int].engine,
            final(self).with_controller(
                *old(self),
                i as int,
                ControllerState { engine: *final(engine), ..old(self).listed()[i as int] },
            ),
    {
        &mut self.controllers[i].engine
    }

    /// The handle of the `i`-th open controller, to work with.
    pub fn handle_mut(&mut self, i: usize) -> (handle: &mut H)
        requires
            i < old(self).listed().len(),
        ensures
            *handle == old(self).listed()[i as int].controller,
            final(self).with_controller(
                *old(self),
                i as int,
                ControllerState { controller: *final(handle), ..old(self).listed()[i as int] },
            ),
    {
        &mut self.controllers[i].controller
    }

    /// The calibrator of the `i`-th open controller, to work with.
    pub fn calibrator_mut(&mut self, i: usize) -> (calibrator: &mut Option<L>)
        requires
            i < old(self).listed().len(),
        ensures
            *calibrator == old(self).listed()[i as int].calibrator,
            final(self).with_controller(
                *old(self),
                i as int,
                ControllerState { calibrator: *final(calibrator), ..old(self).listed()[i as int] },
            ),
    {
        &mut self.controllers[i].calibrator
    }

    /// Takes in the trigger axes of the `i`-th open controller and returns the
    /// key edges of the left and of the right trigger.
    pub fn update_triggers(&mut self, i: usize, left: i16, right: i16) -> (edges: (
        Option<bool>,
        Option<bool>,
    ))
        requires
            i < old(self).listed().len(),
        ensures
            edges.0 == edge(old(self).listed()[i as int].zl_pressed, pulled(left)),
            edges.1 == edge(old(self).listed()[i as int].zr_pressed, pulled(right)),
            final(self).with_controller(
                *old(self),
                i as int,
                ControllerState {
                    zl_pressed: pulled(left),
                    zr_pressed: pulled(right),
                    ..old(self).listed()[i as int]
                },
            ),
    {
        self.controllers[i].update_triggers(left, right)
    }

    /// Where the controller with this instance id is among the open ones.
    pub fn index_of(&self, which: u32) -> (r: Option<usize>)
        requires
            self.wf(),
        ensures
            r is Some <==> self.active().contains_key(which),
            r matches Some(i) ==> i < self.listed().len() && self.listed()[i as int]
                == self.active()[which] && self.listed()[i as int].instance == which,
    {
        let mut i: usize = 0;
        while i < self.controllers.len()
            invariant
                self.wf(),
                i <= self.listed().len(),
                forall|k: int| 0 <= k < i ==> (#[trigger] self.listed()[k]).instance != which,
            decreases self.listed().len() - i,
        {
            if self.controllers[i].instance == which {
                proof {
                    self.lemma_active_at(i as int);
                }
                return Some(i);
            }
            i = i + 1;
        }
        proof {
            assert forall|k: int| !open_at(self.listed(), which, k) by {}
        }
        None
    }

    /// Where the controller of this name is among the open ones.
    fn index_of_name(&self, name: &String) -> (r: Option<usize>)
        ensures
            r is Some <==> self.is_open(name@),
            r matches Some(i) ==> i < self.listed().len() && self.listed()[i as int].name@
                == name@,
    {
        let mut i: usize = 0;
        while i < self.controllers.len()
            invariant
                i <= self.listed().len(),
                forall|k: int| 0 <= k < i ==> (#[trigger] self.listed()[k]).name@ != name@,
            decreases self.listed().len() - i,
        {
            if self.controllers[i].name == *name {
                return Some(i);
            }
            i = i + 1;
        }
        None
    }

    /// The key that a button of an open controller stands for.
    pub fn on_button(&self, which: u32, button: PadButton) -> (key: Option<JoyKey>)
        requires
            self.wf(),
        ensures
            key == if self.active().contains_key(which) {
                key_of(button)
            } else {
                None
            },
    {
        match self.index_of(which) {
            Some(_) => sdl_to_sys(button),
            None => None,
        }
    }

    /// Closes a controller and parks its engine. Returns the handle, which is
    /// to be dropped. What the engine still holds down is to be released
    /// before.
    pub fn detach(&mut self, which: u32) -> (handle: Option<H>)
        requires
            old(self).wf(),
        ensures
            final(self).wf(),
            final(self).detached(*old(self), which, handle),
    {
        let ghost before = *self;
        match self.index_of(which) {
            Some(i) => {
                let state = self.controllers.remove(i);
                let ControllerState { controller, engine, name, .. } = state;
                self.parked.insert(name, engine);
                proof {
                    self.lemma_removed(before, i as int);
                }
                Some(controller)
            },
            None => None,
        }
    }

    proof fn lemma_removed(self, before: Self, i: int)
        requires
            before.wf(),
            0 <= i < before.listed().len(),
            self.listed() == before.listed().remove(i),
            self.maps_wf(),
            self.parked_engines() == before.parked_engines().insert(
                before.listed()[i].name@,
                before.listed()[i].engine,
            ),
            self.same_watches(before),
            self.cfg == before.cfg,
        ensures
            self.wf(),
            self.active() == before.active().remove(before.listed()[i].instance),
    {
        self.lemma_books();
        before.lemma_books();
        assert forall|a: int, b: int| 0 <= a < b < self.listed().len() implies (
        #[trigger] self.listed()[a]).instance != (#[trigger] self.listed()[b]).instance
            && self.listed()[a].name@ != self.listed()[b].name@ by {
            let a0 = if a < i { a } else { a + 1 };
            let b0 = if b < i { b } else { b + 1 };
            assert(before.listed()[a0].instance != before.listed()[b0].instance);
        }
        assert forall|a: int| 0 <= a < self.listed().len() implies self.watched().contains_key(
            (#[trigger] self.listed()[a]).name@,
        ) && !self.parked_engines().contains_key(self.listed()[a].name@) by {
            let a0 = if a < i { a } else { a + 1 };
            assert(self.listed()[a] == before.listed()[a0]);
            if a0 < i {
                assert(before.listed()[a0].name@ != before.listed()[i].name@);
            } else {
                assert(before.listed()[i].name@ != before.listed()[a0].name@);
            }
        }
        assert(self.wf());
        lemma_without(before.listed(), i);
    }

    /// Whether `self` is `before` after the device `which` was declared
    /// disconnected, and `handle` is what is left of it.
    pub open spec fn removed(self, before: Self, which: u32, now: nat, handle: Option<H>) -> bool {
        if before.active().contains_key(which) {
            let c = before.active()[which];
            let w = before.watched()[c.name@];
            &&& self.same_clocks(before)
            &&& handle == Some(c.controller)
            &&& self.active() == before.active().remove(which)
            &&& self.parked_engines() == before.parked_engines().insert(c.name@, c.engine)
            &&& self.watched() == before.watched().insert(c.name@, self.watched()[c.name@])
            &&& self.watched()[c.name@].moved(
                w,
                w.ladder.stage().after_device_removed(w.ladder.cfg(), now),
            )
        } else {
            handle is None && self.detached(before, which, handle)
        }
    }

    /// The device was declared disconnected: closes it, parks its engine and
    /// lets its ladder wait for it. What the engine still holds down is to be
    /// released before.
    pub fn on_device_removed(&mut self, which: u32, now: Instant) -> (handle: Option<H>)
        requires
            old(self).wf(),
        ensures
            final(self).wf(),
            final(self).removed(*old(self), which, now@, handle),
    {
        let ghost before = *self;
        match self.index_of(which) {
            Some(i) => {
                let name = self.controllers[i].name.clone();
                proof {
                    assert(before.listed()[i as int].name@ == name@);
                }
                let handle = self.detach(which);
                if let Some(w) = self.watches.get(&name) {
                    let mut w = *w;
                    w.ladder.on_device_removed(now);
                    self.watches.set(&name, w);
                }
                handle
            },
            None => None,
        }
    }

    /// Whether a sensor event for this instance id can be counted.
    pub open spec fn has_room_for(self, which: u32, gyro: Option<GyroData>) -> bool {
        self.active().contains_key(which)
            ==> self.watched()[self.active()[which].name@].telemetry.has_room(gyro)
    }

    pub fn can_count(&self, which: u32, gyro: Option<GyroData>) -> (r: bool)
        requires
            self.wf(),
        ensures
            r == self.has_room_for(which, gyro),
    {
        match self.index_of(which) {
            Some(i) => match self.watches.get(&self.controllers[i].name) {
                Some(w) => w.telemetry.room_left(gyro),
                None => true,
            },
            None => true,
        }
    }

    /// Whether `self` is `before` after a sensor event for this instance id.
    pub open spec fn sensed(
        self,
        before: Self,
        which: u32,
        gyro: Option<GyroData>,
        now: nat,
    ) -> bool {
        &&& self.same_clocks(before)
        &&& self.listed() == before.listed()
        &&& self.parked_engines() == before.parked_engines()
        &&& if before.active().contains_key(which) {
            let name = before.active()[which].name@;
            let old_watch = before.watched()[name];
            let watch = self.watched()[name];
            &&& self.watched() == before.watched().insert(name, watch)
            &&& watch.ladder.stage() == old_watch.ladder.stage().after_sensor_event(
                old_watch.ladder.cfg(),
                now,
            )
            &&& watch.ladder.cfg() == old_watch.ladder.cfg()
            &&& watch.ladder.grace_until() == old_watch.ladder.grace_until()
            &&& watch.last_instance == old_watch.last_instance
            &&& watch.telemetry == old_watch.telemetry.after_event(gyro)
        } else {
            self.same_watches(before)
        }
    }

    /// A sensor event arrived, with the reading where it is the gyroscope's. It
    /// counts only for a controller that is open: a stale event must not reset a
    /// recovery that is under way.
    pub fn on_sensor_updated(&mut self, which: u32, gyro: Option<GyroData>, now: Instant)
        requires
            old(self).wf(),
            old(self).has_room_for(which, gyro),
        ensures
            final(self).wf(),
            final(self).sensed(*old(self), which, gyro, now@),
    {
        if let Some(i) = self.index_of(which) {
            let name = self.controllers[i].name.clone();
            if let Some(w) = self.watches.get(&name) {
                let mut w = *w;
                w.on_sensor_event(gyro, now);
                self.watches.set(&name, w);
            }
        }
    }

    /// Whether a device of this name may be opened.
    pub fn screen(&self, name: &String) -> (r: bool)
        ensures
            r == self.may_open(name@),
    {
        self.index_of_name(name).is_none() && *name != mirror_pad_name()
    }

    /// Settles how a device that has been opened gets its engine, and watches
    /// it. A parked engine is taken over with its calibration, and motion is let
    /// go for a while.
    pub fn prepare(
        &mut self,
        name: &String,
        instance: u32,
        sensors_ok: bool,
        now: Instant,
    ) -> (plan: OpenPlan<E>)
        requires
            old(self).wf(),
            old(self).may_open(name@),
        ensures
            final(self).wf(),
            final(self).prepared(*old(self), name@, instance, sensors_ok, now@, plan),
    {
        let ghost before = *self;
        let mut watch = match self.watches.get(name) {
            Some(w) => *w,
            None => WatchEntry::new(self.cfg),
        };
        watch.last_instance = Some(instance);
        let parked = self.parked.remove(name);
        let plan = match parked {
            Some(engine) => {
                watch.ladder.start_grace(now);
                OpenPlan::Adopt(engine)
            },
            None => OpenPlan::Fresh { calibrate: sensors_ok },
        };
        self.watches.insert(name.clone(), watch);
        proof {
            before.lemma_books();
            self.lemma_books();
        }
        plan
    }

    /// Whether a controller may join the open ones: it is watched, none of its
    /// name is open, and no engine is parked for it.
    pub open spec fn may_join(self, state: ControllerState<H, E, L>) -> bool {
        &&& self.watched().contains_key(state.name@)
        &&& !self.parked_engines().contains_key(state.name@)
        &&& !self.is_open(state.name@)
    }

    /// Adds a controller that has been prepared to the open ones, in place of
    /// the one with its instance id, if there is one.
    pub fn activate(&mut self, state: ControllerState<H, E, L>)
        requires
            old(self).wf(),
            old(self).may_join(state),
        ensures
            final(self).wf(),
            final(self).same_clocks(*old(self)),
            final(self).parked_engines() == old(self).parked_engines(),
            final(self).same_watches(*old(self)),
            final(self).active() == old(self).active().insert(state.instance, state),
    {
        let ghost start = *self;
        if let Some(i) = self.index_of(state.instance) {
            let _ = self.controllers.remove(i);
            proof {
                self.lemma_dropped(start, i as int);
            }
        }
        let ghost before = *self;
        proof {
            assert(before.active() == start.active().remove(state.instance));
            before.lemma_active();
            assert forall|k: int| 0 <= k < before.listed().len() implies (
            #[trigger] before.listed()[k]).instance != state.instance
                && before.listed()[k].name@ != state.name@ by {
                assert(before.active().contains_key(before.listed()[k].instance));
                start.lemma_active();
                let c = before.listed()[k];
                assert(start.active()[c.instance] == c);
                assert(start.listed().contains(c));
            }
        }
        self.controllers.push(state);
        proof {
            self.lemma_added(before, state);
            assert(self.active() =~= start.active().insert(state.instance, state));
        }
    }

    proof fn lemma_dropped(self, before: Self, i: int)
        requires
            before.wf(),
            self.maps_wf(),
            0 <= i < before.listed().len(),
            self.listed() == before.listed().remove(i),
            self.parked_engines() == before.parked_engines(),
            self.same_watches(before),
            self.cfg == before.cfg,
        ensures
            self.wf(),
            self.active() == before.active().remove(before.listed()[i].instance),
    {
        self.lemma_books();
        before.lemma_books();
        let removed = before.listed().remove(i);
        assert forall|a: int, b: int| 0 <= a < b < removed.len() implies (
        #[trigger] removed[a]).instance != (#[trigger] removed[b]).instance && removed[a].name@
            != removed[b].name@ by {
            let a0 = if a < i { a } else { a + 1 };
            let b0 = if b < i { b } else { b + 1 };
            assert(before.listed()[a0].instance != before.listed()[b0].instance);
        }
        assert forall|a: int| 0 <= a < removed.len() implies self.watched().contains_key(
            (#[trigger] removed[a]).name@,
        ) && !self.parked_engines().contains_key(removed[a].name@) by {
            let a0 = if a < i { a } else { a + 1 };
            assert(removed[a] == before.listed()[a0]);
        }
        assert(self.wf());
        lemma_without(before.listed(), i);
    }

    proof fn lemma_added(self, before: Self, state: ControllerState<H, E, L>)
        requires
            before.wf(),
            self.maps_wf(),
            before.may_join(state),
            forall|k: int|
                0 <= k < before.listed().len() ==> (#[trigger] before.listed()[k]).instance
                    != state.instance,
            self.listed() == before.listed().push(state),
            self.parked_engines() == before.parked_engines(),
            self.same_watches(before),
            self.cfg == before.cfg,
        ensures
            self.wf(),
            self.active() == before.active().insert(state.instance, state),
    {
        self.lemma_books();
        before.lemma_books();
        let n = before.listed().len() as int;
        assert(self.wf());
        self.lemma_active_at(n);
        assert forall|which: u32| self.active().contains_key(which) <==> before.active().insert(
            state.instance,
            state,
        ).contains_key(which) by {
            if self.active().contains_key(which) {
                let a = choose|a: int| open_at(self.listed(), which, a);
                assert(open_at(self.listed(), which, a));
                if a < n {
                    before.lemma_active_at(a);
                }
            }
            if before.active().contains_key(which) {
                let a = choose|a: int| open_at(before.listed(), which, a);
                assert(open_at(before.listed(), which, a));
                self.lemma_active_at(a);
            }
        }
        assert forall|which: u32| self.active().contains_key(which) implies self.active()[which]
            == before.active().insert(state.instance, state)[which] by {
            let a = choose|a: int| open_at(self.listed(), which, a);
            assert(open_at(self.listed(), which, a));
            self.lemma_active_at(a);
            if a < n {
                before.lemma_active_at(a);
            }
        }
        assert(self.active() =~= before.active().insert(state.instance, state));
    }

    /// What is due at `now`, with the names that it is due for.
    pub open spec fn due_at(self, now: nat) -> Seq<(Seq<char>, Action)> {
        due_among(self.watch_names(), self.watched(), now, self.watch_names().len() as int)
    }

    /// Whether `self` is `before` after every ladder was polled once.
    pub open spec fn polled(self, before: Self, now: nat) -> bool {
        &&& self.same_clocks(before)
        &&& self.listed() == before.listed()
        &&& self.parked_engines() == before.parked_engines()
        &&& self.watch_names() == before.watch_names()
        &&& self.watched().dom() == before.watched().dom()
        &&& forall|name: Seq<char>| #[trigger]
            before.watched().contains_key(name) ==> self.watched()[name].moved(
                before.watched()[name],
                before.watched()[name].ladder.stage().after_poll(
                    before.watched()[name].ladder.cfg(),
                    now,
                ),
            )
    }

    /// Polls every ladder, and returns the actions that are due with the names
    /// that they are due for.
    pub fn due_actions(&mut self, now: Instant) -> (due: Vec<(String, Action)>)
        requires
            old(self).wf(),
        ensures
            final(self).wf(),
            by_name(due@) == old(self).due_at(now@),
            final(self).polled(*old(self), now@),
    {
        let ghost before = *self;
        let ghost names = self.watch_names();
        let mut due: Vec<(String, Action)> = Vec::new();
        let mut i: usize = 0;
        proof {
            before.watches.lemma_names();
            assert(by_name(due@) =~= Seq::<(Seq<char>, Action)>::empty());
        }
        while i < self.watches.len()
            invariant
                before.wf(),
                self.wf(),
                names == before.watch_names(),
                names.no_duplicates(),
                forall|k: int|
                    0 <= k < names.len() ==> before.watched().contains_key(#[trigger] names[k]),
                i <= names.len(),
                self.watch_names() == names,
                self.watched().dom() == before.watched().dom(),
                self.same_clocks(before),
                self.listed() == before.listed(),
                self.parked_engines() == before.parked_engines(),
                by_name(due@) == due_among(names, before.watched(), now@, i as int),
                forall|k: int|
                    0 <= k < i ==> self.watched()[#[trigger] names[k]].moved(
                        before.watched()[names[k]],
                        before.watched()[names[k]].ladder.stage().after_poll(
                            before.watched()[names[k]].ladder.cfg(),
                            now@,
                        ),
                    ),
                forall|k: int|
                    i <= k < names.len() ==> self.watched()[#[trigger] names[k]]
                        == before.watched()[names[k]],
            decreases names.len() - i,
        {
            let name = self.watches.name(i).clone();
            assert(name@ == names[i as int]);
            assert(self.watched().contains_key(name@));
            if let Some(w) = self.watches.get(&name) {
                let mut w = *w;
                let action = w.ladder.poll(now);
                self.watches.set(&name, w);
                if let Some(action) = action {
                    let ghost so_far = due@;
                    due.push((name, action));
                    proof {
                        assert(by_name(due@) =~= by_name(so_far).push((names[i as int], action)));
                    }
                }
            }
            i = i + 1;
        }
        proof {
            assert forall|name: Seq<char>| #[trigger]
                before.watched().contains_key(name) implies self.watched()[name].moved(
                before.watched()[name],
                before.watched()[name].ladder.stage().after_poll(
                    before.watched()[name].ladder.cfg(),
                    now@,
                ),
            ) by {
                assert(names.contains(name));
            }
        }
        due
    }

    /// Whether `target` is the instance id under which a device is looked for in
    /// order to open it anew.
    pub open spec fn is_target(self, name: Seq<char>, target: Option<u32>) -> bool {
        &&& forall|i: int|
            0 <= i < self.listed().len() && (#[trigger] self.listed()[i]).name@ == name ==> target
                == Some(self.listed()[i].instance)
        &&& !self.is_open(name) ==> target == if self.watched().contains_key(name) {
            self.watched()[name].last_instance
        } else {
            None
        }
    }

    /// The instance id under which a device is looked for in order to open it
    /// anew: that of the open controller of the name, else the last known one.
    pub fn reopen_target(&self, name: &String) -> (target: Option<u32>)
        requires
            self.wf(),
        ensures
            self.is_target(name@, target),
            self.is_open(name@) ==> (target matches Some(w) && self.active().contains_key(w)
                && self.active()[w].name@ == name@),
    {
        match self.index_of_name(name) {
            Some(i) => {
                proof {
                    self.lemma_active_at(i as int);
                }
                Some(self.controllers[i].instance)
            },
            None => match self.watches.get(name) {
                Some(w) => w.last_instance,
                None => None,
            },
        }
    }

    /// Whether `self` is `before` with the ladder of `name` moved to `stage`, if
    /// the name is watched.
    pub open spec fn told(self, before: Self, name: Seq<char>, stage: Stage) -> bool {
        if before.watched().contains_key(name) {
            self.ladder_moved(before, name, stage)
        } else {
            self == before
        }
    }

    /// Tells the ladder of a name how opening the controller anew went.
    pub fn on_reopen_result(&mut self, name: &String, ok: bool, now: Instant)
        requires
            old(self).wf(),
        ensures
            final(self).wf(),
            final(self).told(
                *old(self),
                name@,
                old(self).watched()[name@].ladder.stage().after_reopen_result(
                    old(self).thresholds(),
                    now@,
                ),
            ),
    {
        let ghost before = *self;
        if let Some(w) = self.watches.get(name) {
            let mut w = *w;
            w.ladder.on_reopen_result(ok, now);
            self.watches.set(name, w);
        }
        proof {
            before.lemma_books();
            self.lemma_books();
        }
    }

    /// Tells the ladder of a name that the subsystem is being started anew.
    pub fn on_reinit_attempted(&mut self, name: &String, now: Instant)
        requires
            old(self).wf(),
        ensures
            final(self).wf(),
            final(self).told(
                *old(self),
                name@,
                old(self).watched()[name@].ladder.stage().after_reinit_attempted(
                    old(self).thresholds(),
                    now@,
                ),
            ),
    {
        let ghost before = *self;
        if let Some(w) = self.watches.get(name) {
            let mut w = *w;
            w.ladder.on_reinit_attempted(now);
            self.watches.set(name, w);
        }
        proof {
            before.lemma_books();
            self.lemma_books();
        }
    }

    /// Closes every controller and parks its engine, before the subsystem is
    /// started anew. Returns the handles, which are to be dropped before that.
    pub fn park_all(&mut self) -> (handles: Vec<H>)
        requires
            old(self).wf(),
        ensures
            final(self).wf(),
            final(self).same_clocks(*old(self)),
            final(self).listed().len() == 0,
            final(self).same_watches(*old(self)),
            final(self).parked_engines() == parked_with(
                old(self).parked_engines(),
                old(self).listed(),
                old(self).listed().len() as int,
            ),
            handles@.len() == old(self).listed().len(),
            forall|i: int|
                0 <= i < handles@.len() ==> #[trigger] handles@[i] == old(
                    self,
                ).listed()[i].controller,
    {
        let ghost before = *self;
        let mut handles: Vec<H> = Vec::new();
        let ghost mut n: int = 0;
        while self.controllers.len() > 0
            invariant
                before.wf(),
                self.wf(),
                0 <= n <= before.listed().len(),
                self.same_clocks(before),
                self.same_watches(before),
                self.listed() == before.listed().skip(n),
                self.parked_engines() == parked_with(before.parked_engines(), before.listed(), n),
                handles@.len() == n,
                forall|i: int|
                    0 <= i < n ==> #[trigger] handles@[i] == before.listed()[i].controller,
            decreases self.listed().len(),
        {
            let ghost between = *self;
            let state = self.controllers.remove(0);
            let ControllerState { controller, engine, name, .. } = state;
            handles.push(controller);
            self.parked.insert(name, engine);
            proof {
                self.lemma_removed(between, 0);
                assert(between.listed()[0] == before.listed()[n]);
                assert(self.listed() =~= before.listed().skip(n + 1));
                n = n + 1;
            }
        }
        handles
    }

    /// Whether `self` is `before` after a heartbeat was asked for, and `lines` is
    /// what came of it.
    pub open spec fn beaten(self, before: Self, now: Instant, lines: Option<Vec<Heartbeat>>) -> bool {
        &&& lines is Some <==> now@ >= before.heartbeat_at()@ + HEARTBEAT_INTERVAL_NANOS
        &&& match lines {
            None => self == before,
            Some(v) => {
                let names = before.watch_names();
                &&& v@.len() == names.len()
                &&& forall|i: int|
                    0 <= i < names.len() ==> before.line_for(names[i], #[trigger] v@[i])
                &&& self.heartbeat_at() == now
                &&& self.thresholds() == before.thresholds()
                &&& self.read_error_logged() == before.read_error_logged()
                &&& self.action_error_logged() == before.action_error_logged()
                &&& self.listed() == before.listed()
                &&& self.parked_engines() == before.parked_engines()
                &&& self.watch_names() == names
                &&& self.watched().dom() == before.watched().dom()
                &&& forall|name: Seq<char>| #[trigger]
                    before.watched().contains_key(name) ==> self.watched()[name] == (WatchEntry {
                        telemetry: before.watched()[name].telemetry.after_heartbeat(),
                        ..before.watched()[name]
                    })
            },
        }
    }

    /// Whether a heartbeat line says what there is to say of a name.
    pub open spec fn line_for(self, name: Seq<char>, line: Heartbeat) -> bool {
        &&& line.name@ == name
        &&& line.active == self.is_open(name)
        &&& line.sensor_events == self.watched()[name].telemetry.events_in_window
        &&& line.max_identical_gyro_streak == self.watched()[name].telemetry.window_max_streak
    }

    /// The heartbeat, every half minute: a line for each name that is watched,
    /// and a new window for its counts.
    pub fn heartbeat(&mut self, now: Instant) -> (lines: Option<Vec<Heartbeat>>)
        requires
            old(self).wf(),
        ensures
            final(self).wf(),
            final(self).beaten(*old(self), now, lines),
    {
        if !now.reached(self.last_heartbeat, Duration::from_secs(HEARTBEAT_INTERVAL_SECS)) {
            return None;
        }
        let ghost before = *self;
        let ghost names = self.watch_names();
        let mut lines: Vec<Heartbeat> = Vec::new();
        let mut i: usize = 0;
        proof {
            before.watches.lemma_names();
        }
        while i < self.watches.len()
            invariant
                before.wf(),
                self.wf(),
                names == before.watch_names(),
                names.no_duplicates(),
                forall|k: int|
                    0 <= k < names.len() ==> before.watched().contains_key(#[trigger] names[k]),
                i <= names.len(),
                self.watch_names() == names,
                self.watched().dom() == before.watched().dom(),
                self.same_clocks(before),
                self.listed() == before.listed(),
                self.parked_engines() == before.parked_engines(),
                lines@.len() == i,
                forall|k: int|
                    0 <= k < i ==> (#[trigger] lines@[k]).name@ == names[k] && lines@[k].active
                        == before.is_open(names[k]) && lines@[k].sensor_events
                        == before.watched()[names[k]].telemetry.events_in_window
                        && lines@[k].max_identical_gyro_streak
                        == before.watched()[names[k]].telemetry.window_max_streak,
                forall|k: int|
                    0 <= k < i ==> self.watched()[#[trigger] names[k]] == (WatchEntry {
                        telemetry: before.watched()[names[k]].telemetry.after_heartbeat(),
                        ..before.watched()[names[k]]
                    }),
                forall|k: int|
                    i <= k < names.len() ==> self.watched()[#[trigger] names[k]]
                        == before.watched()[names[k]],
            decreases names.len() - i,
        {
            let name = self.watches.name(i).clone();
            assert(name@ == names[i as int]);
            assert(self.watched().contains_key(name@));
            if let Some(w) = self.watches.get(&name) {
                let mut w = *w;
                let active = self.index_of_name(&name).is_some();
                let sensor_events = w.telemetry.events_in_window;
                let max_identical_gyro_streak = w.telemetry.window_max_streak;
                w.telemetry.start_window();
                self.watches.set(&name, w);
                lines.push(
                    Heartbeat { name, active, sensor_events, max_identical_gyro_streak },
                );
            }
            i = i + 1;
        }
        self.last_heartbeat = now;
        proof {
            assert forall|name: Seq<char>| #[trigger]
                before.watched().contains_key(name) implies self.watched()[name] == (WatchEntry {
                telemetry: before.watched()[name].telemetry.after_heartbeat(),
                ..before.watched()[name]
            }) by {
                assert(names.contains(name));
            }
        }
        Some(lines)
    }

    /// Whether motion of this name is to be let go at `now`.
    pub open spec fn graced(self, name: Seq<char>, now: nat) -> bool {
        self.watched().contains_key(name) && (self.watched()[name].ladder.grace_until() matches Some(
            until,
        ) && now < until)
    }

    /// What the motion of the `i`-th open controller is for: it goes to the
    /// calibrator while there is one, else it is applied, unless a recovery has
    /// just happened. Where reading failed there is none.
    pub open spec fn step_for(
        self,
        i: int,
        sensors_enabled: bool,
        read_ok: bool,
        now: Instant,
    ) -> MotionStep {
        if !sensors_enabled {
            MotionStep::Skip
        } else if !read_ok {
            if allowed(self.read_error_logged(), now) {
                MotionStep::LogReadError
            } else {
                MotionStep::Skip
            }
        } else if self.listed()[i].calibrator is Some {
            MotionStep::Calibrate
        } else if self.graced(self.listed()[i].name@, now@) {
            MotionStep::Swallow
        } else {
            MotionStep::Apply
        }
    }

    pub fn motion_step(
        &mut self,
        i: usize,
        sensors_enabled: bool,
        read_ok: bool,
        now: Instant,
    ) -> (step: MotionStep)
        requires
            old(self).wf(),
            i < old(self).listed().len(),
        ensures
            final(self).wf(),
            step == old(self).step_for(i as int, sensors_enabled, read_ok, now),
            final(self).same_books(*old(self)),
            final(self).heartbeat_at() == old(self).heartbeat_at(),
            final(self).action_error_logged() == old(self).action_error_logged(),
            final(self).read_error_logged() == if step == MotionStep::LogReadError {
                Some(now)
            } else {
                old(self).read_error_logged()
            },
    {
        if !sensors_enabled {
            return MotionStep::Skip;
        }
        if !read_ok {
            return if self.sensor_err_limit.allow(now) {
                MotionStep::LogReadError
            } else {
                MotionStep::Skip
            };
        }
        if self.controllers[i].calibrator.is_some() {
            return MotionStep::Calibrate;
        }
        let in_grace = match self.watches.get(&self.controllers[i].name) {
            Some(w) => w.ladder.in_grace(now),
            None => false,
        };
        if in_grace {
            MotionStep::Swallow
        } else {
            MotionStep::Apply
        }
    }

    /// The `i`-th open controller has been calibrated. Returns its calibrator.
    pub fn calibration_finished(&mut self, i: usize) -> (calibrator: Option<L>)
        requires
            old(self).wf(),
            i < old(self).listed().len(),
        ensures
            final(self).wf(),
            final(self).same_clocks(*old(self)),
            final(self).parked_engines() == old(self).parked_engines(),
            final(self).same_watches(*old(self)),
            calibrator == old(self).listed()[i as int].calibrator,
            final(self).listed() == old(self).listed().update(
                i as int,
                ControllerState { calibrator: None, ..old(self).listed()[i as int] },
            ),
    {
        let ghost before = *self;
        let calibrator = self.controllers[i].calibrator.take();
        proof {
            assert forall|a: int, b: int| 0 <= a < b < self.listed().len() implies (
            #[trigger] self.listed()[a]).instance != (#[trigger] self.listed()[b]).instance
                && self.listed()[a].name@ != self.listed()[b].name@ by {
                assert(before.listed()[a].instance != before.listed()[b].instance);
            }
            assert forall|a: int| 0 <= a < self.listed().len() implies self.watched().contains_key(
                (#[trigger] self.listed()[a]).name@,
            ) && !self.parked_engines().contains_key(self.listed()[a].name@) by {
                assert(self.watched().contains_key(before.listed()[a].name@));
            }
        }
        calibrator
    }

    /// Carrying out an action failed. Returns whether to say so in the log.
    pub fn action_failed(&mut self, now: Instant) -> (log: bool)
        requires
            old(self).wf(),
        ensures
            final(self).wf(),
            log == allowed(old(self).action_error_logged(), now),
            final(self).same_books(*old(self)),
            final(self).heartbeat_at() == old(self).heartbeat_at(),
            final(self).read_error_logged() == old(self).read_error_logged(),
            final(self).action_error_logged() == if log {
                Some(now)
            } else {
                old(self).action_error_logged()
            },
    {
        let ghost before = *self;
        let log = self.action_err_limit.allow(now);
        proof {
            before.lemma_books();
            self.lemma_books();
        }
        log
    }
}

} // verus!
