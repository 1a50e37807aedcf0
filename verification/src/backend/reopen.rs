//! Opening a controller anew: from the request of its ladder to the report.
use vstd::prelude::*;

use super::session::{ControllerState, Session};
use super::session_laws::{
    law_one_controller_per_name, law_target_is_the_controller_of_the_name,
};
use super::stall_watchdog::Stage;
use crate::time::Instant;

verus! {

/// How far opening anew has come.
#[derive(Debug, Clone, Copy, PartialEq, Eq, Structural)]
pub enum ReopenPhase {
    Start,
    /// The engine is to release what it holds.
    Releasing { instance: u32 },
    /// The device is to be found.
    Looking { instance: u32 },
    /// The device is to be opened.
    Opening,
    /// The ladder has been told how it went.
    Over,
}

/// Where a device was found.
#[derive(Debug, Clone, Copy, PartialEq, Eq, Structural)]
pub enum Lookup {
    /// There is no subsystem to look in.
    NoSubsystem,
    /// It is no longer among the devices.
    Gone,
    At { index: u32 },
}

/// What came of opening a device.
#[derive(Debug)]
pub enum Opening<H, E, L> {
    /// The controller has been prepared, and is ready to join the open ones.
    Ready(ControllerState<H, E, L>),
    /// The device may not be opened.
    Refused,
    Failed,
}

/// What has been done.
#[derive(Debug)]
pub enum ReopenEvent<H, E, L> {
    Begin,
    Released,
    LookedUp(Lookup),
    Opened(Opening<H, E, L>),
}

/// How it went.
#[derive(Debug, Clone, Copy, PartialEq, Eq, Structural)]
pub enum ReopenOutcome {
    Reopened,
    /// No instance id is known under which to look for the device.
    NoTarget,
    NoSubsystem,
    Gone,
    Refused,
    Failed,
}

impl ReopenOutcome {
    /// Whether a controller was opened anew.
    pub fn ok(self) -> (r: bool)
        ensures
            r == (self is Reopened),
    {
        match self {
            ReopenOutcome::Reopened => true,
            _ => false,
        }
    }
}

/// What is to be done next.
#[derive(Debug)]
pub enum ReopenStep<H> {
    /// Let the engine with this instance id, if it is open, release what it
    /// holds.
    Release { instance: u32 },
    /// Drop the handle that was closed, and then look for the device.
    LookUp { instance: u32, closed: Option<H> },
    /// Open the device with this index.
    Open { index: u32 },
    /// Nothing: the ladder has been told.
    Done(ReopenOutcome),
}

/// A run, as contracts speak of it.
pub struct ReopenState {
    pub name: Seq<char>,
    pub phase: ReopenPhase,
}

impl ReopenState {
    /// Whether this is the event that the run waits for.
    pub open spec fn awaits<H, E, L>(self, event: ReopenEvent<H, E, L>) -> bool {
        match self.phase {
            ReopenPhase::Start => event is Begin,
            ReopenPhase::Releasing { .. } => event is Released,
            ReopenPhase::Looking { .. } => event is LookedUp,
            ReopenPhase::Opening => event is Opened,
            ReopenPhase::Over => false,
        }
    }

    pub open spec fn at(self, phase: ReopenPhase) -> ReopenState {
        ReopenState { phase, ..self }
    }
}

/// The stage of a ladder that is told how opening anew went.
pub open spec fn told_stage<H, E, L>(session: Session<H, E, L>, name: Seq<char>, now: nat) -> Stage {
    session.watched()[name].ladder.stage().after_reopen_result(session.thresholds(), now)
}

/// Whether `after` is `before` with the ladder of `name` told, and nothing else.
pub open spec fn only_told<H, E, L>(
    before: Session<H, E, L>,
    after: Session<H, E, L>,
    name: Seq<char>,
    now: nat,
) -> bool {
    after.told(before, name, told_stage(before, name, now))
}

/// Whether `after` is `before` with a controller joined to the open ones and the
/// ladder of `name` told.
pub open spec fn joined_and_told<H, E, L>(
    before: Session<H, E, L>,
    after: Session<H, E, L>,
    state: ControllerState<H, E, L>,
    name: Seq<char>,
    now: nat,
) -> bool {
    &&& after.same_clocks(before)
    &&& after.parked_engines() == before.parked_engines()
    &&& after.active() == before.active().insert(state.instance, state)
    &&& watch_told(before, after, name, now)
}

/// Whether the watches of `after` are those of `before` with the ladder of
/// `name`, if it is watched, told how opening anew went.
pub open spec fn watch_told<H, E, L>(
    before: Session<H, E, L>,
    after: Session<H, E, L>,
    name: Seq<char>,
    now: nat,
) -> bool {
    if before.watched().contains_key(name) {
        &&& after.watched() == before.watched().insert(name, after.watched()[name])
        &&& after.watched()[name].moved(
            before.watched()[name],
            told_stage(before, name, now),
        )
    } else {
        after.watched() == before.watched()
    }
}

/// One step of a run: what was done, what it made of run and session, and what is
/// to be done next.
pub struct ReopenRecord<H, E, L> {
    pub run: ReopenState,
    pub next: ReopenState,
    pub event: ReopenEvent<H, E, L>,
    pub before: Session<H, E, L>,
    pub after: Session<H, E, L>,
    pub now: nat,
    pub step: ReopenStep<H>,
}

impl<H, E, L> ReopenRecord<H, E, L> {
    /// The run ends here, and the ladder is told; nothing joined.
    pub open spec fn ends(self, outcome: ReopenOutcome) -> bool {
        &&& self.step == ReopenStep::<H>::Done(outcome)
        &&& self.next == self.run.at(ReopenPhase::Over)
        &&& only_told(self.before, self.after, self.run.name, self.now)
    }

    /// Whether the step is as it should be.
    pub open spec fn right(self) -> bool {
        &&& self.run.awaits(self.event)
        &&& match self.event {
            ReopenEvent::Begin => match self.step {
                ReopenStep::Release { instance } => {
                    &&& self.before.is_target(self.run.name, Some(instance))
                    &&& self.after == self.before
                    &&& self.next == self.run.at(ReopenPhase::Releasing { instance })
                },
                _ => self.before.is_target(self.run.name, None) && self.ends(
                    ReopenOutcome::NoTarget,
                ),
            },
            ReopenEvent::Released => match self.step {
                ReopenStep::LookUp { instance, closed } => {
                    &&& self.run.phase == (ReopenPhase::Releasing { instance })
                    &&& self.after.detached(self.before, instance, closed)
                    &&& self.next == self.run.at(ReopenPhase::Looking { instance })
                },
                _ => false,
            },
            ReopenEvent::LookedUp(Lookup::NoSubsystem) => self.ends(ReopenOutcome::NoSubsystem),
            ReopenEvent::LookedUp(Lookup::Gone) => self.ends(ReopenOutcome::Gone),
            ReopenEvent::LookedUp(Lookup::At { index }) => {
                &&& self.step == (ReopenStep::<H>::Open { index })
                &&& self.after == self.before
                &&& self.next == self.run.at(ReopenPhase::Opening)
            },
            ReopenEvent::Opened(Opening::Ready(state)) => {
                &&& self.step == ReopenStep::<H>::Done(ReopenOutcome::Reopened)
                &&& self.next == self.run.at(ReopenPhase::Over)
                &&& joined_and_told(self.before, self.after, state, self.run.name, self.now)
            },
            ReopenEvent::Opened(Opening::Refused) => self.ends(ReopenOutcome::Refused),
            ReopenEvent::Opened(Opening::Failed) => self.ends(ReopenOutcome::Failed),
        }
    }
}

/// Opening the controller of one name anew.
#[derive(Debug)]
pub struct ReopenRun {
    name: String,
    phase: ReopenPhase,
}

impl View for ReopenRun {
    type V = ReopenState;

    closed spec fn view(&self) -> ReopenState {
        ReopenState { name: self.name@, phase: self.phase }
    }
}

impl ReopenRun {
    pub fn new(name: String) -> (run: Self)
        ensures
            run@ == (ReopenState { name: name@, phase: ReopenPhase::Start }),
    {
        ReopenRun { name, phase: ReopenPhase::Start }
    }

    pub fn expects<H, E, L>(&self, event: &ReopenEvent<H, E, L>) -> (r: bool)
        ensures
            r == self@.awaits(*event),
    {
        match (self.phase, event) {
            (ReopenPhase::Start, ReopenEvent::Begin) => true,
            (ReopenPhase::Releasing { .. }, ReopenEvent::Released) => true,
            (ReopenPhase::Looking { .. }, ReopenEvent::LookedUp(_)) => true,
            (ReopenPhase::Opening, ReopenEvent::Opened(_)) => true,
            _ => false,
        }
    }

    /// Tells the ladder, and ends the run.
    fn finish<H, E, L>(
        &mut self,
        session: &mut Session<H, E, L>,
        outcome: ReopenOutcome,
        now: Instant,
    ) -> (step: ReopenStep<H>)
        requires
            old(session).wf(),
        ensures
            final(session).wf(),
            final(self)@ == old(self)@.at(ReopenPhase::Over),
            only_told(*old(session), *final(session), old(self)@.name, now@),
            step == ReopenStep::<H>::Done(outcome),
    {
        session.on_reopen_result(&self.name, outcome.ok(), now);
        self.phase = ReopenPhase::Over;
        ReopenStep::Done(outcome)
    }

    /// Takes in what has been done, and returns what is to be done next. The
    /// ladder is told with the last step, once, and that it went well exactly
    /// where the controller that was opened anew joined the open ones.
    pub fn next<H, E, L>(
        &mut self,
        session: &mut Session<H, E, L>,
        event: ReopenEvent<H, E, L>,
        now: Instant,
    ) -> (step: ReopenStep<H>)
        requires
            old(session).wf(),
            old(self)@.awaits(event),
            event matches ReopenEvent::Opened(Opening::Ready(state)) ==> old(session).may_join(
                state,
            ),
        ensures
            final(session).wf(),
            (ReopenRecord {
                run: old(self)@,
                next: final(self)@,
                event,
                before: *old(session),
                after: *final(session),
                now: now@,
                step,
            }).right(),
    {
        match event {
            ReopenEvent::Begin => match session.reopen_target(&self.name) {
                Some(instance) => {
                    self.phase = ReopenPhase::Releasing { instance };
                    ReopenStep::Release { instance }
                },
                None => self.finish(session, ReopenOutcome::NoTarget, now),
            },
            ReopenEvent::Released => {
                let instance: u32 = match self.phase {
                    ReopenPhase::Releasing { instance } => instance,
                    _ => 0,
                };
                let closed = session.detach(instance);
                self.phase = ReopenPhase::Looking { instance };
                ReopenStep::LookUp { instance, closed }
            },
            ReopenEvent::LookedUp(lookup) => match lookup {
                Lookup::NoSubsystem => self.finish(session, ReopenOutcome::NoSubsystem, now),
                Lookup::Gone => self.finish(session, ReopenOutcome::Gone, now),
                Lookup::At { index } => {
                    self.phase = ReopenPhase::Opening;
                    ReopenStep::Open { index }
                },
            },
            ReopenEvent::Opened(opening) => match opening {
                Opening::Ready(state) => {
                    session.activate(state);
                    self.finish(session, ReopenOutcome::Reopened, now)
                },
                Opening::Refused => self.finish(session, ReopenOutcome::Refused, now),
                Opening::Failed => self.finish(session, ReopenOutcome::Failed, now),
            },
        }
    }
}

/// With every step, the ladder is told if and only if the run ends with it; and it
/// went well if and only if a controller joined the open ones.
pub proof fn law_report_comes_with_the_end<H, E, L>(r: ReopenRecord<H, E, L>)
    requires
        r.before.wf(),
        r.right(),
    ensures
        r.step is Done <==> r.next.phase is Over,
        r.step is Done ==> watch_told(r.before, r.after, r.run.name, r.now),
        !(r.step is Done) ==> r.after.same_watches(r.before),
        r.step == ReopenStep::<H>::Done(ReopenOutcome::Reopened) <==> (
        r.event matches ReopenEvent::Opened(opening) && opening is Ready),
        r.step matches ReopenStep::Done(outcome) && !(outcome is Reopened) ==> r.after.active()
            == r.before.active(),
        r.event matches ReopenEvent::Opened(Opening::Ready(state)) ==> r.after.active()
            == r.before.active().insert(state.instance, state),
{
}

/// A ladder that waits for the report of a reopen waits for it no longer once the
/// run is over: the next attempt is due after the reopen interval.
pub proof fn law_reopen_leaves_no_dead_zone<H, E, L>(r: ReopenRecord<H, E, L>, attempts: nat)
    requires
        r.before.wf(),
        r.right(),
        r.next.phase is Over,
        r.before.watched().contains_key(r.run.name),
        r.before.watched()[r.run.name].ladder.stage() == (Stage::Reopening {
            attempts,
            due: None,
        }),
    ensures
        r.after.watched().contains_key(r.run.name),
        r.after.watched()[r.run.name].ladder.stage() == (Stage::Reopening {
            attempts: attempts + 1,
            due: Some(r.now + r.before.thresholds().reopen_interval@),
        }),
{
    law_report_comes_with_the_end(r);
}

/// The steps that a run can still take.
pub open spec fn steps_left(phase: ReopenPhase) -> nat {
    match phase {
        ReopenPhase::Start => 4,
        ReopenPhase::Releasing { .. } => 3,
        ReopenPhase::Looking { .. } => 2,
        ReopenPhase::Opening => 1,
        ReopenPhase::Over => 0,
    }
}

/// Whether these are the steps of one run from its start, whatever else happens
/// to the session between them.
pub open spec fn one_run<H, E, L>(records: Seq<ReopenRecord<H, E, L>>) -> bool {
    &&& forall|i: int|
        0 <= i < records.len() ==> (#[trigger] records[i]).right() && records[i].before.wf()
    &&& forall|i: int|
        0 < i < records.len() ==> (#[trigger] records[i]).run == records[i - 1].next
    &&& records.len() > 0 ==> records[0].run.phase is Start
}

/// Every reopen is reported exactly once: a run takes four steps at most, and of
/// its steps the last one alone tells the ladder.
pub proof fn law_every_reopen_is_reported_once<H, E, L>(records: Seq<ReopenRecord<H, E, L>>)
    requires
        one_run(records),
        records.len() > 0,
    ensures
        records.len() <= 4,
        forall|i: int|
            0 <= i < records.len() - 1 ==> !((#[trigger] records[i]).step is Done)
                && records[i].after.same_watches(records[i].before),
        records.len() == 4 ==> records.last().step is Done,
        records.last().next.phase is Over <==> records.last().step is Done,
{
    assert forall|i: int| 0 <= i < records.len() implies steps_left(
        (#[trigger] records[i]).next.phase,
    ) + i + 1 <= 4 by {
        lemma_steps_left(records, i);
    }
    assert forall|i: int| 0 <= i < records.len() - 1 implies !((#[trigger] records[i]).step is Done)
        && records[i].after.same_watches(records[i].before) by {
        law_report_comes_with_the_end(records[i]);
        assert(records[i + 1].run == records[i].next);
        assert(records[i + 1].right());
    }
    let n = records.len() - 1;
    assert(records[n].right());
    law_report_comes_with_the_end(records[n]);
}

proof fn lemma_steps_left<H, E, L>(records: Seq<ReopenRecord<H, E, L>>, i: int)
    requires
        one_run(records),
        0 <= i < records.len(),
    ensures
        steps_left(records[i].next.phase) + i + 1 <= 4,
    decreases i,
{
    assert(records[i].right());
    if i > 0 {
        lemma_steps_left(records, i - 1);
        assert(records[i].run == records[i - 1].next);
    }
}

/// A reopen closes the controller of its name and no other. From the start of a run
/// for a name of which a controller is open, over the release, to its closing: every
/// controller of another name that was open still is, as it was, and that of the
/// name is not; the handle that is dropped is its own. (Between the two steps the
/// engine is let go of what it holds, which opens and closes nothing.)
pub proof fn law_reopen_closes_only_its_own<H, E, L>(
    begin: ReopenRecord<H, E, L>,
    close: ReopenRecord<H, E, L>,
    other: u32,
)
    requires
        begin.right(),
        close.right(),
        begin.before.wf(),
        close.before.wf(),
        begin.event is Begin,
        close.event is Released,
        close.run == begin.next,
        begin.before.is_open(begin.run.name),
        forall|w: u32| #[trigger]
            close.before.active().contains_key(w) <==> begin.before.active().contains_key(w),
        forall|w: u32| #[trigger]
            close.before.active().contains_key(w) ==> close.before.active()[w].name@
                == begin.before.active()[w].name@,
    ensures
        close.before.active().contains_key(other) && close.before.active()[other].name@
            != begin.run.name ==> close.after.active().contains_key(other)
            && close.after.active()[other] == close.before.active()[other],
        close.before.active().contains_key(other) && close.before.active()[other].name@
            == begin.run.name ==> !close.after.active().contains_key(other) && (
        close.step matches ReopenStep::LookUp { closed, .. } && closed == Some(
            close.before.active()[other].controller,
        )),
{
    let name = begin.run.name;
    law_target_is_the_controller_of_the_name(
        begin.before,
        name,
        match begin.step {
            ReopenStep::Release { instance } => Some(instance),
            _ => None,
        },
        None,
    );
    if close.before.active().contains_key(other) && close.before.active()[other].name@ == name {
        if let ReopenStep::LookUp { instance, .. } = close.step {
            assert(close.before.active().contains_key(instance));
            law_one_controller_per_name(close.before, other, instance);
        }
    }
}

/// A run is about one name from start to end, looks for the device whose engine it
/// let go of, and opens the device that was found.
pub proof fn law_run_keeps_to_its_device<H, E, L>(r: ReopenRecord<H, E, L>)
    requires
        r.right(),
    ensures
        r.next.name == r.run.name,
        r.step matches ReopenStep::Release { instance } ==> r.next.phase
            == (ReopenPhase::Releasing { instance }),
        r.step matches ReopenStep::LookUp { instance, .. } ==> r.run.phase
            == (ReopenPhase::Releasing { instance }),
        r.step matches ReopenStep::Open { index } ==> r.event == ReopenEvent::<H, E, L>::LookedUp(
            Lookup::At { index },
        ),
{
}

/// The outcome says what happened: each reason is given exactly where it holds.
pub proof fn law_outcome_gives_the_reason<H, E, L>(r: ReopenRecord<H, E, L>)
    requires
        r.right(),
    ensures
        r.step matches ReopenStep::Done(outcome) ==> {
            &&& outcome is NoTarget <==> r.event is Begin
            &&& outcome is NoSubsystem <==> (r.event matches ReopenEvent::LookedUp(l)
                && l is NoSubsystem)
            &&& outcome is Gone <==> (r.event matches ReopenEvent::LookedUp(l) && l is Gone)
            &&& outcome is Refused <==> (r.event matches ReopenEvent::Opened(o) && o is Refused)
            &&& outcome is Failed <==> (r.event matches ReopenEvent::Opened(o) && o is Failed)
            &&& outcome is Reopened <==> (r.event matches ReopenEvent::Opened(o) && o is Ready)
        },
{
}

/// The steps come in order, and each waits for its own event alone.
pub proof fn law_steps_come_in_order<H, E, L>(r: ReopenRecord<H, E, L>)
    requires
        r.right(),
    ensures
        r.event is Begin <==> r.run.phase is Start,
        r.event is Released <==> r.run.phase is Releasing,
        r.event is LookedUp <==> r.run.phase is Looking,
        r.event is Opened <==> r.run.phase is Opening,
        !(r.run.phase is Over),
        steps_left(r.next.phase) < steps_left(r.run.phase),
{
}

/// A controller that was opened anew is among the open ones, as it was handed in,
/// and nothing else is moved by that: neither another controller, nor a parked
/// engine, nor the ladder of another name.
pub proof fn law_reopened_controller_joins_the_others<H, E, L>(
    r: ReopenRecord<H, E, L>,
    state: ControllerState<H, E, L>,
    other: u32,
    name: Seq<char>,
)
    requires
        r.right(),
        r.event == ReopenEvent::<H, E, L>::Opened(Opening::Ready(state)),
    ensures
        r.after.active().contains_key(state.instance),
        r.after.active()[state.instance] == state,
        other != state.instance ==> (r.after.active().contains_key(other)
            <==> r.before.active().contains_key(other)),
        other != state.instance && r.before.active().contains_key(other)
            ==> r.after.active()[other] == r.before.active()[other],
        r.after.parked_engines() == r.before.parked_engines(),
        name != r.run.name && r.before.watched().contains_key(name)
            ==> r.after.watched().contains_key(name) && r.after.watched()[name]
            == r.before.watched()[name],
        r.after.heartbeat_at() == r.before.heartbeat_at(),
        r.after.thresholds() == r.before.thresholds(),
{
}

/// A step that neither closes nor opens leaves every controller and every parked
/// engine as it was, and every ladder but that of the name.
pub proof fn law_other_steps_move_nothing_else<H, E, L>(r: ReopenRecord<H, E, L>, name: Seq<char>)
    requires
        r.right(),
        !(r.step is LookUp),
        !(r.step == ReopenStep::<H>::Done(ReopenOutcome::Reopened)),
    ensures
        r.after.listed() == r.before.listed(),
        r.after.parked_engines() == r.before.parked_engines(),
        name != r.run.name && r.before.watched().contains_key(name)
            ==> r.after.watched().contains_key(name) && r.after.watched()[name]
            == r.before.watched()[name],
        r.after.heartbeat_at() == r.before.heartbeat_at(),
        r.after.thresholds() == r.before.thresholds(),
{
}

/// A run gives up at its start only where there is nothing to look for: no
/// controller of the name is open, and no instance id of it is known.
pub proof fn law_start_gives_up_only_without_a_trace<H, E, L>(r: ReopenRecord<H, E, L>)
    requires
        r.right(),
        r.event is Begin,
        r.before.wf(),
    ensures
        r.step is Done <==> !r.before.is_open(r.run.name) && !(r.before.watched().contains_key(
            r.run.name,
        ) && r.before.watched()[r.run.name].last_instance is Some),
        r.step matches ReopenStep::Release { instance } ==> {
            ||| r.before.active().contains_key(instance) && r.before.active()[instance].name@
                == r.run.name
            ||| !r.before.is_open(r.run.name) && r.before.watched()[r.run.name].last_instance
                == Some(instance)
        },
{
    law_target_is_the_controller_of_the_name(
        r.before,
        r.run.name,
        match r.step {
            ReopenStep::Release { instance } => Some(instance),
            _ => None,
        },
        None,
    );
}

/// A run that goes on takes whatever comes of its step, wherever the device was found
/// and whatever came of opening it. One that is over takes nothing.
pub proof fn law_every_outcome_is_taken<H, E, L>(
    run: ReopenState,
    lookup: Lookup,
    opening: Opening<H, E, L>,
)
    ensures
        run.awaits(ReopenEvent::<H, E, L>::Begin) <==> run.phase is Start,
        run.awaits(ReopenEvent::<H, E, L>::Released) <==> run.phase is Releasing,
        run.awaits(ReopenEvent::<H, E, L>::LookedUp(lookup)) <==> run.phase is Looking,
        run.awaits(ReopenEvent::<H, E, L>::Opened(opening)) <==> run.phase is Opening,
{
}

} // verus!
