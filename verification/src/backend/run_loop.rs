//! The loop of a run, one step after the other.
use vstd::prelude::*;

use super::events::{answers, on_event, taken_in, EventStep, PumpEvent};
use super::session::{Heartbeat, Session};
use super::tick::{
    controller_jobs, jobs_of, recovery_jobs, recovery_steps, steps, ControllerJob, RecoveryJob,
    RecoveryStep,
};
use crate::time::Instant;

verus! {

/// What came of the last step.
#[derive(Debug, Clone, Copy, PartialEq, Eq, Structural)]
pub enum RunReport {
    Done,
    /// It failed: a controller could not be opened, a sensor not be read, an
    /// action not be carried out, or the subsystem not be started.
    Failed,
    Event(PumpEvent),
    NoEvent,
}

/// What is to be done next.
#[derive(Debug)]
pub enum RunStep<H> {
    /// Fetch an event.
    Pump,
    Handle(EventStep),
    /// Let the engine of the `i`-th controller release what it holds.
    Release { i: usize },
    /// Drop the handle of the controller that was closed.
    Close { closed: Option<H> },
    Serve(ControllerJob),
    Recover(RecoveryJob),
    /// Log these lines.
    Beat(Vec<Heartbeat>),
    /// Rest until the next tick.
    Rest,
    /// Leave the run, with nothing to complain of.
    End,
}

/// What the last step was.
#[derive(Debug, Clone, Copy, PartialEq, Eq, Structural)]
pub enum RunPhase {
    Pumping,
    Handling,
    Releasing { which: u32 },
    Serving,
    Recovering,
    Beating,
    Resting,
    Over,
}

/// A run, as contracts speak of it.
#[verifier::ext_equal]
pub struct RunState {
    pub phase: RunPhase,
    /// What is still to be done for controllers in this tick.
    pub serving: Seq<ControllerJob>,
    /// What is still to be done because ladders are due.
    pub recovering: Seq<RecoveryStep>,
}

impl RunState {
    pub open spec fn at(phase: RunPhase) -> RunState {
        RunState { phase, serving: seq![], recovering: seq![] }
    }

    /// Whether this is a report that the run waits for.
    pub open spec fn awaits(self, report: RunReport) -> bool {
        match self.phase {
            RunPhase::Pumping => report is Event || report is NoEvent,
            RunPhase::Over => false,
            _ => report is Done || report is Failed,
        }
    }
}

/// The first of the jobs for controllers is next; after the last of them the
/// ladders are polled.
pub open spec fn serves<H, E, L>(
    before: Session<H, E, L>,
    after: Session<H, E, L>,
    next: RunState,
    now: Instant,
    step: RunStep<H>,
    jobs: Seq<ControllerJob>,
) -> bool {
    if jobs.len() > 0 {
        &&& step == RunStep::<H>::Serve(jobs[0])
        &&& next == (RunState {
            phase: RunPhase::Serving,
            serving: jobs.drop_first(),
            recovering: seq![],
        })
        &&& after == before
    } else {
        exists|mid: Session<H, E, L>| #[trigger]
            mid.polled(before, now@) && recovers(
                mid,
                after,
                next,
                now,
                step,
                recovery_steps(before.due_at(now@)),
            )
    }
}

/// The first of the recovery jobs is next; after the last of them the heartbeat,
/// and then a rest.
pub open spec fn recovers<H, E, L>(
    before: Session<H, E, L>,
    after: Session<H, E, L>,
    next: RunState,
    now: Instant,
    step: RunStep<H>,
    jobs: Seq<RecoveryStep>,
) -> bool {
    if jobs.len() > 0 {
        &&& step matches RunStep::Recover(job) && job@ == jobs[0]
        &&& next == (RunState {
            phase: RunPhase::Recovering,
            serving: seq![],
            recovering: jobs.drop_first(),
        })
        &&& after == before
    } else {
        match step {
            RunStep::Beat(lines) => after.beaten(before, now, Some(lines)) && next == RunState::at(
                RunPhase::Beating,
            ),
            RunStep::Rest => after.beaten(before, now, None) && next == RunState::at(
                RunPhase::Resting,
            ),
            _ => false,
        }
    }
}

/// One step of a run: what was reported, what it made of run and session, and what
/// is to be done next.
pub struct RunRecord<H, E, L> {
    pub run: RunState,
    pub next: RunState,
    pub report: RunReport,
    pub before: Session<H, E, L>,
    pub after: Session<H, E, L>,
    pub now: Instant,
    pub step: RunStep<H>,
}

impl<H, E, L> RunRecord<H, E, L> {
    /// An event leads to `answer`.
    pub open spec fn handles(self, event: PumpEvent, answer: EventStep) -> bool {
        &&& answers(self.before, event, answer)
        &&& match answer {
            EventStep::Quit => self.step is End && self.next == RunState::at(RunPhase::Over),
            EventStep::Nothing => self.step is Pump && self.next == RunState::at(
                RunPhase::Pumping,
            ),
            EventStep::Close { i } => {
                &&& self.step == (RunStep::<H>::Release { i })
                &&& self.next == RunState::at(
                    RunPhase::Releasing { which: self.before.listed()[i as int].instance },
                )
            },
            _ => self.step == RunStep::<H>::Handle(answer) && self.next == RunState::at(
                RunPhase::Handling,
            ),
        }
    }

    /// Whether the step is as it should be.
    pub open spec fn right(self) -> bool {
        &&& self.run.awaits(self.report)
        &&& match self.run.phase {
            RunPhase::Pumping => match self.report {
                RunReport::Event(event) => {
                    &&& exists|answer: EventStep| #[trigger] self.handles(event, answer)
                    &&& taken_in(self.before, self.after, event, self.now@)
                },
                _ => serves(
                    self.before,
                    self.after,
                    self.next,
                    self.now,
                    self.step,
                    jobs_of(self.before.listed().len() as int),
                ),
            },
            RunPhase::Releasing { which } => {
                &&& self.step matches RunStep::Close { closed } && self.after.removed(
                    self.before,
                    which,
                    self.now@,
                    closed,
                )
                &&& self.next == RunState::at(RunPhase::Handling)
            },
            RunPhase::Serving => serves(
                self.before,
                self.after,
                self.next,
                self.now,
                self.step,
                self.run.serving,
            ),
            RunPhase::Recovering => recovers(
                self.before,
                self.after,
                self.next,
                self.now,
                self.step,
                self.run.recovering,
            ),
            RunPhase::Beating => {
                &&& self.step is Rest
                &&& self.next == RunState::at(RunPhase::Resting)
                &&& self.after == self.before
            },
            RunPhase::Handling | RunPhase::Resting => {
                &&& self.step is Pump
                &&& self.next == RunState::at(RunPhase::Pumping)
                &&& self.after == self.before
            },
            RunPhase::Over => false,
        }
    }
}

/// The loop of a run: in every tick the events, the controllers, the ladders, the
/// heartbeat and a rest.
#[derive(Debug)]
pub struct RunLoop {
    phase: RunPhase,
    serving: Vec<ControllerJob>,
    recovering: Vec<RecoveryJob>,
}

impl View for RunLoop {
    type V = RunState;

    closed spec fn view(&self) -> RunState {
        RunState {
            phase: self.phase,
            serving: self.serving@,
            recovering: steps(self.recovering@),
        }
    }
}

impl RunLoop {
    /// A run that rests before its first tick.
    pub fn new() -> (run: Self)
        ensures
            run@ == RunState::at(RunPhase::Resting),
    {
        let run = RunLoop {
            phase: RunPhase::Resting,
            serving: Vec::new(),
            recovering: Vec::new(),
        };
        proof {
            assert(run@ =~= RunState::at(RunPhase::Resting));
        }
        run
    }

    pub fn expects(&self, report: &RunReport) -> (r: bool)
        ensures
            r == self@.awaits(*report),
    {
        let about_event = match report {
            RunReport::Event(_) => true,
            RunReport::NoEvent => true,
            _ => false,
        };
        match self.phase {
            RunPhase::Pumping => about_event,
            RunPhase::Over => false,
            _ => !about_event,
        }
    }

    fn enter(&mut self, phase: RunPhase)
        ensures
            final(self)@ == RunState::at(phase),
    {
        self.phase = phase;
        self.serving = Vec::new();
        self.recovering = Vec::new();
        proof {
            assert(self@ =~= RunState::at(phase));
        }
    }

    fn recover<H, E, L>(
        &mut self,
        session: &mut Session<H, E, L>,
        jobs: Vec<RecoveryJob>,
        now: Instant,
    ) -> (step: RunStep<H>)
        requires
            old(session).wf(),
        ensures
            final(session).wf(),
            recovers(*old(session), *final(session), final(self)@, now, step, steps(jobs@)),
    {
        let mut jobs = jobs;
        let ghost all = steps(jobs@);
        if jobs.len() > 0 {
            let job = jobs.remove(0);
            self.phase = RunPhase::Recovering;
            self.serving = Vec::new();
            self.recovering = jobs;
            proof {
                assert(self@ =~= (RunState {
                    phase: RunPhase::Recovering,
                    serving: seq![],
                    recovering: all.drop_first(),
                }));
            }
            RunStep::Recover(job)
        } else {
            match session.heartbeat(now) {
                Some(lines) => {
                    self.enter(RunPhase::Beating);
                    RunStep::Beat(lines)
                },
                None => {
                    self.enter(RunPhase::Resting);
                    RunStep::Rest
                },
            }
        }
    }

    fn serve<H, E, L>(
        &mut self,
        session: &mut Session<H, E, L>,
        jobs: Vec<ControllerJob>,
        now: Instant,
    ) -> (step: RunStep<H>)
        requires
            old(session).wf(),
        ensures
            final(session).wf(),
            serves(*old(session), *final(session), final(self)@, now, step, jobs@),
    {
        let mut jobs = jobs;
        let ghost all = jobs@;
        let ghost before = *session;
        if jobs.len() > 0 {
            let job = jobs.remove(0);
            self.phase = RunPhase::Serving;
            self.serving = jobs;
            self.recovering = Vec::new();
            proof {
                assert(self@ =~= (RunState {
                    phase: RunPhase::Serving,
                    serving: all.drop_first(),
                    recovering: seq![],
                }));
            }
            RunStep::Serve(job)
        } else {
            let due = session.due_actions(now);
            let ghost mid = *session;
            let jobs = recovery_jobs(due);
            let step = self.recover(session, jobs, now);
            proof {
                assert(mid.polled(before, now@));
            }
            step
        }
    }

    /// Takes in what came of the last step, and returns the next one.
    pub fn next<H, E, L>(
        &mut self,
        session: &mut Session<H, E, L>,
        report: RunReport,
        now: Instant,
    ) -> (step: RunStep<H>)
        requires
            old(session).wf(),
            old(self)@.awaits(report),
            report matches RunReport::Event(PumpEvent::SensorUpdated { which, gyro }) ==> old(
                session,
            ).has_room_for(which, gyro),
        ensures
            final(session).wf(),
            (RunRecord {
                run: old(self)@,
                next: final(self)@,
                report,
                before: *old(session),
                after: *final(session),
                now,
                step,
            }).right(),
    {
        let ghost before = *session;
        let ghost run = self@;
        match self.phase {
            RunPhase::Pumping => match report {
                RunReport::Event(event) => {
                    let answer = on_event(session, event, now);
                    let step = match answer {
                        EventStep::Quit => {
                            self.enter(RunPhase::Over);
                            RunStep::End
                        },
                        EventStep::Nothing => {
                            self.enter(RunPhase::Pumping);
                            RunStep::Pump
                        },
                        EventStep::Close { i } => {
                            let which: u32 = session.controller(i).instance;
                            self.enter(RunPhase::Releasing { which });
                            RunStep::Release { i }
                        },
                        _ => {
                            self.enter(RunPhase::Handling);
                            RunStep::Handle(answer)
                        },
                    };
                    proof {
                        let r = RunRecord {
                            run,
                            next: self@,
                            report,
                            before,
                            after: *session,
                            now,
                            step,
                        };
                        assert(r.handles(event, answer));
                    }
                    step
                },
                _ => {
                    let jobs = controller_jobs(session.len());
                    self.serve(session, jobs, now)
                },
            },
            RunPhase::Releasing { which } => {
                let closed = session.on_device_removed(which, now);
                self.enter(RunPhase::Handling);
                RunStep::Close { closed }
            },
            RunPhase::Serving => {
                let mut jobs: Vec<ControllerJob> = Vec::new();
                std::mem::swap(&mut jobs, &mut self.serving);
                self.serve(session, jobs, now)
            },
            RunPhase::Recovering => {
                let mut jobs: Vec<RecoveryJob> = Vec::new();
                std::mem::swap(&mut jobs, &mut self.recovering);
                self.recover(session, jobs, now)
            },
            RunPhase::Beating => {
                self.enter(RunPhase::Resting);
                RunStep::Rest
            },
            _ => {
                self.enter(RunPhase::Pumping);
                RunStep::Pump
            },
        }
    }
}

/// Whether these are the steps of one run from its start, whatever else happens to
/// the session between them.
pub open spec fn one_run<H, E, L>(records: Seq<RunRecord<H, E, L>>) -> bool {
    &&& forall|i: int| 0 <= i < records.len() ==> (#[trigger] records[i]).right()
    &&& forall|i: int|
        0 < i < records.len() ==> (#[trigger] records[i]).run == records[i - 1].next
    &&& records.len() > 0 ==> records[0].run == RunState::at(RunPhase::Resting)
}

/// A run ends only by quitting or by the escape key, and then it ends: at every
/// step the run is left if and only if that was the event. No failure ends it,
/// whatever failed, and nothing comes after the end.
pub proof fn law_run_ends_only_by_quitting<H, E, L>(records: Seq<RunRecord<H, E, L>>, i: int)
    requires
        one_run(records),
        0 <= i < records.len(),
    ensures
        records[i].step is End <==> (records[i].report == RunReport::Event(PumpEvent::Quit)
            || records[i].report == RunReport::Event(PumpEvent::Escape)),
        records[i].report is Failed ==> !(records[i].step is End),
        records[i].step is End ==> i == records.len() - 1,
{
    let r = records[i];
    assert(r.right());
    if let RunReport::Event(event) = r.report {
        let answer = choose|answer: EventStep| #[trigger] r.handles(event, answer);
        assert(r.handles(event, answer));
    } else if r.run.phase is Pumping {
        lemma_serving_goes_on(r, jobs_of(r.before.listed().len() as int));
    } else if r.run.phase is Serving {
        lemma_serving_goes_on(r, r.run.serving);
    }
    if r.step is End && i < records.len() - 1 {
        assert(records[i + 1].run == r.next);
        assert(records[i + 1].right());
    }
}

proof fn lemma_serving_goes_on<H, E, L>(r: RunRecord<H, E, L>, jobs: Seq<ControllerJob>)
    requires
        serves(r.before, r.after, r.next, r.now, r.step, jobs),
    ensures
        r.step is Serve || r.step is Recover || r.step is Beat || r.step is Rest,
        !(r.next.phase is Releasing),
{
    if jobs.len() == 0 {
        let mid = choose|mid: Session<H, E, L>| #[trigger]
            mid.polled(r.before, r.now@) && recovers(
                mid,
                r.after,
                r.next,
                r.now,
                r.step,
                recovery_steps(r.before.due_at(r.now@)),
            );
        assert(mid.polled(r.before, r.now@));
    }
}

/// A controller that was disconnected is closed only after its engine was let
/// release what it holds: the step before is that release.
pub proof fn law_release_before_close<H, E, L>(records: Seq<RunRecord<H, E, L>>, i: int)
    requires
        one_run(records),
        0 <= i < records.len(),
        records[i].step is Close,
    ensures
        i > 0,
        records[i - 1].step matches RunStep::Release { i: k } && records[i].run.phase == (
        RunPhase::Releasing { which: records[i - 1].before.listed()[k as int].instance }),
{
    let r = records[i];
    assert(r.right());
    if let RunReport::Event(event) = r.report {
        let answer = choose|answer: EventStep| #[trigger] r.handles(event, answer);
        assert(r.handles(event, answer));
    } else if r.run.phase is Pumping {
        lemma_serving_goes_on(r, jobs_of(r.before.listed().len() as int));
    } else if r.run.phase is Serving {
        lemma_serving_goes_on(r, r.run.serving);
    }
    assert(r.run.phase is Releasing);
    let p = records[i - 1];
    assert(r.run == p.next);
    assert(p.right());
    if let RunReport::Event(event) = p.report {
        let answer = choose|answer: EventStep| #[trigger] p.handles(event, answer);
        assert(p.handles(event, answer));
    } else if p.run.phase is Pumping {
        lemma_serving_goes_on(p, jobs_of(p.before.listed().len() as int));
    } else if p.run.phase is Serving {
        lemma_serving_goes_on(p, p.run.serving);
    }
}

/// No job is skipped, made up or put before another: what is served or recovered
/// next, together with what is then left, is what there was to do; and a run goes
/// on to the ladders only when nothing is left for controllers.
pub proof fn law_no_job_is_skipped<H, E, L>(r: RunRecord<H, E, L>)
    requires
        r.right(),
    ensures
        r.run.phase is Serving ==> (r.step matches RunStep::Serve(job) ==> r.run.serving == seq![
            job,
        ] + r.next.serving),
        r.run.phase is Serving && !(r.step is Serve) ==> r.run.serving.len() == 0,
        r.run.phase is Recovering ==> (r.step matches RunStep::Recover(job) ==> r.run.recovering
            == seq![job@] + r.next.recovering),
        r.run.phase is Recovering && !(r.step is Recover) ==> r.run.recovering.len() == 0,
        r.report is NoEvent ==> (r.step matches RunStep::Serve(job) ==> jobs_of(
            r.before.listed().len() as int,
        ) == seq![job] + r.next.serving),
        r.report is NoEvent && r.before.listed().len() > 0 ==> r.step is Serve,
{
    if r.run.phase is Serving {
        lemma_serving_goes_on(r, r.run.serving);
        if r.run.serving.len() > 0 {
            assert(r.run.serving =~= seq![r.run.serving[0]] + r.run.serving.drop_first());
        }
    }
    if r.run.phase is Recovering && r.run.recovering.len() > 0 {
        assert(r.run.recovering =~= seq![r.run.recovering[0]] + r.run.recovering.drop_first());
    }
    if r.report is NoEvent {
        let jobs = jobs_of(r.before.listed().len() as int);
        lemma_serving_goes_on(r, jobs);
        if jobs.len() > 0 {
            assert(jobs =~= seq![jobs[0]] + jobs.drop_first());
        }
    }
}

/// When the controllers have been served, the ladders are polled, and every ladder
/// whose time has come gets its step: the first of them comes next, the others are
/// left to do.
pub proof fn law_ladders_follow_the_controllers<H, E, L>(r: RunRecord<H, E, L>)
    requires
        r.right(),
        r.run.phase is Serving,
        r.run.serving.len() == 0,
        r.before.due_at(r.now@).len() > 0,
    ensures
        r.step matches RunStep::Recover(job) && recovery_steps(r.before.due_at(r.now@)) == seq![
            job@,
        ] + r.next.recovering,
        r.after.polled(r.before, r.now@),
{
    let steps = recovery_steps(r.before.due_at(r.now@));
    let mid = choose|mid: Session<H, E, L>| #[trigger]
        mid.polled(r.before, r.now@) && recovers(mid, r.after, r.next, r.now, r.step, steps);
    assert(mid.polled(r.before, r.now@));
    assert(steps =~= seq![steps[0]] + steps.drop_first());
}

/// An event that leads to something is handled before the next one is fetched, and
/// one that leads to nothing is not.
pub proof fn law_events_are_handled_one_by_one<H, E, L>(r: RunRecord<H, E, L>)
    requires
        r.right(),
    ensures
        r.step matches RunStep::Handle(answer) ==> (r.report matches RunReport::Event(event)
            && answers(r.before, event, answer)) && r.next.phase is Handling,
        r.step matches RunStep::Release { i } ==> (r.report matches RunReport::Event(event)
            && answers(r.before, event, EventStep::Close { i })),
        r.run.phase is Handling ==> r.step is Pump && r.after == r.before,
        r.run.phase is Resting ==> r.step is Pump && r.after == r.before,
        r.run.phase is Beating ==> r.step is Rest && r.after == r.before,
        r.step is Pump <==> r.next.phase is Pumping,
        r.step is Rest <==> r.next.phase is Resting,
{
    if let RunReport::Event(event) = r.report {
        let answer = choose|answer: EventStep| #[trigger] r.handles(event, answer);
        assert(r.handles(event, answer));
    } else if r.run.phase is Pumping {
        lemma_serving_phase(r, jobs_of(r.before.listed().len() as int));
    } else if r.run.phase is Serving {
        lemma_serving_phase(r, r.run.serving);
    }
}

proof fn lemma_serving_phase<H, E, L>(r: RunRecord<H, E, L>, jobs: Seq<ControllerJob>)
    requires
        serves(r.before, r.after, r.next, r.now, r.step, jobs),
    ensures
        r.step is Serve || r.step is Recover || r.step is Beat || r.step is Rest,
        !(r.next.phase is Pumping),
        r.step is Rest <==> r.next.phase is Resting,
{
    if jobs.len() == 0 {
        let mid = choose|mid: Session<H, E, L>| #[trigger]
            mid.polled(r.before, r.now@) && recovers(
                mid,
                r.after,
                r.next,
                r.now,
                r.step,
                recovery_steps(r.before.due_at(r.now@)),
            );
        assert(mid.polled(r.before, r.now@));
    }
}

/// The controller that was disconnected is the one that is closed, once its engine
/// has let go, and its own handle is the one that is dropped; every other one stays
/// open.
pub proof fn law_the_disconnected_one_is_closed<H, E, L>(
    r: RunRecord<H, E, L>,
    which: u32,
    other: u32,
)
    requires
        r.right(),
        r.before.wf(),
        r.run.phase == (RunPhase::Releasing { which }),
        r.before.active().contains_key(which),
    ensures
        r.step matches RunStep::Close { closed } && closed == Some(
            r.before.active()[which].controller,
        ),
        !r.after.active().contains_key(which),
        other != which && r.before.active().contains_key(other) ==> r.after.active().contains_key(
            other,
        ) && r.after.active()[other] == r.before.active()[other],
        r.after.parked_engines().contains_key(r.before.active()[which].name@),
        r.after.parked_engines()[r.before.active()[which].name@] == r.before.active()[which].engine,
{
}

/// A disconnection is answered by letting go of the very controller that it names,
/// which is the one that is closed next.
pub proof fn law_a_disconnection_names_what_is_closed<H, E, L>(r: RunRecord<H, E, L>, which: u32)
    requires
        r.right(),
        r.before.wf(),
        r.report == RunReport::Event(PumpEvent::DeviceRemoved { which }),
        r.before.active().contains_key(which),
    ensures
        r.step matches RunStep::Release { i } && i < r.before.listed().len()
            && r.before.listed()[i as int].instance == which,
        r.next.phase == (RunPhase::Releasing { which }),
{
    r.before.lemma_active();
    let event = PumpEvent::DeviceRemoved { which };
    let answer = choose|answer: EventStep| #[trigger] r.handles(event, answer);
    assert(r.handles(event, answer));
}

/// When nothing is left to recover, the heartbeat comes where half a minute has gone
/// by since the last one, and else the rest.
pub proof fn law_heartbeat_and_rest_come_last<H, E, L>(r: RunRecord<H, E, L>)
    requires
        r.right(),
        r.run.phase is Recovering,
        r.run.recovering.len() == 0,
    ensures
        r.step is Beat || r.step is Rest,
        r.step is Beat <==> r.now@ >= r.before.heartbeat_at()@ + 30_000_000_000,
        r.step is Beat ==> r.after.heartbeat_at() == r.now && r.next.phase is Beating,
        r.step is Rest ==> r.after == r.before && r.next.phase is Resting,
        r.after.listed() == r.before.listed(),
        r.after.parked_engines() == r.before.parked_engines(),
{
}

/// With nothing due, serving ends in the same way.
pub proof fn law_heartbeat_and_rest_without_recovery<H, E, L>(r: RunRecord<H, E, L>)
    requires
        r.right(),
        r.run.phase is Serving,
        r.run.serving.len() == 0,
        r.before.due_at(r.now@).len() == 0,
    ensures
        r.step is Beat || r.step is Rest,
        r.step is Beat <==> r.now@ >= r.before.heartbeat_at()@ + 30_000_000_000,
        r.after.listed() == r.before.listed(),
        r.after.parked_engines() == r.before.parked_engines(),
{
    let steps = recovery_steps(r.before.due_at(r.now@));
    let mid = choose|mid: Session<H, E, L>| #[trigger]
        mid.polled(r.before, r.now@) && recovers(mid, r.after, r.next, r.now, r.step, steps);
    assert(mid.polled(r.before, r.now@));
    assert(steps.len() == 0);
}

/// While there are jobs left, for controllers or for ladders, doing one of them
/// leaves the books to the job itself.
pub proof fn law_handing_out_a_job_changes_nothing<H, E, L>(r: RunRecord<H, E, L>)
    requires
        r.right(),
    ensures
        r.step is Serve ==> r.after == r.before,
        r.run.phase is Recovering && r.step is Recover ==> r.after == r.before,
        r.step is Handle || r.step is Release || r.step is End ==> r.after == r.before,
{
    if let RunReport::Event(event) = r.report {
        let answer = choose|answer: EventStep| #[trigger] r.handles(event, answer);
        assert(r.handles(event, answer));
    } else if r.run.phase is Pumping {
        lemma_serving_phase(r, jobs_of(r.before.listed().len() as int));
    } else if r.run.phase is Serving {
        lemma_serving_phase(r, r.run.serving);
    }
}

/// A run that goes on takes whatever comes of its step: while it fetches, every event
/// and that there is none; otherwise that it went well and that it failed. One that is
/// over takes nothing.
pub proof fn law_every_outcome_is_taken(run: RunState, event: PumpEvent)
    ensures
        run.phase is Over ==> !run.awaits(RunReport::Done) && !run.awaits(RunReport::Failed)
            && !run.awaits(RunReport::NoEvent) && !run.awaits(RunReport::Event(event)),
        run.phase is Pumping ==> run.awaits(RunReport::NoEvent) && run.awaits(
            RunReport::Event(event),
        ) && !run.awaits(RunReport::Done) && !run.awaits(RunReport::Failed),
        !(run.phase is Over) && !(run.phase is Pumping) ==> run.awaits(RunReport::Done)
            && run.awaits(RunReport::Failed) && !run.awaits(RunReport::NoEvent) && !run.awaits(
            RunReport::Event(event),
        ),
{
}

} // verus!
