//! What is done in one tick of a run, and in which order.
use vstd::prelude::*;

use super::session::by_name;
use super::stall_watchdog::Action;

verus! {

/// A thing to do for the controller with an index.
#[derive(Debug, Clone, Copy, PartialEq, Eq, Structural)]
pub enum ControllerJob {
    Sticks(usize),
    Triggers(usize),
    Motion(usize),
    Actions(usize),
}

/// The things to do for the first `n` controllers.
pub open spec fn jobs_of(n: int) -> Seq<ControllerJob>
    decreases n,
{
    if n <= 0 {
        seq![]
    } else {
        let i = (n - 1) as usize;
        jobs_of(n - 1).push(ControllerJob::Sticks(i)).push(ControllerJob::Triggers(i)).push(
            ControllerJob::Motion(i),
        ).push(ControllerJob::Actions(i))
    }
}

/// The things to do for `n` open controllers. Actions come after motion: the
/// movement of the tick in which a button is let go has to go out as part of the
/// drag, before the button goes up.
pub fn controller_jobs(n: usize) -> (jobs: Vec<ControllerJob>)
    ensures
        jobs@ == jobs_of(n as int),
{
    let mut jobs: Vec<ControllerJob> = Vec::new();
    let mut i: usize = 0;
    while i < n
        invariant
            i <= n,
            jobs@ == jobs_of(i as int),
        decreases n - i,
    {
        jobs.push(ControllerJob::Sticks(i));
        jobs.push(ControllerJob::Triggers(i));
        jobs.push(ControllerJob::Motion(i));
        jobs.push(ControllerJob::Actions(i));
        i = i + 1;
    }
    jobs
}

/// Every controller is served, its motion before its actions, and nothing of it
/// after them.
pub proof fn law_motion_before_actions(n: usize, i: usize)
    requires
        i < n,
    ensures
        jobs_of(n as int).len() == 4 * n,
        jobs_of(n as int)[4 * i] == ControllerJob::Sticks(i),
        jobs_of(n as int)[4 * i + 1] == ControllerJob::Triggers(i),
        jobs_of(n as int)[4 * i + 2] == ControllerJob::Motion(i),
        jobs_of(n as int)[4 * i + 3] == ControllerJob::Actions(i),
{
    lemma_jobs(n as int, i as int);
}

proof fn lemma_jobs(n: int, i: int)
    requires
        0 <= n <= usize::MAX,
        i < n || n == 0,
        0 <= i,
    ensures
        jobs_of(n).len() == 4 * n,
        n > 0 ==> jobs_of(n)[4 * i] == ControllerJob::Sticks(i as usize),
        n > 0 ==> jobs_of(n)[4 * i + 1] == ControllerJob::Triggers(i as usize),
        n > 0 ==> jobs_of(n)[4 * i + 2] == ControllerJob::Motion(i as usize),
        n > 0 ==> jobs_of(n)[4 * i + 3] == ControllerJob::Actions(i as usize),
    decreases n,
{
    if n > 0 {
        if i < n - 1 {
            lemma_jobs(n - 1, i);
        } else {
            lemma_jobs(n - 1, if n == 1 { 0 } else { n - 2 });
        }
    }
}

/// A thing to do because ladders are due.
#[derive(Debug)]
pub enum RecoveryJob {
    /// Close the controller of this name and open it anew, as `ReopenRun` says.
    Reopen(String),
    /// Report that the subsystem is started anew for this name.
    NoteReinit(String),
    /// Let every engine release what it holds.
    ReleaseAll,
    /// Close every controller.
    CloseAll,
    /// Give up the old subsystem. Only once nothing holds it is the device
    /// closed at all.
    DropSubsystem,
    /// Make a new one.
    StartSubsystem,
}

/// A recovery job, with the name in place of the text that holds it.
pub enum RecoveryStep {
    Reopen(Seq<char>),
    NoteReinit(Seq<char>),
    ReleaseAll,
    CloseAll,
    DropSubsystem,
    StartSubsystem,
}

impl View for RecoveryJob {
    type V = RecoveryStep;

    open spec fn view(&self) -> RecoveryStep {
        match self {
            RecoveryJob::Reopen(name) => RecoveryStep::Reopen(name@),
            RecoveryJob::NoteReinit(name) => RecoveryStep::NoteReinit(name@),
            RecoveryJob::ReleaseAll => RecoveryStep::ReleaseAll,
            RecoveryJob::CloseAll => RecoveryStep::CloseAll,
            RecoveryJob::DropSubsystem => RecoveryStep::DropSubsystem,
            RecoveryJob::StartSubsystem => RecoveryStep::StartSubsystem,
        }
    }
}

pub open spec fn steps(jobs: Seq<RecoveryJob>) -> Seq<RecoveryStep> {
    Seq::new(jobs.len(), |i: int| jobs[i]@)
}

/// Whether one of the first `n` asks for the subsystem to be started anew.
pub open spec fn reinit_asked(due: Seq<(Seq<char>, Action)>, n: int) -> bool {
    exists|i: int| 0 <= i < n && (#[trigger] due[i]).1 == Action::ReinitSubsystem
}

pub open spec fn step_for(due: (Seq<char>, Action)) -> RecoveryStep {
    match due.1 {
        Action::ReopenController => RecoveryStep::Reopen(due.0),
        Action::ReinitSubsystem => RecoveryStep::NoteReinit(due.0),
    }
}

/// What is to be done about the actions that are due: a step for each of them,
/// in their order, and then, if one or more ask for it, one new start of the
/// subsystem.
pub open spec fn recovery_steps(due: Seq<(Seq<char>, Action)>) -> Seq<RecoveryStep> {
    Seq::new(due.len(), |i: int| step_for(due[i])) + if reinit_asked(due, due.len() as int) {
        seq![
            RecoveryStep::ReleaseAll,
            RecoveryStep::CloseAll,
            RecoveryStep::DropSubsystem,
            RecoveryStep::StartSubsystem,
        ]
    } else {
        seq![]
    }
}

pub fn recovery_jobs(due: Vec<(String, Action)>) -> (jobs: Vec<RecoveryJob>)
    ensures
        steps(jobs@) == recovery_steps(by_name(due@)),
        jobs@.len() >= due@.len(),
        forall|i: int|
            0 <= i < due@.len() ==> match #[trigger] jobs@[i] {
                RecoveryJob::Reopen(name) => due@[i].1 is ReopenController && name@ == due@[i].0@,
                RecoveryJob::NoteReinit(name) => due@[i].1 is ReinitSubsystem && name@
                    == due@[i].0@,
                _ => false,
            },
{
    let mut jobs: Vec<RecoveryJob> = Vec::new();
    let mut reinit_due = false;
    let mut i: usize = 0;
    while i < due.len()
        invariant
            i <= due@.len(),
            reinit_due == reinit_asked(by_name(due@), i as int),
            jobs@.len() == i,
            forall|k: int| 0 <= k < i ==> (#[trigger] jobs@[k])@ == step_for(by_name(due@)[k]),
        decreases due@.len() - i,
    {
        let name = due[i].0.clone();
        match due[i].1 {
            Action::ReopenController => {
                jobs.push(RecoveryJob::Reopen(name));
            },
            Action::ReinitSubsystem => {
                reinit_due = true;
                jobs.push(RecoveryJob::NoteReinit(name));
            },
        }
        proof {
            assert(reinit_asked(by_name(due@), i + 1) <==> reinit_asked(by_name(due@), i as int) || by_name(due@)[i as int].1
                == Action::ReinitSubsystem) by {
                if reinit_asked(by_name(due@), i as int) {
                    let k = choose|k: int|
                        0 <= k < i && (#[trigger] by_name(due@)[k]).1
                            == Action::ReinitSubsystem;
                    assert(0 <= k < i + 1 && by_name(due@)[k].1 == Action::ReinitSubsystem);
                }
            }
        }
        i = i + 1;
    }
    if reinit_due {
        jobs.push(RecoveryJob::ReleaseAll);
        jobs.push(RecoveryJob::CloseAll);
        jobs.push(RecoveryJob::DropSubsystem);
        jobs.push(RecoveryJob::StartSubsystem);
    }
    proof {
        assert(steps(jobs@) =~= recovery_steps(by_name(due@)));
    }
    jobs
}

/// However many ladders ask for it, the subsystem is started anew once at most
/// in a tick, after everything else: every engine lets go of what it holds, every
/// controller is closed, the old subsystem is given up, in this order; and not at
/// all where none asks.
pub proof fn law_one_restart_at_the_end(due: Seq<(Seq<char>, Action)>, i: int)
    requires
        0 <= i < recovery_steps(due).len(),
        recovery_steps(due)[i] is StartSubsystem,
    ensures
        reinit_asked(due, due.len() as int),
        i == recovery_steps(due).len() - 1,
        i >= 3,
        recovery_steps(due)[i - 1] is DropSubsystem,
        recovery_steps(due)[i - 2] is CloseAll,
        recovery_steps(due)[i - 3] is ReleaseAll,
{
    if i < due.len() {
        assert(recovery_steps(due)[i] == step_for(due[i]));
    }
}

/// The place of the subsystem. While the old one is in it, no new one is made:
/// subsystems are counted, and only the last to go closes the device.
#[derive(Debug)]
pub struct Subsystem<G> {
    current: Option<G>,
}

impl<G> View for Subsystem<G> {
    type V = Option<G>;

    closed spec fn view(&self) -> Option<G> {
        self.current
    }
}

impl<G> Subsystem<G> {
    pub fn new(first: G) -> (s: Self)
        ensures
            s@ == Some(first),
    {
        Subsystem { current: Some(first) }
    }

    /// The subsystem, unless it is down.
    pub fn get(&self) -> (r: Option<&G>)
        ensures
            r is Some <==> self@ is Some,
            r matches Some(g) ==> Some(*g) == self@,
    {
        self.current.as_ref()
    }

    /// Gives up the old subsystem, which is to be dropped before a new one is
    /// made.
    pub fn give_up(&mut self) -> (former: Option<G>)
        ensures
            former == old(self)@,
            final(self)@ is None,
    {
        self.current.take()
    }

    /// Takes in the new subsystem. Where making one failed there is none, until a
    /// later start.
    pub fn started(&mut self, made: Option<G>)
        requires
            old(self)@ is None,
        ensures
            final(self)@ == made,
    {
        self.current = made;
    }
}

/// Every action that is due gets a step of its own, in its place and under its own
/// name: a reopen where it is a reopen, a note where it is a new start.
pub proof fn law_every_due_action_has_its_step(due: Seq<(Seq<char>, Action)>, i: int)
    requires
        0 <= i < due.len(),
    ensures
        i < recovery_steps(due).len(),
        match recovery_steps(due)[i] {
            RecoveryStep::Reopen(name) => due[i].1 is ReopenController && name == due[i].0,
            RecoveryStep::NoteReinit(name) => due[i].1 is ReinitSubsystem && name == due[i].0,
            _ => false,
        },
{
    assert(recovery_steps(due)[i] == step_for(due[i]));
}

/// The subsystem is started anew, with all that comes before it, if and only if a
/// ladder asks for it; otherwise there is nothing but the steps of the reopens.
pub proof fn law_restart_if_and_only_if_asked(due: Seq<(Seq<char>, Action)>)
    ensures
        (exists|i: int| 0 <= i < due.len() && (#[trigger] due[i]).1 is ReinitSubsystem) ==> {
            let steps = recovery_steps(due);
            let n = due.len() as int;
            &&& steps.len() == n + 4
            &&& steps[n] is ReleaseAll
            &&& steps[n + 1] is CloseAll
            &&& steps[n + 2] is DropSubsystem
            &&& steps[n + 3] is StartSubsystem
        },
        (forall|i: int| 0 <= i < due.len() ==> (#[trigger] due[i]).1 is ReopenController)
            ==> recovery_steps(due).len() == due.len(),
{
    if exists|i: int| 0 <= i < due.len() && (#[trigger] due[i]).1 is ReinitSubsystem {
        let i = choose|i: int| 0 <= i < due.len() && (#[trigger] due[i]).1 is ReinitSubsystem;
        assert(due[i].1 == Action::ReinitSubsystem);
        assert(reinit_asked(due, due.len() as int));
    }
}

/// A job and the step that stands for it are of one kind and have one name.
pub proof fn law_steps_stand_for_their_jobs(jobs: Seq<RecoveryJob>, i: int)
    requires
        0 <= i < jobs.len(),
    ensures
        steps(jobs).len() == jobs.len(),
        match steps(jobs)[i] {
            RecoveryStep::Reopen(name) => jobs[i] matches RecoveryJob::Reopen(n) && n@ == name,
            RecoveryStep::NoteReinit(name) => jobs[i] matches RecoveryJob::NoteReinit(n) && n@
                == name,
            RecoveryStep::ReleaseAll => jobs[i] is ReleaseAll,
            RecoveryStep::CloseAll => jobs[i] is CloseAll,
            RecoveryStep::DropSubsystem => jobs[i] is DropSubsystem,
            RecoveryStep::StartSubsystem => jobs[i] is StartSubsystem,
        },
{
}

} // verus!
