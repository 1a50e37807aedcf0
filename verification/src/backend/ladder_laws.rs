//! What the recovery ladder promises over many calls.
use vstd::arithmetic::power2::{lemma2_to64, lemma_pow2_unfold, pow2};
use vstd::prelude::*;

use super::stall_watchdog::{shorter, Action, Stage, WatchdogCfg};

verus! {

/// One call of a ladder.
pub enum Call {
    SensorEvent { now: nat },
    DeviceRemoved { now: nat },
    Poll { now: nat },
    ReopenResult { ok: bool, now: nat },
    ReinitAttempted { now: nat },
}

/// The stage after one call.
pub open spec fn after_call(cfg: WatchdogCfg, stage: Stage, call: Call) -> Stage {
    match call {
        Call::SensorEvent { now } => stage.after_sensor_event(cfg, now),
        Call::DeviceRemoved { now } => stage.after_device_removed(cfg, now),
        Call::Poll { now } => stage.after_poll(cfg, now),
        Call::ReopenResult { ok, now } => stage.after_reopen_result(cfg, now),
        Call::ReinitAttempted { now } => stage.after_reinit_attempted(cfg, now),
    }
}

/// What one call returns.
pub open spec fn returned(cfg: WatchdogCfg, stage: Stage, call: Call) -> Option<Action> {
    match call {
        Call::Poll { now } => stage.due_action(cfg, now),
        _ => None,
    }
}

/// The stage after a series of calls.
pub open spec fn after_calls(cfg: WatchdogCfg, stage: Stage, calls: Seq<Call>) -> Stage
    decreases calls.len(),
{
    if calls.len() == 0 {
        stage
    } else {
        after_call(cfg, after_calls(cfg, stage, calls.drop_last()), calls.last())
    }
}

/// What the `i`-th of a series of calls returns.
pub open spec fn returned_by(cfg: WatchdogCfg, stage: Stage, calls: Seq<Call>, i: int) -> Option<
    Action,
> {
    returned(cfg, after_calls(cfg, stage, calls.take(i)), calls[i])
}

proof fn lemma_after_take(cfg: WatchdogCfg, stage: Stage, calls: Seq<Call>, i: int)
    requires
        0 <= i < calls.len(),
    ensures
        after_calls(cfg, stage, calls.take(i + 1)) == after_call(
            cfg,
            after_calls(cfg, stage, calls.take(i)),
            calls[i],
        ),
{
    assert(calls.take(i + 1).drop_last() =~= calls.take(i));
}

/// A ladder that has seen no sensor event never fires, whatever else it is told
/// and however long the silence.
pub proof fn law_unarmed_never_fires(cfg: WatchdogCfg, calls: Seq<Call>)
    requires
        forall|i: int| 0 <= i < calls.len() ==> !(#[trigger] calls[i] is SensorEvent),
    ensures
        after_calls(cfg, Stage::Unarmed, calls) == Stage::Unarmed,
        forall|i: int|
            0 <= i < calls.len() ==> #[trigger] returned_by(cfg, Stage::Unarmed, calls, i) is None,
    decreases calls.len(),
{
    if calls.len() > 0 {
        let n = calls.len() - 1;
        let init = calls.drop_last();
        assert forall|i: int| 0 <= i < init.len() implies !(#[trigger] init[i] is SensorEvent) by {
            assert(init[i] == calls[i]);
        }
        law_unarmed_never_fires(cfg, init);
        assert(calls.take(n) =~= init);
        assert(!(calls[n] is SensorEvent));
        assert forall|i: int| 0 <= i < calls.len() implies #[trigger] returned_by(
            cfg,
            Stage::Unarmed,
            calls,
            i,
        ) is None by {
            if i < n {
                assert(calls.take(i) =~= init.take(i));
                assert(returned_by(cfg, Stage::Unarmed, init, i) is None);
            }
        }
    }
}

/// The last sensor event before the `i`-th call, where `first` came before all
/// of them.
pub open spec fn last_event_before(first: nat, calls: Seq<Call>, i: int) -> nat
    decreases i,
{
    if i <= 0 {
        first
    } else {
        match calls[i - 1] {
            Call::SensorEvent { now } => now,
            _ => last_event_before(first, calls, i - 1),
        }
    }
}

/// While sensor events keep coming, so that every poll is less than
/// `stall_after` later than the last of them, no poll fires.
pub proof fn law_healthy_flow_never_fires(
    cfg: WatchdogCfg,
    first: nat,
    called_off: Option<nat>,
    calls: Seq<Call>,
)
    requires
        forall|i: int|
            0 <= i < calls.len() ==> (#[trigger] calls[i] is SensorEvent || calls[i] is Poll),
        forall|i: int|
            0 <= i < calls.len() ==> (#[trigger] calls[i] matches Call::Poll { now } ==> now
                < last_event_before(first, calls, i) + cfg.stall_after@),
    ensures
        forall|i: int|
            0 <= i < calls.len() ==> #[trigger] returned_by(
                cfg,
                Stage::Armed { last_event: first, called_off },
                calls,
                i,
            ) is None,
{
    let start = Stage::Armed { last_event: first, called_off };
    assert forall|i: int| 0 <= i < calls.len() implies #[trigger] returned_by(
        cfg,
        start,
        calls,
        i,
    ) is None by {
        lemma_armed_while_healthy(cfg, first, called_off, calls, i);
        assert(calls[i] is SensorEvent || calls[i] is Poll);
    }
}

proof fn lemma_armed_while_healthy(
    cfg: WatchdogCfg,
    first: nat,
    called_off: Option<nat>,
    calls: Seq<Call>,
    i: int,
)
    requires
        0 <= i <= calls.len(),
        forall|k: int|
            0 <= k < calls.len() ==> (#[trigger] calls[k] is SensorEvent || calls[k] is Poll),
        forall|k: int|
            0 <= k < calls.len() ==> (#[trigger] calls[k] matches Call::Poll { now } ==> now
                < last_event_before(first, calls, k) + cfg.stall_after@),
    ensures
        after_calls(cfg, Stage::Armed { last_event: first, called_off }, calls.take(i)) matches Stage::Armed {
            last_event,
            ..
        } && last_event == last_event_before(first, calls, i),
    decreases i,
{
    if i > 0 {
        lemma_armed_while_healthy(cfg, first, called_off, calls, i - 1);
        lemma_after_take(cfg, Stage::Armed { last_event: first, called_off }, calls, i - 1);
        assert(calls[i - 1] is SensorEvent || calls[i - 1] is Poll);
    }
}

/// A sensor event takes the ladder back to the start from every stage: it is
/// armed from that event on; nothing fires in less than `stall_after` of silence;
/// with exactly that much a reopen fires, the first of a new count; and so it
/// does at every later moment, but for the one at which the wait for a removed
/// device, which the event cut short, would have ended.
pub proof fn law_sensor_event_resets(cfg: WatchdogCfg, stage: Stage, now: nat, later: nat)
    ensures
        ({
            let reset = stage.after_sensor_event(cfg, now);
            let stall = now + cfg.stall_after@;
            &&& reset matches Stage::Armed { last_event, .. } && last_event == now
            &&& later < stall ==> reset.due_action(cfg, later) is None
            &&& reset.due_action(cfg, stall) == Some(Action::ReopenController)
            &&& later >= stall && stage.calls_off(cfg, now) != Some(later) ==> reset.due_action(
                cfg,
                later,
            ) == Some(Action::ReopenController)
            &&& reset.due_action(cfg, later) is Some ==> reset.after_poll(cfg, later) == (
            Stage::Reopening { attempts: 0, due: None })
        }),
{
}

/// A poll that returns nothing changes nothing, so no call ever answers otherwise
/// because of it.
pub proof fn law_silent_poll_is_neutral(cfg: WatchdogCfg, stage: Stage, now: nat)
    requires
        stage.due_action(cfg, now) is None,
    ensures
        stage.after_poll(cfg, now) == stage,
{
}

/// Whether two stages are the same but for what a sensor event called off.
pub open spec fn alike(a: Stage, b: Stage) -> bool {
    match (a, b) {
        (
            Stage::Armed { last_event: x, .. },
            Stage::Armed { last_event: y, .. },
        ) => x == y,
        _ => a == b,
    }
}

/// Whether a call is a poll at the moment that one of two armed ladders called
/// off and the other did not.
pub open spec fn polls_apart(a: Stage, b: Stage, call: Call) -> bool {
    match (a, b, call) {
        (
            Stage::Armed { called_off: x, .. },
            Stage::Armed { called_off: y, .. },
            Call::Poll { now },
        ) => x != y && (x == Some(now) || y == Some(now)),
        _ => false,
    }
}

/// A sensor event makes histories equal: whatever two ladders went through, from
/// the same event on they return the same for the same calls. Neither the count
/// of attempts nor the grown backoff outlives the event. (Left out is a poll at
/// the very moment at which the wait for a removed device, cut short by the event
/// on one of them alone, would have ended, while that one is still armed by it.)
pub proof fn law_event_forgets_the_history(
    cfg: WatchdogCfg,
    a: Stage,
    b: Stage,
    now: nat,
    calls: Seq<Call>,
)
    requires
        forall|i: int|
            0 <= i < calls.len() ==> !polls_apart(
                after_calls(cfg, a.after_sensor_event(cfg, now), calls.take(i)),
                after_calls(cfg, b.after_sensor_event(cfg, now), calls.take(i)),
                #[trigger] calls[i],
            ),
    ensures
        forall|i: int|
            0 <= i < calls.len() ==> #[trigger] returned_by(
                cfg,
                a.after_sensor_event(cfg, now),
                calls,
                i,
            ) == returned_by(cfg, b.after_sensor_event(cfg, now), calls, i),
{
    let x = a.after_sensor_event(cfg, now);
    let y = b.after_sensor_event(cfg, now);
    assert forall|i: int| 0 <= i < calls.len() implies #[trigger] returned_by(cfg, x, calls, i)
        == returned_by(cfg, y, calls, i) by {
        lemma_stays_alike(cfg, x, y, calls, i);
        assert(!polls_apart(
            after_calls(cfg, x, calls.take(i)),
            after_calls(cfg, y, calls.take(i)),
            calls[i],
        ));
    }
}

proof fn lemma_stays_alike(cfg: WatchdogCfg, x: Stage, y: Stage, calls: Seq<Call>, i: int)
    requires
        alike(x, y),
        0 <= i <= calls.len(),
        forall|k: int|
            0 <= k < calls.len() ==> !polls_apart(
                after_calls(cfg, x, calls.take(k)),
                after_calls(cfg, y, calls.take(k)),
                #[trigger] calls[k],
            ),
    ensures
        alike(after_calls(cfg, x, calls.take(i)), after_calls(cfg, y, calls.take(i))),
    decreases i,
{
    if i > 0 {
        lemma_stays_alike(cfg, x, y, calls, i - 1);
        lemma_after_take(cfg, x, calls, i - 1);
        lemma_after_take(cfg, y, calls, i - 1);
        assert(!polls_apart(
            after_calls(cfg, x, calls.take(i - 1)),
            after_calls(cfg, y, calls.take(i - 1)),
            calls[i - 1],
        ));
    }
}

/// Histories without a removal that is still being waited out are equal after a
/// sensor event with nothing left out: the ladder is then exactly as if it had
/// been armed all along.
pub proof fn law_event_resets_in_full(cfg: WatchdogCfg, stage: Stage, now: nat)
    requires
        !(stage matches Stage::ReinitPending { due: Some(_), orphan: true, .. }),
    ensures
        stage.after_sensor_event(cfg, now) == (Stage::Armed { last_event: now, called_off: None }),
{
}

/// A second event leaves nothing of what the first one called off: the ladder is
/// then exactly as if it had been armed all along.
pub proof fn law_second_event_leaves_nothing(
    cfg: WatchdogCfg,
    stage: Stage,
    first: nat,
    second: nat,
)
    ensures
        stage.after_sensor_event(cfg, first).after_sensor_event(cfg, second) == (Stage::Armed {
            last_event: second,
            called_off: None,
        }),
{
}

/// How many of the first `n` calls return a reopen.
pub open spec fn reopens_returned(cfg: WatchdogCfg, stage: Stage, calls: Seq<Call>, n: int) -> nat
    decreases n,
{
    if n <= 0 {
        0
    } else {
        let before = reopens_returned(cfg, stage, calls, n - 1);
        if returned_by(cfg, stage, calls, n - 1) == Some(Action::ReopenController) {
            before + 1
        } else {
            before
        }
    }
}

/// How many of the first `n` calls report a reopen that was handed out.
pub open spec fn reopens_reported(cfg: WatchdogCfg, stage: Stage, calls: Seq<Call>, n: int) -> nat
    decreases n,
{
    if n <= 0 {
        0
    } else {
        let before = reopens_reported(cfg, stage, calls, n - 1);
        if calls[n - 1] is ReopenResult && (after_calls(
            cfg,
            stage,
            calls.take(n - 1),
        ) matches Stage::Reopening { due: None, .. }) {
            before + 1
        } else {
            before
        }
    }
}

/// After a sensor event, and unless the device is removed or another event
/// comes, the second rung is reached only by way of the first: whatever is
/// polled and reported, and when, it fires only once `max_reopens` reopens (one,
/// where that is none) were handed out, and each of them reported.
pub proof fn law_second_rung_only_after_the_first(
    cfg: WatchdogCfg,
    stage: Stage,
    now: nat,
    calls: Seq<Call>,
    i: int,
)
    requires
        forall|k: int|
            0 <= k < calls.len() ==> !(#[trigger] calls[k] is DeviceRemoved)
                && !(calls[k] is SensorEvent),
        0 <= i < calls.len(),
        returned_by(cfg, stage.after_sensor_event(cfg, now), calls, i) == Some(
            Action::ReinitSubsystem,
        ),
    ensures
        reopens_returned(cfg, stage.after_sensor_event(cfg, now), calls, i) >= reopen_attempts(
            cfg,
        ),
        reopens_reported(cfg, stage.after_sensor_event(cfg, now), calls, i) == reopens_returned(
            cfg,
            stage.after_sensor_event(cfg, now),
            calls,
            i,
        ),
{
    lemma_reopens_counted(cfg, stage.after_sensor_event(cfg, now), calls, i);
}

proof fn lemma_reopens_counted(cfg: WatchdogCfg, start: Stage, calls: Seq<Call>, i: int)
    requires
        start is Armed,
        forall|k: int|
            0 <= k < calls.len() ==> !(#[trigger] calls[k] is DeviceRemoved)
                && !(calls[k] is SensorEvent),
        0 <= i <= calls.len(),
    ensures
        ({
            let n = reopens_returned(cfg, start, calls, i);
            let m = reopens_reported(cfg, start, calls, i);
            match after_calls(cfg, start, calls.take(i)) {
                Stage::Unarmed => false,
                Stage::Armed { .. } => n == 0 && m == 0,
                Stage::Reopening { attempts, due: None } => n == attempts + 1 && m == attempts,
                Stage::Reopening { attempts, due: Some(_) } => n == attempts && m == attempts
                    && attempts >= 1,
                Stage::ReinitPending { .. } => n >= reopen_attempts(cfg) && m == n,
            }
        }),
    decreases i,
{
    if i > 0 {
        lemma_reopens_counted(cfg, start, calls, i - 1);
        lemma_after_take(cfg, start, calls, i - 1);
        assert(!(calls[i - 1] is DeviceRemoved) && !(calls[i - 1] is SensorEvent));
    }
}

/// Once a poll has returned an action, no poll returns anything before the
/// result is reported, and polling changes nothing meanwhile.
pub proof fn law_no_repeat_before_report(
    cfg: WatchdogCfg,
    stage: Stage,
    now: nat,
    polls: Seq<nat>,
)
    requires
        stage.due_action(cfg, now) is Some,
    ensures
        ({
            let fired = stage.after_poll(cfg, now);
            let calls = Seq::new(polls.len(), |i: int| Call::Poll { now: polls[i] });
            &&& fired.outstanding()
            &&& after_calls(cfg, fired, calls) == fired
            &&& forall|i: int|
                0 <= i < calls.len() ==> #[trigger] returned_by(cfg, fired, calls, i) is None
        }),
    decreases polls.len(),
{
    let fired = stage.after_poll(cfg, now);
    let calls = Seq::new(polls.len(), |i: int| Call::Poll { now: polls[i] });
    if polls.len() > 0 {
        let n = polls.len() - 1;
        let init = polls.drop_last();
        let init_calls = Seq::new(init.len(), |i: int| Call::Poll { now: init[i] });
        law_no_repeat_before_report(cfg, stage, now, init);
        assert(calls.drop_last() =~= init_calls);
        assert(calls.take(n) =~= init_calls);
        assert forall|i: int| 0 <= i < calls.len() implies #[trigger] returned_by(
            cfg,
            fired,
            calls,
            i,
        ) is None by {
            if i < n {
                assert(calls.take(i) =~= init_calls.take(i));
                assert(returned_by(cfg, fired, init_calls, i) is None);
            }
        }
    }
}

/// A reopen that succeeds is no recovery: it leaves the ladder exactly where a
/// failed one would.
pub proof fn law_successful_reopen_is_not_recovery(cfg: WatchdogCfg, stage: Stage, now: nat)
    ensures
        after_call(cfg, stage, Call::ReopenResult { ok: true, now }) == after_call(
            cfg,
            stage,
            Call::ReopenResult { ok: false, now },
        ),
{
}

/// The reopen attempts of one stall.
pub open spec fn reopen_attempts(cfg: WatchdogCfg) -> nat {
    if cfg.max_reopens == 0 {
        1
    } else {
        cfg.max_reopens as nat
    }
}

/// An action that was handed out at one moment and reported at another.
pub struct Round {
    pub polled: nat,
    pub reported: nat,
    pub ok: bool,
}

/// The calls of a series of reopens: for each the poll that hands it out, and the
/// report of its result, good or bad.
pub open spec fn reopen_calls(rounds: Seq<Round>) -> Seq<Call>
    decreases rounds.len(),
{
    if rounds.len() == 0 {
        seq![]
    } else {
        reopen_calls(rounds.drop_last()).push(Call::Poll { now: rounds.last().polled }).push(
            Call::ReopenResult { ok: rounds.last().ok, now: rounds.last().reported },
        )
    }
}

/// The calls of a series of reinitialisations.
pub open spec fn reinit_calls(rounds: Seq<Round>) -> Seq<Call>
    decreases rounds.len(),
{
    if rounds.len() == 0 {
        seq![]
    } else {
        reinit_calls(rounds.drop_last()).push(Call::Poll { now: rounds.last().polled }).push(
            Call::ReinitAttempted { now: rounds.last().reported },
        )
    }
}

/// Whether each poll of a series of reopens hands something out.
pub open spec fn reopens_fire(cfg: WatchdogCfg, start: Stage, rounds: Seq<Round>) -> bool {
    forall|i: int|
        0 <= i < rounds.len() ==> after_calls(
            cfg,
            start,
            reopen_calls(rounds.take(i)),
        ).due_action(cfg, (#[trigger] rounds[i]).polled) is Some
}

/// Whether each poll of a series of reinitialisations hands something out.
pub open spec fn reinits_fire(cfg: WatchdogCfg, start: Stage, rounds: Seq<Round>) -> bool {
    forall|i: int|
        0 <= i < rounds.len() ==> after_calls(
            cfg,
            start,
            reinit_calls(rounds.take(i)),
        ).due_action(cfg, (#[trigger] rounds[i]).polled) is Some
}

/// A stall is answered by `max_reopens` reopens (one, where that is none),
/// whether they succeed or fail, and whenever they are polled for and reported:
/// after each report the ladder is silent for `reopen_interval`, and from then on
/// every poll hands out the next reopen, or the second rung where there were as
/// many.
pub proof fn law_silent_reopens_escalate(
    cfg: WatchdogCfg,
    last_event: nat,
    called_off: Option<nat>,
    rounds: Seq<Round>,
    now: nat,
)
    requires
        0 < rounds.len() <= reopen_attempts(cfg),
        reopens_fire(cfg, Stage::Armed { last_event, called_off }, rounds),
    ensures
        after_calls(
            cfg,
            Stage::Armed { last_event, called_off },
            reopen_calls(rounds),
        ).due_action(cfg, now) == if now < rounds.last().reported + cfg.reopen_interval@ {
            None
        } else if rounds.len() < reopen_attempts(cfg) {
            Some(Action::ReopenController)
        } else {
            Some(Action::ReinitSubsystem)
        },
{
    lemma_reopen_rounds(cfg, Stage::Armed { last_event, called_off }, rounds);
}

proof fn lemma_reopen_rounds(cfg: WatchdogCfg, start: Stage, rounds: Seq<Round>)
    requires
        start is Armed,
        rounds.len() <= reopen_attempts(cfg),
        reopens_fire(cfg, start, rounds),
    ensures
        after_calls(cfg, start, reopen_calls(rounds)) == if rounds.len() == 0 {
            start
        } else {
            Stage::Reopening {
                attempts: rounds.len(),
                due: Some(rounds.last().reported + cfg.reopen_interval@),
            }
        },
    decreases rounds.len(),
{
    if rounds.len() > 0 {
        let n = rounds.len() - 1;
        let init = rounds.drop_last();
        assert forall|i: int| 0 <= i < init.len() implies after_calls(
            cfg,
            start,
            reopen_calls(init.take(i)),
        ).due_action(cfg, (#[trigger] init[i]).polled) is Some by {
            assert(init.take(i) =~= rounds.take(i));
            assert(init[i] == rounds[i]);
        }
        lemma_reopen_rounds(cfg, start, init);
        assert(rounds.take(n) =~= init);
        let last = rounds[n];
        let before = reopen_calls(init);
        let calls = reopen_calls(rounds);
        let stage = after_calls(cfg, start, before);
        assert(stage.due_action(cfg, last.polled) is Some);
        assert(calls.drop_last() =~= before.push(Call::Poll { now: last.polled }));
        assert(calls.drop_last().drop_last() =~= before);
        let polled = after_calls(cfg, start, before.push(Call::Poll { now: last.polled }));
        assert(polled == stage.after_poll(cfg, last.polled));
        assert(after_calls(cfg, start, calls) == polled.after_reopen_result(cfg, last.reported));
    }
}

/// Whether a ladder stands before the first attempt of its second rung: a removed
/// device is waited for, or the reopens are used up.
pub open spec fn before_second_rung(cfg: WatchdogCfg, stage: Stage) -> bool {
    match stage {
        Stage::ReinitPending { due: Some(_), backoff, .. } => backoff == cfg.reinit_backoff_start@,
        Stage::Reopening { attempts, due: Some(_) } => attempts >= cfg.max_reopens,
        _ => false,
    }
}

/// The second rung never gives up, whichever way it was reached and whenever it is
/// polled for and reported: after attempt number `n`, counted from one, the ladder
/// is silent for `reinit_backoff_start` doubled `n - 1` times, or for
/// `reinit_backoff_max` where that is shorter; from then on every poll hands out
/// the next attempt.
pub proof fn law_reinit_backoff(cfg: WatchdogCfg, start: Stage, rounds: Seq<Round>, now: nat)
    requires
        before_second_rung(cfg, start),
        rounds.len() > 0,
        reinits_fire(cfg, start, rounds),
    ensures
        after_calls(cfg, start, reinit_calls(rounds)).due_action(cfg, now) == if now
            < rounds.last().reported + shorter(
            cfg.reinit_backoff_start@ * pow2((rounds.len() - 1) as nat),
            cfg.reinit_backoff_max@,
        ) {
            None
        } else {
            Some(Action::ReinitSubsystem)
        },
{
    lemma_backoff(cfg, start, rounds);
}

/// The two ways to the second rung: a removal, and a stall whose reopens are used
/// up.
pub proof fn law_ways_to_the_second_rung(
    cfg: WatchdogCfg,
    stage: Stage,
    now: nat,
    last_event: nat,
    called_off: Option<nat>,
    rounds: Seq<Round>,
)
    requires
        !(stage is Unarmed),
        rounds.len() == reopen_attempts(cfg),
        reopens_fire(cfg, Stage::Armed { last_event, called_off }, rounds),
    ensures
        before_second_rung(cfg, stage.after_device_removed(cfg, now)),
        before_second_rung(
            cfg,
            after_calls(cfg, Stage::Armed { last_event, called_off }, reopen_calls(rounds)),
        ),
{
    lemma_reopen_rounds(cfg, Stage::Armed { last_event, called_off }, rounds);
}

proof fn lemma_backoff(cfg: WatchdogCfg, start: Stage, rounds: Seq<Round>)
    requires
        before_second_rung(cfg, start),
        rounds.len() > 0,
        reinits_fire(cfg, start, rounds),
    ensures
        ({
            let base = cfg.reinit_backoff_start@;
            let max = cfg.reinit_backoff_max@;
            let n = rounds.len();
            after_calls(cfg, start, reinit_calls(rounds)) matches Stage::ReinitPending {
                due: Some(due),
                backoff,
                ..
            } && due == rounds.last().reported + shorter(base * pow2((n - 1) as nat), max)
                && shorter(backoff, max) == shorter(base * pow2(n), max)
        }),
    decreases rounds.len(),
{
    lemma2_to64();
    let base = cfg.reinit_backoff_start@;
    let n = rounds.len() - 1;
    let init = rounds.drop_last();
    assert forall|i: int| 0 <= i < init.len() implies after_calls(
        cfg,
        start,
        reinit_calls(init.take(i)),
    ).due_action(cfg, (#[trigger] init[i]).polled) is Some by {
        assert(init.take(i) =~= rounds.take(i));
        assert(init[i] == rounds[i]);
    }
    assert(rounds.take(n) =~= init);
    let last = rounds[n];
    let before = reinit_calls(init);
    let calls = reinit_calls(rounds);
    let stage = after_calls(cfg, start, before);
    assert(stage.due_action(cfg, last.polled) is Some);
    assert(calls.drop_last() =~= before.push(Call::Poll { now: last.polled }));
    assert(calls.drop_last().drop_last() =~= before);
    let polled = after_calls(cfg, start, before.push(Call::Poll { now: last.polled }));
    assert(polled == stage.after_poll(cfg, last.polled));
    assert(after_calls(cfg, start, calls) == polled.after_reinit_attempted(cfg, last.reported));
    assert(base * pow2(0) == base);
    lemma_pow2_unfold((n + 1) as nat);
    assert(base * pow2((n + 1) as nat) == 2 * (base * pow2(n as nat))) by (nonlinear_arith)
        requires
            pow2((n + 1) as nat) == 2 * pow2(n as nat),
    ;
    if n > 0 {
        lemma_backoff(cfg, start, init);
    }
}

/// After a removal, and until the next sensor event, no reopen is handed out: the
/// device is gone, and only the second rung can bring it back.
pub proof fn law_no_reopen_after_removal(
    cfg: WatchdogCfg,
    stage: Stage,
    now: nat,
    calls: Seq<Call>,
    i: int,
)
    requires
        forall|k: int| 0 <= k < calls.len() ==> !(#[trigger] calls[k] is SensorEvent),
        0 <= i < calls.len(),
    ensures
        returned_by(cfg, stage.after_device_removed(cfg, now), calls, i) != Some(
            Action::ReopenController,
        ),
{
    lemma_stays_removed(cfg, stage.after_device_removed(cfg, now), calls, i);
}

proof fn lemma_stays_removed(cfg: WatchdogCfg, start: Stage, calls: Seq<Call>, i: int)
    requires
        start is Unarmed || start is ReinitPending,
        forall|k: int| 0 <= k < calls.len() ==> !(#[trigger] calls[k] is SensorEvent),
        0 <= i <= calls.len(),
    ensures
        ({
            let stage = after_calls(cfg, start, calls.take(i));
            stage is Unarmed || stage is ReinitPending
        }),
    decreases i,
{
    if i > 0 {
        lemma_stays_removed(cfg, start, calls, i - 1);
        lemma_after_take(cfg, start, calls, i - 1);
        assert(!(calls[i - 1] is SensorEvent));
    }
}

/// The moment from which the next rung is due, where no result is outstanding.
pub open spec fn next_rung(cfg: WatchdogCfg, stage: Stage) -> nat {
    match stage {
        Stage::Armed { last_event, .. } => last_event + cfg.stall_after@,
        Stage::Reopening { due, .. } => due->0,
        Stage::ReinitPending { due, .. } => due->0,
        Stage::Unarmed => 0,
    }
}

/// No stage past `Unarmed` is a dead end: with no result outstanding, every poll
/// from the moment that the next rung is due fires, but for one at the very
/// moment at which the wait for a removed device, cut short by a sensor event,
/// would have ended.
pub proof fn law_no_dead_zone(cfg: WatchdogCfg, stage: Stage, now: nat)
    requires
        !(stage is Unarmed),
        !stage.outstanding(),
        now >= next_rung(cfg, stage),
        !(stage matches Stage::Armed { called_off: Some(t), .. } && t == now),
    ensures
        stage.due_action(cfg, now) is Some,
{
}

/// Reporting a result that was outstanding leaves none outstanding.
pub proof fn law_report_reschedules(cfg: WatchdogCfg, stage: Stage, now: nat)
    requires
        stage.outstanding(),
    ensures
        stage is Reopening ==> !stage.after_reopen_result(cfg, now).outstanding(),
        stage is ReinitPending ==> !stage.after_reinit_attempted(cfg, now).outstanding(),
{
}

/// A removed device gets `orphan_after` to come back; then, and not before, the
/// second rung starts.
pub proof fn law_removal_waits_for_orphan(cfg: WatchdogCfg, stage: Stage, now: nat, later: nat)
    requires
        !(stage is Unarmed),
    ensures
        stage.after_device_removed(cfg, now).due_action(cfg, later) == if later >= now
            + cfg.orphan_after@ {
            Some(Action::ReinitSubsystem)
        } else {
            None
        },
{
}

/// A report for which nothing is outstanding changes nothing, and so does one of
/// the other kind than what is outstanding.
pub proof fn law_stray_reports_change_nothing(cfg: WatchdogCfg, stage: Stage, now: nat)
    ensures
        !(stage matches Stage::Reopening { due: None, .. }) ==> stage.after_reopen_result(
            cfg,
            now,
        ) == stage,
        !(stage matches Stage::ReinitPending { due: None, .. }) ==> stage.after_reinit_attempted(
            cfg,
            now,
        ) == stage,
{
}

/// A removal is not noticed before the first sensor event, and from then on it
/// leaves nothing of the first rung, whatever was going on.
pub proof fn law_removal_ends_the_first_rung(cfg: WatchdogCfg, a: Stage, b: Stage, now: nat)
    ensures
        Stage::Unarmed.after_device_removed(cfg, now) == Stage::Unarmed,
        !(a is Unarmed) && !(b is Unarmed) ==> a.after_device_removed(cfg, now)
            == b.after_device_removed(cfg, now),
        !(a is Unarmed) ==> a.after_device_removed(cfg, now) is ReinitPending,
{
}

/// The shorter of two waits is one of them, and neither is shorter than it.
pub proof fn law_shorter(a: nat, b: nat)
    ensures
        shorter(a, b) == a || shorter(a, b) == b,
        shorter(a, b) <= a,
        shorter(a, b) <= b,
{
}

/// The first sensor event arms a ladder that was made and told nothing.
pub proof fn law_first_event_arms(cfg: WatchdogCfg, now: nat, later: nat)
    ensures
        ({
            let armed = Stage::Unarmed.after_sensor_event(cfg, now);
            armed.due_action(cfg, later) == if later >= now + cfg.stall_after@ {
                Some(Action::ReopenController)
            } else {
                None
            }
        }),
{
}

/// Nothing is handed out before its time, and nothing at all while a result is
/// outstanding.
pub proof fn law_nothing_before_its_time(cfg: WatchdogCfg, stage: Stage, now: nat)
    requires
        now < next_rung(cfg, stage) || stage.outstanding() || stage is Unarmed,
    ensures
        stage.due_action(cfg, now) is None,
{
}

/// A device that was removed and sends again is watched for a stall as any other.
/// The wait that its return cut short is felt at one moment alone, that of its end,
/// and there only where a stall would have been declared before.
pub proof fn law_return_of_a_removed_device(
    cfg: WatchdogCfg,
    stage: Stage,
    removed: nat,
    back: nat,
    later: nat,
)
    requires
        !(stage is Unarmed),
    ensures
        ({
            let returned = stage.after_device_removed(cfg, removed).after_sensor_event(cfg, back);
            let stall = back + cfg.stall_after@;
            returned.due_action(cfg, later) == if later < stall || (later > stall && later
                == removed + cfg.orphan_after@) {
                None
            } else {
                Some(Action::ReopenController)
            }
        }),
{
}

} // verus!
