//! From buttons and motion to clicks and cursor movement.
use vstd::prelude::*;

pub mod actions;
pub mod click_stab;
pub mod gyro;
pub mod motion_wake;

use crate::binary64::Binary64;
use crate::config::{ClickStabSettings, GyroSettings};
use crate::mouse::{Direction, Mouse};
use crate::time::Instant;
use crate::vector::{origin, Vec2};
use actions::{ActionRun, ClickType, Effect, ExtAction, RunState, Step, Warning};
use click_stab::ClickStabilizer;
use gyro::Gyro;

verus! {

/// The decisions of one controller's engine.
#[derive(Debug)]
pub struct Engine {
    pub click_settings: ClickStabSettings,
    pub gyro: Gyro,
    pub click_stab: ClickStabilizer,
    pub mouse: Mouse,
    /// Whether there is a virtual gamepad.
    pub gamepad: bool,
}

impl Engine {
    pub fn new(click_settings: ClickStabSettings, gyro_settings: &GyroSettings, gamepad: bool) -> (e:
        Engine)
        requires
            !(gyro_settings.space is WorldLean),
            !(gyro_settings.space is PlayerLean),
        ensures
            e.click_settings == click_settings,
            e.gyro.enabled,
            e.gyro.space_mapper == gyro::mapping_for(gyro_settings.space),
            e.gyro.gyromouse.smooth_buffer@.len() == 0,
            !e.gyro.gyromouse.precision.active,
            e.gyro.motion_wake@ == motion_wake::WakeState::asleep(),
            e.click_stab@ == click_stab::ClickState::idle(),
            e.mouse.error_accumulator == origin(),
            e.gamepad == gamepad,
    {
        Engine {
            click_settings,
            gyro: Gyro::new(gyro_settings),
            click_stab: ClickStabilizer::default(),
            mouse: Mouse::new(),
            gamepad,
        }
    }

    /// Carries out one action as far as it changes the engine, and returns what
    /// is to be sent for it.
    pub fn apply_action<K, G>(&mut self, action: ExtAction<K, G>, now: Instant) -> (effect: Effect<
        K,
        G,
    >)
        requires
            actions::supported(action),
        ensures
            effect == actions::effect_of(action, old(self).gamepad),
            action matches ExtAction::MousePress(button, click) ==> (effect matches Effect::Button(
                sent,
                direction,
            ) ==> sent == button && actions::goes_with(click, direction)),
            action matches ExtAction::KeyPress(key, click) ==> (effect matches Effect::Key(
                sent,
                direction,
            ) ==> sent == key && actions::goes_with(click, direction)),
            action matches ExtAction::GamepadKeyPress(key, click) ==> (
            effect matches Effect::GamepadKey(sent, down) ==> sent == key && (down
                <==> click is Press)),
            effect is Button ==> action is MousePress,
            effect is Key ==> action is KeyPress,
            effect is GamepadKey ==> action is GamepadKeyPress,
            final(self).gyro.enabled == actions::gyro_after(old(self).gyro.enabled, action),
            final(self).click_stab@ == after_action(old(self).click_stab@, old(self).click_settings, action, now),
            final(self).gyro.space_mapper == old(self).gyro.space_mapper,
            final(self).gyro.gyromouse == old(self).gyro.gyromouse,
            final(self).gyro.motion_wake == old(self).gyro.motion_wake,
            final(self).click_settings == old(self).click_settings,
            final(self).mouse == old(self).mouse,
            final(self).gamepad == old(self).gamepad,
    {
        match action {
            ExtAction::GyroOn(click) => {
                match click {
                    ClickType::Press => {
                        self.gyro.enabled = true;
                    },
                    ClickType::Release => {
                        self.gyro.enabled = false;
                    },
                    ClickType::Toggle => {
                        self.gyro.enabled = !self.gyro.enabled;
                    },
                    ClickType::Click => {
                        return Effect::Warn(Warning::GyroClick);
                    },
                }
                Effect::Nothing
            },
            ExtAction::GyroOff(click) => {
                match click {
                    ClickType::Press => {
                        self.gyro.enabled = false;
                    },
                    ClickType::Release => {
                        self.gyro.enabled = true;
                    },
                    ClickType::Toggle => {
                        self.gyro.enabled = !self.gyro.enabled;
                    },
                    ClickType::Click => {
                        return Effect::Warn(Warning::GyroClick);
                    },
                }
                Effect::Nothing
            },
            ExtAction::KeyPress(key, click) => match click {
                ClickType::Click => Effect::Key(key, Direction::Click),
                ClickType::Press => Effect::Key(key, Direction::Press),
                ClickType::Release => Effect::Key(key, Direction::Release),
                ClickType::Toggle => Effect::Warn(Warning::KeyToggle),
            },
            ExtAction::MousePress(button, click) => match click {
                ClickType::Click => {
                    let settings = self.click_settings;
                    self.click_stab.on_click_tap(&settings, now);
                    Effect::Button(button, Direction::Click)
                },
                ClickType::Press => {
                    let settings = self.click_settings;
                    self.click_stab.on_click_down(&settings, button, now);
                    Effect::Button(button, Direction::Press)
                },
                ClickType::Release => {
                    self.click_stab.on_click_up(button);
                    Effect::Button(button, Direction::Release)
                },
                ClickType::Toggle => Effect::Warn(Warning::MouseToggle),
            },
            ExtAction::GamepadKeyPress(key, click) => {
                if self.gamepad {
                    Effect::GamepadKey(
                        key,
                        match click {
                            ClickType::Press => true,
                            _ => false,
                        },
                    )
                } else {
                    Effect::Nothing
                }
            },
            ExtAction::Idle => Effect::Nothing,
        }
    }

    /// Takes the next action of a run, carries it out as far as it changes the
    /// engine, and returns what is to be done for it.
    pub fn apply_actions<K, G>(&mut self, run: &mut ActionRun<K, G>, now: Instant) -> (step: Step<
        K,
        G,
    >)
        requires
            !old(run)@.over && old(run)@.queue.len() > 0 ==> actions::supported(
                old(run)@.queue[0],
            ),
        ensures
            step == old(run)@.step(old(self).gamepad),
            final(run)@ == old(run)@.stepped(),
            final(self).gyro.space_mapper == old(self).gyro.space_mapper,
            final(self).gyro.gyromouse == old(self).gyro.gyromouse,
            final(self).gyro.motion_wake == old(self).gyro.motion_wake,
            final(self).click_settings == old(self).click_settings,
            final(self).mouse == old(self).mouse,
            final(self).gamepad == old(self).gamepad,
            if step is Send {
                let action = old(run)@.queue[0];
                &&& final(self).gyro.enabled == actions::gyro_after(
                    old(self).gyro.enabled,
                    action,
                )
                &&& final(self).click_stab@ == after_action(
                    old(self).click_stab@,
                    old(self).click_settings,
                    action,
                    now,
                )
            } else {
                *final(self) == *old(self)
            },
    {
        if run.over {
            return Step::Done;
        }
        match run.queue.pop_front() {
            Some(action) => {
                proof {
                    assert(run@.queue =~= old(run)@.queue.drop_first());
                }
                Step::Send(self.apply_action(action, now))
            },
            None => {
                run.over = true;
                if self.gamepad && run.gamepad_pressed {
                    Step::Push
                } else {
                    Step::Done
                }
            },
        }
    }

    /// Gates the movement of a frame, `px` pixels, and returns what goes out of
    /// it, if anything. `cand` is the sum of `px` and the movement that is held
    /// back, and `reach` the length of that sum. What is held back or nothing
    /// leaves the rounding of the cursor alone.
    pub fn handle_motion_frame(&mut self, px: Vec2, cand: Vec2, reach: Binary64, now: Instant) -> (emit:
        Option<Vec2>)
        ensures
            ({
                let out = old(self).click_stab@.emitted(
                    old(self).click_settings,
                    px,
                    cand,
                    reach,
                    now,
                );
                emit == if out.null() {
                    None
                } else {
                    Some(out)
                }
            }),
            final(self).click_stab@ == old(self).click_stab@.after_filter(
                old(self).click_settings,
                cand,
                reach,
                now,
            ),
            final(self).gyro == old(self).gyro,
            final(self).click_settings == old(self).click_settings,
            final(self).mouse == old(self).mouse,
            final(self).gamepad == old(self).gamepad,
    {
        let settings = self.click_settings;
        let out = self.click_stab.filter(&settings, px, cand, reach, now);
        if out.is_zero() {
            None
        } else {
            Some(out)
        }
    }
}

/// The stabiliser after an action.
pub open spec fn after_action<K, G>(
    state: click_stab::ClickState,
    settings: ClickStabSettings,
    action: ExtAction<K, G>,
    now: Instant,
) -> click_stab::ClickState {
    match action {
        ExtAction::MousePress(_, ClickType::Click) => state.after_tap(settings, now),
        ExtAction::MousePress(button, ClickType::Press) => state.after_down(settings, button, now),
        ExtAction::MousePress(button, ClickType::Release) => state.after_up(button),
        _ => state,
    }
}

/// Whether the gyro is switched on after a series of actions.
pub open spec fn gyro_after_all<K, G>(enabled: bool, actions: Seq<ExtAction<K, G>>) -> bool
    decreases actions.len(),
{
    if actions.len() == 0 {
        enabled
    } else {
        actions::gyro_after(gyro_after_all(enabled, actions.drop_last()), actions.last())
    }
}

/// The stabiliser after a series of actions at one moment.
pub open spec fn clicks_after_all<K, G>(
    state: click_stab::ClickState,
    settings: ClickStabSettings,
    actions: Seq<ExtAction<K, G>>,
    now: Instant,
) -> click_stab::ClickState
    decreases actions.len(),
{
    if actions.len() == 0 {
        state
    } else {
        after_action(
            clicks_after_all(state, settings, actions.drop_last(), now),
            settings,
            actions.last(),
            now,
        )
    }
}

/// A run through the due actions together with what it changes of the engine.
pub struct RunningEngine<K, G> {
    pub run: RunState<K, G>,
    pub enabled: bool,
    pub clicks: click_stab::ClickState,
}

impl<K, G> RunningEngine<K, G> {
    /// After one step of the run, and the report of how its send went.
    pub open spec fn after_step(
        self,
        settings: ClickStabSettings,
        gamepad: bool,
        ok: bool,
        now: Instant,
    ) -> RunningEngine<K, G> {
        match self.run.step(gamepad) {
            Step::Send(effect) => RunningEngine {
                run: self.run.stepped().reported(effect, ok),
                enabled: actions::gyro_after(self.enabled, self.run.queue[0]),
                clicks: after_action(self.clicks, settings, self.run.queue[0], now),
            },
            _ => RunningEngine { run: self.run.stepped(), ..self },
        }
    }

    /// After a series of steps, given how each send goes.
    pub open spec fn after_steps(
        self,
        settings: ClickStabSettings,
        gamepad: bool,
        oks: Seq<bool>,
        now: Instant,
    ) -> RunningEngine<K, G>
        decreases oks.len(),
    {
        if oks.len() == 0 {
            self
        } else {
            self.after_steps(settings, gamepad, oks.drop_last(), now).after_step(
                settings,
                gamepad,
                oks.last(),
                now,
            )
        }
    }
}

proof fn lemma_sent_so_far<K, G>(
    start: RunningEngine<K, G>,
    settings: ClickStabSettings,
    gamepad: bool,
    oks: Seq<bool>,
    now: Instant,
)
    requires
        !start.run.over,
        oks.len() <= start.run.queue.len(),
        forall|i: int| 0 <= i < oks.len() ==> #[trigger] oks[i],
    ensures
        ({
            let m = oks.len() as int;
            let end = start.after_steps(settings, gamepad, oks, now);
            &&& !end.run.over
            &&& end.run.queue == start.run.queue.skip(m)
            &&& end.enabled == gyro_after_all(start.enabled, start.run.queue.take(m))
            &&& end.clicks == clicks_after_all(
                start.clicks,
                settings,
                start.run.queue.take(m),
                now,
            )
        }),
    decreases oks.len(),
{
    let m = oks.len() as int;
    let queue = start.run.queue;
    if m > 0 {
        let init = oks.drop_last();
        assert forall|i: int| 0 <= i < init.len() implies #[trigger] init[i] by {
            assert(oks[i]);
        }
        lemma_sent_so_far(start, settings, gamepad, init, now);
        assert(oks[m - 1]);
        assert(queue.take(m).drop_last() =~= queue.take(m - 1));
        assert(queue.skip(m - 1).drop_first() =~= queue.skip(m));
    } else {
        assert(queue.skip(0) =~= queue);
        assert(queue.take(0) =~= Seq::empty());
    }
}

proof fn lemma_rest_is_silent<K, G>(
    start: RunningEngine<K, G>,
    settings: ClickStabSettings,
    gamepad: bool,
    oks: Seq<bool>,
    now: Instant,
    n: int,
)
    requires
        0 <= n <= oks.len(),
        ({
            let end = start.after_steps(settings, gamepad, oks.take(n), now);
            end.run.over || end.run.queue.len() == 0
        }),
    ensures
        ({
            let end = start.after_steps(settings, gamepad, oks, now);
            let before = start.after_steps(settings, gamepad, oks.take(n), now);
            &&& end.run.over || end.run.queue.len() == 0
            &&& end.enabled == before.enabled
            &&& end.clicks == before.clicks
        }),
    decreases oks.len() - n,
{
    if n < oks.len() {
        assert(oks.take(n + 1).drop_last() =~= oks.take(n));
        lemma_rest_is_silent(start, settings, gamepad, oks, now, n + 1);
    } else {
        assert(oks.take(n) =~= oks);
    }
}

/// After a run in which every send goes well, the gyro's switch is where all the
/// actions in their order leave it, and so is the stabiliser; what comes after
/// the last action changes neither.
pub proof fn law_state_after_full_run<K, G>(
    start: RunningEngine<K, G>,
    settings: ClickStabSettings,
    gamepad: bool,
    oks: Seq<bool>,
    now: Instant,
)
    requires
        !start.run.over,
        oks.len() >= start.run.queue.len(),
        forall|i: int| 0 <= i < oks.len() ==> #[trigger] oks[i],
    ensures
        ({
            let end = start.after_steps(settings, gamepad, oks, now);
            &&& end.enabled == gyro_after_all(start.enabled, start.run.queue)
            &&& end.clicks == clicks_after_all(start.clicks, settings, start.run.queue, now)
        }),
{
    let n = start.run.queue.len() as int;
    let init = oks.take(n);
    assert forall|i: int| 0 <= i < init.len() implies #[trigger] init[i] by {
        assert(oks[i]);
    }
    lemma_sent_so_far(start, settings, gamepad, init, now);
    assert(start.run.queue.take(n) =~= start.run.queue);
    lemma_rest_is_silent(start, settings, gamepad, oks, now, n);
}

/// After a run whose `k`-th send is the first to fail, the switch and the
/// stabiliser are where the actions up to and with that one leave them: the
/// later ones are not carried out.
pub proof fn law_state_after_failed_run<K, G>(
    start: RunningEngine<K, G>,
    settings: ClickStabSettings,
    gamepad: bool,
    oks: Seq<bool>,
    now: Instant,
    k: int,
)
    requires
        !start.run.over,
        0 <= k < start.run.queue.len(),
        k < oks.len(),
        forall|i: int| 0 <= i < k ==> #[trigger] oks[i],
        !oks[k],
    ensures
        ({
            let end = start.after_steps(settings, gamepad, oks, now);
            let done = start.run.queue.take(k + 1);
            &&& end.run.over
            &&& end.enabled == gyro_after_all(start.enabled, done)
            &&& end.clicks == clicks_after_all(start.clicks, settings, done, now)
        }),
{
    let init = oks.take(k);
    assert forall|i: int| 0 <= i < init.len() implies #[trigger] init[i] by {
        assert(oks[i]);
    }
    lemma_sent_so_far(start, settings, gamepad, init, now);
    let queue = start.run.queue;
    assert(oks.take(k + 1).drop_last() =~= init);
    assert(oks.take(k + 1).last() == oks[k]);
    assert(queue.take(k + 1).drop_last() =~= queue.take(k));
    assert(start.after_steps(settings, gamepad, oks.take(k + 1), now).run.over);
    lemma_rest_is_silent(start, settings, gamepad, oks, now, k + 1);
    lemma_over_stays(start, settings, gamepad, oks, now, k + 1);
}

proof fn lemma_over_stays<K, G>(
    start: RunningEngine<K, G>,
    settings: ClickStabSettings,
    gamepad: bool,
    oks: Seq<bool>,
    now: Instant,
    n: int,
)
    requires
        0 <= n <= oks.len(),
        start.after_steps(settings, gamepad, oks.take(n), now).run.over,
    ensures
        start.after_steps(settings, gamepad, oks, now).run.over,
    decreases oks.len() - n,
{
    if n < oks.len() {
        assert(oks.take(n + 1).drop_last() =~= oks.take(n));
        lemma_over_stays(start, settings, gamepad, oks, now, n + 1);
    } else {
        assert(oks.take(n) =~= oks);
    }
}

/// Once the gyro has been switched off, nothing but a gyro action switches it on
/// again: keys, clicks and gamepad keys leave it off. (Motion leaves the switch
/// alone, as `Gyro::handle_frame` says, and nothing goes out while it is off.)
pub proof fn law_switched_off_stays_off<K, G>(actions: Seq<ExtAction<K, G>>)
    requires
        forall|i: int|
            0 <= i < actions.len() ==> !(#[trigger] actions[i] is GyroOn) && !(actions[i] is GyroOff),
    ensures
        !gyro_after_all(actions::gyro_after::<K, G>(true, ExtAction::GyroOff(ClickType::Press)), actions),
    decreases actions.len(),
{
    if actions.len() > 0 {
        let init = actions.drop_last();
        assert forall|i: int| 0 <= i < init.len() implies !(#[trigger] init[i] is GyroOn) && !(
        init[i] is GyroOff) by {
            assert(init[i] == actions[i]);
        }
        law_switched_off_stays_off(init);
        assert(!(actions[actions.len() - 1] is GyroOn));
    }
}

/// Holding a gyro button and letting it go: off while `GyroOff` is held and on
/// after it, on while `GyroOn` is held and off after it, and a second toggle
/// undoes the first.
pub proof fn law_gyro_buttons<K, G>(enabled: bool)
    ensures
        !actions::gyro_after::<K, G>(enabled, ExtAction::GyroOff(ClickType::Press)),
        actions::gyro_after::<K, G>(enabled, ExtAction::GyroOff(ClickType::Release)),
        actions::gyro_after::<K, G>(enabled, ExtAction::GyroOn(ClickType::Press)),
        !actions::gyro_after::<K, G>(enabled, ExtAction::GyroOn(ClickType::Release)),
        actions::gyro_after::<K, G>(
            actions::gyro_after::<K, G>(enabled, ExtAction::GyroOn(ClickType::Toggle)),
            ExtAction::GyroOff(ClickType::Toggle),
        ) == enabled,
{
}

/// Only mouse buttons reach the stabiliser, each as itself: a press adds the key of
/// that button to the held ones, a release takes it away, a click leaves them; each
/// begins or ends holding back as that button event does; and every other action, a
/// toggle among them, leaves the stabiliser as it is.
pub proof fn law_only_mouse_buttons_reach_the_stabiliser<K, G>(
    state: click_stab::ClickState,
    settings: ClickStabSettings,
    action: ExtAction<K, G>,
    now: Instant,
)
    ensures
        ({
            let after = after_action(state, settings, action, now);
            match action {
                ExtAction::MousePress(button, click) => {
                    let key = click_stab::button_key(button);
                    let kept = after.suppressing == state.suppressing && after.armed_at
                        == state.armed_at && after.accum == state.accum;
                    let begun = after.suppressing && after.armed_at == Some(now) && after.accum
                        == origin();
                    let ended = !after.suppressing && after.armed_at == state.armed_at
                        && after.accum == origin();
                    let none_held = state.pressed == Set::<u8>::empty();
                    &&& click is Press ==> after.pressed == state.pressed.insert(key)
                    &&& click is Press ==> if settings.enabled && none_held { begun } else { kept }
                    &&& click is Release ==> after.pressed == state.pressed.remove(key)
                    &&& click is Release ==> if after.pressed == Set::<u8>::empty() {
                        ended
                    } else {
                        kept
                    }
                    &&& click is Click ==> after.pressed == state.pressed
                    &&& click is Click ==> if settings.enabled && none_held && !state.suppressing {
                        begun
                    } else {
                        kept
                    }
                    &&& click is Toggle ==> after == state
                },
                _ => after == state,
            }
        }),
{
}

/// What an action does to the stabiliser is what the button event that it stands
/// for does, with its button and at its moment: a press or a click, with no button
/// held and nothing held back, begins to hold back then; a release of the last
/// button ends it.
pub proof fn law_clicks_arm_and_release<K, G>(
    state: click_stab::ClickState,
    settings: ClickStabSettings,
    button: click_stab::MouseButton,
    now: Instant,
)
    requires
        settings.enabled,
        state.pressed == Set::<u8>::empty(),
        !state.suppressing,
    ensures
        ({
            let pressed = after_action(
                state,
                settings,
                ExtAction::<K, G>::MousePress(button, ClickType::Press),
                now,
            );
            let clicked = after_action(
                state,
                settings,
                ExtAction::<K, G>::MousePress(button, ClickType::Click),
                now,
            );
            let released = after_action(
                pressed,
                settings,
                ExtAction::<K, G>::MousePress(button, ClickType::Release),
                now,
            );
            &&& pressed.suppressing && pressed.armed_at == Some(now) && pressed.accum == origin()
            &&& clicked.suppressing && clicked.armed_at == Some(now) && clicked.accum == origin()
            &&& !released.suppressing && released.pressed == Set::<u8>::empty()
        }),
{
    click_stab::law_press_and_release_is_idle(state, settings, button, now);
}

} // verus!
