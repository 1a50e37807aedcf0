//! Mapped actions and what each of them does.
use std::collections::VecDeque;

use vstd::prelude::*;

use super::click_stab::MouseButton;
use crate::mouse::Direction;

verus! {

/// How an action is to be carried out.
#[derive(Debug, Clone, Copy, PartialEq, Eq, Structural)]
pub enum ClickType {
    Press,
    Release,
    Click,
    Toggle,
}

/// An action that a button is mapped to, with keyboard keys of type `K` and
/// gamepad keys of type `G`.
#[derive(Debug, Clone, Copy)]
pub enum ExtAction<K, G> {
    GyroOn(ClickType),
    GyroOff(ClickType),
    KeyPress(K, ClickType),
    MousePress(MouseButton, ClickType),
    GamepadKeyPress(G, ClickType),
    Idle,
}

/// An action that has no effect, and that the user should hear of.
#[derive(Debug, Clone, Copy, PartialEq, Eq, Structural)]
pub enum Warning {
    GyroClick,
    KeyToggle,
    MouseToggle,
}

impl Warning {
    pub fn text(self) -> (t: &'static str)
        ensures
            t@ == match self {
                Warning::GyroClick => "Warning: event type Click has no effect on gyro on/off"@,
                Warning::KeyToggle => "Warning: key press toggle is not implemented"@,
                Warning::MouseToggle => "Warning: mouse click toggle is not implemented"@,
            },
    {
        match self {
            Warning::GyroClick => "Warning: event type Click has no effect on gyro on/off",
            Warning::KeyToggle => "Warning: key press toggle is not implemented",
            Warning::MouseToggle => "Warning: mouse click toggle is not implemented",
        }
    }
}

/// What is to be sent for an action.
#[derive(Debug, Clone, Copy)]
pub enum Effect<K, G> {
    Nothing,
    Warn(Warning),
    Key(K, Direction),
    Button(MouseButton, Direction),
    /// A key of the virtual gamepad: down where `true`, up where `false`.
    GamepadKey(G, bool),
}

/// The direction of an action that is no toggle.
pub open spec fn direction_of(click: ClickType) -> Direction {
    match click {
        ClickType::Press => Direction::Press,
        ClickType::Release => Direction::Release,
        _ => Direction::Click,
    }
}

/// What is to be sent for an action, given whether there is a virtual gamepad.
pub open spec fn effect_of<K, G>(action: ExtAction<K, G>, gamepad: bool) -> Effect<K, G> {
    match action {
        ExtAction::GyroOn(click) | ExtAction::GyroOff(click) => if click is Click {
            Effect::Warn(Warning::GyroClick)
        } else {
            Effect::Nothing
        },
        ExtAction::KeyPress(key, click) => if click is Toggle {
            Effect::Warn(Warning::KeyToggle)
        } else {
            Effect::Key(key, direction_of(click))
        },
        ExtAction::MousePress(button, click) => if click is Toggle {
            Effect::Warn(Warning::MouseToggle)
        } else {
            Effect::Button(button, direction_of(click))
        },
        ExtAction::GamepadKeyPress(key, click) => if gamepad {
            Effect::GamepadKey(key, click is Press)
        } else {
            Effect::Nothing
        },
        ExtAction::Idle => Effect::Nothing,
    }
}

/// Whether the gyro is switched on after an action.
pub open spec fn gyro_after<K, G>(enabled: bool, action: ExtAction<K, G>) -> bool {
    match action {
        ExtAction::GyroOn(ClickType::Press) | ExtAction::GyroOff(ClickType::Release) => true,
        ExtAction::GyroOn(ClickType::Release) | ExtAction::GyroOff(ClickType::Press) => false,
        ExtAction::GyroOn(ClickType::Toggle) | ExtAction::GyroOff(ClickType::Toggle) => !enabled,
        _ => enabled,
    }
}

/// Whether an action is one that can be carried out: a gamepad key can only be
/// pressed and released.
pub open spec fn supported<K, G>(action: ExtAction<K, G>) -> bool {
    action matches ExtAction::GamepadKeyPress(_, click) ==> click is Press || click is Release
}

pub fn is_supported<K, G>(action: &ExtAction<K, G>) -> (r: bool)
    ensures
        r == supported(*action),
{
    match action {
        ExtAction::GamepadKeyPress(_, click) => match click {
            ClickType::Press | ClickType::Release => true,
            _ => false,
        },
        _ => true,
    }
}

/// What is next in a run through the due actions.
#[derive(Debug, Clone, Copy)]
pub enum Step<K, G> {
    /// Send this, and report how it went.
    Send(Effect<K, G>),
    /// Push the new state of the virtual gamepad.
    Push,
    Done,
}

/// A run through the due actions, as contracts speak of it.
pub struct RunState<K, G> {
    /// The actions that are still to come.
    pub queue: Seq<ExtAction<K, G>>,
    /// Whether a gamepad key has been sent.
    pub gamepad_pressed: bool,
    pub over: bool,
}

impl<K, G> RunState<K, G> {
    pub open spec fn step(self, gamepad: bool) -> Step<K, G> {
        if self.over {
            Step::Done
        } else if self.queue.len() > 0 {
            Step::Send(effect_of(self.queue[0], gamepad))
        } else if gamepad && self.gamepad_pressed {
            Step::Push
        } else {
            Step::Done
        }
    }

    /// After a step was handed out.
    pub open spec fn stepped(self) -> RunState<K, G> {
        if self.over {
            self
        } else if self.queue.len() > 0 {
            RunState { queue: self.queue.drop_first(), ..self }
        } else {
            RunState { over: true, ..self }
        }
    }

    /// After sending something went well or failed. The first failure ends the
    /// run.
    pub open spec fn reported(self, effect: Effect<K, G>, ok: bool) -> RunState<K, G> {
        if !ok {
            RunState { over: true, ..self }
        } else if effect is GamepadKey {
            RunState { gamepad_pressed: true, ..self }
        } else {
            self
        }
    }
}

/// One run through the due actions.
#[derive(Debug)]
pub struct ActionRun<K, G> {
    pub queue: VecDeque<ExtAction<K, G>>,
    pub gamepad_pressed: bool,
    pub over: bool,
}

impl<K, G> View for ActionRun<K, G> {
    type V = RunState<K, G>;

    open spec fn view(&self) -> RunState<K, G> {
        RunState {
            queue: self.queue@,
            gamepad_pressed: self.gamepad_pressed,
            over: self.over,
        }
    }
}

impl<K, G> ActionRun<K, G> {
    pub fn new(queue: VecDeque<ExtAction<K, G>>) -> (run: Self)
        ensures
            run@ == (RunState { queue: queue@, gamepad_pressed: false, over: false }),
    {
        ActionRun { queue, gamepad_pressed: false, over: false }
    }

    /// Takes in how sending something went.
    pub fn report(&mut self, effect: &Effect<K, G>, ok: bool)
        ensures
            final(self)@ == old(self)@.reported(*effect, ok),
    {
        if !ok {
            self.over = true;
        } else if let Effect::GamepadKey(_, _) = effect {
            self.gamepad_pressed = true;
        }
    }
}

/// The steps of a run, given how each send goes, for as long as that is given.
pub open spec fn steps_of<K, G>(run: RunState<K, G>, gamepad: bool, oks: Seq<bool>) -> Seq<
    Step<K, G>,
>
    decreases oks.len(),
{
    let step = run.step(gamepad);
    if oks.len() == 0 || step is Done {
        seq![]
    } else {
        let next = match step {
            Step::Send(effect) => run.stepped().reported(effect, oks[0]),
            _ => run.stepped(),
        };
        seq![step] + steps_of(next, gamepad, oks.drop_first())
    }
}

/// Whether one of the actions sends a gamepad key.
pub open spec fn sends_gamepad_key<K, G>(actions: Seq<ExtAction<K, G>>, gamepad: bool) -> bool {
    exists|i: int| 0 <= i < actions.len() && effect_of(#[trigger] actions[i], gamepad) is GamepadKey
}

/// A run in which every send goes well sends something for each action, in
/// their order, and then pushes the gamepad's state once, if and only if a
/// gamepad key was among them.
pub proof fn law_full_run<K, G>(run: RunState<K, G>, gamepad: bool, oks: Seq<bool>)
    requires
        !run.over,
        oks.len() > run.queue.len() + 1,
        forall|i: int| 0 <= i < oks.len() ==> #[trigger] oks[i],
    ensures
        steps_of(run, gamepad, oks) == Seq::new(
            run.queue.len(),
            |i: int| Step::Send(effect_of(run.queue[i], gamepad)),
        ) + if gamepad && (run.gamepad_pressed || sends_gamepad_key(run.queue, gamepad)) {
            seq![Step::Push]
        } else {
            seq![]
        },
    decreases run.queue.len(),
{
    let all = Seq::new(
        run.queue.len(),
        |i: int| Step::Send(effect_of(run.queue[i], gamepad)),
    );
    if run.queue.len() == 0 {
        assert(steps_of(run.stepped(), gamepad, oks.drop_first()) =~= seq![]);
        assert(all =~= seq![]);
        assert(!sends_gamepad_key(run.queue, gamepad));
    } else {
        let effect = effect_of(run.queue[0], gamepad);
        let next = run.stepped().reported(effect, oks[0]);
        law_full_run(next, gamepad, oks.drop_first());
        assert(oks[0]);
        assert(next.queue == run.queue.drop_first());
        let rest = Seq::new(
            next.queue.len(),
            |i: int| Step::Send(effect_of(next.queue[i], gamepad)),
        );
        assert(all =~= seq![Step::Send(effect)] + rest);
        if sends_gamepad_key(run.queue, gamepad) {
            let i = choose|i: int|
                0 <= i < run.queue.len() && effect_of(
                    #[trigger] run.queue[i],
                    gamepad,
                ) is GamepadKey;
            if i > 0 {
                assert(effect_of(next.queue[i - 1], gamepad) is GamepadKey);
            }
        }
        if sends_gamepad_key(next.queue, gamepad) {
            let i = choose|i: int|
                0 <= i < next.queue.len() && effect_of(
                    #[trigger] next.queue[i],
                    gamepad,
                ) is GamepadKey;
            assert(effect_of(run.queue[i + 1], gamepad) is GamepadKey);
        }
        assert(steps_of(run, gamepad, oks) == seq![Step::Send(effect)] + steps_of(
            next,
            gamepad,
            oks.drop_first(),
        ));
        if gamepad && (run.gamepad_pressed || sends_gamepad_key(run.queue, gamepad)) {
            assert(seq![Step::Send(effect)] + (rest + seq![Step::<K, G>::Push]) =~= all
                + seq![Step::<K, G>::Push]);
        } else {
            assert(seq![Step::Send(effect)] + (rest + seq![]) =~= all + seq![]);
        }
    }
}

/// The first send that fails ends the run: nothing is sent after it, and the
/// gamepad's state is not pushed.
pub proof fn law_failure_ends_the_run<K, G>(
    run: RunState<K, G>,
    effect: Effect<K, G>,
    gamepad: bool,
    oks: Seq<bool>,
)
    ensures
        steps_of(run.reported(effect, false), gamepad, oks) == Seq::<Step<K, G>>::empty(),
{
}

/// Whether sending in this direction is what a click type asks for.
pub open spec fn goes_with(click: ClickType, direction: Direction) -> bool {
    &&& click is Press <==> direction is Press
    &&& click is Release <==> direction is Release
    &&& click is Click <==> direction is Click
}

/// A mouse button is sent as it is, in the direction of its click, whatever
/// button it is; a toggle sends nothing and warns.
pub proof fn law_mouse_button_is_sent_as_it_is<K, G>(
    button: MouseButton,
    click: ClickType,
    gamepad: bool,
)
    ensures
        match effect_of::<K, G>(ExtAction::MousePress(button, click), gamepad) {
            Effect::Button(sent, direction) => sent == button && !(click is Toggle) && goes_with(
                click,
                direction,
            ),
            Effect::Warn(warning) => click is Toggle && warning is MouseToggle,
            _ => false,
        },
{
}

/// A keyboard key is sent as it is, in the direction of its click; a toggle sends
/// nothing and warns.
pub proof fn law_key_is_sent_as_it_is<K, G>(key: K, click: ClickType, gamepad: bool)
    ensures
        match effect_of::<K, G>(ExtAction::KeyPress(key, click), gamepad) {
            Effect::Key(sent, direction) => sent == key && !(click is Toggle) && goes_with(
                click,
                direction,
            ),
            Effect::Warn(warning) => click is Toggle && warning is KeyToggle,
            _ => false,
        },
{
}

/// A gamepad key is sent as it is, down for a press and up for a release, where
/// there is a gamepad; where there is none, nothing is sent.
pub proof fn law_gamepad_key_is_sent_as_it_is<K, G>(key: G, click: ClickType, gamepad: bool)
    requires
        supported::<K, G>(ExtAction::GamepadKeyPress(key, click)),
    ensures
        match effect_of::<K, G>(ExtAction::GamepadKeyPress(key, click), gamepad) {
            Effect::GamepadKey(sent, down) => gamepad && sent == key && (down <==> click is Press)
                && (!down <==> click is Release),
            Effect::Nothing => !gamepad,
            _ => false,
        },
{
}

/// Gyro actions send nothing, but that a click has no effect is said; no action
/// sends nothing either.
pub proof fn law_gyro_actions_send_nothing<K, G>(click: ClickType, gamepad: bool)
    ensures
        effect_of::<K, G>(ExtAction::GyroOn(click), gamepad) == effect_of::<K, G>(
            ExtAction::GyroOff(click),
            gamepad,
        ),
        match effect_of::<K, G>(ExtAction::GyroOn(click), gamepad) {
            Effect::Nothing => !(click is Click),
            Effect::Warn(warning) => click is Click && warning is GyroClick,
            _ => false,
        },
        effect_of::<K, G>(ExtAction::Idle, gamepad) is Nothing,
{
}

/// A press and the release of a button or a key send a down and an up of that very
/// one, so that nothing stays down; and two buttons never send the same.
pub proof fn law_release_undoes_press<K, G>(
    button: MouseButton,
    other: MouseButton,
    key: K,
    gamepad: bool,
)
    ensures
        effect_of::<K, G>(ExtAction::MousePress(button, ClickType::Press), gamepad)
            == Effect::<K, G>::Button(button, Direction::Press),
        effect_of::<K, G>(ExtAction::MousePress(button, ClickType::Release), gamepad)
            == Effect::<K, G>::Button(button, Direction::Release),
        effect_of::<K, G>(ExtAction::KeyPress(key, ClickType::Press), gamepad) == Effect::<
            K,
            G,
        >::Key(key, Direction::Press),
        effect_of::<K, G>(ExtAction::KeyPress(key, ClickType::Release), gamepad) == Effect::<
            K,
            G,
        >::Key(key, Direction::Release),
        button != other ==> effect_of::<K, G>(
            ExtAction::MousePress(button, ClickType::Press),
            gamepad,
        ) != effect_of::<K, G>(ExtAction::MousePress(other, ClickType::Press), gamepad),
{
}

/// The gyro's switch after one action. Pressing `GyroOn` or letting `GyroOff` go
/// switches it on, the other way round off; either toggle turns it round; a click,
/// and every action that is not the gyro's, leaves it.
pub proof fn law_switch_after_one_action<K, G>(enabled: bool, action: ExtAction<K, G>)
    ensures
        ({
            let after = gyro_after(enabled, action);
            match action {
                ExtAction::GyroOn(click) => {
                    &&& click is Press ==> after
                    &&& click is Release ==> !after
                    &&& click is Toggle ==> after != enabled
                    &&& click is Click ==> after == enabled
                },
                ExtAction::GyroOff(click) => {
                    &&& click is Press ==> !after
                    &&& click is Release ==> after
                    &&& click is Toggle ==> after != enabled
                    &&& click is Click ==> after == enabled
                },
                _ => after == enabled,
            }
        }),
{
}

/// Nothing but a click or a toggle of a gamepad key is out of the question.
pub proof fn law_what_is_supported<K, G>(action: ExtAction<K, G>)
    ensures
        !supported(action) <==> (action is GamepadKeyPress && (action->GamepadKeyPress_1 is Click
            || action->GamepadKeyPress_1 is Toggle)),
{
}

/// The next step of a run is for the first of its actions, and takes that one
/// alone off the queue.
pub proof fn law_run_goes_action_by_action<K, G>(
    run: RunState<K, G>,
    gamepad: bool,
    action: ExtAction<K, G>,
    rest: Seq<ExtAction<K, G>>,
)
    requires
        !run.over,
        run.queue == seq![action] + rest,
    ensures
        run.step(gamepad) == Step::Send(effect_of(action, gamepad)),
        run.stepped().queue == rest,
        !run.stepped().over,
        run.stepped().gamepad_pressed == run.gamepad_pressed,
{
    assert(run.queue.drop_first() =~= rest);
}

} // verus!
