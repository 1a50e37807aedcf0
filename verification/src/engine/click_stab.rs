//! Click stabilisation: holding back the jerk that pressing a button gives the
//! controller, without holding back a drag.
use std::collections::HashSet;

use vstd::arithmetic::power2::pow2;
use vstd::prelude::*;

use crate::binary64::{law_order_is_by_worth, Binary64};
use crate::config::ClickStabSettings;
use crate::time::Instant;
use crate::vector::{origin, Vec2};

verus! {

broadcast use vstd::std_specs::hash::group_hash_axioms;

/// A mouse button, or a scroll direction that is sent as one.
#[derive(Debug, Clone, Copy, PartialEq, Eq, Structural)]
pub enum MouseButton {
    Left,
    Middle,
    Right,
    Back,
    Forward,
    ScrollUp,
    ScrollDown,
    ScrollLeft,
    ScrollRight,
}

/// The number under which a held button is remembered. Beyond the three main
/// buttons all share one.
pub open spec fn button_key(button: MouseButton) -> u8 {
    match button {
        MouseButton::Left => 0,
        MouseButton::Right => 1,
        MouseButton::Middle => 2,
        _ => 3,
    }
}

pub fn click_button_key(button: MouseButton) -> (key: u8)
    ensures
        key == button_key(button),
{
    match button {
        MouseButton::Left => 0,
        MouseButton::Right => 1,
        MouseButton::Middle => 2,
        _ => 3,
    }
}

/// What a stabiliser knows.
#[verifier::ext_equal]
pub struct ClickState {
    /// The keys of the buttons that are held.
    pub pressed: Set<u8>,
    /// Whether movement is being held back.
    pub suppressing: bool,
    /// When holding back last began.
    pub armed_at: Option<Instant>,
    /// The movement held back so far.
    pub accum: Vec2,
}

/// What becomes of a movement.
pub enum Verdict {
    /// It goes out as it is.
    Pass,
    /// It is a drag: what was held back goes out with it, and no more is held
    /// back.
    Flush,
    /// The click is over: what was held back is forgotten with it, and no more
    /// is held back.
    Drop,
    /// It is held back.
    Hold,
}

impl ClickState {
    pub open spec fn idle() -> ClickState {
        ClickState {
            pressed: Set::empty(),
            suppressing: false,
            armed_at: None,
            accum: origin(),
        }
    }

    /// Movement is held back only since some moment, and nothing is kept while
    /// none is held back.
    pub open spec fn sound(self) -> bool {
        &&& self.suppressing ==> self.armed_at is Some
        &&& !self.suppressing ==> self.accum == origin()
    }

    /// The same with holding back begun at `now`.
    pub open spec fn armed(self, now: Instant) -> ClickState {
        ClickState { suppressing: true, armed_at: Some(now), accum: origin(), ..self }
    }

    /// The same with nothing held back.
    pub open spec fn released(self) -> ClickState {
        ClickState { suppressing: false, accum: origin(), ..self }
    }

    pub open spec fn after_down(
        self,
        settings: ClickStabSettings,
        button: MouseButton,
        now: Instant,
    ) -> ClickState {
        let held = ClickState { pressed: self.pressed.insert(button_key(button)), ..self };
        if settings.enabled && self.pressed == Set::<u8>::empty() {
            held.armed(now)
        } else {
            held
        }
    }

    pub open spec fn after_up(self, button: MouseButton) -> ClickState {
        let left = ClickState { pressed: self.pressed.remove(button_key(button)), ..self };
        if left.pressed == Set::<u8>::empty() {
            left.released()
        } else {
            left
        }
    }

    pub open spec fn after_tap(self, settings: ClickStabSettings, now: Instant) -> ClickState {
        if settings.enabled && !self.suppressing && self.pressed == Set::<u8>::empty() {
            self.armed(now)
        } else {
            self
        }
    }

    /// What becomes of a movement at `now` that, with what was held back, is
    /// `reach` pixels long.
    pub open spec fn verdict(
        self,
        settings: ClickStabSettings,
        reach: Binary64,
        now: Instant,
    ) -> Verdict {
        if !settings.enabled || !self.suppressing {
            Verdict::Pass
        } else if settings.drag_release_dist.less(reach) || settings.drag_release_dist.same(reach) {
            Verdict::Flush
        } else if self.armed_at matches Some(t) && (if now@ >= t@ {
            now@ - t@
        } else {
            0
        }) >= settings.window@ {
            Verdict::Drop
        } else {
            Verdict::Hold
        }
    }

    pub open spec fn after_filter(
        self,
        settings: ClickStabSettings,
        cand: Vec2,
        reach: Binary64,
        now: Instant,
    ) -> ClickState {
        match self.verdict(settings, reach, now) {
            Verdict::Pass => self,
            Verdict::Flush => self.released(),
            Verdict::Drop => self.released(),
            Verdict::Hold => ClickState { accum: cand, ..self },
        }
    }

    /// What goes out of a movement `delta` that, with what was held back, is
    /// `cand`.
    pub open spec fn emitted(
        self,
        settings: ClickStabSettings,
        delta: Vec2,
        cand: Vec2,
        reach: Binary64,
        now: Instant,
    ) -> Vec2 {
        match self.verdict(settings, reach, now) {
            Verdict::Pass => delta,
            Verdict::Flush => cand,
            Verdict::Drop => origin(),
            Verdict::Hold => origin(),
        }
    }
}

/// Click-stabilisation state. It arms on the first button down, never again on
/// a second one, and resets once all are up, so that drags and double clicks
/// are safe. All parameters come with each call.
#[derive(Debug)]
pub struct ClickStabilizer {
    pub pressed: HashSet<u8>,
    pub suppressing: bool,
    pub armed_at: Option<Instant>,
    pub accum: Vec2,
}

impl View for ClickStabilizer {
    type V = ClickState;

    open spec fn view(&self) -> ClickState {
        ClickState {
            pressed: self.pressed@,
            suppressing: self.suppressing,
            armed_at: self.armed_at,
            accum: self.accum,
        }
    }
}

impl Default for ClickStabilizer {
    fn default() -> (cs: Self)
        ensures
            cs@ == ClickState::idle(),
    {
        ClickStabilizer {
            pressed: HashSet::new(),
            suppressing: false,
            armed_at: None,
            accum: Vec2::zero(),
        }
    }
}

impl ClickStabilizer {
    fn arm(&mut self, now: Instant)
        ensures
            final(self)@ == old(self)@.armed(now),
    {
        self.suppressing = true;
        self.armed_at = Some(now);
        self.accum = Vec2::zero();
    }

    fn release(&mut self)
        ensures
            final(self)@ == old(self)@.released(),
    {
        self.suppressing = false;
        self.accum = Vec2::zero();
    }

    /// A button went down.
    pub fn on_click_down(&mut self, settings: &ClickStabSettings, button: MouseButton, now: Instant)
        ensures
            final(self)@ == old(self)@.after_down(*settings, button, now),
    {
        let was_empty = self.pressed.is_empty();
        self.pressed.insert(click_button_key(button));
        if settings.enabled && was_empty {
            self.arm(now);
        }
    }

    /// A button went up.
    pub fn on_click_up(&mut self, button: MouseButton)
        ensures
            final(self)@ == old(self)@.after_up(button),
    {
        let key: u8 = click_button_key(button);
        self.pressed.remove(&key);
        if self.pressed.is_empty() {
            self.release();
        }
    }

    /// A click without a release of its own. Holds back movement until the
    /// window is over; does nothing while movement is held back already or a
    /// button is held.
    pub fn on_click_tap(&mut self, settings: &ClickStabSettings, now: Instant)
        ensures
            final(self)@ == old(self)@.after_tap(*settings, now),
    {
        if !settings.enabled || self.suppressing || !self.pressed.is_empty() {
            return ;
        }
        self.arm(now);
    }

    /// Gates a movement of `delta` pixels, before it is rounded, and returns
    /// what goes out. `cand` is the sum of `delta` and the movement held back
    /// so far (`accum`), and `reach` is the length of `cand`.
    pub fn filter(
        &mut self,
        settings: &ClickStabSettings,
        delta: Vec2,
        cand: Vec2,
        reach: Binary64,
        now: Instant,
    ) -> (emit: Vec2)
        ensures
            emit == old(self)@.emitted(*settings, delta, cand, reach, now),
            final(self)@ == old(self)@.after_filter(*settings, cand, reach, now),
            emit == delta || emit == cand || emit == origin(),
            final(self).pressed@ == old(self).pressed@,
            settings.enabled && old(self).suppressing && final(self).suppressing
                ==> final(self).accum == cand && emit == origin(),
            settings.enabled && old(self).suppressing && !final(self).suppressing
                ==> final(self).accum == origin(),
            !settings.enabled || !old(self).suppressing ==> emit == delta && final(self)@
                == old(self)@,
    {
        if !settings.enabled || !self.suppressing {
            return delta;
        }
        if reach.at_least(settings.drag_release_dist) {
            self.release();
            return cand;
        }
        if let Some(armed_at) = self.armed_at {
            if now.saturating_duration_since(armed_at).at_least(settings.window) {
                self.release();
                return Vec2::zero();
            }
        }
        self.accum = cand;
        Vec2::zero()
    }
}

/// One call of a stabiliser.
pub enum ClickCall {
    Down { settings: ClickStabSettings, button: MouseButton, now: Instant },
    Up { button: MouseButton },
    Tap { settings: ClickStabSettings, now: Instant },
    Filter { settings: ClickStabSettings, cand: Vec2, reach: Binary64, now: Instant },
}

pub open spec fn after_click_call(state: ClickState, call: ClickCall) -> ClickState {
    match call {
        ClickCall::Down { settings, button, now } => state.after_down(settings, button, now),
        ClickCall::Up { button } => state.after_up(button),
        ClickCall::Tap { settings, now } => state.after_tap(settings, now),
        ClickCall::Filter { settings, cand, reach, now } => state.after_filter(
            settings,
            cand,
            reach,
            now,
        ),
    }
}

pub open spec fn after_click_calls(state: ClickState, calls: Seq<ClickCall>) -> ClickState
    decreases calls.len(),
{
    if calls.len() == 0 {
        state
    } else {
        after_click_call(after_click_calls(state, calls.drop_last()), calls.last())
    }
}

/// Whatever is called, a stabiliser that started idle stays sound: it holds
/// movement back only since a known moment, and keeps none while it holds none
/// back.
pub proof fn law_click_state_stays_sound(calls: Seq<ClickCall>)
    ensures
        after_click_calls(ClickState::idle(), calls).sound(),
    decreases calls.len(),
{
    if calls.len() > 0 {
        law_click_state_stays_sound(calls.drop_last());
    }
}

/// A second button arms nothing: while a button is held, another one going down
/// leaves the moment of arming and the movement held back as they are.
pub proof fn law_second_button_does_not_rearm(
    state: ClickState,
    settings: ClickStabSettings,
    button: MouseButton,
    now: Instant,
)
    requires
        state.pressed != Set::<u8>::empty(),
    ensures
        ({
            let after = state.after_down(settings, button, now);
            &&& after.suppressing == state.suppressing
            &&& after.armed_at == state.armed_at
            &&& after.accum == state.accum
        }),
{
}

/// Letting one of two buttons go changes nothing of what is held back; letting
/// the last one go ends it.
pub proof fn law_release_only_when_all_up(state: ClickState, button: MouseButton)
    ensures
        ({
            let after = state.after_up(button);
            &&& after.pressed != Set::<u8>::empty() ==> after.suppressing == state.suppressing
                && after.armed_at == state.armed_at && after.accum == state.accum
            &&& after.pressed == Set::<u8>::empty() ==> !after.suppressing && after.accum
                == origin()
        }),
{
}

/// Where a button went down, with none held before, and is let go again, the
/// stabiliser is as if idle: the next press arms it afresh.
pub proof fn law_press_and_release_is_idle(
    state: ClickState,
    settings: ClickStabSettings,
    button: MouseButton,
    now: Instant,
)
    requires
        state.pressed == Set::<u8>::empty(),
    ensures
        ({
            let after = state.after_down(settings, button, now).after_up(button);
            &&& after.pressed == Set::<u8>::empty()
            &&& !after.suppressing
            &&& after.accum == origin()
        }),
{
    let after = state.after_down(settings, button, now).after_up(button);
    assert(after.pressed =~= Set::<u8>::empty());
}

/// Holding back is bounded in time: once the window is over, the next movement
/// ends it, whether or not it is a drag.
pub proof fn law_window_ends_suppression(
    state: ClickState,
    settings: ClickStabSettings,
    cand: Vec2,
    reach: Binary64,
    now: Instant,
)
    requires
        state.sound(),
        settings.enabled,
        state.suppressing ==> now@ >= state.armed_at->0@ + settings.window@,
    ensures
        !state.after_filter(settings, cand, reach, now).suppressing,
{
}

/// A drag loses nothing: the movement that reaches the drag distance goes out
/// together with all that was held back, once, and what comes after it passes.
pub proof fn law_drag_flushes_once(
    state: ClickState,
    settings: ClickStabSettings,
    delta: Vec2,
    cand: Vec2,
    reach: Binary64,
    now: Instant,
    next: Vec2,
    next_cand: Vec2,
    next_reach: Binary64,
    later: Instant,
)
    requires
        settings.enabled,
        state.suppressing,
        settings.drag_release_dist.less(reach) || settings.drag_release_dist.same(reach),
    ensures
        state.emitted(settings, delta, cand, reach, now) == cand,
        state.after_filter(settings, cand, reach, now).accum == origin(),
        state.after_filter(settings, cand, reach, now).emitted(
            settings,
            next,
            next_cand,
            next_reach,
            later,
        ) == next,
{
}

/// Switched off, the stabiliser never holds anything back: every movement goes
/// out as it is and pressing arms nothing.
pub proof fn law_disabled_is_transparent(
    state: ClickState,
    settings: ClickStabSettings,
    delta: Vec2,
    cand: Vec2,
    reach: Binary64,
    button: MouseButton,
    now: Instant,
)
    requires
        !settings.enabled,
    ensures
        state.emitted(settings, delta, cand, reach, now) == delta,
        state.after_filter(settings, cand, reach, now) == state,
        state.after_down(settings, button, now).suppressing == state.suppressing,
        state.after_tap(settings, now) == state,
{
}

/// What a press does. Its key is held from then on, and no other key is touched.
/// With stabilisation on, the first button begins to hold back, from nothing and
/// from this moment; otherwise nothing of that changes.
pub proof fn law_press(
    state: ClickState,
    settings: ClickStabSettings,
    button: MouseButton,
    now: Instant,
    key: u8,
)
    ensures
        ({
            let after = state.after_down(settings, button, now);
            &&& after.pressed.contains(key) <==> state.pressed.contains(key) || key == button_key(
                button,
            )
            &&& if settings.enabled && state.pressed == Set::<u8>::empty() {
                after.suppressing && after.armed_at == Some(now) && after.accum == origin()
            } else {
                after.suppressing == state.suppressing && after.armed_at == state.armed_at
                    && after.accum == state.accum
            }
        }),
{
}

/// What a release does to the held keys: its own is gone, and no other is touched;
/// when holding back last began stays known.
pub proof fn law_release(state: ClickState, button: MouseButton, key: u8)
    ensures
        state.after_up(button).pressed.contains(key) <==> state.pressed.contains(key) && key
            != button_key(button),
        state.after_up(button).armed_at == state.armed_at,
{
}

/// What a tap does: it holds no key, and begins to hold back exactly where
/// stabilisation is on, no button is held and nothing is held back yet.
pub proof fn law_tap(state: ClickState, settings: ClickStabSettings, now: Instant)
    ensures
        ({
            let after = state.after_tap(settings, now);
            &&& after.pressed == state.pressed
            &&& if settings.enabled && !state.suppressing && state.pressed == Set::<u8>::empty() {
                after.suppressing && after.armed_at == Some(now) && after.accum == origin()
            } else {
                after == state
            }
        }),
{
}

/// What becomes of a movement, case by case. Nothing is held back: it goes out as
/// it is, and all stays. It reaches the drag distance: all of it goes out, and
/// nothing is kept. The window is over: nothing goes out and nothing is kept.
/// Otherwise nothing goes out and it is kept whole, in both its components.
pub proof fn law_filter(
    state: ClickState,
    settings: ClickStabSettings,
    delta: Vec2,
    cand: Vec2,
    reach: Binary64,
    now: Instant,
    since: Instant,
)
    requires
        state.armed_at == Some(since),
    ensures
        ({
            let out = state.emitted(settings, delta, cand, reach, now);
            let after = state.after_filter(settings, cand, reach, now);
            let dist = settings.drag_release_dist;
            let dragged = dist.less(reach) || dist.same(reach);
            &&& reach.finite() && dist.finite() ==> (dragged <==> reach.units() >= dist.units())
            &&& reach.nan() || dist.nan() ==> !dragged
            &&& after.pressed == state.pressed
            &&& after.armed_at == state.armed_at
            &&& if !settings.enabled || !state.suppressing {
                &&& out.x == delta.x && out.y == delta.y
                &&& after.suppressing == state.suppressing
                &&& after.accum.x == state.accum.x && after.accum.y == state.accum.y
            } else if dragged {
                &&& out.x == cand.x && out.y == cand.y
                &&& !after.suppressing
                &&& after.accum.x.bits == 0 && after.accum.y.bits == 0
            } else if now@ >= since@ + settings.window@ || settings.window@ == 0 {
                &&& out.x.bits == 0 && out.y.bits == 0
                &&& !after.suppressing
                &&& after.accum.x.bits == 0 && after.accum.y.bits == 0
            } else {
                &&& out.x.bits == 0 && out.y.bits == 0
                &&& after.suppressing
                &&& after.accum.x == cand.x && after.accum.y == cand.y
            }
        }),
{
    if reach.finite() && settings.drag_release_dist.finite() {
        law_order_is_by_worth(settings.drag_release_dist, reach);
    }
}

/// Movement that is held back is kept whole, also where its length is no number.
pub proof fn law_held_movement_is_kept_whole(
    state: ClickState,
    settings: ClickStabSettings,
    delta: Vec2,
    cand: Vec2,
    reach: Binary64,
    now: Instant,
)
    requires
        state.verdict(settings, reach, now) is Hold,
    ensures
        ({
            let after = state.after_filter(settings, cand, reach, now);
            &&& after.accum.x == cand.x
            &&& after.accum.y == cand.y
            &&& after.suppressing
            &&& state.emitted(settings, delta, cand, reach, now).null()
        }),
{
}

/// A movement of a series: what it adds, in units, and what the caller makes of it.
pub struct Move {
    pub dx: int,
    pub dy: int,
    pub cand: Vec2,
    pub reach: Binary64,
    pub now: Instant,
}

/// The state after a series of movements.
pub open spec fn after_moves(
    state: ClickState,
    settings: ClickStabSettings,
    moves: Seq<Move>,
) -> ClickState
    decreases moves.len(),
{
    if moves.len() == 0 {
        state
    } else {
        let m = moves.last();
        after_moves(state, settings, moves.drop_last()).after_filter(
            settings,
            m.cand,
            m.reach,
            m.now,
        )
    }
}

/// The sums of a series of movements.
pub open spec fn sum_x(moves: Seq<Move>) -> int
    decreases moves.len(),
{
    if moves.len() == 0 {
        0
    } else {
        sum_x(moves.drop_last()) + moves.last().dx
    }
}

pub open spec fn sum_y(moves: Seq<Move>) -> int
    decreases moves.len(),
{
    if moves.len() == 0 {
        0
    } else {
        sum_y(moves.drop_last()) + moves.last().dy
    }
}

/// Whether a movement is held back, its sum with what was held back being exact.
pub open spec fn held_exactly(state: ClickState, settings: ClickStabSettings, m: Move) -> bool {
    &&& state.verdict(settings, m.reach, m.now) is Hold
    &&& m.cand.x.units() == state.accum.x.units() + m.dx
    &&& m.cand.y.units() == state.accum.y.units() + m.dy
}

/// Nothing is lost on the way to a drag: over a series of movements that are held
/// back, whose sums are exact, what is kept is the sum of them all, in both
/// components; and the movement that then turns out a drag goes out together with
/// that sum.
pub proof fn law_drag_loses_nothing(
    state: ClickState,
    settings: ClickStabSettings,
    moves: Seq<Move>,
    drag: Move,
    delta: Vec2,
)
    requires
        state.accum == origin(),
        forall|i: int|
            0 <= i < moves.len() ==> held_exactly(
                after_moves(state, settings, moves.take(i)),
                settings,
                #[trigger] moves[i],
            ),
        ({
            let held = after_moves(state, settings, moves);
            &&& held.verdict(settings, drag.reach, drag.now) is Flush
            &&& drag.cand.x.units() == held.accum.x.units() + drag.dx
            &&& drag.cand.y.units() == held.accum.y.units() + drag.dy
        }),
    ensures
        ({
            let held = after_moves(state, settings, moves);
            let out = held.emitted(settings, delta, drag.cand, drag.reach, drag.now);
            &&& held.accum.x.units() == sum_x(moves)
            &&& held.accum.y.units() == sum_y(moves)
            &&& out.x.units() == sum_x(moves) + drag.dx
            &&& out.y.units() == sum_y(moves) + drag.dy
        }),
{
    lemma_held_sum(state, settings, moves);
}

proof fn lemma_held_sum(state: ClickState, settings: ClickStabSettings, moves: Seq<Move>)
    requires
        state.accum == origin(),
        forall|i: int|
            0 <= i < moves.len() ==> held_exactly(
                after_moves(state, settings, moves.take(i)),
                settings,
                #[trigger] moves[i],
            ),
    ensures
        after_moves(state, settings, moves).accum.x.units() == sum_x(moves),
        after_moves(state, settings, moves).accum.y.units() == sum_y(moves),
    decreases moves.len(),
{
    if moves.len() == 0 {
        assert(origin().x.units() == 0 && origin().y.units() == 0) by {
            assert(0 * pow2(0) == 0);
        }
    } else {
        let init = moves.drop_last();
        let n = moves.len() - 1;
        assert forall|i: int| 0 <= i < init.len() implies held_exactly(
            after_moves(state, settings, init.take(i)),
            settings,
            #[trigger] init[i],
        ) by {
            assert(init.take(i) =~= moves.take(i));
            assert(init[i] == moves[i]);
        }
        lemma_held_sum(state, settings, init);
        assert(moves.take(n) =~= init);
        assert(held_exactly(after_moves(state, settings, moves.take(n)), settings, moves[n]));
    }
}

/// The three main buttons are told apart, from each other and from all the rest;
/// the rest are not told apart.
pub proof fn law_button_keys(a: MouseButton, b: MouseButton)
    ensures
        button_key(a) == button_key(b) <==> a == b || (!(a is Left || a is Right || a is Middle)
            && !(b is Left || b is Right || b is Middle)),
{
}

} // verus!
