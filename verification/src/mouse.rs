//! Cursor movement and keys, as far as they are decided here.
use vstd::prelude::*;

use crate::binary64::{law_rounds_to_the_nearest, nearest, one, Binary64};
use crate::vector::Vec2;

verus! {

/// A movement in degrees.
#[derive(Debug, Clone, Copy, PartialEq, Eq, Structural)]
pub struct MouseMovement {
    /// Horizontal axis, positive to the right.
    pub x: Binary64,
    /// Vertical axis, positive to the top.
    pub y: Binary64,
}

impl MouseMovement {
    pub fn new(x: Binary64, y: Binary64) -> (m: Self)
        ensures
            m.x == x,
            m.y == y,
    {
        MouseMovement { x, y }
    }

    pub fn zero() -> (m: Self)
        ensures
            m.x.bits == 0,
            m.y.bits == 0,
    {
        MouseMovement { x: Binary64::zero(), y: Binary64::zero() }
    }

    /// The movement given by a vector of degrees.
    pub fn from_vec_deg(vec: Vec2) -> (m: Self)
        ensures
            m.x == vec.x,
            m.y == vec.y,
    {
        MouseMovement { x: vec.x, y: vec.y }
    }
}

/// Cursor movement goes out in whole pixels; what rounding leaves over is kept
/// for the next movement.
#[derive(Debug, Clone, Copy)]
pub struct Mouse {
    pub error_accumulator: Vec2,
}

/// The whole pixels that a number of pixels is sent as, where they fit.
pub open spec fn pixels(v: Binary64) -> Option<i32> {
    if v.finite() && i32::MIN <= nearest(v.units()) <= i32::MAX {
        Some(nearest(v.units()) as i32)
    } else {
        None
    }
}

/// Whether `rest` is what sending `v` in whole pixels leaves over.
pub open spec fn left_over(v: Binary64, rest: Binary64) -> bool {
    if v.finite() {
        &&& rest.finite()
        &&& rest.units() == v.units() - nearest(v.units()) * one()
        &&& rest.units() == 0 ==> rest.bits == 0
    } else {
        rest.nan()
    }
}

impl Mouse {
    pub fn new() -> (m: Mouse)
        ensures
            m.error_accumulator == crate::vector::origin(),
    {
        Mouse { error_accumulator: Vec2::zero() }
    }

    /// Turns `sum`, a movement in pixels with the left-over of the last one
    /// added to it, into whole pixels to send, and keeps what is left over.
    /// Nothing is sent where both are zero, or where one is out of range.
    pub fn mouse_move_relative_pixel(&mut self, sum: Vec2) -> (send: Option<(i32, i32)>)
        ensures
            left_over(sum.x, final(self).error_accumulator.x),
            left_over(sum.y, final(self).error_accumulator.y),
            send == match (pixels(sum.x), pixels(sum.y)) {
                (Some(x), Some(y)) => if x != 0 || y != 0 {
                    Some((x, y))
                } else {
                    None
                },
                _ => None,
            },
    {
        let (x, rest_x) = sum.x.round_off();
        let (y, rest_y) = sum.y.round_off();
        self.error_accumulator = Vec2 { x: rest_x, y: rest_y };
        match (x, y) {
            (Some(x), Some(y)) => if x != 0 || y != 0 {
                Some((x, y))
            } else {
                None
            },
            _ => None,
        }
    }
}

/// How a key or button is operated.
#[derive(Debug, Clone, Copy, PartialEq, Eq, Structural)]
pub enum Direction {
    Press,
    Release,
    Click,
}

/// The events that operate a key which must be sent one edge at a time: `true`
/// for down, `false` for up.
pub open spec fn edges_of(direction: Direction) -> Seq<bool> {
    match direction {
        Direction::Press => seq![true],
        Direction::Release => seq![false],
        Direction::Click => seq![true, false],
    }
}

pub fn key_edges(direction: Direction) -> (edges: Vec<bool>)
    ensures
        edges@ == edges_of(direction),
{
    match direction {
        Direction::Press => vec![true],
        Direction::Release => vec![false],
        Direction::Click => vec![true, false],
    }
}

/// Movement is pixel perfect: the whole pixels that are sent and what is kept
/// add up to exactly the movement, and at most half a pixel is kept.
pub proof fn law_no_movement_is_lost(v: Binary64, rest: Binary64)
    requires
        left_over(v, rest),
        pixels(v) is Some,
    ensures
        pixels(v)->0 * one() + rest.units() == v.units(),
        -(one() as int) <= 2 * rest.units() <= one(),
{
    vstd::arithmetic::power2::lemma_pow2_pos(crate::binary64::UNIT_EXPONENT as nat);
    let u = one() as int;
    let w = v.units();
    let m = if w >= 0 { w } else { -w };
    let n = (2 * m + u) / (2 * u);
    vstd::arithmetic::div_mod::lemma_fundamental_div_mod(2 * m + u, 2 * u);
    let r = (2 * m + u) % (2 * u);
    assert(2 * m + u == 2 * (n * u) + r) by (nonlinear_arith)
        requires
            2 * m + u == (2 * u) * n + r,
    ;
    assert((-n) * u == -(n * u)) by (nonlinear_arith);
}

pub open spec fn total(v: Seq<int>) -> int
    decreases v.len(),
{
    if v.len() == 0 {
        0
    } else {
        total(v.drop_last()) + v.last()
    }
}

/// Rounding makes no drift: over a series of movements, each added exactly to
/// what the one before left over, the pixels that are sent and what is left over
/// at the end make up all the movement there was, however small its steps.
/// `offsets` are the movements, `sums` what is sent in whole pixels, and `rests`
/// what was left over before each of them and at the end; movements are in units
/// of which `one()` make a pixel.
pub proof fn law_rounding_makes_no_drift(
    offsets: Seq<int>,
    sums: Seq<Binary64>,
    rests: Seq<Binary64>,
)
    requires
        sums.len() == offsets.len(),
        rests.len() == offsets.len() + 1,
        forall|i: int|
            0 <= i < offsets.len() ==> (#[trigger] sums[i]).units() == offsets[i]
                + rests[i].units(),
        forall|i: int|
            0 <= i < offsets.len() ==> left_over(#[trigger] sums[i], rests[i + 1]) && pixels(
                sums[i],
            ) is Some,
    ensures
        total(Seq::new(sums.len(), |i: int| pixels(sums[i])->0 as int)) * one()
            + rests.last().units() == total(offsets) + rests[0].units(),
    decreases offsets.len(),
{
    let sent = Seq::new(sums.len(), |i: int| pixels(sums[i])->0 as int);
    if offsets.len() > 0 {
        let n = offsets.len() - 1;
        law_rounding_makes_no_drift(offsets.drop_last(), sums.drop_last(), rests.drop_last());
        assert(sent.drop_last() =~= Seq::new(
            sums.drop_last().len(),
            |i: int| pixels(sums.drop_last()[i])->0 as int,
        ));
        assert(left_over(sums[n], rests[n + 1]));
        law_no_movement_is_lost(sums[n], rests[n + 1]);
        assert((total(sent.drop_last()) + sent[n]) * one() == total(sent.drop_last()) * one()
            + sent[n] * one()) by (nonlinear_arith);
    } else {
        assert(0 * one() == 0);
    }
}

/// Every movement whose nearest whole number of pixels fits is sent, at most half
/// a pixel off and never the other way; one without end, or that is no number, is
/// not.
pub proof fn law_movement_in_range_is_sent(v: Binary64)
    ensures
        !v.finite() ==> pixels(v) is None,
        v.finite() && (2 * i32::MIN - 1) * one() < 2 * v.units() < (2 * i32::MAX + 1) * one()
            ==> pixels(v) is Some,
        pixels(v) matches Some(n) ==> -(one() as int) <= 2 * (v.units() - n * one()) <= one(),
        pixels(v) matches Some(n) ==> (v.units() > 0 ==> n >= 0) && (v.units() < 0 ==> n <= 0),
{
    vstd::arithmetic::power2::lemma_pow2_pos(crate::binary64::UNIT_EXPONENT as nat);
    let u = one() as int;
    let w = v.units();
    law_rounds_to_the_nearest(w);
    law_rounds_to_the_nearest(-w);
    let n = nearest(w);
    if w < 0 {
        assert((-n) * u == -(n * u)) by (nonlinear_arith);
    }
    assert(-u <= 2 * (w - n * u) <= u);
    if n > i32::MAX {
        assert(n * u >= (i32::MAX + 1) * u) by (nonlinear_arith)
            requires
                n >= i32::MAX + 1,
                u > 0,
        ;
        assert(2 * ((i32::MAX + 1) * u) - u == (2 * i32::MAX + 1) * u) by (nonlinear_arith);
    }
    if n < i32::MIN {
        assert(n * u <= (i32::MIN - 1) * u) by (nonlinear_arith)
            requires
                n <= i32::MIN - 1,
                u > 0,
        ;
        assert(2 * ((i32::MIN - 1) * u) + u == (2 * i32::MIN - 1) * u) by (nonlinear_arith);
    }
    if w > 0 && n < 0 {
        assert(n * u <= -u) by (nonlinear_arith)
            requires
                n <= -1,
                u > 0,
        ;
    }
    if w < 0 && n > 0 {
        assert(n * u >= u) by (nonlinear_arith)
            requires
                n >= 1,
                u > 0,
        ;
    }
}

/// A click is a press and then a release, and a press ends with the key down, a
/// release with it up.
pub proof fn law_click_is_press_and_release()
    ensures
        edges_of(Direction::Click) == edges_of(Direction::Press) + edges_of(Direction::Release),
        edges_of(Direction::Press).len() == 1,
        edges_of(Direction::Release).len() == 1,
        edges_of(Direction::Press).last(),
        !edges_of(Direction::Release).last(),
{
    assert(edges_of(Direction::Click) =~= edges_of(Direction::Press) + edges_of(
        Direction::Release,
    ));
}

/// What is left over is at most half a pixel, also where the pixels do not fit, and
/// the rest of the movement is a whole number of pixels. A left-over of nothing is
/// the positive zero, and that of no number is no number.
pub proof fn law_left_over(v: Binary64, rest: Binary64)
    requires
        left_over(v, rest),
    ensures
        v.finite() ==> rest.finite() && -(one() as int) <= 2 * rest.units() <= one()
            && exists|n: int| v.units() == #[trigger] (n * one()) + rest.units(),
        v.finite() && rest.units() == 0 ==> rest.bits == 0,
        !v.finite() ==> rest.nan(),
{
    let w = v.units();
    let u = one() as int;
    law_rounds_to_the_nearest(w);
    law_rounds_to_the_nearest(-w);
    let n = nearest(w);
    if w < 0 {
        assert((-n) * u == -(n * u)) by (nonlinear_arith);
    }
    if v.finite() {
        assert(v.units() == n * one() + rest.units());
    }
}

} // verus!
