//! Pairs of double-precision numbers.
use vstd::arithmetic::power2::pow2;
use vstd::prelude::*;

use crate::binary64::{law_order_is_by_worth, Binary64};

verus! {

/// A vector in the plane.
#[derive(Debug, Clone, Copy, PartialEq, Eq, Structural)]
pub struct Vec2 {
    pub x: Binary64,
    pub y: Binary64,
}

/// The vector whose two numbers are both positive zero.
pub open spec fn origin() -> Vec2 {
    Vec2 { x: Binary64 { bits: 0 }, y: Binary64 { bits: 0 } }
}

impl Vec2 {
    /// Whether both numbers are equal to zero.
    pub open spec fn null(self) -> bool {
        self.x.same(Binary64 { bits: 0 }) && self.y.same(Binary64 { bits: 0 })
    }

    pub fn zero() -> (v: Vec2)
        ensures
            v == origin(),
    {
        Vec2 { x: Binary64::zero(), y: Binary64::zero() }
    }

    pub fn is_zero(self) -> (r: bool)
        ensures
            r == self.null(),
    {
        self.x.equals(Binary64::zero()) && self.y.equals(Binary64::zero())
    }
}

/// A vector is null where both its numbers are worth nothing, whatever their
/// signs, and nowhere else.
pub proof fn law_null_is_worth_nothing(v: Vec2)
    ensures
        v.null() <==> v.x.finite() && v.y.finite() && v.x.units() == 0 && v.y.units() == 0,
        origin().null(),
{
    let z = Binary64 { bits: 0 };
    assert(z.units() == 0) by {
        assert(0 * pow2(0) == 0);
    }
    if v.x.finite() {
        law_order_is_by_worth(v.x, z);
    }
    if v.y.finite() {
        law_order_is_by_worth(v.y, z);
    }
}

} // verus!
