//! Double-precision numbers as their bit patterns: what they are worth, how
//! they compare, and how they round to whole numbers.
use vstd::arithmetic::power2::{
    lemma2_to64, lemma2_to64_rest, lemma_pow2_adds, lemma_pow2_pos, lemma_pow2_strictly_increases,
    pow2,
};
use vstd::bits::lemma_u64_shl_is_mul;
use vstd::prelude::*;

verus! {

/// The sign bit alone.
pub const SIGN_BIT: u64 = 0x8000_0000_0000_0000;

/// Positive infinity. A payload above it is no number.
pub const INFINITY_BITS: u64 = 0x7ff0_0000_0000_0000;

/// A quiet not-a-number.
pub const NAN_BITS: u64 = 0x7ff8_0000_0000_0000;

/// The leading bit of a normal significand, and the weight of the exponent.
pub const LEADING_BIT: u64 = 0x0010_0000_0000_0000;

/// The smallest positive number is `2^-UNIT_EXPONENT`.
pub const UNIT_EXPONENT: u64 = 1074;

/// A double-precision number, given by its bits.
#[derive(Debug, Clone, Copy, PartialEq, Eq, Structural)]
pub struct Binary64 {
    pub bits: u64,
}

/// One, counted in the smallest positive number.
pub open spec fn one() -> nat {
    pow2(UNIT_EXPONENT as nat)
}

/// The whole number nearest to `v / one()`; halfway cases go away from zero.
pub open spec fn nearest(v: int) -> int {
    if v >= 0 {
        (2 * v + one() as int) / (2 * one() as int)
    } else {
        -((-2 * v + one() as int) / (2 * one() as int))
    }
}

impl Binary64 {
    pub open spec fn negative(self) -> bool {
        self.bits >= SIGN_BIT
    }

    /// The bits without the sign.
    pub open spec fn payload(self) -> nat {
        if self.negative() {
            (self.bits - SIGN_BIT) as nat
        } else {
            self.bits as nat
        }
    }

    pub open spec fn nan(self) -> bool {
        self.payload() > INFINITY_BITS
    }

    pub open spec fn finite(self) -> bool {
        self.payload() < INFINITY_BITS
    }

    /// The integer by which numbers, infinities among them, are ordered.
    pub open spec fn order_key(self) -> int {
        if self.negative() {
            -(self.payload() as int)
        } else {
            self.payload() as int
        }
    }

    /// `self < other` on numbers: false where either is none.
    pub open spec fn less(self, other: Binary64) -> bool {
        !self.nan() && !other.nan() && self.order_key() < other.order_key()
    }

    /// `self == other` on numbers: the two zeros are equal, and what is no
    /// number equals nothing.
    pub open spec fn same(self, other: Binary64) -> bool {
        !self.nan() && !other.nan() && self.order_key() == other.order_key()
    }

    /// The larger of two numbers, or the one that is a number.
    pub open spec fn larger(self, other: Binary64) -> Binary64 {
        if self.nan() || self.less(other) {
            other
        } else {
            self
        }
    }

    /// The smaller of two numbers, or the one that is a number.
    pub open spec fn smaller(self, other: Binary64) -> Binary64 {
        if self.nan() || other.less(self) {
            other
        } else {
            self
        }
    }

    pub open spec fn exponent(self) -> nat {
        self.payload() / (LEADING_BIT as nat)
    }

    pub open spec fn significand(self) -> nat {
        if self.exponent() == 0 {
            self.payload()
        } else {
            (self.payload() % (LEADING_BIT as nat)) + LEADING_BIT as nat
        }
    }

    /// The power of two that the significand is multiplied by.
    pub open spec fn scale(self) -> nat {
        if self.exponent() == 0 {
            0
        } else {
            (self.exponent() - 1) as nat
        }
    }

    /// What a finite number is worth, counted in the smallest positive number.
    pub open spec fn units(self) -> int {
        if self.negative() {
            -((self.significand() * pow2(self.scale())) as int)
        } else {
            (self.significand() * pow2(self.scale())) as int
        }
    }

    pub fn zero() -> (z: Binary64)
        ensures
            z.bits == 0,
    {
        Binary64 { bits: 0 }
    }

    pub fn is_nan(self) -> (r: bool)
        ensures
            r == self.nan(),
    {
        self.payload_bits() > INFINITY_BITS
    }

    pub fn is_finite(self) -> (r: bool)
        ensures
            r == self.finite(),
    {
        self.payload_bits() < INFINITY_BITS
    }

    fn payload_bits(self) -> (p: u64)
        ensures
            p == self.payload(),
            p < SIGN_BIT,
    {
        if self.bits >= SIGN_BIT {
            self.bits - SIGN_BIT
        } else {
            self.bits
        }
    }

    pub fn lt(self, other: Binary64) -> (r: bool)
        ensures
            r == self.less(other),
    {
        if self.is_nan() || other.is_nan() {
            false
        } else if self.bits >= SIGN_BIT {
            if other.bits >= SIGN_BIT {
                self.bits > other.bits
            } else {
                self.bits > SIGN_BIT || other.bits > 0
            }
        } else {
            other.bits < SIGN_BIT && self.bits < other.bits
        }
    }

    /// `self == other` as numbers.
    pub fn equals(self, other: Binary64) -> (r: bool)
        ensures
            r == self.same(other),
    {
        !self.is_nan() && !other.is_nan() && (self.bits == other.bits || (self.payload_bits() == 0
            && other.payload_bits() == 0))
    }

    /// `self >= other`.
    pub fn at_least(self, other: Binary64) -> (r: bool)
        ensures
            r == (other.less(self) || other.same(self)),
    {
        other.lt(self) || other.equals(self)
    }

    pub fn max(self, other: Binary64) -> (r: Binary64)
        ensures
            r == self.larger(other),
    {
        if self.is_nan() || self.lt(other) {
            other
        } else {
            self
        }
    }

    pub fn min(self, other: Binary64) -> (r: Binary64)
        ensures
            r == self.smaller(other),
    {
        if self.is_nan() || other.lt(self) {
            other
        } else {
            self
        }
    }

    /// The number worth `significand * 2^scale` units.
    fn encode(negative: bool, significand: u64, scale: u64) -> (r: Binary64)
        requires
            significand < 2 * LEADING_BIT,
            scale < 2046,
        ensures
            r.finite(),
            r.units() == if negative {
                -((significand * pow2(scale as nat)) as int)
            } else {
                (significand * pow2(scale as nat)) as int
            },
            r.units() == 0 ==> r.bits == 0,
    {
        if significand == 0 {
            proof {
                lemma_zero_units();
                assert(0 * pow2(scale as nat) == 0);
            }
            return Binary64 { bits: 0 };
        }
        let mut m: u64 = significand;
        let mut e: u64 = scale;
        while m < LEADING_BIT && e > 0
            invariant
                0 < m < 2 * LEADING_BIT,
                e <= scale < 2046,
                m * pow2(e as nat) == significand * pow2(scale as nat),
            decreases e,
        {
            proof {
                lemma_pow2_adds(1, (e - 1) as nat);
                lemma2_to64();
                let rest = pow2((e - 1) as nat);
                assert((m * 2) * rest == m * (2 * rest)) by (nonlinear_arith);
            }
            m = m * 2;
            e = e - 1;
        }
        let payload: u64 = if m >= LEADING_BIT {
            (e + 1) * LEADING_BIT + (m - LEADING_BIT)
        } else {
            m
        };
        let r = Binary64 { bits: if negative { payload + SIGN_BIT } else { payload } };
        proof {
            assert(r.payload() == payload);
            if m >= LEADING_BIT {
                assert(payload as nat / LEADING_BIT as nat == (e + 1) as nat && payload as nat
                    % LEADING_BIT as nat == (m - LEADING_BIT) as nat) by {
                    vstd::arithmetic::div_mod::lemma_fundamental_div_mod_converse(
                        payload as int,
                        LEADING_BIT as int,
                        (e + 1) as int,
                        (m - LEADING_BIT) as int,
                    );
                }
            } else {
                assert(e == 0);
            }
            lemma_positive(significand as nat, scale as nat);
        }
        r
    }

    /// Rounds to a whole number, halfway cases away from zero, and returns it
    /// with what is left over, which is the positive zero where it is zero. The
    /// whole number is absent where it is beyond `i32`, or where there is none.
    pub fn round_off(self) -> (r: (Option<i32>, Binary64))
        ensures
            self.finite() ==> {
                let n = nearest(self.units());
                &&& r.0 == if i32::MIN <= n <= i32::MAX { Some(n as i32) } else { None }
                &&& r.1.finite()
                &&& r.1.units() == self.units() - n * one()
                &&& r.1.units() == 0 ==> r.1.bits == 0
            },
            !self.finite() ==> r.0 is None && r.1.nan(),
    {
        if !self.is_finite() {
            return (None, Binary64 { bits: NAN_BITS });
        }
        let payload: u64 = self.payload_bits();
        let exponent: u64 = payload / LEADING_BIT;
        let (significand, scale): (u64, u64) = if exponent == 0 {
            (payload, 0)
        } else {
            (payload % LEADING_BIT + LEADING_BIT, exponent - 1)
        };
        let negative = self.bits >= SIGN_BIT;
        let ghost mag = significand * pow2(scale as nat);
        proof {
            assert(self.units() == if negative { -(mag as int) } else { mag as int });
            lemma_pow2_pos(scale as nat);
            assert(mag >= 0) by (nonlinear_arith)
                requires
                    mag == significand * pow2(scale as nat),
            ;
        }
        if scale >= UNIT_EXPONENT {
            proof {
                lemma_whole(significand as nat, scale as nat);
                lemma_zero_units();
            }
            return (None, Binary64 { bits: 0 });
        }
        let shift: u64 = UNIT_EXPONENT - scale;
        if shift > 53 {
            proof {
                lemma_below_half(significand as nat, scale as nat);
            }
            if significand == 0 {
                proof {
                    lemma_zero_units();
                    assert(0 * pow2(scale as nat) == 0);
                    assert(0 * one() == 0);
                }
                return (Some(0), Binary64 { bits: 0 });
            }
            proof {
                assert(0 * one() == 0);
                lemma_positive(significand as nat, scale as nat);
            }
            return (Some(0), self);
        }
        proof {
            lemma2_to64();
            lemma2_to64_rest();
            lemma_pow2_strictly_increases((shift - 1) as nat, 53);
            if shift < 53 {
                lemma_pow2_strictly_increases(shift as nat, 53);
            }
            lemma_u64_shl_is_mul(1, shift);
            lemma_pow2_adds(1, (shift - 1) as nat);
            lemma_pow2_pos((shift - 1) as nat);
        }
        let whole: u64 = 1u64 << shift;
        let half: u64 = whole / 2;
        let n: u64 = (significand + half) / whole;
        proof {
            lemma_rounds(significand as nat, scale as nat, n as nat);
            vstd::arithmetic::div_mod::lemma_fundamental_div_mod(
                significand as int + half as int,
                whole as int,
            );
            assert(n * whole <= significand + half) by (nonlinear_arith)
                requires
                    significand + half == whole * (n as int) + (significand + half) % whole as int,
                    (significand + half) % whole as int >= 0,
            ;
            assert(n * whole > significand + half - whole) by (nonlinear_arith)
                requires
                    significand + half == whole * (n as int) + (significand + half) % whole as int,
                    (significand + half) % (whole as int) < whole,
            ;
        }
        let taken: u64 = n * whole;
        let rest = if taken <= significand {
            Binary64::encode(negative, significand - taken, scale)
        } else {
            Binary64::encode(!negative, taken - significand, scale)
        };
        proof {
            lemma_pow2_adds(shift as nat, scale as nat);
            let p = pow2(scale as nat) as int;
            assert(taken as int * p == n as int * one() as int) by (nonlinear_arith)
                requires
                    taken == n * whole,
                    one() == whole * p,
            ;
            assert((significand - taken) * p == significand * p - taken * p) by (nonlinear_arith);
            assert((taken - significand) * p == taken * p - significand * p) by (nonlinear_arith);
            assert((-(n as int)) * one() == -(n as int * one())) by (nonlinear_arith);
        }
        let pixels: Option<i32> = if negative {
            if n <= 0x8000_0000 {
                Some((-(n as i64)) as i32)
            } else {
                None
            }
        } else {
            if n <= 0x7fff_ffff {
                Some(n as i32)
            } else {
                None
            }
        };
        (pixels, rest)
    }
}

proof fn lemma_positive(significand: nat, scale: nat)
    requires
        significand > 0,
    ensures
        significand * pow2(scale) > 0,
{
    lemma_pow2_pos(scale);
    assert(significand * pow2(scale) > 0) by (nonlinear_arith)
        requires
            significand > 0,
            pow2(scale) > 0,
    ;
}

/// A number of `2^scale` or more times one is whole, and beyond `i32`.
proof fn lemma_whole(significand: nat, scale: nat)
    requires
        LEADING_BIT <= significand,
        scale >= UNIT_EXPONENT,
    ensures
        ({
            let mag = (significand * pow2(scale)) as int;
            let n = nearest(mag);
            &&& n * one() == mag
            &&& n >= LEADING_BIT
            &&& nearest(-mag) == -n
            &&& (-n) * one() == -mag
        }),
{
    let extra = (scale - UNIT_EXPONENT) as nat;
    lemma_pow2_adds(extra, UNIT_EXPONENT as nat);
    lemma_pow2_pos(extra);
    lemma_pow2_pos(UNIT_EXPONENT as nat);
    let u = one() as int;
    let k = (significand * pow2(extra)) as int;
    let mag = (significand * pow2(scale)) as int;
    assert(mag == k * u) by (nonlinear_arith)
        requires
            mag == significand * pow2(scale),
            pow2(scale) == pow2(extra) * u,
            k == significand * pow2(extra),
    ;
    assert(k >= LEADING_BIT) by (nonlinear_arith)
        requires
            k == significand * pow2(extra),
            significand >= LEADING_BIT,
            pow2(extra) >= 1,
    ;
    assert(mag > 0) by (nonlinear_arith)
        requires
            mag == k * u,
            k >= 1,
            u >= 1,
    ;
    assert(2 * mag + u == k * (2 * u) + u) by (nonlinear_arith)
        requires
            mag == k * u,
    ;
    vstd::arithmetic::div_mod::lemma_fundamental_div_mod_converse(2 * mag + u, 2 * u, k, u);
    assert((-k) * u == -(k * u)) by (nonlinear_arith);
}

/// A number below a half rounds to zero.
proof fn lemma_below_half(significand: nat, scale: nat)
    requires
        significand < 2 * LEADING_BIT,
        scale + 53 < UNIT_EXPONENT,
    ensures
        nearest((significand * pow2(scale)) as int) == 0,
        nearest(-((significand * pow2(scale)) as int)) == 0,
{
    let shift = (UNIT_EXPONENT - scale) as nat;
    let p = pow2(scale) as int;
    let u = one() as int;
    lemma2_to64_rest();
    lemma_pow2_pos(scale);
    lemma_pow2_adds(shift, scale);
    if shift > 54 {
        lemma_pow2_strictly_increases(54, shift);
    }
    let mag = significand * p;
    assert(0 <= 2 * mag < u) by (nonlinear_arith)
        requires
            mag == significand * p,
            significand < 0x20_0000_0000_0000,
            pow2(shift) >= 0x40_0000_0000_0000,
            u == pow2(shift) * p,
            p > 0,
    ;
    vstd::arithmetic::div_mod::lemma_basic_div(2 * mag + u, 2 * u);
}

/// Rounding the significand alone rounds the number.
proof fn lemma_rounds(significand: nat, scale: nat, n: nat)
    requires
        1 <= UNIT_EXPONENT - scale <= 53,
        n == (significand + pow2((UNIT_EXPONENT - scale) as nat) / 2) / pow2(
            (UNIT_EXPONENT - scale) as nat,
        ),
    ensures
        nearest((significand * pow2(scale)) as int) == n,
        nearest(-((significand * pow2(scale)) as int)) == -n,
{
    let shift = (UNIT_EXPONENT - scale) as nat;
    let p = pow2(scale) as int;
    let w = pow2(shift) as int;
    let u = one() as int;
    let mag = significand as int * p;
    lemma_pow2_adds(shift, scale);
    lemma_pow2_adds(1, (shift - 1) as nat);
    lemma2_to64();
    lemma_pow2_pos(scale);
    lemma_pow2_pos((shift - 1) as nat);
    let h = pow2((shift - 1) as nat) as int;
    assert(w == 2 * h);
    let r = (significand + h) % w;
    vstd::arithmetic::div_mod::lemma_fundamental_div_mod(significand + h, w);
    assert(significand + h == w * n + r);
    assert(2 * mag + u == n * (2 * u) + (2 * r) * p) by (nonlinear_arith)
        requires
            significand + h == w * n + r,
            w == 2 * h,
            u == w * p,
            mag == significand * p,
    ;
    assert(0 <= (2 * r) * p < 2 * u) by (nonlinear_arith)
        requires
            0 <= r < w,
            u == w * p,
            p > 0,
    ;
    vstd::arithmetic::div_mod::lemma_fundamental_div_mod_converse(
        2 * mag + u,
        2 * u,
        n as int,
        (2 * r) * p,
    );
    assert(mag >= 0) by (nonlinear_arith)
        requires
            mag == significand * p,
            p > 0,
    ;
    if mag == 0 {
        lemma_pow2_pos(UNIT_EXPONENT as nat);
        vstd::arithmetic::div_mod::lemma_basic_div(u, 2 * u);
    }
}

proof fn lemma_zero_units()
    ensures
        (Binary64 { bits: 0 }).finite(),
        (Binary64 { bits: 0 }).units() == 0,
{
    assert(0 * pow2(0) == 0);
}

/// On finite numbers the comparison of bit patterns is the comparison of what
/// the numbers are worth.
pub proof fn law_order_is_by_worth(a: Binary64, b: Binary64)
    requires
        a.finite(),
        b.finite(),
    ensures
        a.less(b) <==> a.units() < b.units(),
        a.same(b) <==> a.units() == b.units(),
{
    lemma_magnitude_order(a, b);
    lemma_magnitude_order(b, a);
    lemma_magnitude_positive(a);
    lemma_magnitude_positive(b);
}

proof fn lemma_magnitude_positive(a: Binary64)
    ensures
        a.payload() == 0 ==> a.significand() * pow2(a.scale()) == 0,
        a.payload() > 0 ==> a.significand() * pow2(a.scale()) > 0,
{
    lemma_pow2_pos(a.scale());
    let s = a.significand();
    let p = pow2(a.scale());
    assert(s == 0 ==> s * p == 0) by (nonlinear_arith);
    assert(s > 0 ==> s * p > 0) by (nonlinear_arith)
        requires
            p > 0,
    ;
}

proof fn lemma_magnitude_order(a: Binary64, b: Binary64)
    ensures
        a.payload() < b.payload() ==> a.significand() * pow2(a.scale()) < b.significand() * pow2(
            b.scale(),
        ),
        a.payload() == b.payload() ==> a.significand() * pow2(a.scale()) == b.significand() * pow2(
            b.scale(),
        ),
{
    if a.payload() < b.payload() {
        let (s, t) = (a.significand() as int, b.significand() as int);
        let (p, q) = (pow2(a.scale()) as int, pow2(b.scale()) as int);
        lemma_pow2_pos(a.scale());
        lemma_pow2_pos(b.scale());
        vstd::arithmetic::div_mod::lemma_div_is_ordered(
            a.payload() as int,
            b.payload() as int,
            LEADING_BIT as int,
        );
        assert(a.exponent() <= b.exponent());
        if a.scale() == b.scale() {
            assert(s < t);
            assert(s * p < t * q) by (nonlinear_arith)
                requires
                    s < t,
                    p == q,
                    p > 0,
            ;
        } else {
            let d = (b.scale() - a.scale()) as nat;
            lemma_pow2_adds(d, a.scale());
            lemma2_to64();
            if d > 1 {
                lemma_pow2_strictly_increases(1, d);
            }
            let f = pow2(d) as int;
            assert(s < 2 * LEADING_BIT && t >= LEADING_BIT);
            assert(s * p < t * q) by (nonlinear_arith)
                requires
                    0 <= s < 2 * LEADING_BIT,
                    t >= LEADING_BIT,
                    q == f * p,
                    f >= 2,
                    p > 0,
            ;
        }
    }
}

/// The larger of two numbers is worth the most of them and the smaller the
/// least, each is one of the two, and what is no number gives way to the other.
pub proof fn law_larger_and_smaller(a: Binary64, b: Binary64)
    ensures
        a.larger(b) == a || a.larger(b) == b,
        a.smaller(b) == a || a.smaller(b) == b,
        a.finite() && b.finite() ==> a.larger(b).units() >= a.units() && a.larger(b).units()
            >= b.units() && a.smaller(b).units() <= a.units() && a.smaller(b).units() <= b.units(),
        a.nan() ==> a.larger(b) == b && a.smaller(b) == b,
        !a.nan() && b.nan() ==> a.larger(b) == a && a.smaller(b) == a,
        !a.nan() && !b.nan() ==> !a.larger(b).less(a) && !a.larger(b).less(b) && !a.less(
            a.smaller(b),
        ) && !b.less(a.smaller(b)),
{
    if a.finite() && b.finite() {
        law_order_is_by_worth(a, b);
        law_order_is_by_worth(b, a);
    }
}

/// What is no number compares with nothing, itself among it; every finite number
/// lies between the two infinities; and of two numbers exactly one of less, same
/// and greater holds.
pub proof fn law_order_is_total_on_numbers(a: Binary64, b: Binary64)
    ensures
        a.bits == INFINITY_BITS && b.finite() ==> b.less(a) && !a.less(b) && !a.same(b),
        a.bits == INFINITY_BITS + SIGN_BIT && b.finite() ==> a.less(b) && !b.less(a) && !a.same(b),
        a.nan() || b.nan() ==> !a.less(b) && !a.same(b),
        !a.nan() && !b.nan() ==> (a.less(b) || a.same(b) || b.less(a)),
        a.less(b) ==> !b.less(a) && !a.same(b),
        a.same(b) ==> b.same(a) && !a.less(b),
        a.same(a) <==> !a.nan(),
{
}

/// Turning the sign round turns the worth round.
pub proof fn law_sign_turns_the_worth(a: Binary64)
    requires
        a.bits < SIGN_BIT,
    ensures
        (Binary64 { bits: (a.bits + SIGN_BIT) as u64 }).units() == -a.units(),
        a.units() >= 0,
{
    lemma_magnitude_positive(a);
    assert((Binary64 { bits: (a.bits + SIGN_BIT) as u64 }).payload() == a.payload());
}

/// The next exponent is worth twice as much.
pub proof fn law_next_exponent_doubles(a: Binary64)
    requires
        a.bits < SIGN_BIT,
        a.bits >= LEADING_BIT,
        a.bits + 2 * LEADING_BIT <= INFINITY_BITS,
    ensures
        (Binary64 { bits: (a.bits + LEADING_BIT) as u64 }).units() == 2 * a.units(),
{
    let b = Binary64 { bits: (a.bits + LEADING_BIT) as u64 };
    let d = LEADING_BIT as int;
    let q = a.payload() as int / d;
    let r = a.payload() as int % d;
    vstd::arithmetic::div_mod::lemma_fundamental_div_mod(a.payload() as int, d);
    assert(b.payload() == d * (q + 1) + r) by (nonlinear_arith)
        requires
            b.payload() == a.payload() + d,
            a.payload() == d * q + r,
    ;
    vstd::arithmetic::div_mod::lemma_fundamental_div_mod_converse(
        b.payload() as int,
        d,
        q + 1,
        r,
    );
    vstd::arithmetic::div_mod::lemma_div_is_ordered(d, a.payload() as int, d);
    assert(q >= 1);
    lemma_pow2_adds(1, a.scale());
    lemma2_to64();
    let s = a.significand();
    let p = pow2(a.scale());
    assert(b.significand() == s);
    assert(b.scale() == a.scale() + 1);
    assert(s * (2 * p) == 2 * (s * p)) by (nonlinear_arith);
}

/// Rounding is to the nearest whole number, away from zero at halfway, and the
/// same on both sides of zero.
pub proof fn law_rounds_to_the_nearest(v: int)
    ensures
        nearest(-v) == -nearest(v),
        v >= 0 ==> -(one() as int) <= 2 * (v - nearest(v) * one()) < one(),
        nearest(0) == 0,
{
    lemma_pow2_pos(UNIT_EXPONENT as nat);
    let u = one() as int;
    let m = if v >= 0 { v } else { -v };
    let n = (2 * m + u) / (2 * u);
    let r = (2 * m + u) % (2 * u);
    vstd::arithmetic::div_mod::lemma_fundamental_div_mod(2 * m + u, 2 * u);
    assert(2 * m + u == 2 * (n * u) + r) by (nonlinear_arith)
        requires
            2 * m + u == (2 * u) * n + r,
    ;
    vstd::arithmetic::div_mod::lemma_basic_div(u, 2 * u);
}

} // verus!
