//! Filtering of gyro samples: which filters apply, what the smoothing buffer
//! holds, and the slow-speed precision mode.
use std::collections::VecDeque;

use vstd::arithmetic::power2::{lemma2_to64_rest, lemma_pow2_adds, lemma_pow2_pos, pow2};
use vstd::prelude::*;

use crate::binary64::{
    law_order_is_by_worth, one, Binary64, INFINITY_BITS, LEADING_BIT, SIGN_BIT, UNIT_EXPONENT,
};
use crate::config::GyroSettings;
use crate::time::{Duration, MAX_NANOS};
use crate::vector::Vec2;

verus! {

/// The number one.
pub const ONE_BITS: u64 = 0x3ff0_0000_0000_0000;

/// Precision mode: a hysteresis on the angular speed. Slow motion turns it on,
/// fast motion turns it off.
#[derive(Debug, Clone, Copy)]
pub struct PrecisionMode {
    pub active: bool,
}

pub open spec fn zero() -> Binary64 {
    Binary64 { bits: 0 }
}

/// The speed below which precision mode turns on.
pub open spec fn enter_speed(settings: GyroSettings) -> Binary64 {
    settings.precision_enter_speed.larger(zero())
}

/// The speed above which precision mode turns off, never below the other.
pub open spec fn exit_speed(settings: GyroSettings) -> Binary64 {
    settings.precision_exit_speed.larger(enter_speed(settings))
}

/// Whether precision mode is on after a sample of this speed.
pub open spec fn precise_after(active: bool, settings: GyroSettings, speed: Binary64) -> bool {
    &&& settings.precision_enabled
    &&& if active {
        !exit_speed(settings).less(speed.larger(zero()))
    } else {
        speed.larger(zero()).less(enter_speed(settings))
    }
}

impl Default for PrecisionMode {
    fn default() -> (p: Self)
        ensures
            !p.active,
    {
        PrecisionMode { active: false }
    }
}

impl PrecisionMode {
    /// Whether precision mode would be on after a sample of this speed.
    pub fn after(&self, settings: &GyroSettings, speed: Binary64) -> (active: bool)
        ensures
            active == precise_after(self.active, *settings, speed),
    {
        if !settings.precision_enabled {
            return false;
        }
        let speed = speed.max(Binary64::zero());
        let enter = settings.precision_enter_speed.max(Binary64::zero());
        let exit = settings.precision_exit_speed.max(enter);
        if self.active {
            !exit.lt(speed)
        } else {
            speed.lt(enter)
        }
    }

    /// Takes in the angular speed of a sample, and returns whether precision
    /// mode is on.
    pub fn update(&mut self, settings: &GyroSettings, speed: Binary64) -> (active: bool)
        ensures
            active == precise_after(old(self).active, *settings, speed),
            final(self).active == active,
    {
        self.active = self.after(settings, speed);
        self.active
    }
}

/// How a sample is to be filtered.
#[derive(Debug, Clone, Copy, PartialEq, Eq, Structural)]
pub struct FilterPlan {
    /// Whether the gain is lowered.
    pub precise: bool,
    /// The upper threshold of tiered smoothing, where it applies.
    pub smooth: Option<Binary64>,
    /// The speed below which slow motion is tightened, where it applies.
    pub tighten: Option<Binary64>,
}

/// A threshold, where it is above zero.
pub open spec fn positive(threshold: Binary64) -> Option<Binary64> {
    if zero().less(threshold) {
        Some(threshold)
    } else {
        None
    }
}

pub open spec fn plan_for(
    precise: bool,
    settings: GyroSettings,
    boosted_smooth: Binary64,
    boosted_cutoff: Binary64,
) -> FilterPlan {
    FilterPlan {
        precise,
        smooth: positive(
            if precise {
                boosted_smooth
            } else {
                settings.smooth_threshold
            },
        ),
        tighten: positive(
            if precise {
                boosted_cutoff
            } else {
                settings.cutoff_recovery
            },
        ),
    }
}

/// The filters' state.
#[derive(Debug)]
pub struct GyroMouse {
    /// The latest samples, newest first.
    pub smooth_buffer: VecDeque<Vec2>,
    pub precision: PrecisionMode,
}

impl Default for GyroMouse {
    fn default() -> (g: Self)
        ensures
            g.smooth_buffer@ == Seq::<Vec2>::empty(),
            !g.precision.active,
    {
        GyroMouse { smooth_buffer: VecDeque::new(), precision: PrecisionMode::default() }
    }
}

impl GyroMouse {
    /// Takes in the angular speed of a sample and says how to filter it.
    /// `boosted_smooth` and `boosted_cutoff` are the smoothing threshold and
    /// the cutoff recovery times the precision boost. Tightening goes with a
    /// cutoff speed of zero only.
    pub fn plan(
        &mut self,
        settings: &GyroSettings,
        speed: Binary64,
        boosted_smooth: Binary64,
        boosted_cutoff: Binary64,
    ) -> (plan: FilterPlan)
        requires
            plan_for(
                precise_after(old(self).precision.active, *settings, speed),
                *settings,
                boosted_smooth,
                boosted_cutoff,
            ).tighten is Some ==> settings.cutoff_speed.same(zero()),
        ensures
            plan == plan_for(
                precise_after(old(self).precision.active, *settings, speed),
                *settings,
                boosted_smooth,
                boosted_cutoff,
            ),
            plan.smooth matches Some(t) ==> t == if plan.precise {
                boosted_smooth
            } else {
                settings.smooth_threshold
            },
            plan.smooth is None ==> !zero().less(
                if plan.precise {
                    boosted_smooth
                } else {
                    settings.smooth_threshold
                },
            ),
            plan.tighten matches Some(t) ==> t == if plan.precise {
                boosted_cutoff
            } else {
                settings.cutoff_recovery
            },
            plan.tighten is None ==> !zero().less(
                if plan.precise {
                    boosted_cutoff
                } else {
                    settings.cutoff_recovery
                },
            ),
            final(self).precision.active == plan.precise,
            final(self).smooth_buffer@ == old(self).smooth_buffer@,
    {
        let precise = self.precision.update(settings, speed);
        let smooth = if precise {
            boosted_smooth
        } else {
            settings.smooth_threshold
        };
        let cutoff = if precise {
            boosted_cutoff
        } else {
            settings.cutoff_recovery
        };
        FilterPlan {
            precise,
            smooth: if Binary64::zero().lt(smooth) {
                Some(smooth)
            } else {
                None
            },
            tighten: if Binary64::zero().lt(cutoff) {
                Some(cutoff)
            } else {
                None
            },
        }
    }

    /// Puts a sample into the smoothing buffer, and drops the oldest ones as
    /// long as the samples, `dt` each, cover more than `smooth_time`. Where one
    /// sample alone covers more, none is left.
    pub fn smooth(&mut self, settings: &GyroSettings, rot: Vec2, dt: Duration)
        requires
            old(self).smooth_buffer@.len() < u32::MAX,
            (old(self).smooth_buffer@.len() + 1) * dt@ <= MAX_NANOS,
        ensures
            ({
                let all = seq![rot] + old(self).smooth_buffer@;
                let kept = final(self).smooth_buffer@;
                &&& kept.len() <= all.len()
                &&& kept == all.take(kept.len() as int)
                &&& kept.len() * dt@ <= settings.smooth_time@
                &&& kept.len() < all.len() ==> (kept.len() + 1) * dt@ > settings.smooth_time@
            }),
            final(self).precision == old(self).precision,
    {
        let ghost all = seq![rot] + self.smooth_buffer@;
        self.smooth_buffer.push_front(rot);
        proof {
            assert(self.smooth_buffer@ =~= all);
            assert(all.take(all.len() as int) =~= all);
        }
        loop
            invariant
                all.len() <= u32::MAX,
                all.len() * dt@ <= MAX_NANOS,
                self.smooth_buffer@.len() <= all.len(),
                self.smooth_buffer@ == all.take(self.smooth_buffer@.len() as int),
                self.smooth_buffer@.len() < all.len() ==> (self.smooth_buffer@.len() + 1) * dt@
                    > settings.smooth_time@,
                self.precision == old(self).precision,
            ensures
                self.smooth_buffer@.len() * dt@ <= settings.smooth_time@,
            decreases self.smooth_buffer@.len(),
        {
            let len: usize = self.smooth_buffer.len();
            proof {
                assert(len * dt@ <= all.len() * dt@) by (nonlinear_arith)
                    requires
                        len <= all.len(),
                ;
            }
            let covered = dt.times(len as u32);
            if settings.smooth_time.at_least(covered) {
                proof {
                    assert(len * dt@ == dt@ * len) by (nonlinear_arith);
                }
                break ;
            }
            proof {
                assert(0 * dt@ == 0);
                assert(dt@ * len == len * dt@) by (nonlinear_arith);
                assert(all.take(len as int).drop_last() =~= all.take(len - 1));
            }
            self.smooth_buffer.pop_back();
        }
    }
}

/// The signs that the two axes are multiplied by.
pub fn get_sign(settings: &GyroSettings) -> (sign: (i8, i8))
    ensures
        sign.0 == if settings.invert.0 { -1int } else { 1 },
        sign.1 == if settings.invert.1 { -1int } else { 1 },
{
    (
        if settings.invert.0 {
            -1
        } else {
            1
        },
        if settings.invert.1 {
            -1
        } else {
            1
        },
    )
}

/// A mixing factor, brought into the range from zero to one.
pub fn unit_clamp(factor: Binary64) -> (r: Binary64)
    ensures
        r == factor.larger(zero()).smaller(Binary64 { bits: ONE_BITS }),
{
    factor.max(Binary64::zero()).min(Binary64 { bits: ONE_BITS })
}

/// Whether tightening scales a sample down: whether it is below the cutoff.
pub fn tightens(magnitude: Binary64, cutoff_recovery: Binary64) -> (r: bool)
    ensures
        r == magnitude.less(cutoff_recovery),
{
    magnitude.lt(cutoff_recovery)
}

/// Whether the sensitivity depends on the speed: whether a slow sensitivity is
/// set, that is, its squared length is above zero.
pub fn accelerates(slow_sens_magnitude2: Binary64) -> (r: bool)
    ensures
        r == zero().less(slow_sens_magnitude2),
{
    Binary64::zero().lt(slow_sens_magnitude2)
}

/// Switched off, precision mode is never on.
pub proof fn law_disabled_is_never_precise(active: bool, settings: GyroSettings, speed: Binary64)
    requires
        !settings.precision_enabled,
    ensures
        !precise_after(active, settings, speed),
{
}

/// From the enter speed to the exit speed, both included, precision mode stays
/// as it is.
pub proof fn law_band_holds_precision(active: bool, settings: GyroSettings, speed: Binary64)
    requires
        settings.precision_enabled,
        !speed.larger(zero()).less(enter_speed(settings)),
        !exit_speed(settings).less(speed.larger(zero())),
    ensures
        precise_after(active, settings, speed) == active,
{
}

/// Below the enter speed precision mode is on, above the exit speed it is off,
/// wherever it stood; no speed is both, however the two are set.
pub proof fn law_precision_outside_the_band(active: bool, settings: GyroSettings, speed: Binary64)
    requires
        settings.precision_enabled,
    ensures
        speed.larger(zero()).less(enter_speed(settings)) ==> precise_after(active, settings, speed),
        exit_speed(settings).less(speed.larger(zero())) ==> !precise_after(active, settings, speed),
        !(speed.larger(zero()).less(enter_speed(settings)) && exit_speed(settings).less(
            speed.larger(zero()),
        )),
{
}

/// Precision mode switches no filter on that is off: where the base threshold
/// is zero and the boost leaves it zero, the filter stays off.
pub proof fn law_precision_enables_no_filter(
    precise: bool,
    settings: GyroSettings,
    boosted_smooth: Binary64,
    boosted_cutoff: Binary64,
)
    requires
        settings.smooth_threshold.same(zero()) ==> boosted_smooth.same(zero()),
        settings.cutoff_recovery.same(zero()) ==> boosted_cutoff.same(zero()),
    ensures
        ({
            let plan = plan_for(precise, settings, boosted_smooth, boosted_cutoff);
            &&& settings.smooth_threshold.same(zero()) ==> plan.smooth is None
            &&& settings.cutoff_recovery.same(zero()) ==> plan.tighten is None
        }),
{
}

/// What a threshold is worth, where it counts: nothing below zero.
pub open spec fn worth(v: Binary64) -> int {
    if v.units() > 0 {
        v.units()
    } else {
        0
    }
}

proof fn lemma_worth(v: Binary64)
    requires
        v.finite(),
    ensures
        v.larger(zero()).finite(),
        v.larger(zero()).units() == worth(v),
{
    assert(zero().units() == 0) by {
        assert(0 * pow2(0) == 0);
    }
    law_order_is_by_worth(v, zero());
}

/// Each filter goes by its own threshold alone, boosted in precision mode: it
/// applies exactly where that threshold is above zero, with that threshold. The
/// other filter's threshold has no say in it.
pub proof fn law_each_filter_has_its_own_threshold(
    precise: bool,
    settings: GyroSettings,
    boosted_smooth: Binary64,
    boosted_cutoff: Binary64,
)
    ensures
        ({
            let plan = plan_for(precise, settings, boosted_smooth, boosted_cutoff);
            let smooth = if precise { boosted_smooth } else { settings.smooth_threshold };
            let cutoff = if precise { boosted_cutoff } else { settings.cutoff_recovery };
            &&& plan.precise == precise
            &&& plan.smooth matches Some(t) ==> t == smooth
            &&& plan.tighten matches Some(t) ==> t == cutoff
            &&& smooth.finite() ==> (plan.smooth is Some <==> smooth.units() > 0)
            &&& cutoff.finite() ==> (plan.tighten is Some <==> cutoff.units() > 0)
            &&& smooth.nan() ==> plan.smooth is None
            &&& cutoff.nan() ==> plan.tighten is None
            &&& smooth.bits == INFINITY_BITS ==> plan.smooth is Some
            &&& cutoff.bits == INFINITY_BITS ==> plan.tighten is Some
            &&& smooth.bits == INFINITY_BITS + SIGN_BIT ==> plan.smooth is None
            &&& cutoff.bits == INFINITY_BITS + SIGN_BIT ==> plan.tighten is None
        }),
{
    let smooth = if precise { boosted_smooth } else { settings.smooth_threshold };
    let cutoff = if precise { boosted_cutoff } else { settings.cutoff_recovery };
    assert(zero().units() == 0) by {
        assert(0 * pow2(0) == 0);
    }
    if smooth.finite() {
        law_order_is_by_worth(zero(), smooth);
    }
    if cutoff.finite() {
        law_order_is_by_worth(zero(), cutoff);
    }
}

/// Precision mode by what the speeds are worth: off, it turns on below the enter
/// speed; on, it stays on up to the exit speed, or up to the enter speed where
/// that is higher. Speeds below zero count as zero.
pub proof fn law_precision_by_worth(active: bool, settings: GyroSettings, speed: Binary64)
    requires
        speed.finite(),
        settings.precision_enter_speed.finite(),
        settings.precision_exit_speed.finite(),
    ensures
        ({
            let s = worth(speed);
            let enter = worth(settings.precision_enter_speed);
            let exit = settings.precision_exit_speed.units();
            precise_after(active, settings, speed) <==> settings.precision_enabled && if active {
                s <= enter || s <= exit
            } else {
                s < enter
            }
        }),
{
    lemma_worth(speed);
    lemma_worth(settings.precision_enter_speed);
    let e = enter_speed(settings);
    let s = speed.larger(zero());
    law_order_is_by_worth(settings.precision_exit_speed, e);
    law_order_is_by_worth(exit_speed(settings), s);
    law_order_is_by_worth(s, e);
}

/// A speed that is no number counts as zero.
pub proof fn law_no_number_is_parked(active: bool, settings: GyroSettings, speed: Binary64)
    requires
        speed.nan(),
    ensures
        precise_after(active, settings, speed) == precise_after(active, settings, zero()),
{
}

/// The bits of one are worth one.
pub proof fn law_one_is_worth_one()
    ensures
        (Binary64 { bits: ONE_BITS }).finite(),
        (Binary64 { bits: ONE_BITS }).units() == one(),
{
    let b = Binary64 { bits: ONE_BITS };
    assert(b.payload() == ONE_BITS);
    assert(b.exponent() == 1023);
    assert(b.significand() == LEADING_BIT);
    lemma2_to64_rest();
    lemma_pow2_adds(52, 1022);
}

/// A mixing factor comes out between zero and one, and as it was where it lay
/// there.
pub proof fn law_clamped_factor(factor: Binary64)
    requires
        factor.finite(),
    ensures
        ({
            let r = factor.larger(zero()).smaller(Binary64 { bits: ONE_BITS });
            &&& 0 <= r.units() <= one()
            &&& 0 < factor.units() <= one() ==> r == factor
            &&& factor.units() <= 0 ==> r.units() == 0
            &&& factor.units() >= one() ==> r.units() == one()
        }),
{
    law_one_is_worth_one();
    lemma_worth(factor);
    let b = Binary64 { bits: ONE_BITS };
    assert(zero().units() == 0) by {
        assert(0 * pow2(0) == 0);
    }
    law_order_is_by_worth(b, factor.larger(zero()));
    law_order_is_by_worth(factor, zero());
    lemma_pow2_pos(UNIT_EXPONENT as nat);
}

/// Precision mode at the edges of the numbers: a speed without end turns it off, one
/// that is endlessly below zero counts as zero, and an enter speed or an exit speed
/// that is no number counts as zero too.
pub proof fn law_precision_at_the_edges(active: bool, settings: GyroSettings, speed: Binary64)
    ensures
        speed.bits == INFINITY_BITS && settings.precision_enter_speed.finite()
            && settings.precision_exit_speed.finite() ==> !precise_after(active, settings, speed),
        speed.bits == INFINITY_BITS + SIGN_BIT ==> precise_after(active, settings, speed)
            == precise_after(active, settings, zero()),
        settings.precision_enter_speed.nan() ==> precise_after(active, settings, speed)
            == precise_after(
            active,
            GyroSettings { precision_enter_speed: zero(), ..settings },
            speed,
        ),
        settings.precision_exit_speed.nan() ==> precise_after(active, settings, speed)
            == precise_after(
            active,
            GyroSettings { precision_exit_speed: zero(), ..settings },
            speed,
        ),
{
}

/// Precision mode depends on nothing but where it stands, its own settings and the
/// speed; the other settings have no say in it.
pub proof fn law_precision_has_its_own_settings(
    active: bool,
    a: GyroSettings,
    b: GyroSettings,
    speed: Binary64,
)
    requires
        a.precision_enabled == b.precision_enabled,
        a.precision_enter_speed == b.precision_enter_speed,
        a.precision_exit_speed == b.precision_exit_speed,
    ensures
        precise_after(active, a, speed) == precise_after(active, b, speed),
{
}

} // verus!
