//! The settings that the decisions depend on.
use vstd::arithmetic::power2::{lemma2_to64, lemma2_to64_rest, lemma_pow2_adds, pow2};
use vstd::prelude::*;

use crate::binary64::{one, Binary64};
use crate::time::Duration;

verus! {

/// Forty, in pixels.
pub const DEFAULT_DRAG_RELEASE_BITS: u64 = 0x4044_0000_0000_0000;

/// Click stabilisation.
#[derive(Debug, Clone, Copy)]
pub struct ClickStabSettings {
    pub enabled: bool,
    /// How long after the click edge movement is held back.
    pub window: Duration,
    /// Held-back movement of this many pixels is a drag.
    pub drag_release_dist: Binary64,
}

impl Default for ClickStabSettings {
    fn default() -> (s: Self)
        ensures
            s.enabled,
            s.window@ == 60_000_000,
            s.drag_release_dist.bits == DEFAULT_DRAG_RELEASE_BITS,
    {
        ClickStabSettings {
            enabled: true,
            window: Duration::from_millis(60),
            drag_release_dist: Binary64 { bits: DEFAULT_DRAG_RELEASE_BITS },
        }
    }
}

/// The frame of reference in which controller motion becomes cursor motion.
#[derive(Debug, Clone, Copy, PartialEq, Eq, Structural)]
pub enum GyroSpace {
    Local,
    WorldTurn,
    WorldLean,
    PlayerTurn,
    PlayerLean,
}

/// Gyro filtering and the motion-wake clutch. Speeds are in degrees per second.
#[derive(Debug, Clone, Copy)]
pub struct GyroSettings {
    pub space: GyroSpace,
    /// Whether to turn the horizontal and the vertical axis round.
    pub invert: (bool, bool),
    pub smooth_threshold: Binary64,
    /// How much time the smoothing buffer covers.
    pub smooth_time: Duration,
    pub cutoff_speed: Binary64,
    pub cutoff_recovery: Binary64,
    pub precision_enabled: bool,
    pub precision_enter_speed: Binary64,
    pub precision_exit_speed: Binary64,
    pub motion_wake_enabled: bool,
    pub motion_wake_speed: Binary64,
    pub motion_sleep_speed: Binary64,
    /// How long the controller must be still before the clutch sleeps.
    pub motion_sleep_dwell: Duration,
}

/// Out of the box a drag begins at forty pixels.
pub proof fn law_default_drag_distance()
    ensures
        (Binary64 { bits: DEFAULT_DRAG_RELEASE_BITS }).finite(),
        (Binary64 { bits: DEFAULT_DRAG_RELEASE_BITS }).units() == 40 * one(),
{
    let b = Binary64 { bits: DEFAULT_DRAG_RELEASE_BITS };
    assert(b.payload() == DEFAULT_DRAG_RELEASE_BITS);
    assert(b.exponent() == 1028);
    assert(b.significand() == 5 * 0x4_0000_0000_0000);
    lemma2_to64_rest();
    lemma_pow2_adds(50, 1027);
    lemma_pow2_adds(3, 1074);
    lemma2_to64();
    let p = pow2(1027);
    assert((5 * 0x4_0000_0000_0000) * p == 5 * (0x4_0000_0000_0000 * p)) by (nonlinear_arith);
}

} // verus!
