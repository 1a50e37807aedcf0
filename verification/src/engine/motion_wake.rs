//! Motion-wake clutch: motion wakes the cursor, and dwelling in stillness puts
//! it to sleep.
use vstd::arithmetic::power2::pow2;
use vstd::prelude::*;

use crate::binary64::{law_order_is_by_worth, Binary64, INFINITY_BITS, SIGN_BIT};
use crate::config::GyroSettings;
use crate::gyromouse::worth;
use crate::time::{Duration, MAX_NANOS};

verus! {

/// A pure hysteresis on the raw angular speed: wakes above `motion_wake_speed`,
/// sleeps after `motion_sleep_dwell` below `motion_sleep_speed`. Switched off,
/// it is always awake. It gates what goes out and never touches the gyro's own
/// switch.
#[derive(Debug, Clone, Copy)]
pub struct MotionWake {
    pub awake: bool,
    /// Time spent below the sleep speed while awake.
    pub still_for: Duration,
}

/// What a clutch knows.
pub struct WakeState {
    pub awake: bool,
    pub still_for: nat,
}

pub open spec fn zero_speed() -> Binary64 {
    Binary64 { bits: 0 }
}

/// The speed that a reading stands for: what is not finite, or negative, is
/// stillness.
pub open spec fn effective_speed(speed: Binary64) -> Binary64 {
    if speed.finite() {
        speed.larger(zero_speed())
    } else {
        zero_speed()
    }
}

pub open spec fn wake_speed(settings: GyroSettings) -> Binary64 {
    settings.motion_wake_speed.larger(zero_speed())
}

/// The sleep speed, never above the wake speed.
pub open spec fn sleep_speed(settings: GyroSettings) -> Binary64 {
    settings.motion_sleep_speed.larger(zero_speed()).smaller(wake_speed(settings))
}

/// Whether a reading is below the sleep speed.
pub open spec fn is_still(settings: GyroSettings, speed: Binary64) -> bool {
    effective_speed(speed).less(sleep_speed(settings))
}

/// Whether a reading is above the wake speed.
pub open spec fn is_waking(settings: GyroSettings, speed: Binary64) -> bool {
    wake_speed(settings).less(effective_speed(speed))
}

pub open spec fn capped(nanos: nat) -> nat {
    if nanos <= MAX_NANOS {
        nanos
    } else {
        MAX_NANOS as nat
    }
}

impl WakeState {
    pub open spec fn asleep() -> WakeState {
        WakeState { awake: false, still_for: 0 }
    }

    pub open spec fn after_update(self, settings: GyroSettings, speed: Binary64, dt: nat) -> WakeState {
        if !settings.motion_wake_enabled {
            WakeState { awake: true, still_for: 0 }
        } else if self.awake {
            if is_still(settings, speed) {
                let still_for = capped(self.still_for + dt);
                WakeState { awake: still_for < settings.motion_sleep_dwell@, still_for }
            } else {
                WakeState { awake: true, still_for: 0 }
            }
        } else if is_waking(settings, speed) {
            WakeState { awake: true, still_for: 0 }
        } else {
            self
        }
    }
}

impl View for MotionWake {
    type V = WakeState;

    open spec fn view(&self) -> WakeState {
        WakeState { awake: self.awake, still_for: self.still_for@ }
    }
}

impl Default for MotionWake {
    /// Asleep, so that the cursor never jumps at launch.
    fn default() -> (m: Self)
        ensures
            m@ == WakeState::asleep(),
    {
        MotionWake { awake: false, still_for: Duration::zero() }
    }
}

impl MotionWake {
    /// Takes in the raw angular speed of a frame of length `dt`, and returns
    /// whether the clutch is awake.
    pub fn update(&mut self, settings: &GyroSettings, speed: Binary64, dt: Duration) -> (awake: bool)
        ensures
            final(self)@ == old(self)@.after_update(*settings, speed, dt@),
            awake == final(self)@.awake,
    {
        if !settings.motion_wake_enabled {
            self.awake = true;
            self.still_for = Duration::zero();
            return true;
        }
        let speed = if speed.is_finite() {
            speed.max(Binary64::zero())
        } else {
            Binary64::zero()
        };
        let wake = settings.motion_wake_speed.max(Binary64::zero());
        let sleep = settings.motion_sleep_speed.max(Binary64::zero()).min(wake);
        if self.awake {
            if speed.lt(sleep) {
                self.still_for = self.still_for.saturating_add(dt);
                if self.still_for.at_least(settings.motion_sleep_dwell) {
                    self.awake = false;
                }
            } else {
                self.still_for = Duration::zero();
            }
        } else if wake.lt(speed) {
            self.awake = true;
            self.still_for = Duration::zero();
        }
        self.awake
    }
}

/// A reading with its length in time.
pub struct Reading {
    pub speed: Binary64,
    pub dt: nat,
}

pub open spec fn after_readings(
    state: WakeState,
    settings: GyroSettings,
    readings: Seq<Reading>,
) -> WakeState
    decreases readings.len(),
{
    if readings.len() == 0 {
        state
    } else {
        after_readings(state, settings, readings.drop_last()).after_update(
            settings,
            readings.last().speed,
            readings.last().dt,
        )
    }
}

pub open spec fn total_time(readings: Seq<Reading>) -> nat
    decreases readings.len(),
{
    if readings.len() == 0 {
        0
    } else {
        total_time(readings.drop_last()) + readings.last().dt
    }
}

/// Switched off, the clutch is transparent: awake after every reading, with no
/// stillness counted, wherever it stood before.
pub proof fn law_disabled_clutch_is_transparent(
    state: WakeState,
    settings: GyroSettings,
    speed: Binary64,
    dt: nat,
)
    requires
        !settings.motion_wake_enabled,
    ensures
        state.after_update(settings, speed, dt) == (WakeState { awake: true, still_for: 0 }),
{
}

/// No reading is both still and waking, whatever the two speeds are set to.
pub proof fn law_still_is_never_waking(settings: GyroSettings, speed: Binary64)
    ensures
        !(is_still(settings, speed) && is_waking(settings, speed)),
{
}

/// A reading that is not finite never wakes the clutch.
pub proof fn law_non_finite_speed_is_stillness(settings: GyroSettings, speed: Binary64)
    requires
        !speed.finite(),
    ensures
        !is_waking(settings, speed),
        is_still(settings, speed) <==> zero_speed().less(sleep_speed(settings)),
{
}

/// Between the two speeds the clutch stays as it is: awake it stays awake, with
/// its stillness forgotten, and asleep it stays asleep.
pub proof fn law_band_holds_the_clutch(
    state: WakeState,
    settings: GyroSettings,
    speed: Binary64,
    dt: nat,
)
    requires
        settings.motion_wake_enabled,
        !is_still(settings, speed),
        !is_waking(settings, speed),
    ensures
        state.after_update(settings, speed, dt).awake == state.awake,
        state.awake ==> state.after_update(settings, speed, dt).still_for == 0,
{
}

/// An awake clutch that has just moved sleeps after a run of still readings
/// exactly where together they last `motion_sleep_dwell` or longer. A shorter
/// pause never puts it to sleep.
pub proof fn law_dwell_puts_to_sleep(settings: GyroSettings, readings: Seq<Reading>)
    requires
        settings.motion_wake_enabled,
        settings.motion_sleep_dwell@ <= MAX_NANOS,
        readings.len() > 0,
        forall|i: int| 0 <= i < readings.len() ==> is_still(settings, #[trigger] readings[i].speed),
    ensures
        ({
            let start = WakeState { awake: true, still_for: 0 };
            let end = after_readings(start, settings, readings);
            end.awake <==> total_time(readings) < settings.motion_sleep_dwell@
        }),
{
    lemma_still_run(settings, readings);
}

proof fn lemma_still_run(settings: GyroSettings, readings: Seq<Reading>)
    requires
        settings.motion_wake_enabled,
        settings.motion_sleep_dwell@ <= MAX_NANOS,
        forall|i: int| 0 <= i < readings.len() ==> is_still(settings, #[trigger] readings[i].speed),
    ensures
        ({
            let start = WakeState { awake: true, still_for: 0 };
            let end = after_readings(start, settings, readings);
            &&& readings.len() > 0 ==> (end.awake <==> total_time(readings)
                < settings.motion_sleep_dwell@)
            &&& end.awake ==> end.still_for == capped(total_time(readings))
            &&& readings.len() == 0 ==> end.awake
        }),
    decreases readings.len(),
{
    if readings.len() > 0 {
        let init = readings.drop_last();
        assert forall|i: int| 0 <= i < init.len() implies is_still(
            settings,
            #[trigger] init[i].speed,
        ) by {
            assert(init[i] == readings[i]);
        }
        lemma_still_run(settings, init);
        let speed = readings[readings.len() - 1].speed;
        assert(is_still(settings, speed));
        law_still_is_never_waking(settings, speed);
    }
}

proof fn lemma_speeds(settings: GyroSettings, speed: Binary64)
    requires
        speed.finite(),
        settings.motion_wake_speed.finite(),
        settings.motion_sleep_speed.finite(),
    ensures
        effective_speed(speed).finite(),
        effective_speed(speed).units() == worth(speed),
        wake_speed(settings).finite(),
        wake_speed(settings).units() == worth(settings.motion_wake_speed),
        sleep_speed(settings).finite(),
        sleep_speed(settings).units() == if worth(settings.motion_sleep_speed) <= worth(
            settings.motion_wake_speed,
        ) {
            worth(settings.motion_sleep_speed)
        } else {
            worth(settings.motion_wake_speed)
        },
{
    assert(zero_speed().units() == 0) by {
        assert(0 * pow2(0) == 0);
    }
    law_order_is_by_worth(speed, zero_speed());
    law_order_is_by_worth(settings.motion_wake_speed, zero_speed());
    law_order_is_by_worth(settings.motion_sleep_speed, zero_speed());
    law_order_is_by_worth(
        wake_speed(settings),
        settings.motion_sleep_speed.larger(zero_speed()),
    );
}

/// Still and waking by what the speeds are worth: a reading wakes the clutch
/// above the wake speed, and is still below the sleep speed, or below the wake
/// speed where that is lower. Speeds below zero count as zero.
pub proof fn law_still_and_waking_by_worth(settings: GyroSettings, speed: Binary64)
    requires
        speed.finite(),
        settings.motion_wake_speed.finite(),
        settings.motion_sleep_speed.finite(),
    ensures
        is_waking(settings, speed) <==> worth(speed) > worth(settings.motion_wake_speed),
        is_still(settings, speed) <==> worth(speed) < worth(settings.motion_sleep_speed)
            && worth(speed) < worth(settings.motion_wake_speed),
{
    lemma_speeds(settings, speed);
    law_order_is_by_worth(wake_speed(settings), effective_speed(speed));
    law_order_is_by_worth(effective_speed(speed), sleep_speed(settings));
}

/// What a reading does to a clutch that is in use. Asleep, it wakes exactly where
/// the reading wakes it, and starts with no stillness. Awake, it counts still
/// readings, up to the longest duration, and sleeps exactly where they have lasted
/// the dwell; any other reading starts the count anew.
pub proof fn law_clutch_steps(state: WakeState, settings: GyroSettings, speed: Binary64, dt: nat)
    requires
        settings.motion_wake_enabled,
    ensures
        ({
            let after = state.after_update(settings, speed, dt);
            let still_for = if state.still_for + dt <= MAX_NANOS {
                state.still_for + dt
            } else {
                MAX_NANOS as nat
            };
            &&& !state.awake ==> (after.awake <==> is_waking(settings, speed))
            &&& !state.awake && !after.awake ==> after == state
            &&& !state.awake && after.awake ==> after.still_for == 0
            &&& state.awake && is_still(settings, speed) ==> after.still_for == still_for && (
            after.awake <==> still_for < settings.motion_sleep_dwell@)
            &&& state.awake && !is_still(settings, speed) ==> after.awake && after.still_for == 0
        }),
{
}

/// A reading that is not finite, or is below zero, does what a reading of zero
/// does.
pub proof fn law_odd_readings_are_stillness(
    state: WakeState,
    settings: GyroSettings,
    speed: Binary64,
    dt: nat,
)
    requires
        !speed.finite() || speed.less(zero_speed()),
    ensures
        state.after_update(settings, speed, dt) == state.after_update(
            settings,
            Binary64 { bits: 0 },
            dt,
        ),
{
}

/// The launch never moves the cursor: a clutch in use starts asleep, with no
/// stillness counted.
pub proof fn law_starts_asleep()
    ensures
        !WakeState::asleep().awake,
        WakeState::asleep().still_for == 0,
{
}

/// The two speeds at the edges of the numbers: one that is no number counts as zero,
/// nothing wakes a clutch whose wake speed has no end, and a wake speed that is
/// endlessly below zero counts as zero.
pub proof fn law_speeds_at_the_edges(settings: GyroSettings, speed: Binary64)
    ensures
        settings.motion_wake_speed.bits == INFINITY_BITS ==> !is_waking(settings, speed),
        settings.motion_wake_speed.nan() || settings.motion_wake_speed.bits == INFINITY_BITS
            + SIGN_BIT ==> {
            let zeroed = GyroSettings { motion_wake_speed: zero_speed(), ..settings };
            &&& is_waking(settings, speed) == is_waking(zeroed, speed)
            &&& is_still(settings, speed) == is_still(zeroed, speed)
        },
        settings.motion_sleep_speed.nan() || settings.motion_sleep_speed.bits == INFINITY_BITS
            + SIGN_BIT ==> !is_still(settings, speed),
{
}

/// The clutch depends on nothing but where it stands, its own settings, the speed and
/// the time; the other settings have no say in it.
pub proof fn law_clutch_has_its_own_settings(
    state: WakeState,
    a: GyroSettings,
    b: GyroSettings,
    speed: Binary64,
    dt: nat,
)
    requires
        a.motion_wake_enabled == b.motion_wake_enabled,
        a.motion_wake_speed == b.motion_wake_speed,
        a.motion_sleep_speed == b.motion_sleep_speed,
        a.motion_sleep_dwell == b.motion_sleep_dwell,
    ensures
        state.after_update(a, speed, dt) == state.after_update(b, speed, dt),
{
}

} // verus!
