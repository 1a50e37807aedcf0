//! The gyro: its switch, its clutch, and which movement of a frame goes out.
use vstd::prelude::*;

use super::motion_wake::{after_readings, MotionWake, Reading, WakeState};
use crate::binary64::Binary64;
use crate::config::{GyroSettings, GyroSpace};
use crate::gyromouse::GyroMouse;
use crate::mouse::MouseMovement;
use crate::time::Duration;

verus! {

/// How rotation is mapped to the screen.
#[derive(Debug, Clone, Copy, PartialEq, Eq, Structural)]
pub enum SpaceMapping {
    Local,
    World,
    Player,
}

/// One motion sample of a frame: its raw angular speed, before smoothing and
/// after calibration, and the movement that it was filtered to.
#[derive(Debug, Clone, Copy, PartialEq, Eq, Structural)]
pub struct SubFrame {
    pub speed: Binary64,
    pub offset: MouseMovement,
}

#[derive(Debug)]
pub struct Gyro {
    /// The switch. Nothing goes out while it is off.
    pub enabled: bool,
    pub space_mapper: SpaceMapping,
    pub gyromouse: GyroMouse,
    pub motion_wake: MotionWake,
}

/// The mapping that serves a space. There is none for the two lean spaces.
pub open spec fn mapping_for(space: GyroSpace) -> SpaceMapping {
    match space {
        GyroSpace::Local => SpaceMapping::Local,
        GyroSpace::WorldTurn => SpaceMapping::World,
        _ => SpaceMapping::Player,
    }
}

/// The length in time of each of `n` samples of a frame of length `dt`.
pub open spec fn sub_frame_time(dt: nat, n: nat) -> nat {
    dt / n
}

/// How many samples share the time of a frame: their number, in 32 bits.
pub open spec fn shares(n: nat) -> u32 {
    n as u32
}

/// The samples as readings of the clutch.
pub open spec fn readings(frames: Seq<SubFrame>, dt: nat) -> Seq<Reading> {
    Seq::new(frames.len(), |i: int| Reading { speed: frames[i].speed, dt })
}

/// Whether a movement is that of one of the samples, in both its axes.
pub open spec fn is_offset_of(frames: Seq<SubFrame>, m: MouseMovement) -> bool {
    exists|i: int|
        0 <= i < frames.len() && (#[trigger] frames[i]).offset.x == m.x && frames[i].offset.y == m.y
}

/// The movements of those among the first `n` samples after which the clutch
/// was awake, in order.
pub open spec fn awake_offsets(
    state: WakeState,
    settings: GyroSettings,
    frames: Seq<SubFrame>,
    dt: nat,
    n: int,
) -> Seq<MouseMovement>
    decreases n,
{
    if n <= 0 {
        seq![]
    } else {
        let before = awake_offsets(state, settings, frames, dt, n - 1);
        if after_readings(state, settings, readings(frames, dt).take(n)).awake {
            before.push(frames[n - 1].offset)
        } else {
            before
        }
    }
}

impl Gyro {
    /// A gyro that is switched on, with its clutch asleep. There is no mapping
    /// for the two lean spaces.
    pub fn new(settings: &GyroSettings) -> (gyro: Gyro)
        requires
            !(settings.space is WorldLean),
            !(settings.space is PlayerLean),
        ensures
            gyro.enabled,
            gyro.space_mapper == mapping_for(settings.space),
            gyro.gyromouse.smooth_buffer@.len() == 0,
            !gyro.gyromouse.precision.active,
            gyro.motion_wake@ == WakeState::asleep(),
    {
        Gyro {
            enabled: true,
            space_mapper: match settings.space {
                GyroSpace::Local => SpaceMapping::Local,
                GyroSpace::WorldTurn => SpaceMapping::World,
                _ => SpaceMapping::Player,
            },
            gyromouse: GyroMouse::default(),
            motion_wake: MotionWake::default(),
        }
    }

    /// The length in time of each of `n` samples of a frame of length `dt`, or
    /// none where there are no samples.
    pub fn sub_frame_dt(dt: Duration, n: u32) -> (r: Option<Duration>)
        ensures
            r is None <==> n == 0,
            r matches Some(d) ==> d@ == sub_frame_time(dt@, n as nat),
    {
        if n == 0 {
            None
        } else {
            Some(dt.part(n))
        }
    }

    /// Takes in the samples of a frame of length `dt` and returns the movements
    /// that go out, whose sum is the movement of the frame. Each sample is
    /// gated by the clutch as that sample leaves it; the switch gates them all:
    /// while it is off nothing goes out, and motion never moves it.
    pub fn handle_frame(
        &mut self,
        settings: &GyroSettings,
        frames: &Vec<SubFrame>,
        dt: Duration,
    ) -> (emitted: Vec<MouseMovement>)
        requires
            frames@.len() > 0 ==> shares(frames@.len()) != 0,
        ensures
            frames@.len() == 0 ==> emitted@.len() == 0 && *final(self) == *old(self),
            !old(self).enabled ==> emitted@.len() == 0,
            frames@.len() > 0 ==> {
                let each = sub_frame_time(dt@, shares(frames@.len()) as nat);
                &&& emitted@ == if old(self).enabled {
                    awake_offsets(
                        old(self).motion_wake@,
                        *settings,
                        frames@,
                        each,
                        frames@.len() as int,
                    )
                } else {
                    seq![]
                }
                &&& final(self).motion_wake@ == after_readings(
                    old(self).motion_wake@,
                    *settings,
                    readings(frames@, each),
                )
            },
            forall|k: int|
                0 <= k < emitted@.len() ==> is_offset_of(frames@, #[trigger] emitted@[k]),
            emitted@.len() <= frames@.len(),
            old(self).enabled && emitted@.len() == frames@.len() ==> forall|k: int|
                0 <= k < emitted@.len() ==> #[trigger] emitted@[k] == frames@[k].offset,
            old(self).enabled && !settings.motion_wake_enabled ==> emitted@.len() == frames@.len(),
            final(self).enabled == old(self).enabled,
            final(self).space_mapper == old(self).space_mapper,
            final(self).gyromouse == old(self).gyromouse,
    {
        let mut emitted: Vec<MouseMovement> = Vec::new();
        let n: u32 = #[verifier::truncate]
        (frames.len() as u32);
        let each = match Gyro::sub_frame_dt(dt, n) {
            Some(d) => d,
            None => {
                return emitted;
            },
        };
        let ghost state = self.motion_wake@;
        let ghost all = readings(frames@, each@);
        proof {
            assert(all.take(0) =~= Seq::<Reading>::empty());
        }
        let mut i: usize = 0;
        while i < frames.len()
            invariant
                i <= frames@.len(),
                all == readings(frames@, each@),
                self.motion_wake@ == after_readings(state, *settings, all.take(i as int)),
                emitted@ == awake_offsets(state, *settings, frames@, each@, i as int),
                forall|k: int|
                    0 <= k < emitted@.len() ==> is_offset_of(frames@, #[trigger] emitted@[k]),
                emitted@.len() <= i,
                emitted@.len() == i ==> forall|k: int|
                    0 <= k < i ==> #[trigger] emitted@[k] == frames@[k].offset,
                !settings.motion_wake_enabled ==> emitted@.len() == i,
                self.enabled == old(self).enabled,
                self.space_mapper == old(self).space_mapper,
                self.gyromouse == old(self).gyromouse,
            decreases frames@.len() - i,
        {
            proof {
                assert(all.take(i + 1).drop_last() =~= all.take(i as int));
                assert(all.take(i + 1).last() == all[i as int]);
            }
            let awake = self.motion_wake.update(settings, frames[i].speed, each);
            if awake {
                emitted.push(frames[i].offset);
                assert(is_offset_of(frames@, frames@[i as int].offset));
            }
            i = i + 1;
        }
        proof {
            assert(all.take(all.len() as int) =~= all);
        }
        if self.enabled {
            emitted
        } else {
            Vec::new()
        }
    }
}

/// Switched off by its own setting, the clutch is transparent: every
/// movement of a frame goes out, in order and unchanged.
pub proof fn law_disabled_clutch_emits_everything(
    state: WakeState,
    settings: GyroSettings,
    frames: Seq<SubFrame>,
    dt: nat,
    n: int,
)
    requires
        !settings.motion_wake_enabled,
        0 <= n <= frames.len(),
    ensures
        awake_offsets(state, settings, frames, dt, n) == Seq::new(
            n as nat,
            |i: int| frames[i].offset,
        ),
    decreases n,
{
    if n > 0 {
        law_disabled_clutch_emits_everything(state, settings, frames, dt, n - 1);
        assert(after_readings(state, settings, readings(frames, dt).take(n)).awake);
    }
    assert(awake_offsets(state, settings, frames, dt, n) =~= Seq::new(
        n as nat,
        |i: int| frames[i].offset,
    ));
}

/// A frame of two runs of samples emits what the first run emits and then what
/// the second run emits from where the first left the clutch. No sample is
/// gated by a later one.
pub proof fn law_each_sample_is_gated_by_its_own_state(
    state: WakeState,
    settings: GyroSettings,
    first: Seq<SubFrame>,
    second: Seq<SubFrame>,
    dt: nat,
)
    ensures
        awake_offsets(
            state,
            settings,
            first + second,
            dt,
            (first.len() + second.len()) as int,
        ) == awake_offsets(state, settings, first, dt, first.len() as int) + awake_offsets(
            after_readings(state, settings, readings(first, dt)),
            settings,
            second,
            dt,
            second.len() as int,
        ),
{
    lemma_gating_splits(state, settings, first, second, dt, second.len() as int);
}

proof fn lemma_readings_split(
    state: WakeState,
    settings: GyroSettings,
    a: Seq<Reading>,
    b: Seq<Reading>,
)
    ensures
        after_readings(state, settings, a + b) == after_readings(
            after_readings(state, settings, a),
            settings,
            b,
        ),
    decreases b.len(),
{
    if b.len() == 0 {
        assert(a + b =~= a);
    } else {
        lemma_readings_split(state, settings, a, b.drop_last());
        assert((a + b).drop_last() =~= a + b.drop_last());
    }
}

proof fn lemma_gating_of_prefix(
    state: WakeState,
    settings: GyroSettings,
    first: Seq<SubFrame>,
    second: Seq<SubFrame>,
    dt: nat,
    n: int,
)
    requires
        0 <= n <= first.len(),
    ensures
        awake_offsets(state, settings, first + second, dt, n) == awake_offsets(
            state,
            settings,
            first,
            dt,
            n,
        ),
    decreases n,
{
    if n > 0 {
        lemma_gating_of_prefix(state, settings, first, second, dt, n - 1);
        assert(readings(first + second, dt).take(n) =~= readings(first, dt).take(n));
    }
}

proof fn lemma_gating_splits(
    state: WakeState,
    settings: GyroSettings,
    first: Seq<SubFrame>,
    second: Seq<SubFrame>,
    dt: nat,
    n: int,
)
    requires
        0 <= n <= second.len(),
    ensures
        awake_offsets(state, settings, first + second, dt, first.len() + n) == awake_offsets(
            state,
            settings,
            first,
            dt,
            first.len() as int,
        ) + awake_offsets(
            after_readings(state, settings, readings(first, dt)),
            settings,
            second,
            dt,
            n,
        ),
    decreases n,
{
    let mid = after_readings(state, settings, readings(first, dt));
    if n <= 0 {
        lemma_gating_of_prefix(state, settings, first, second, dt, first.len() as int);
    } else {
        lemma_gating_splits(state, settings, first, second, dt, n - 1);
        let all = readings(first + second, dt);
        assert(all.take(first.len() + n) =~= readings(first, dt) + readings(second, dt).take(n));
        lemma_readings_split(state, settings, readings(first, dt), readings(second, dt).take(n));
        assert((first + second)[first.len() + n - 1] == second[n - 1]);
    }
    assert(awake_offsets(state, settings, first + second, dt, first.len() + n) =~= awake_offsets(
        state,
        settings,
        first,
        dt,
        first.len() as int,
    ) + awake_offsets(mid, settings, second, dt, n));
}

/// What goes out of a frame, told by the clutch alone. Let `states` be what the
/// clutch is, sample by sample, each reached from the one before by the speed of
/// that sample. Then what goes out is the movements of exactly those samples after
/// which the clutch is awake, in their order and unchanged in both axes; and the
/// clutch ends where the last sample leaves it.
pub proof fn law_awake_samples_go_out_unchanged(
    states: Seq<WakeState>,
    settings: GyroSettings,
    frames: Seq<SubFrame>,
    dt: nat,
)
    requires
        states.len() == frames.len() + 1,
        forall|i: int|
            0 <= i < frames.len() ==> states[i + 1] == states[i].after_update(
                settings,
                (#[trigger] frames[i]).speed,
                dt,
            ),
    ensures
        awake_offsets(states[0], settings, frames, dt, frames.len() as int) == Seq::new(
            frames.len(),
            |i: int| (frames[i].offset, states[i + 1].awake),
        ).filter(|p: (MouseMovement, bool)| p.1).map_values(|p: (MouseMovement, bool)| p.0),
        after_readings(states[0], settings, readings(frames, dt)) == states.last(),
{
    lemma_awake_prefix(states, settings, frames, dt, frames.len() as int);
    assert(readings(frames, dt).take(frames.len() as int) =~= readings(frames, dt));
}

proof fn lemma_awake_prefix(
    states: Seq<WakeState>,
    settings: GyroSettings,
    frames: Seq<SubFrame>,
    dt: nat,
    n: int,
)
    requires
        states.len() == frames.len() + 1,
        forall|i: int|
            0 <= i < frames.len() ==> states[i + 1] == states[i].after_update(
                settings,
                (#[trigger] frames[i]).speed,
                dt,
            ),
        0 <= n <= frames.len(),
    ensures
        after_readings(states[0], settings, readings(frames, dt).take(n)) == states[n],
        awake_offsets(states[0], settings, frames, dt, n) == Seq::new(
            n as nat,
            |i: int| (frames[i].offset, states[i + 1].awake),
        ).filter(|p: (MouseMovement, bool)| p.1).map_values(|p: (MouseMovement, bool)| p.0),
    decreases n,
{
    reveal(Seq::filter);
    let keep = |p: (MouseMovement, bool)| p.1;
    let movement = |p: (MouseMovement, bool)| p.0;
    let marked = Seq::new(n as nat, |i: int| (frames[i].offset, states[i + 1].awake));
    if n == 0 {
        assert(readings(frames, dt).take(0) =~= Seq::<Reading>::empty());
        assert(marked.filter(keep).map_values(movement) =~= Seq::<MouseMovement>::empty());
    } else {
        lemma_awake_prefix(states, settings, frames, dt, n - 1);
        let all = readings(frames, dt);
        assert(all.take(n).drop_last() =~= all.take(n - 1));
        assert(all.take(n).last() == all[n - 1]);
        assert(frames[n - 1].speed == all[n - 1].speed);
        let before = Seq::new(
            (n - 1) as nat,
            |i: int| (frames[i].offset, states[i + 1].awake),
        );
        assert(marked.drop_last() =~= before);
        let kept = before.filter(keep);
        if states[n].awake {
            assert(marked.filter(keep) == kept.push(marked.last()));
            assert(kept.push(marked.last()).map_values(movement) =~= kept.map_values(movement).push(
                frames[n - 1].offset,
            ));
        }
    }
}

/// A frame that keeps the clutch awake throughout emits every movement as it is,
/// and one that leaves it asleep throughout emits none.
pub proof fn law_all_or_nothing(
    states: Seq<WakeState>,
    settings: GyroSettings,
    frames: Seq<SubFrame>,
    dt: nat,
    n: int,
)
    requires
        states.len() == frames.len() + 1,
        forall|i: int|
            0 <= i < frames.len() ==> states[i + 1] == states[i].after_update(
                settings,
                (#[trigger] frames[i]).speed,
                dt,
            ),
        0 <= n <= frames.len(),
    ensures
        (forall|i: int| 0 < i <= n ==> (#[trigger] states[i]).awake) ==> awake_offsets(
            states[0],
            settings,
            frames,
            dt,
            n,
        ) == Seq::new(n as nat, |i: int| frames[i].offset),
        (forall|i: int| 0 < i <= n ==> !(#[trigger] states[i]).awake) ==> awake_offsets(
            states[0],
            settings,
            frames,
            dt,
            n,
        ) == Seq::<MouseMovement>::empty(),
    decreases n,
{
    if n > 0 {
        law_all_or_nothing(states, settings, frames, dt, n - 1);
        lemma_awake_prefix(states, settings, frames, dt, n);
        assert(states[n].awake || !states[n].awake);
        assert(Seq::new(n as nat, |i: int| frames[i].offset) =~= Seq::new(
            (n - 1) as nat,
            |i: int| frames[i].offset,
        ).push(frames[n - 1].offset));
    } else {
        assert(Seq::new(0, |i: int| frames[i].offset) =~= Seq::<MouseMovement>::empty());
    }
}

/// The samples of a frame share its time evenly: together they last no longer than
/// the frame, and less than a nanosecond each is left over.
pub proof fn law_samples_share_the_time(dt: nat, n: nat)
    requires
        n > 0,
    ensures
        n * sub_frame_time(dt, n) <= dt < n * sub_frame_time(dt, n) + n,
{
    vstd::arithmetic::div_mod::lemma_fundamental_div_mod(dt as int, n as int);
}

/// Each of the spaces that can be mapped has a mapping of its own.
pub proof fn law_spaces_have_their_own_mappings(a: GyroSpace, b: GyroSpace)
    requires
        !(a is WorldLean) && !(a is PlayerLean),
        !(b is WorldLean) && !(b is PlayerLean),
    ensures
        mapping_for(a) == mapping_for(b) <==> a == b,
        mapping_for(a) is Local <==> a is Local,
        mapping_for(a) is World <==> a is WorldTurn,
        mapping_for(a) is Player <==> a is PlayerTurn,
{
}

/// The number of samples is their number, as long as it has 32 bits.
pub proof fn law_shares_are_the_samples(n: nat)
    requires
        n <= u32::MAX,
    ensures
        shares(n) == n,
{
}

} // verus!
