//! The animation state machine: owns the motion-vector sequence, advances on
//! elapsed time, and exposes interpolated position and color samples plus a
//! bounded position-history buffer.
//!
//! All quantities are exact integers. Time is counted in microseconds; a
//! keyframe transition lasts `KEYFRAME_US` microseconds (one sixteenth note
//! at the reference tempo). Positions carry `POSITION_STEP` units per unit
//! of a motion-vector component (the position scale divided by 100). Hue is
//! held in hundredths of a full turn (the color scale is 3 hundredths per
//! unit of total motion); interpolated hue and color samples are returned as
//! numerators over the fixed denominator `COLOR_DENOM`.

use vstd::arithmetic::div_mod::{lemma_mod_multiples_vanish, lemma_multiply_divide_lt};
use vstd::prelude::*;

verus! {

/// Duration of one keyframe transition, in microseconds.
pub const KEYFRAME_US: u64 = 125_000;

/// Position units gained per unit of a motion-vector component.
pub const POSITION_STEP: i128 = 10;

/// Hue steps in one full turn of the color wheel.
pub const HUE_STEPS: u32 = 100;

/// Capacity of the position-history buffer.
pub const HISTORY_CAP: usize = 100;

/// Denominator of interpolated hue and color samples:
/// `HUE_STEPS * KEYFRAME_US`.
pub const COLOR_DENOM: u64 = 12_500_000;

/// What one call of `advance` reports: whether the animation goes on or has
/// run off the end of the vector sequence.
#[derive(Clone, Copy, Debug, PartialEq, Eq, Structural)]
pub enum Step {
    Continue,
    Stop,
}

/// The hue, in hundredths of a turn, assigned to a total-motion component:
/// its magnitude scaled by 3/100 and reduced modulo one turn.
pub open spec fn hue_of(m0: int) -> int {
    (if m0 * 3 < 0 {
        -(m0 * 3)
    } else {
        m0 * 3
    }) % (HUE_STEPS as int)
}

/// The signed hue difference `tgt - cur` (in hundredths of a turn) pulled
/// onto the shorter arc of the circular hue domain.
pub open spec fn hue_diff(cur: int, tgt: int) -> int {
    let d = tgt - cur;
    if d > 50 {
        d - 100
    } else if d < -50 {
        d + 100
    } else {
        d
    }
}

/// The interpolated hue between `cur` and `tgt` at progress `p / KEYFRAME_US`,
/// as a numerator over `COLOR_DENOM`, wrapped into one turn.
pub open spec fn interp_hue_num(cur: int, tgt: int, p: int) -> int {
    (cur * (KEYFRAME_US as int) + hue_diff(cur, tgt) * p) % (COLOR_DENOM as int)
}

/// The standard HSV-to-RGB conversion at full saturation and value, over a
/// hue numerator scaled by `COLOR_DENOM`; each resulting component is again
/// a numerator over `COLOR_DENOM`.
pub open spec fn rgb_nums(hue: int) -> Seq<int> {
    let d = COLOR_DENOM as int;
    let h6 = hue * 6;
    let sector = h6 / d;
    let f = h6 % d;
    if sector == 0 {
        seq![d, f, 0]
    } else if sector == 1 {
        seq![d - f, d, 0]
    } else if sector == 2 {
        seq![0, d, f]
    } else if sector == 3 {
        seq![0, d - f, d]
    } else if sector == 4 {
        seq![f, 0, d]
    } else {
        seq![d, 0, d - f]
    }
}

/// The timer accumulates elapsed time, saturating at the top of its range.
pub open spec fn timer_after(t: int, d: int) -> int {
    if t + d > u64::MAX as int {
        u64::MAX as int
    } else {
        t + d
    }
}

/// The history buffer after one keyframe boundary: the newly reached
/// position is appended, and when the buffer already holds `HISTORY_CAP`
/// entries the oldest one is evicted first.
pub open spec fn history_after(h: Seq<[i128; 3]>, p: [i128; 3]) -> Seq<[i128; 3]> {
    if h.len() < HISTORY_CAP as int {
        h.push(p)
    } else {
        h.push(p).remove(0)
    }
}

/// Magnitude bound on every position component after `steps` keyframe
/// boundaries: each boundary adds at most `POSITION_STEP * |i32|` units.
pub open spec fn pos_bound(steps: int) -> int {
    steps * 0x5_0000_0000
}

proof fn lemma_prod_magnitude(x: int, y: int, bx: int, by: int)
    requires
        -bx <= x <= bx,
        -by <= y <= by,
        0 <= bx,
        0 <= by,
    ensures
        -(bx * by) <= x * y <= bx * by,
{
    assert(-(bx * by) <= x * y <= bx * by) by (nonlinear_arith)
        requires
            -bx <= x <= bx,
            -by <= y <= by,
            0 <= bx,
            0 <= by,
    ;
}

/// The animation state: the read-only motion-vector sequence, the current
/// and target keyframe endpoints, and the transition bookkeeping.
pub struct AnimationState {
    /// The motion-vector sequence, read-only after construction.
    pub motions: Vec<[i32; 4]>,
    /// Position at the start of the current transition.
    pub current_position: [i128; 3],
    /// Position at the end of the current transition.
    pub target_position: [i128; 3],
    /// Index of the current keyframe; never decreases.
    pub current_index: usize,
    /// Time spent inside the current transition, in microseconds.
    pub progress_us: u64,
    /// Hue at the start of the current transition, in hundredths of a turn.
    pub current_hue: u32,
    /// Hue at the end of the current transition, in hundredths of a turn.
    pub target_hue: u32,
    /// Trail of the positions reached at past keyframe boundaries.
    pub position_history: Vec<[i128; 3]>,
    /// Total elapsed time handed to `advance`, diagnostic only.
    pub timer_us: u64,
}

impl AnimationState {
    /// Well-formedness: the invariant every constructor establishes and
    /// every mutation preserves. The history buffer never exceeds its
    /// capacity, progress stays inside one keyframe, hues stay inside one
    /// turn, and positions stay within the bound their step count allows.
    pub open spec fn wf(self) -> bool {
        &&& self.current_index <= self.motions@.len()
        &&& self.progress_us < KEYFRAME_US
        &&& self.current_hue < HUE_STEPS
        &&& self.target_hue < HUE_STEPS
        &&& self.position_history@.len() <= HISTORY_CAP
        &&& forall|k: int|
            0 <= k < 3 ==> -pos_bound(self.current_index as int) <= #[trigger] self.current_position@[k]
                <= pos_bound(self.current_index as int)
        &&& forall|k: int|
            0 <= k < 3 ==> -pos_bound(self.current_index as int + 1)
                <= #[trigger] self.target_position@[k] <= pos_bound(self.current_index as int + 1)
    }

    /// Whether the state machine has run off the end of the vector sequence.
    pub open spec fn completed(self) -> bool {
        self.current_index >= self.motions@.len()
    }

    /// Build the initial state from a non-empty motion-vector sequence: the
    /// current position is the origin, the first target is the first
    /// vector's spatial components scaled by `POSITION_STEP`, and both hues
    /// are the hue of the first vector's total motion.
    pub fn new(motions: Vec<[i32; 4]>) -> (s: AnimationState)
        requires
            motions@.len() >= 1,
        ensures
            s.wf(),
            s.motions@ == motions@,
            s.current_index == 0,
            s.progress_us == 0,
            s.timer_us == 0,
            s.position_history@ == Seq::<[i128; 3]>::empty(),
            forall|k: int| 0 <= k < 3 ==> #[trigger] s.current_position@[k] == 0,
            forall|k: int|
                0 <= k < 3 ==> #[trigger] s.target_position@[k] == POSITION_STEP * motions@[0]@[k
                    + 1],
            s.current_hue == hue_of(motions@[0]@[0] as int),
            s.target_hue == s.current_hue,
    {
        let first = motions[0];
        let target_position: [i128; 3] = [
            (first[1] as i128) * POSITION_STEP,
            (first[2] as i128) * POSITION_STEP,
            (first[3] as i128) * POSITION_STEP,
        ];
        let hue = hue_from_total_motion(first[0]);
        AnimationState {
            motions,
            current_position: [0, 0, 0],
            target_position,
            current_index: 0,
            progress_us: 0,
            current_hue: hue,
            target_hue: hue,
            position_history: Vec::new(),
            timer_us: 0,
        }
    }

    /// Advance by `delta_us` microseconds of wall-clock time.
    ///
    /// Within a keyframe only the progress and the timer move; at a keyframe
    /// boundary the target position becomes current, is appended to the
    /// history (evicting the oldest entry at capacity), and the index steps
    /// up by exactly one. `Step::Stop` is returned exactly when the index
    /// has reached the end of the vector sequence; once completed, further
    /// calls are a no-op that keeps reporting `Step::Stop`.
    pub fn advance(&mut self, delta_us: u64) -> (r: Step)
        requires
            old(self).wf(),
        ensures
            final(self).wf(),
            final(self).motions@ == old(self).motions@,
            r == Step::Stop <==> final(self).completed(),
            final(self).current_index >= old(self).current_index,
            delta_us == 0 ==> *final(self) == *old(self),
            old(self).completed() ==> *final(self) == *old(self) && r == Step::Stop,
            !old(self).completed() && old(self).progress_us + delta_us < KEYFRAME_US ==> {
                &&& final(self).progress_us == old(self).progress_us + delta_us
                &&& final(self).timer_us == timer_after(
                    old(self).timer_us as int,
                    delta_us as int,
                )
                &&& final(self).current_index == old(self).current_index
                &&& final(self).current_position == old(self).current_position
                &&& final(self).target_position == old(self).target_position
                &&& final(self).current_hue == old(self).current_hue
                &&& final(self).target_hue == old(self).target_hue
                &&& final(self).position_history == old(self).position_history
                &&& r == Step::Continue
            },
            !old(self).completed() && old(self).progress_us + delta_us >= KEYFRAME_US ==> {
                &&& final(self).progress_us == 0
                &&& final(self).timer_us == timer_after(
                    old(self).timer_us as int,
                    delta_us as int,
                )
                &&& final(self).current_index == old(self).current_index + 1
                &&& final(self).current_position == old(self).target_position
                &&& final(self).position_history@ == history_after(
                    old(self).position_history@,
                    old(self).target_position,
                )
            },
            !old(self).completed() && old(self).progress_us + delta_us >= KEYFRAME_US && old(
                self,
            ).current_index + 1 == old(self).motions@.len() ==> {
                &&& r == Step::Stop
                &&& final(self).current_hue == old(self).current_hue
                &&& final(self).target_hue == old(self).target_hue
                &&& final(self).target_position == old(self).target_position
            },
            !old(self).completed() && old(self).progress_us + delta_us >= KEYFRAME_US && old(
                self,
            ).current_index + 1 < old(self).motions@.len() ==> {
                &&& r == Step::Continue
                &&& final(self).current_hue == old(self).target_hue
                &&& final(self).target_hue == hue_of(
                    old(self).motions@[old(self).current_index + 1]@[0] as int,
                )
                &&& forall|k: int|
                    0 <= k < 3 ==> #[trigger] final(self).target_position@[k] == old(
                        self,
                    ).target_position@[k] + POSITION_STEP * (old(self).motions@[old(
                        self,
                    ).current_index + 1]@[k + 1] as int)
            },
    {
        if self.current_index >= self.motions.len() {
            return Step::Stop;
        }
        if delta_us > u64::MAX - self.timer_us {
            self.timer_us = u64::MAX;
        } else {
            self.timer_us = self.timer_us + delta_us;
        }
        if delta_us < KEYFRAME_US - self.progress_us {
            self.progress_us = self.progress_us + delta_us;
            return Step::Continue;
        }
        self.progress_us = 0;
        self.current_position = self.target_position;
        self.position_history.push(self.current_position);
        if self.position_history.len() > HISTORY_CAP {
            self.position_history.remove(0);
        }
        self.current_index = self.current_index + 1;
        if self.current_index >= self.motions.len() {
            return Step::Stop;
        }
        self.current_hue = self.target_hue;
        let motion = self.motions[self.current_index];
        self.target_hue = hue_from_total_motion(motion[0]);
        self.target_position = [
            self.current_position[0] + (motion[1] as i128) * POSITION_STEP,
            self.current_position[1] + (motion[2] as i128) * POSITION_STEP,
            self.current_position[2] + (motion[3] as i128) * POSITION_STEP,
        ];
        Step::Continue
    }

    /// Linear interpolation of the three spatial components between the
    /// current and target position at the current progress. The result is a
    /// numerator over the fixed denominator `KEYFRAME_US`.
    pub fn interpolated_position(&self) -> (r: [i128; 3])
        requires
            self.wf(),
        ensures
            forall|k: int|
                0 <= k < 3 ==> #[trigger] r@[k] == self.current_position@[k] * (KEYFRAME_US as int)
                    + (self.target_position@[k] - self.current_position@[k]) * (
                self.progress_us as int),
    {
        proof {
            let bound = pos_bound(self.current_index as int + 1) + pos_bound(
                self.current_index as int,
            );
            lemma_prod_magnitude(
                self.target_position@[0] - self.current_position@[0],
                self.progress_us as int,
                bound,
                KEYFRAME_US as int,
            );
            lemma_prod_magnitude(
                self.target_position@[1] - self.current_position@[1],
                self.progress_us as int,
                bound,
                KEYFRAME_US as int,
            );
            lemma_prod_magnitude(
                self.target_position@[2] - self.current_position@[2],
                self.progress_us as int,
                bound,
                KEYFRAME_US as int,
            );
        }
        let p = self.progress_us as i128;
        let k = KEYFRAME_US as i128;
        [
            self.current_position[0] * k + (self.target_position[0] - self.current_position[0])
                * p,
            self.current_position[1] * k + (self.target_position[1] - self.current_position[1])
                * p,
            self.current_position[2] * k + (self.target_position[2] - self.current_position[2])
                * p,
        ]
    }

    /// The interpolated hue at the current progress, taken along the shorter
    /// arc of the circular hue domain, as a numerator over `COLOR_DENOM`.
    pub fn interpolated_hue(&self) -> (h: u64)
        requires
            self.wf(),
        ensures
            h == interp_hue_num(
                self.current_hue as int,
                self.target_hue as int,
                self.progress_us as int,
            ),
            h < COLOR_DENOM,
    {
        let cur = self.current_hue as i64;
        let tgt = self.target_hue as i64;
        let d0 = tgt - cur;
        let d = if d0 > 50 {
            d0 - 100
        } else if d0 < -50 {
            d0 + 100
        } else {
            d0
        };
        proof {
            lemma_prod_magnitude(d as int, self.progress_us as int, 50, KEYFRAME_US as int);
            assert(-6_250_000 <= (d as int) * (self.progress_us as int) <= 6_250_000);
            assert(0 <= (cur as int) * (KEYFRAME_US as int) <= 12_375_000);
        }
        let num = cur * (KEYFRAME_US as i64) + d * (self.progress_us as i64);
        let shifted = (num + COLOR_DENOM as i64) as u64;
        proof {
            lemma_mod_multiples_vanish(1, num as int, COLOR_DENOM as int);
        }
        shifted % COLOR_DENOM
    }

    /// The interpolated color at the current progress: the interpolated hue
    /// converted to RGB at full saturation and value. Each component is a
    /// numerator over `COLOR_DENOM`.
    pub fn interpolated_color(&self) -> (rgb: [u64; 3])
        requires
            self.wf(),
        ensures
            forall|k: int|
                0 <= k < 3 ==> #[trigger] rgb@[k] == rgb_nums(
                    interp_hue_num(
                        self.current_hue as int,
                        self.target_hue as int,
                        self.progress_us as int,
                    ),
                )[k],
    {
        let h = self.interpolated_hue();
        hsv_to_rgb(h)
    }
}

/// The hue assigned to a total-motion component, in hundredths of a turn.
pub fn hue_from_total_motion(m0: i32) -> (h: u32)
    ensures
        h == hue_of(m0 as int),
        h < HUE_STEPS,
{
    let t: i64 = (m0 as i64) * 3;
    let a: i64 = if t < 0 {
        -t
    } else {
        t
    };
    (a % (HUE_STEPS as i64)) as u32
}

/// The standard HSV-to-RGB conversion at full saturation and value. The hue
/// argument and every result component are numerators over `COLOR_DENOM`.
pub fn hsv_to_rgb(hue_num: u64) -> (rgb: [u64; 3])
    requires
        hue_num < COLOR_DENOM,
    ensures
        forall|k: int| 0 <= k < 3 ==> #[trigger] rgb@[k] == rgb_nums(hue_num as int)[k],
        forall|k: int| 0 <= k < 3 ==> #[trigger] rgb@[k] <= COLOR_DENOM,
{
    let h6 = hue_num * 6;
    proof {
        lemma_multiply_divide_lt(h6 as int, COLOR_DENOM as int, 6);
    }
    let sector = h6 / COLOR_DENOM;
    let f = h6 % COLOR_DENOM;
    if sector == 0 {
        [COLOR_DENOM, f, 0]
    } else if sector == 1 {
        [COLOR_DENOM - f, COLOR_DENOM, 0]
    } else if sector == 2 {
        [0, COLOR_DENOM, f]
    } else if sector == 3 {
        [0, COLOR_DENOM - f, COLOR_DENOM]
    } else if sector == 4 {
        [f, 0, COLOR_DENOM]
    } else {
        [COLOR_DENOM, 0, COLOR_DENOM - f]
    }
}

/// Law: hue interpolation takes the shorter arc. The adjusted difference
/// never exceeds half a turn in magnitude, and it still leads from the
/// current hue to the target hue modulo one full turn.
pub proof fn lemma_hue_shorter_arc(cur: int, tgt: int)
    requires
        0 <= cur < 100,
        0 <= tgt < 100,
    ensures
        -50 <= hue_diff(cur, tgt) <= 50,
        (tgt - cur - hue_diff(cur, tgt)) % 100 == 0,
{
}

/// Law: the history buffer never exceeds its capacity, and at capacity the
/// oldest entry is the one evicted.
pub proof fn lemma_history_bounded(h: Seq<[i128; 3]>, p: [i128; 3])
    requires
        h.len() <= HISTORY_CAP,
    ensures
        history_after(h, p).len() <= HISTORY_CAP,
        history_after(h, p).last() == p,
        h.len() < HISTORY_CAP ==> history_after(h, p) == h.push(p),
        h.len() == HISTORY_CAP ==> history_after(h, p) == h.skip(1).push(p),
{
    if h.len() == HISTORY_CAP {
        assert(history_after(h, p) =~= h.skip(1).push(p));
    }
}

} // verus!
