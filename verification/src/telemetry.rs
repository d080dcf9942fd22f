//! Rolling telemetry of one session: recent motion scores (milli-units) and
//! face-center positions (milli-pixels), both capped at `HISTORY_CAP`
//! entries, plus the admission predicates of each gesture.

use vstd::prelude::*;

verus! {

/// Motion and position histories keep at most this many entries; the oldest
/// entry is evicted first.
pub const HISTORY_CAP: usize = 30;

/// Motion scores at or above this (0.02 in milli-units) count as a motion
/// hit.
pub const MOTION_HIT_MILLI: u32 = 20;

/// Rolling telemetry state of a session.
pub struct TelemetryState {
    pub last_cx_milli: Option<i32>,
    pub last_w_milli: Option<i32>,
    pub turn_left_hits: u32,
    pub turn_right_hits: u32,
    pub motion_hits: u32,
    pub motion_scores: Vec<u32>,
    pub face_positions: Vec<(i32, i32)>,
}

/// The histories never exceed their cap.
pub open spec fn telemetry_wf(t: TelemetryState) -> bool {
    &&& t.motion_scores@.len() <= HISTORY_CAP
    &&& t.face_positions@.len() <= HISTORY_CAP
}

/// A fresh, empty telemetry state.
pub open spec fn telemetry_empty(t: TelemetryState) -> bool {
    &&& t.last_cx_milli is None
    &&& t.last_w_milli is None
    &&& t.turn_left_hits == 0
    &&& t.turn_right_hits == 0
    &&& t.motion_hits == 0
    &&& t.motion_scores@.len() == 0
    &&& t.face_positions@.len() == 0
}

/// A history after appending one entry under the cap: push, then evict the
/// oldest entry if the cap is exceeded.
pub open spec fn capped_push<T>(s: Seq<T>, v: T) -> Seq<T> {
    if s.len() + 1 > HISTORY_CAP {
        s.push(v).drop_first()
    } else {
        s.push(v)
    }
}

/// Sum of the first `n` scores.
pub open spec fn sum_prefix(s: Seq<u32>, n: int) -> int
    decreases n,
{
    if n <= 0 {
        0
    } else {
        sum_prefix(s, n - 1) + s[n - 1]
    }
}

/// Maximum of the first `n` scores, at least zero.
pub open spec fn max_prefix(s: Seq<u32>, n: int) -> int
    decreases n,
{
    if n <= 0 {
        0
    } else if s[n - 1] >= max_prefix(s, n - 1) {
        s[n - 1] as int
    } else {
        max_prefix(s, n - 1)
    }
}

/// How many of the first `n` scores exceed `thr`.
pub open spec fn count_above_prefix(s: Seq<u32>, n: int, thr: u32) -> int
    decreases n,
{
    if n <= 0 {
        0
    } else {
        count_above_prefix(s, n - 1, thr) + if s[n - 1] > thr {
            1int
        } else {
            0int
        }
    }
}

/// Blink evidence: at least ten scores, and the last ten hold a spike — a
/// maximum above 0.05 that exceeds three times their mean.
pub open spec fn significant_motion_spec(s: Seq<u32>) -> bool {
    &&& s.len() >= 10
    &&& max_prefix(s.skip(s.len() - 10), 10) > 50
    &&& 10 * max_prefix(s.skip(s.len() - 10), 10) > 3 * sum_prefix(s.skip(s.len() - 10), 10)
}

/// Facial-gesture evidence: at least fifteen scores, whose last fifteen
/// have mean above 0.04 and at least eight entries above 0.03.
pub open spec fn facial_motion_spec(s: Seq<u32>) -> bool {
    &&& s.len() >= 15
    &&& sum_prefix(s.skip(s.len() - 15), 15) > 600
    &&& count_above_prefix(s.skip(s.len() - 15), 15, 30) >= 8
}

/// Turn evidence: at least twenty positions whose first and last x differ
/// by more than fifteen pixels.
pub open spec fn turn_movement_spec(p: Seq<(i32, i32)>) -> bool {
    &&& p.len() >= 20
    &&& abs_int(p.last().0 - p.first().0) > 15000
}

/// Head-tilt evidence: at least twenty positions whose first and last y
/// differ by more than ten pixels.
pub open spec fn head_movement_spec(p: Seq<(i32, i32)>) -> bool {
    &&& p.len() >= 20
    &&& abs_int(p.last().1 - p.first().1) > 10000
}

/// Absolute value.
pub open spec fn abs_int(v: int) -> int {
    if v >= 0 {
        v
    } else {
        -v
    }
}

impl TelemetryState {
    /// A fresh, empty telemetry state.
    pub fn new() -> (t: Self)
        ensures
            telemetry_empty(t),
            telemetry_wf(t),
    {
        TelemetryState {
            last_cx_milli: None,
            last_w_milli: None,
            turn_left_hits: 0,
            turn_right_hits: 0,
            motion_hits: 0,
            motion_scores: Vec::new(),
            face_positions: Vec::new(),
        }
    }

    /// Clear all counters and histories.
    pub fn reset(&mut self)
        ensures
            telemetry_empty(*final(self)),
            telemetry_wf(*final(self)),
    {
        self.turn_left_hits = 0;
        self.turn_right_hits = 0;
        self.motion_hits = 0;
        self.last_cx_milli = None;
        self.last_w_milli = None;
        self.motion_scores.clear();
        self.face_positions.clear();
    }

    /// Append a motion score, evicting the oldest past the cap.
    pub fn add_motion_score(&mut self, score_milli: u32)
        requires
            telemetry_wf(*old(self)),
        ensures
            final(self).motion_scores@ == capped_push(old(self).motion_scores@, score_milli),
            final(self).face_positions == old(self).face_positions,
            final(self).motion_hits == old(self).motion_hits,
            final(self).turn_left_hits == old(self).turn_left_hits,
            final(self).turn_right_hits == old(self).turn_right_hits,
            final(self).last_cx_milli == old(self).last_cx_milli,
            final(self).last_w_milli == old(self).last_w_milli,
            telemetry_wf(*final(self)),
    {
        self.motion_scores.push(score_milli);
        if self.motion_scores.len() > HISTORY_CAP {
            self.motion_scores.remove(0);
            proof {
                assert(self.motion_scores@ =~= old(self).motion_scores@.push(
                    score_milli,
                ).drop_first());
            }
        }
    }

    /// Append a face-center position, evicting the oldest past the cap.
    pub fn add_face_position(&mut self, x_milli: i32, y_milli: i32)
        requires
            telemetry_wf(*old(self)),
        ensures
            final(self).face_positions@ == capped_push(
                old(self).face_positions@,
                (x_milli, y_milli),
            ),
            final(self).motion_scores == old(self).motion_scores,
            final(self).motion_hits == old(self).motion_hits,
            final(self).turn_left_hits == old(self).turn_left_hits,
            final(self).turn_right_hits == old(self).turn_right_hits,
            final(self).last_cx_milli == old(self).last_cx_milli,
            final(self).last_w_milli == old(self).last_w_milli,
            telemetry_wf(*final(self)),
    {
        self.face_positions.push((x_milli, y_milli));
        if self.face_positions.len() > HISTORY_CAP {
            self.face_positions.remove(0);
            proof {
                assert(self.face_positions@ =~= old(self).face_positions@.push(
                    (x_milli, y_milli),
                ).drop_first());
            }
        }
    }

    /// Whether the recent scores show a blink-like spike.
    pub fn has_significant_motion(&self) -> (r: bool)
        ensures
            r == significant_motion_spec(self.motion_scores@),
    {
        let n = self.motion_scores.len();
        if n < 10 {
            return false;
        }
        let start = n - 10;
        let ghost recent = self.motion_scores@.skip(start as int);
        let mut sum: u64 = 0;
        let mut max: u64 = 0;
        let mut i: usize = 0;
        while i < 10
            invariant
                0 <= i <= 10,
                start + 10 == n,
                n == self.motion_scores@.len(),
                recent == self.motion_scores@.skip(start as int),
                sum == sum_prefix(recent, i as int),
                max == max_prefix(recent, i as int),
                sum <= i * 0xffff_ffffu64,
                max <= 0xffff_ffffu64,
            decreases 10 - i,
        {
            let v = self.motion_scores[start + i];
            proof {
                assert(recent[i as int] == self.motion_scores@[start + i]);
            }
            sum = sum + v as u64;
            if v as u64 >= max {
                max = v as u64;
            }
            i = i + 1;
        }
        max > 50 && 10 * max > 3 * sum
    }

    /// Whether the recent scores show sustained facial motion.
    pub fn has_facial_motion(&self) -> (r: bool)
        ensures
            r == facial_motion_spec(self.motion_scores@),
    {
        let n = self.motion_scores.len();
        if n < 15 {
            return false;
        }
        let start = n - 15;
        let ghost recent = self.motion_scores@.skip(start as int);
        let mut sum: u64 = 0;
        let mut count: u32 = 0;
        let mut i: usize = 0;
        while i < 15
            invariant
                0 <= i <= 15,
                start + 15 == n,
                n == self.motion_scores@.len(),
                recent == self.motion_scores@.skip(start as int),
                sum == sum_prefix(recent, i as int),
                count == count_above_prefix(recent, i as int, 30),
                sum <= i * 0xffff_ffffu64,
                count <= i,
            decreases 15 - i,
        {
            let v = self.motion_scores[start + i];
            proof {
                assert(recent[i as int] == self.motion_scores@[start + i]);
            }
            sum = sum + v as u64;
            if v > 30 {
                count = count + 1;
            }
            i = i + 1;
        }
        sum > 600 && count >= 8
    }

    /// Whether the position history shows a horizontal turn.
    pub fn validate_turn_movement(&self) -> (r: bool)
        ensures
            r == turn_movement_spec(self.face_positions@),
    {
        let n = self.face_positions.len();
        if n < 20 {
            return false;
        }
        let first = self.face_positions[0];
        let last = self.face_positions[n - 1];
        let dx: i64 = (last.0 as i64) - (first.0 as i64);
        let adx: i64 = if dx >= 0 {
            dx
        } else {
            -dx
        };
        adx > 15000
    }

    /// Whether the position history shows a vertical head tilt.
    pub fn validate_head_movement(&self) -> (r: bool)
        ensures
            r == head_movement_spec(self.face_positions@),
    {
        let n = self.face_positions.len();
        if n < 20 {
            return false;
        }
        let first = self.face_positions[0];
        let last = self.face_positions[n - 1];
        let dy: i64 = (last.1 as i64) - (first.1 as i64);
        let ady: i64 = if dy >= 0 {
            dy
        } else {
            -dy
        };
        ady > 10000
    }
}

} // verus!
