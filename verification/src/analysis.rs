//! Analysis of a closed challenge buffer and the per-challenge decision.
//!
//! Rates are exact rational quantities truncated to permille, so the
//! decision thresholds (rate at least 0.7, quality at least 0.6) are exact:
//! a truncated permille is at least 700 exactly when the rational rate is.

use crate::protocol::{ChallengeAnalysis, ChallengeFrameData, Decision};
use vstd::prelude::*;

verus! {

/// The buffer accumulated between challenge-start and challenge-end.
pub struct ChallengeBufferState {
    pub attempt_id: String,
    pub challenge_id: String,
    pub challenge_type: String,
    pub start_time: u64,
    pub frames: Vec<ChallengeFrameData>,
    pub total_expected_frames: usize,
    pub received_batches: usize,
    pub gesture_detected: bool,
}

/// How many of the first `n` frames report a present face.
pub open spec fn face_count(fs: Seq<ChallengeFrameData>, n: int) -> int
    decreases n,
{
    if n <= 0 {
        0
    } else {
        face_count(fs, n - 1) + if fs[n - 1].face_present == Some(true) {
            1int
        } else {
            0int
        }
    }
}

/// How many of the first `n` frames carry landmarks.
pub open spec fn landmark_count(fs: Seq<ChallengeFrameData>, n: int) -> int
    decreases n,
{
    if n <= 0 {
        0
    } else {
        landmark_count(fs, n - 1) + if fs[n - 1].has_landmarks {
            1int
        } else {
            0int
        }
    }
}

/// Sum of the reported motion scores (milli-units) of the first `n` frames;
/// frames without a score contribute nothing.
pub open spec fn motion_sum_milli(fs: Seq<ChallengeFrameData>, n: int) -> int
    decreases n,
{
    if n <= 0 {
        0
    } else {
        motion_sum_milli(fs, n - 1) + match fs[n - 1].motion_score_milli {
            Some(v) => v as int,
            None => 0int,
        }
    }
}

/// The average motion score in milli-units: the sum over reporting frames
/// divided by the total frame count.
pub open spec fn average_motion_milli(fs: Seq<ChallengeFrameData>) -> int {
    if fs.len() > 0 {
        motion_sum_milli(fs, fs.len() as int) / fs.len() as int
    } else {
        0
    }
}

/// The face detection rate in permille, truncated.
pub open spec fn face_rate_permille(fs: Seq<ChallengeFrameData>) -> int {
    if fs.len() > 0 {
        1000 * face_count(fs, fs.len() as int) / fs.len() as int
    } else {
        0
    }
}

/// The quality score in permille, truncated: 0.7 times the face rate plus
/// 0.3 times the average motion score.
pub open spec fn quality_permille(fs: Seq<ChallengeFrameData>) -> int {
    if fs.len() > 0 {
        (7000 * face_count(fs, fs.len() as int) + 3 * motion_sum_milli(fs, fs.len() as int)) / (10
            * fs.len() as int)
    } else {
        0
    }
}

/// The gesture confidence in permille: 0.6 times the face rate plus 0.4
/// times the average motion score, capped at 950; zero when the client saw
/// no gesture.
pub open spec fn confidence_permille(fs: Seq<ChallengeFrameData>, gesture: bool) -> int {
    if !gesture || fs.len() == 0 {
        0
    } else {
        let raw = (6000 * face_count(fs, fs.len() as int) + 4 * motion_sum_milli(
            fs,
            fs.len() as int,
        )) / (10 * fs.len() as int);
        if raw <= 950 {
            raw
        } else {
            950
        }
    }
}

/// The whole analysis of a buffer at wall time `now_ms`, as one record.
pub open spec fn analysis_spec(b: ChallengeBufferState, now_ms: u64) -> ChallengeAnalysis {
    ChallengeAnalysis {
        total_frames: b.frames@.len() as usize,
        frames_with_face: face_count(b.frames@, b.frames@.len() as int) as usize,
        frames_with_landmarks: landmark_count(b.frames@, b.frames@.len() as int) as usize,
        average_motion_score_milli: average_motion_milli(b.frames@) as u32,
        face_detection_rate_permille: face_rate_permille(b.frames@) as u32,
        gesture_confidence_permille: confidence_permille(b.frames@, b.gesture_detected) as u32,
        processing_time_ms: if now_ms >= b.start_time {
            (now_ms - b.start_time) as u64
        } else {
            0u64
        },
        quality_score_permille: quality_permille(b.frames@) as u32,
    }
}

/// A quotient of a sum bounded by `count * bound` stays at or below
/// `bound`.
proof fn lemma_avg_bound(sum: int, count: int, bound: int)
    requires
        0 < count,
        0 <= sum <= count * bound,
        0 <= bound,
    ensures
        0 <= sum / count <= bound,
{
    assert(count * bound == bound * count) by (nonlinear_arith);
    vstd::arithmetic::div_mod::lemma_div_is_ordered(sum, bound * count, count);
    vstd::arithmetic::div_mod::lemma_div_by_multiple(bound, count);
    vstd::arithmetic::div_mod::lemma_div_pos_is_pos(sum, count);
}

/// Analyze a closed buffer at wall time `now_ms`: frame counts, rates, and
/// processing time (zero if the clock ran backwards past the start time).
pub fn analyze_challenge_buffer(buffer: &ChallengeBufferState, now_ms: u64) -> (r:
    ChallengeAnalysis)
    ensures
        r.total_frames == buffer.frames@.len(),
        r.frames_with_face == face_count(buffer.frames@, buffer.frames@.len() as int),
        r.frames_with_landmarks == landmark_count(buffer.frames@, buffer.frames@.len() as int),
        r.average_motion_score_milli == average_motion_milli(buffer.frames@),
        r.face_detection_rate_permille == face_rate_permille(buffer.frames@),
        r.gesture_confidence_permille == confidence_permille(
            buffer.frames@,
            buffer.gesture_detected,
        ),
        r.quality_score_permille == quality_permille(buffer.frames@),
        r.processing_time_ms == if now_ms >= buffer.start_time {
            now_ms - buffer.start_time
        } else {
            0
        },
        r == analysis_spec(*buffer, now_ms),
{
    let total: usize = buffer.frames.len();
    let mut with_face: usize = 0;
    let mut with_landmarks: usize = 0;
    let mut sum: u128 = 0;
    let mut i: usize = 0;
    while i < total
        invariant
            0 <= i <= total,
            total == buffer.frames@.len(),
            with_face == face_count(buffer.frames@, i as int),
            with_landmarks == landmark_count(buffer.frames@, i as int),
            sum == motion_sum_milli(buffer.frames@, i as int),
            with_face <= i,
            with_landmarks <= i,
            sum <= i * 0xffff_ffffu64,
        decreases total - i,
    {
        let f = &buffer.frames[i];
        if let Some(p) = f.face_present {
            if p {
                with_face = with_face + 1;
            }
        }
        if f.has_landmarks {
            with_landmarks = with_landmarks + 1;
        }
        if let Some(ms) = f.motion_score_milli {
            sum = sum + ms as u128;
        }
        i = i + 1;
    }
    let average_motion_score_milli: u32;
    let face_detection_rate_permille: u32;
    let quality_score_permille: u32;
    let mut gesture_confidence_permille: u32 = 0;
    if total > 0 {
        let avg: u128 = sum / (total as u128);
        proof {
            lemma_avg_bound(sum as int, total as int, 0xffff_ffffu64 as int);
        }
        average_motion_score_milli = avg as u32;
        let rate: u128 = 1000 * (with_face as u128) / (total as u128);
        proof {
            assert(1000 * (with_face as int) <= (total as int) * 1000) by (nonlinear_arith)
                requires
                    0 <= with_face <= total,
            ;
            lemma_avg_bound(1000 * (with_face as int), total as int, 1000);
        }
        face_detection_rate_permille = rate as u32;
        let qnum: u128 = 7000 * (with_face as u128) + 3 * sum;
        let qden: u128 = 10 * (total as u128);
        let q: u128 = qnum / qden;
        proof {
            assert(7000 * (with_face as int) + 3 * (sum as int) <= (10 * (total as int))
                * 0xffff_ffffu64) by (nonlinear_arith)
                requires
                    0 <= with_face <= total,
                    0 <= sum <= (total as int) * 0xffff_ffffu64,
                    0 < total,
            ;
            lemma_avg_bound(qnum as int, qden as int, 0xffff_ffffu64 as int);
        }
        quality_score_permille = q as u32;
        if buffer.gesture_detected {
            let cnum: u128 = 6000 * (with_face as u128) + 4 * sum;
            let craw: u128 = cnum / qden;
            let c: u128 = if craw <= 950 {
                craw
            } else {
                950
            };
            proof {
                vstd::arithmetic::div_mod::lemma_div_pos_is_pos(cnum as int, qden as int);
            }
            gesture_confidence_permille = c as u32;
        }
    } else {
        average_motion_score_milli = 0;
        face_detection_rate_permille = 0;
        quality_score_permille = 0;
    }
    let processing_time_ms: u64 = if now_ms >= buffer.start_time {
        now_ms - buffer.start_time
    } else {
        0
    };
    ChallengeAnalysis {
        total_frames: total,
        frames_with_face: with_face,
        frames_with_landmarks: with_landmarks,
        average_motion_score_milli,
        face_detection_rate_permille,
        gesture_confidence_permille,
        processing_time_ms,
        quality_score_permille,
    }
}

/// Reason reported when too few frames show a face.
pub const REASON_FACE: &'static str = "Taxa de deteccao facial muito baixa";

/// Reason reported when the quality score is too low.
pub const REASON_QUALITY: &'static str = "Qualidade dos dados insuficiente";

/// Reason reported when too few frames were buffered.
pub const REASON_FRAMES: &'static str = "Numero insuficiente de frames";

/// Reason reported when the client saw no gesture.
pub const REASON_GESTURE: &'static str = "Gesto nao detectado";

/// Truncating to permille loses nothing at a permille bar: the truncated
/// quotient clears an integer bar exactly when the underlying rational
/// does. The decision thresholds below are therefore exact: a face rate of
/// 700 permille means ten times the face count is at least seven times the
/// frame count, nothing looser.
pub proof fn lemma_permille_threshold_exact(num: int, den: int, bar: int)
    requires
        den > 0,
        0 <= num,
        0 <= bar,
    ensures
        (num / den >= bar) <==> (num >= bar * den),
{
    vstd::arithmetic::div_mod::lemma_fundamental_div_mod(num, den);
    vstd::arithmetic::div_mod::lemma_div_pos_is_pos(num, den);
    let q = num / den;
    let r = num % den;
    vstd::arithmetic::div_mod::lemma_remainder_lower(num, den);
    vstd::arithmetic::div_mod::lemma_remainder_upper(num, den);
    if q >= bar {
        assert(den * q >= den * bar) by (nonlinear_arith)
            requires
                q >= bar,
                den > 0,
        ;
        assert(bar * den == den * bar) by (nonlinear_arith);
    } else {
        assert(den * q + r < den * (q + 1)) by (nonlinear_arith)
            requires
                r < den,
        ;
        assert(den * (q + 1) <= den * bar) by (nonlinear_arith)
            requires
                q + 1 <= bar,
                den > 0,
        ;
        assert(bar * den == den * bar) by (nonlinear_arith);
    }
}

/// Whether an analysis passes the per-challenge bar: face rate at least
/// 0.7, quality at least 0.6, at least ten frames, and the gesture seen.
pub open spec fn challenge_passes(a: ChallengeAnalysis, gesture: bool) -> bool {
    &&& a.face_detection_rate_permille >= 700
    &&& a.quality_score_permille >= 600
    &&& a.total_frames >= 10
    &&& gesture
}

/// Decide one challenge from its analysis; on failure the reason names the
/// first unmet criterion, in the order face rate, quality, frame count,
/// gesture.
pub fn make_challenge_decision(buffer: &ChallengeBufferState, analysis: &ChallengeAnalysis) -> (r:
    Decision)
    ensures
        r.passed == challenge_passes(*analysis, buffer.gesture_detected),
        r.passed ==> r.reason is None,
        analysis.face_detection_rate_permille < 700 ==> (r.reason matches Some(s) && s@
            == REASON_FACE@),
        analysis.face_detection_rate_permille >= 700 && analysis.quality_score_permille < 600 ==> (
        r.reason matches Some(s) && s@ == REASON_QUALITY@),
        analysis.face_detection_rate_permille >= 700 && analysis.quality_score_permille >= 600
            && analysis.total_frames < 10 ==> (r.reason matches Some(s) && s@ == REASON_FRAMES@),
        analysis.face_detection_rate_permille >= 700 && analysis.quality_score_permille >= 600
            && analysis.total_frames >= 10 && !buffer.gesture_detected ==> (r.reason matches Some(
        s) && s@ == REASON_GESTURE@),
{
    let face_ok = analysis.face_detection_rate_permille >= 700;
    let quality_ok = analysis.quality_score_permille >= 600;
    let frames_ok = analysis.total_frames >= 10;
    let gesture_ok = buffer.gesture_detected;
    let passed = face_ok && quality_ok && frames_ok && gesture_ok;
    let reason: Option<&'static str> = if passed {
        None
    } else if !face_ok {
        Some(REASON_FACE)
    } else if !quality_ok {
        Some(REASON_QUALITY)
    } else if !frames_ok {
        Some(REASON_FRAMES)
    } else {
        Some(REASON_GESTURE)
    };
    Decision { passed, reason }
}

} // verus!
