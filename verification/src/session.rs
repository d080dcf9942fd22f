//! One session of the proof-of-life protocol: its identity, metrics, the
//! challenge state machine, and the handlers that dispatch each inbound
//! message. The handlers are pure state transitions: they take the decoded
//! message (and, for frames, the externally computed perceptual hash and
//! detector output) and return the messages to send.

use crate::analysis::{
    analyze_challenge_buffer, challenge_passes, make_challenge_decision, ChallengeBufferState,
};
use crate::detect::{box_wf, FaceBox};
use crate::envelope::{BinaryFrame, FrameError};
use crate::limiter::RateLimiter;
use crate::pad::{pad_step, pad_wf, process_frame, PadConfig, PadSignals, PadState};
use crate::protocol::{
    ChallengeEndMessage, ChallengeFrameBatchMessage, ChallengeKind, ChallengeStartMessage,
    ClientInfo, ClientMessage, Decision, ErrorCode, FrameMessage, PadDebug, PromptChallenge,
    ServerMessage, TelemetryMessage,
};
use crate::telemetry::{
    capped_push, facial_motion_spec, head_movement_spec, significant_motion_spec, telemetry_empty,
    telemetry_wf, turn_movement_spec, TelemetryState, MOTION_HIT_MILLI,
};
use rand::seq::SliceRandom;
use vstd::prelude::*;

verus! {

/// Per-session frame counters.
#[derive(Clone, Copy, Debug, PartialEq, Eq, Structural)]
pub struct SessionMetrics {
    pub frames_received: u64,
    pub throttled: u64,
    pub p95_rtt_ms: Option<u32>,
}

impl Default for SessionMetrics {
    /// All counters at zero.
    fn default() -> (m: Self)
        ensures
            m.frames_received == 0,
            m.throttled == 0,
            m.p95_rtt_ms is None,
    {
        SessionMetrics { frames_received: 0, throttled: 0, p95_rtt_ms: None }
    }
}

/// The challenge state machine of one attempt.
#[derive(Clone, Debug)]
pub enum FsmState {
    Idle,
    Prompting { challenge_id: String, kind: ChallengeKind },
    Passed,
    Failed,
}

/// The state machine with its pass/fail counters.
#[derive(Clone, Debug)]
pub struct SessionFsm {
    pub state: FsmState,
    pub completed: u32,
    pub failed: u32,
}

impl SessionFsm {
    /// A fresh machine: idle, nothing completed or failed.
    pub fn new() -> (f: Self)
        ensures
            f.state is Idle,
            f.completed == 0,
            f.failed == 0,
    {
        SessionFsm { state: FsmState::Idle, completed: 0, failed: 0 }
    }
}

/// Whether the machine reached a terminal decision.
pub open spec fn fsm_terminal(s: FsmState) -> bool {
    s is Passed || s is Failed
}

/// The counters never pass three in total; while no terminal decision is
/// reached the attempt can still take evidence, so the counters sum below
/// three.
pub open spec fn fsm_wf(f: SessionFsm) -> bool {
    &&& f.completed <= 3
    &&& f.failed <= 3
    &&& f.completed + f.failed <= 3
    &&& (!fsm_terminal(f.state) ==> f.completed + f.failed < 3)
}

/// One connected client's session.
pub struct Session {
    pub id: String,
    pub token: String,
    pub metrics: SessionMetrics,
    pub fsm: SessionFsm,
    pub pad_state: PadState,
    pub tele: TelemetryState,
    pub challenge_buffer: Option<ChallengeBufferState>,
    pub current_attempt_id: String,
}

/// The session invariant: a well-formed machine and capped histories.
pub open spec fn session_wf(s: Session) -> bool {
    &&& fsm_wf(s.fsm)
    &&& telemetry_wf(s.tele)
}

impl Session {
    /// A fresh session bound to an id, its token, and the first attempt id.
    pub fn new(id: String, token: String, attempt_id: String) -> (s: Self)
        ensures
            s.id == id,
            s.token == token,
            s.current_attempt_id == attempt_id,
            s.metrics.frames_received == 0,
            s.metrics.throttled == 0,
            s.fsm.state is Idle,
            s.fsm.completed == 0,
            s.fsm.failed == 0,
            s.pad_state.last_ts is None,
            s.pad_state.recent_hashes@.len() == 0,
            s.pad_state.last_small_gray is None,
            telemetry_empty(s.tele),
            s.challenge_buffer is None,
            session_wf(s),
    {
        Session {
            id,
            token,
            metrics: Default::default(),
            fsm: SessionFsm::new(),
            pad_state: Default::default(),
            tele: TelemetryState::new(),
            challenge_buffer: None,
            current_attempt_id: attempt_id,
        }
    }
}

/// The label of the n-th prompt of an attempt.
pub open spec fn challenge_label_spec(n: int) -> Seq<char> {
    if n <= 1 {
        "c1"@
    } else if n == 2 {
        "c2"@
    } else {
        "c3"@
    }
}

/// Build the label of the n-th prompt; an attempt holds at most three.
fn challenge_label(n: u32) -> (r: String)
    requires
        1 <= n <= 3,
    ensures
        r@ == challenge_label_spec(n as int),
{
    let s: &str = if n == 1 {
        "c1"
    } else if n == 2 {
        "c2"
    } else {
        "c3"
    };
    s.to_owned()
}

/// The prompt kinds available after a challenge of kind `c`: the supported
/// four, minus `c` itself.
pub open spec fn kinds_excluding(c: ChallengeKind) -> Seq<ChallengeKind> {
    if c == ChallengeKind::OpenMouth {
        seq![ChallengeKind::TurnLeft, ChallengeKind::TurnRight, ChallengeKind::HeadUp]
    } else if c == ChallengeKind::TurnLeft {
        seq![ChallengeKind::OpenMouth, ChallengeKind::TurnRight, ChallengeKind::HeadUp]
    } else if c == ChallengeKind::TurnRight {
        seq![ChallengeKind::OpenMouth, ChallengeKind::TurnLeft, ChallengeKind::HeadUp]
    } else if c == ChallengeKind::HeadUp {
        seq![ChallengeKind::OpenMouth, ChallengeKind::TurnLeft, ChallengeKind::TurnRight]
    } else {
        seq![
            ChallengeKind::OpenMouth,
            ChallengeKind::TurnLeft,
            ChallengeKind::TurnRight,
            ChallengeKind::HeadUp,
        ]
    }
}

/// Build the prompt kinds available after a challenge of kind `c`.
fn kinds_excluding_list(c: ChallengeKind) -> (r: Vec<ChallengeKind>)
    ensures
        r@ == kinds_excluding(c),
        r@.len() >= 3,
{
    let mut v: Vec<ChallengeKind> = Vec::new();
    if c != ChallengeKind::OpenMouth {
        v.push(ChallengeKind::OpenMouth);
    }
    if c != ChallengeKind::TurnLeft {
        v.push(ChallengeKind::TurnLeft);
    }
    if c != ChallengeKind::TurnRight {
        v.push(ChallengeKind::TurnRight);
    }
    if c != ChallengeKind::HeadUp {
        v.push(ChallengeKind::HeadUp);
    }
    proof {
        assert(v@ =~= kinds_excluding(c));
    }
    v
}

/// Relies on rand's `SliceRandom::choose` with `thread_rng`: an element of
/// a non-empty slice is returned; which one depends on the generator, so
/// only membership is stated.
#[verifier::external_body]
fn choose_random_kind(options: &Vec<ChallengeKind>) -> (r: Option<ChallengeKind>)
    ensures
        r is Some <==> options@.len() > 0,
        r matches Some(k) ==> options@.contains(k),
{
    options.as_slice().choose(&mut rand::thread_rng()).copied()
}

/// Pick a random next prompt kind among the supported four, distinct from
/// the current one (unless the current kind is outside the supported set).
fn pick_next_kind_random(current: ChallengeKind) -> (k: ChallengeKind)
    ensures
        kinds_excluding(current).contains(k),
{
    let options = kinds_excluding_list(current);
    match choose_random_kind(&options) {
        Some(k) => k,
        None => {
            // Unreachable: at most one of the four supported kinds equals
            // the current one, so the options are never empty.
            proof {
                assert(false);
            }
            ChallengeKind::OpenMouth
        },
    }
}

/// The first message of a connection, as far as the handshake cares: a
/// parsed hello, some other text message, or a binary frame.
pub enum FirstMessage {
    Hello { session_id: String, token: String, client: ClientInfo },
    OtherText,
    Binary,
}

/// What the handshake decided: proceed with an acknowledgement, or send
/// exactly one error and close the connection.
pub enum HandshakeDecision {
    Accept { ack: ServerMessage },
    Reject { error: ServerMessage },
}

/// Decide the handshake. `stored_token` is the token of the session named
/// in the hello, if that session exists. A non-hello first message is
/// rejected and closed with one `bad-handshake` error; a hello with an
/// unknown session or a wrong token with one `unauthorized` error; a
/// matching hello is acknowledged with the supported challenge list.
pub fn handshake_decision(first: &FirstMessage, stored_token: Option<&String>) -> (r:
    HandshakeDecision)
    ensures
        match first {
            FirstMessage::Hello { token, .. } => {
                if stored_token matches Some(st) && st@ == token@ {
                    r matches HandshakeDecision::Accept { ack } && ack matches
                        ServerMessage::HelloAck { challenges } && challenges@
                        == crate::protocol::supported_challenges()
                } else {
                    r matches HandshakeDecision::Reject { error } && error matches
                        ServerMessage::ProtocolError { code, .. } && code
                        == ErrorCode::Unauthorized
                }
            },
            _ => r matches HandshakeDecision::Reject { error } && error matches
                ServerMessage::ProtocolError { code, .. } && code == ErrorCode::BadHandshake,
        },
{
    match first {
        FirstMessage::Hello { token, .. } => {
            let ok = match stored_token {
                Some(st) => *st == *token,
                None => false,
            };
            if ok {
                HandshakeDecision::Accept {
                    ack: ServerMessage::HelloAck {
                        challenges: crate::protocol::supported_challenge_list(),
                    },
                }
            } else {
                HandshakeDecision::Reject {
                    error: ServerMessage::ProtocolError {
                        code: ErrorCode::Unauthorized,
                        message: "invalid session or token",
                    },
                }
            }
        },
        _ => HandshakeDecision::Reject {
            error: ServerMessage::ProtocolError {
                code: ErrorCode::BadHandshake,
                message: "expected hello first",
            },
        },
    }
}

/// Issue the initial prompt after a successful handshake on a fresh
/// session: challenge `c1`, open-mouth, five-second timeout.
pub fn initial_prompt(s: &mut Session) -> (msg: ServerMessage)
    requires
        session_wf(*old(s)),
        old(s).fsm.state is Idle,
        old(s).fsm.completed == 0,
        old(s).fsm.failed == 0,
    ensures
        session_wf(*final(s)),
        final(s).fsm.state matches FsmState::Prompting { challenge_id, kind } && challenge_id@
            == challenge_label_spec(1) && kind == ChallengeKind::OpenMouth,
        final(s).fsm.completed == 0,
        final(s).fsm.failed == 0,
        final(s).id == old(s).id,
        final(s).token == old(s).token,
        final(s).metrics == old(s).metrics,
        final(s).pad_state == old(s).pad_state,
        final(s).tele == old(s).tele,
        final(s).challenge_buffer == old(s).challenge_buffer,
        final(s).current_attempt_id == old(s).current_attempt_id,
        msg matches ServerMessage::Prompt { challenge } && challenge.id@ == challenge_label_spec(1)
            && challenge.kind == ChallengeKind::OpenMouth && challenge.timeout_ms == 5000
            && challenge.attempt_id@ == old(s).current_attempt_id@,
{
    let label = challenge_label(1);
    s.fsm.state = FsmState::Prompting { challenge_id: label, kind: ChallengeKind::OpenMouth };
    ServerMessage::Prompt {
        challenge: PromptChallenge {
            id: challenge_label(1),
            kind: ChallengeKind::OpenMouth,
            timeout_ms: 5000,
            attempt_id: s.current_attempt_id.clone(),
        },
    }
}

/// The motion-score history after recording one telemetry message.
pub open spec fn scores_after(t: Seq<u32>, ms: Option<u32>) -> Seq<u32> {
    match ms {
        Some(v) => capped_push(t, v),
        None => t,
    }
}

/// The motion-hit counter after recording one telemetry message: a
/// saturating increment when the score reaches the hit threshold.
pub open spec fn hits_after(h: u32, ms: Option<u32>) -> int {
    match ms {
        Some(v) => if v >= MOTION_HIT_MILLI && h < u32::MAX {
            h + 1
        } else {
            h as int
        },
        None => h as int,
    }
}

/// Whether a telemetry message completes the prompted gesture: the
/// admission table of each challenge kind, evaluated on the updated
/// history.
pub open spec fn telemetry_admits(t: TelemetryState, ms: Option<u32>, kind: ChallengeKind) -> bool {
    let scores = scores_after(t.motion_scores@, ms);
    let hits = hits_after(t.motion_hits, ms);
    match kind {
        ChallengeKind::Blink => hits >= 10 && significant_motion_spec(scores),
        ChallengeKind::OpenMouth => hits >= 15 && facial_motion_spec(scores),
        ChallengeKind::TurnLeft => hits >= 20 && turn_movement_spec(t.face_positions@),
        ChallengeKind::TurnRight => hits >= 20 && turn_movement_spec(t.face_positions@),
        ChallengeKind::HeadUp => hits >= 25 && head_movement_spec(t.face_positions@),
        ChallengeKind::HeadDown => hits >= 25 && head_movement_spec(t.face_positions@),
    }
}

/// The whole relation of one telemetry message: the histories recorded,
/// the prompt resolved when its admission condition is met, and the
/// messages sent.
pub open spec fn telemetry_step(
    pre: Session,
    post: Session,
    tel: TelemetryMessage,
    msgs: Seq<ServerMessage>,
) -> bool {
    &&& post.id == pre.id
    &&& post.token == pre.token
    &&& post.current_attempt_id == pre.current_attempt_id
    &&& post.metrics == pre.metrics
    &&& post.pad_state == pre.pad_state
    &&& post.challenge_buffer == pre.challenge_buffer
    &&& (fsm_terminal(pre.fsm.state) ==> post.fsm == pre.fsm)
    &&& !(pre.fsm.state matches FsmState::Prompting { kind, .. } && telemetry_admits(
        pre.tele,
        tel.motion_score_milli,
        kind,
    )) ==> {
        &&& post.fsm == pre.fsm
        &&& post.tele.motion_scores@ == scores_after(
            pre.tele.motion_scores@,
            tel.motion_score_milli,
        )
        &&& post.tele.motion_hits == hits_after(pre.tele.motion_hits, tel.motion_score_milli)
        &&& post.tele.face_positions == pre.tele.face_positions
        &&& post.tele.turn_left_hits == pre.tele.turn_left_hits
        &&& post.tele.turn_right_hits == pre.tele.turn_right_hits
        &&& post.tele.last_cx_milli == pre.tele.last_cx_milli
        &&& post.tele.last_w_milli == pre.tele.last_w_milli
        &&& msgs.len() == 0
    }
    &&& (pre.fsm.state matches FsmState::Prompting { kind, .. } && telemetry_admits(
        pre.tele,
        tel.motion_score_milli,
        kind,
    )) ==> {
        let done = pre.fsm.completed + 1;
        &&& telemetry_empty(post.tele)
        &&& post.fsm.completed == done
        &&& post.fsm.failed == pre.fsm.failed
        &&& msgs.len() == 1
        &&& if done >= 3 {
            post.fsm.state is Passed && (msgs[0] matches ServerMessage::AttemptResult {
                attempt_id,
                decision,
            } && attempt_id@ == pre.current_attempt_id@ && decision.passed && decision.reason
                is None)
        } else if done + pre.fsm.failed >= 3 {
            post.fsm.state is Failed && (msgs[0] matches ServerMessage::AttemptResult {
                attempt_id,
                decision,
            } && attempt_id@ == pre.current_attempt_id@ && !decision.passed)
        } else {
            (post.fsm.state matches FsmState::Prompting { challenge_id, kind: next }
                && challenge_id@ == challenge_label_spec(done + 1) && kinds_excluding(
                pre.fsm.state->Prompting_kind,
            ).contains(next) && (msgs[0] matches ServerMessage::Prompt { challenge }
                && challenge.id@ == challenge_label_spec(done + 1) && challenge.kind == next
                && challenge.timeout_ms == 5000 && challenge.attempt_id@
                == pre.current_attempt_id@))
        }
    }
}

/// Feed one telemetry message: record the motion score, and if the prompted
/// gesture's admission condition is now met, resolve the prompt — pass the
/// attempt at three completed challenges, finalize a spent attempt, or
/// issue the next prompt with a random distinct kind.
pub fn handle_telemetry(s: &mut Session, tel: &TelemetryMessage) -> (msgs: Vec<ServerMessage>)
    requires
        session_wf(*old(s)),
    ensures
        session_wf(*final(s)),
        telemetry_step(*old(s), *final(s), *tel, msgs@),
{
    let mut msgs: Vec<ServerMessage> = Vec::new();
    if let Some(ms) = tel.motion_score_milli {
        s.tele.add_motion_score(ms);
        if ms >= MOTION_HIT_MILLI {
            let h = s.tele.motion_hits;
            if h < u32::MAX {
                s.tele.motion_hits = h + 1;
            }
        }
    }
    let fired: bool;
    let cur_kind: ChallengeKind;
    match &s.fsm.state {
        FsmState::Prompting { kind, .. } => {
            cur_kind = *kind;
            fired = match kind {
                ChallengeKind::Blink => s.tele.motion_hits >= 10
                    && s.tele.has_significant_motion(),
                ChallengeKind::OpenMouth => s.tele.motion_hits >= 15
                    && s.tele.has_facial_motion(),
                ChallengeKind::TurnLeft => s.tele.motion_hits >= 20
                    && s.tele.validate_turn_movement(),
                ChallengeKind::TurnRight => s.tele.motion_hits >= 20
                    && s.tele.validate_turn_movement(),
                ChallengeKind::HeadUp => s.tele.motion_hits >= 25
                    && s.tele.validate_head_movement(),
                ChallengeKind::HeadDown => s.tele.motion_hits >= 25
                    && s.tele.validate_head_movement(),
            };
        },
        _ => {
            fired = false;
            cur_kind = ChallengeKind::OpenMouth;
        },
    }
    if fired {
        let done = s.fsm.completed + 1;
        s.fsm.completed = done;
        s.tele.reset();
        if done >= 3 {
            s.fsm.state = FsmState::Passed;
            msgs.push(
                ServerMessage::AttemptResult {
                    attempt_id: s.current_attempt_id.clone(),
                    decision: Decision { passed: true, reason: None },
                },
            );
        } else if done + s.fsm.failed >= 3 {
            s.fsm.state = FsmState::Failed;
            msgs.push(
                ServerMessage::AttemptResult {
                    attempt_id: s.current_attempt_id.clone(),
                    decision: Decision { passed: false, reason: None },
                },
            );
        } else {
            let next = pick_next_kind_random(cur_kind);
            let label = challenge_label(done + 1);
            msgs.push(
                ServerMessage::Prompt {
                    challenge: PromptChallenge {
                        id: challenge_label(done + 1),
                        kind: next,
                        timeout_ms: 5000,
                        attempt_id: s.current_attempt_id.clone(),
                    },
                },
            );
            s.fsm.state = FsmState::Prompting { challenge_id: label, kind: next };
        }
    }
    msgs
}

/// The whole relation of one challenge-start message: the attempt adopted,
/// the machine reset exactly when the attempt is new, and the fresh buffer
/// opened.
pub open spec fn challenge_start_step(
    pre: Session,
    post: Session,
    m: ChallengeStartMessage,
) -> bool {
    &&& post.id == pre.id
    &&& post.token == pre.token
    &&& post.metrics == pre.metrics
    &&& post.pad_state == pre.pad_state
    &&& post.current_attempt_id@ == m.attempt_id@
    &&& (pre.current_attempt_id@ == m.attempt_id@ ==> post.fsm == pre.fsm && post.tele
        == pre.tele)
    &&& (pre.current_attempt_id@ != m.attempt_id@ ==> post.fsm.state is Idle
        && post.fsm.completed == 0 && post.fsm.failed == 0 && telemetry_empty(post.tele))
    &&& (post.challenge_buffer matches Some(b) && b.attempt_id@ == m.attempt_id@
        && b.challenge_id@ == m.challenge_id@ && b.challenge_type@ == m.challenge_type@
        && b.start_time == m.start_time && b.frames@.len() == 0 && b.total_expected_frames
        == m.total_frames && b.received_batches == 0 && b.gesture_detected == m.gesture_detected)
}

/// Open a challenge buffer. A start message carrying a new attempt id
/// begins a fresh attempt: the machine returns to idle with cleared
/// counters, the telemetry is cleared, and any prior buffer is dropped.
pub fn handle_challenge_start(s: &mut Session, m: &ChallengeStartMessage)
    requires
        session_wf(*old(s)),
    ensures
        session_wf(*final(s)),
        challenge_start_step(*old(s), *final(s), *m),
{
    if !(s.current_attempt_id == m.attempt_id) {
        s.current_attempt_id = m.attempt_id.clone();
        s.fsm = SessionFsm::new();
        s.tele.reset();
        s.challenge_buffer = None;
    }
    s.challenge_buffer = Some(
        ChallengeBufferState {
            attempt_id: m.attempt_id.clone(),
            challenge_id: m.challenge_id.clone(),
            challenge_type: m.challenge_type.clone(),
            start_time: m.start_time,
            frames: Vec::new(),
            total_expected_frames: m.total_frames,
            received_batches: 0,
            gesture_detected: m.gesture_detected,
        },
    );
}

/// The whole relation of one frame-batch message: a stale attempt id
/// leaves the session untouched, a mismatched buffer discards the batch,
/// and a match extends the buffer up to its declared frame total.
pub open spec fn frame_batch_step(
    pre: Session,
    post: Session,
    m: ChallengeFrameBatchMessage,
) -> bool {
    &&& (m.attempt_id@ != pre.current_attempt_id@ ==> post == pre)
    &&& post.id == pre.id
    &&& post.token == pre.token
    &&& post.metrics == pre.metrics
    &&& post.pad_state == pre.pad_state
    &&& post.tele == pre.tele
    &&& post.fsm == pre.fsm
    &&& post.current_attempt_id == pre.current_attempt_id
    &&& (m.attempt_id@ == pre.current_attempt_id@ ==> match pre.challenge_buffer {
        None => post.challenge_buffer is None,
        Some(b) => {
            if b.attempt_id@ == m.attempt_id@ && b.challenge_id@ == m.challenge_id@ {
                let cap = if b.total_expected_frames >= b.frames@.len() {
                    b.total_expected_frames - b.frames@.len()
                } else {
                    0
                };
                let take = if m.frames@.len() <= cap {
                    m.frames@.len() as int
                } else {
                    cap
                };
                post.challenge_buffer matches Some(nb) && nb.attempt_id == b.attempt_id
                    && nb.challenge_id == b.challenge_id && nb.challenge_type == b.challenge_type
                    && nb.start_time == b.start_time && nb.frames@ == b.frames@ + m.frames@.take(
                    take,
                ) && nb.total_expected_frames == b.total_expected_frames && nb.received_batches
                    == if b.received_batches < usize::MAX {
                    b.received_batches + 1
                } else {
                    b.received_batches as int
                } && nb.gesture_detected == b.gesture_detected
            } else {
                post.challenge_buffer == Some(b)
            }
        },
    })
}

/// Append a batch of buffered frames. A batch whose attempt id does not
/// match the session's leaves the session untouched; a batch for another
/// buffer is discarded; a matching batch extends the buffer up to its
/// declared frame total.
pub fn handle_frame_batch(s: &mut Session, m: ChallengeFrameBatchMessage)
    requires
        session_wf(*old(s)),
    ensures
        session_wf(*final(s)),
        frame_batch_step(*old(s), *final(s), m),
{
    if !(s.current_attempt_id == m.attempt_id) {
        return ;
    }
    let buf_opt = s.challenge_buffer.take();
    match buf_opt {
        None => {},
        Some(mut b) => {
            if b.attempt_id == m.attempt_id && b.challenge_id == m.challenge_id {
                let ghost b0 = b;
                let ghost b0_frames = b.frames@;
                let ghost m0_frames = m.frames@;
                let mut batch = m.frames;
                while b.frames.len() < b.total_expected_frames && batch.len() > 0
                    invariant
                        b.attempt_id == b0.attempt_id,
                        b.challenge_id == b0.challenge_id,
                        b.challenge_type == b0.challenge_type,
                        b.start_time == b0.start_time,
                        b.total_expected_frames == b0.total_expected_frames,
                        b.received_batches == b0.received_batches,
                        b.gesture_detected == b0.gesture_detected,
                        b.frames@.len() >= b0_frames.len(),
                        b.frames@ == b0_frames + m0_frames.take(
                            b.frames@.len() - b0_frames.len(),
                        ),
                        batch@ == m0_frames.skip(b.frames@.len() - b0_frames.len()),
                        b.frames@.len() <= b0_frames.len() + m0_frames.len(),
                        b.frames@.len() <= b.total_expected_frames || b.frames@.len()
                            == b0_frames.len(),
                    decreases batch@.len(),
                {
                    let f = batch.remove(0);
                    b.frames.push(f);
                    proof {
                        let k = b.frames@.len() - b0_frames.len();
                        assert(b.frames@ =~= b0_frames + m0_frames.take(k));
                        assert(batch@ =~= m0_frames.skip(k));
                    }
                }
                if b.received_batches < usize::MAX {
                    b.received_batches = b.received_batches + 1;
                }
            }
            s.challenge_buffer = Some(b);
        },
    }
}

/// The kind of the outstanding prompt, open-mouth when none is
/// outstanding.
pub open spec fn current_kind_of(st: FsmState) -> ChallengeKind {
    match st {
        FsmState::Prompting { kind, .. } => kind,
        _ => ChallengeKind::OpenMouth,
    }
}

/// The whole relation of one challenge-end message: the buffer consumed,
/// the analysis and per-challenge decision reported when the ids match,
/// and the machine advanced unless the attempt already reached a terminal
/// decision.
pub open spec fn challenge_end_step(
    pre: Session,
    post: Session,
    m: ChallengeEndMessage,
    now_ms: u64,
    msgs: Seq<ServerMessage>,
) -> bool {
    &&& post.id == pre.id
    &&& post.token == pre.token
    &&& post.metrics == pre.metrics
    &&& post.pad_state == pre.pad_state
    &&& post.tele == pre.tele
    &&& post.current_attempt_id == pre.current_attempt_id
    &&& post.challenge_buffer is None
    &&& (pre.challenge_buffer is None ==> post.fsm == pre.fsm && msgs.len() == 0)
    &&& (fsm_terminal(pre.fsm.state) ==> post.fsm == pre.fsm)
    &&& (pre.challenge_buffer matches Some(b) ==> {
        let matched = pre.current_attempt_id@ == m.attempt_id@ && b.attempt_id@ == m.attempt_id@
            && b.challenge_id@ == m.challenge_id@;
        let a = crate::analysis::analysis_spec(b, now_ms);
        let passed = challenge_passes(a, b.gesture_detected);
        let cur = current_kind_of(pre.fsm.state);
        &&& !matched ==> post.fsm == pre.fsm && msgs.len() == 0
        &&& matched ==> {
            &&& msgs.len() >= 1
            &&& (msgs[0] matches ServerMessage::ChallengeResult {
                attempt_id,
                challenge_id,
                decision,
                analysis,
            } && attempt_id@ == b.attempt_id@ && challenge_id@ == b.challenge_id@ && analysis == a
                && decision.passed == passed)
            &&& fsm_terminal(pre.fsm.state) ==> msgs.len() == 1
            &&& !fsm_terminal(pre.fsm.state) && passed ==> {
                let done = pre.fsm.completed + 1;
                &&& post.fsm.completed == done
                &&& post.fsm.failed == pre.fsm.failed
                &&& msgs.len() == 2
                &&& if done >= 3 {
                    post.fsm.state is Passed && (msgs[1] matches ServerMessage::AttemptResult {
                        attempt_id,
                        decision,
                    } && attempt_id@ == pre.current_attempt_id@ && decision.passed
                        && decision.reason is None)
                } else if done + pre.fsm.failed >= 3 {
                    post.fsm.state is Failed && (msgs[1] matches ServerMessage::AttemptResult {
                        attempt_id,
                        decision,
                    } && attempt_id@ == pre.current_attempt_id@ && !decision.passed)
                } else {
                    let next = kinds_excluding(cur)[done as int % kinds_excluding(
                        cur,
                    ).len() as int];
                    (post.fsm.state matches FsmState::Prompting { challenge_id, kind }
                        && challenge_id@ == challenge_label_spec(done + 1) && kind == next && (
                    msgs[1] matches ServerMessage::Prompt { challenge } && challenge.id@
                        == challenge_label_spec(done + 1) && challenge.kind == next
                        && challenge.timeout_ms == 5000 && challenge.attempt_id@
                        == pre.current_attempt_id@))
                }
            }
            &&& !fsm_terminal(pre.fsm.state) && !passed ==> {
                let spent = pre.fsm.completed + pre.fsm.failed + 1;
                &&& post.fsm.completed == pre.fsm.completed
                &&& post.fsm.failed == pre.fsm.failed + 1
                &&& msgs.len() == 2
                &&& if spent < 3 {
                    let next = kinds_excluding(cur)[spent as int % kinds_excluding(
                        cur,
                    ).len() as int];
                    (post.fsm.state matches FsmState::Prompting { challenge_id, kind }
                        && challenge_id@ == challenge_label_spec(spent + 1) && kind == next && (
                    msgs[1] matches ServerMessage::Prompt { challenge } && challenge.id@
                        == challenge_label_spec(spent + 1) && challenge.kind == next
                        && challenge.timeout_ms == 5000 && challenge.attempt_id@
                        == pre.current_attempt_id@))
                } else {
                    post.fsm.state is Failed && (msgs[1] matches ServerMessage::AttemptResult {
                        attempt_id,
                        decision,
                    } && attempt_id@ == pre.current_attempt_id@ && !decision.passed)
                }
            }
        }
    })
}

/// Close the challenge buffer: when the end message matches the session's
/// attempt and the buffer's ids, analyze the buffered frames, report the
/// per-challenge decision, and advance the machine — unless the attempt
/// already reached a terminal decision, which no evidence alters. The
/// buffer is consumed either way.
pub fn handle_challenge_end(s: &mut Session, m: &ChallengeEndMessage, now_ms: u64) -> (msgs: Vec<
    ServerMessage,
>)
    requires
        session_wf(*old(s)),
    ensures
        session_wf(*final(s)),
        challenge_end_step(*old(s), *final(s), *m, now_ms, msgs@),
{
    let mut msgs: Vec<ServerMessage> = Vec::new();
    let buf_opt = s.challenge_buffer.take();
    let b = match buf_opt {
        None => {
            return msgs;
        },
        Some(b) => b,
    };
    let matched = s.current_attempt_id == m.attempt_id && b.attempt_id == m.attempt_id
        && b.challenge_id == m.challenge_id;
    if !matched {
        return msgs;
    }
    let analysis = analyze_challenge_buffer(&b, now_ms);
    let decision = make_challenge_decision(&b, &analysis);
    let passed = decision.passed;
    msgs.push(
        ServerMessage::ChallengeResult {
            attempt_id: b.attempt_id.clone(),
            challenge_id: b.challenge_id.clone(),
            decision,
            analysis,
        },
    );
    let terminal = match &s.fsm.state {
        FsmState::Passed => true,
        FsmState::Failed => true,
        _ => false,
    };
    if terminal {
        return msgs;
    }
    let cur_kind = match &s.fsm.state {
        FsmState::Prompting { kind, .. } => *kind,
        _ => ChallengeKind::OpenMouth,
    };
    if passed {
        let done = s.fsm.completed + 1;
        s.fsm.completed = done;
        if done >= 3 {
            s.fsm.state = FsmState::Passed;
            msgs.push(
                ServerMessage::AttemptResult {
                    attempt_id: s.current_attempt_id.clone(),
                    decision: Decision { passed: true, reason: None },
                },
            );
        } else if done + s.fsm.failed >= 3 {
            s.fsm.state = FsmState::Failed;
            msgs.push(
                ServerMessage::AttemptResult {
                    attempt_id: s.current_attempt_id.clone(),
                    decision: Decision { passed: false, reason: None },
                },
            );
        } else {
            let list = kinds_excluding_list(cur_kind);
            let idx = (done as usize) % list.len();
            let next = list[idx];
            let label = challenge_label(done + 1);
            msgs.push(
                ServerMessage::Prompt {
                    challenge: PromptChallenge {
                        id: challenge_label(done + 1),
                        kind: next,
                        timeout_ms: 5000,
                        attempt_id: s.current_attempt_id.clone(),
                    },
                },
            );
            s.fsm.state = FsmState::Prompting { challenge_id: label, kind: next };
        }
    } else {
        let failed = s.fsm.failed + 1;
        s.fsm.failed = failed;
        let spent = s.fsm.completed + failed;
        if spent < 3 {
            let list = kinds_excluding_list(cur_kind);
            let idx = (spent as usize) % list.len();
            let next = list[idx];
            let label = challenge_label(spent + 1);
            msgs.push(
                ServerMessage::Prompt {
                    challenge: PromptChallenge {
                        id: challenge_label(spent + 1),
                        kind: next,
                        timeout_ms: 5000,
                        attempt_id: s.current_attempt_id.clone(),
                    },
                },
            );
            s.fsm.state = FsmState::Prompting { challenge_id: label, kind: next };
        } else {
            s.fsm.state = FsmState::Failed;
            msgs.push(
                ServerMessage::AttemptResult {
                    attempt_id: s.current_attempt_id.clone(),
                    decision: Decision { passed: false, reason: None },
                },
            );
        }
    }
    msgs
}

/// Whether two strings hold the same characters; equal strings encode to
/// equal bytes and back.
fn str_eq(a: &str, b: &str) -> (r: bool)
    ensures
        r == (a@ == b@),
{
    let ab = a.as_bytes();
    let bb = b.as_bytes();
    proof {
        vstd::utf8::encode_utf8_decode_utf8(a@);
        vstd::utf8::encode_utf8_decode_utf8(b@);
    }
    if ab.len() != bb.len() {
        return false;
    }
    let mut i: usize = 0;
    while i < ab.len()
        invariant
            ab@ == vstd::utf8::encode_utf8(a@),
            bb@ == vstd::utf8::encode_utf8(b@),
            ab@.len() == bb@.len(),
            0 <= i <= ab@.len(),
            forall|j: int| 0 <= j < i ==> ab@[j] == bb@[j],
        decreases ab@.len() - i,
    {
        if ab[i] != bb[i] {
            proof {
                vstd::utf8::encode_utf8_decode_utf8(a@);
                vstd::utf8::encode_utf8_decode_utf8(b@);
            }
            return false;
        }
        i = i + 1;
    }
    proof {
        assert(ab@ =~= bb@);
        vstd::utf8::encode_utf8_decode_utf8(a@);
        vstd::utf8::encode_utf8_decode_utf8(b@);
    }
    true
}

/// What a base64 string decodes to, if it decodes; this depends on the
/// characters alone.
pub uninterp spec fn base64_decoding(s: Seq<char>) -> Option<Seq<u8>>;

/// Relies on base64's standard-alphabet engine `decode`: whether a string
/// decodes, and to which bytes, depends on the characters alone.
#[verifier::external_body]
fn base64_decode(s: &String) -> (r: Option<Vec<u8>>)
    ensures
        r is Some <==> base64_decoding(s@) is Some,
        r matches Some(v) ==> (base64_decoding(s@) matches Some(b) && v@ == b),
{
    base64::Engine::decode(&base64::engine::general_purpose::STANDARD, s.as_bytes()).ok()
}

/// A well-formed text frame: a supported format name, and base64 image
/// data that decodes to at least the minimum payload length.
pub open spec fn json_frame_valid(f: FrameMessage) -> bool {
    &&& (f.format@ == "jpeg"@ || f.format@ == "png"@)
    &&& (f.data matches Some(d) && base64_decoding(d@) matches Some(bytes) && bytes.len()
        >= crate::envelope::MIN_PAYLOAD_LEN)
}

/// The whole relation of a throttled frame: one more throttled count, one
/// throttle reply, nothing else.
pub open spec fn throttle_step(
    pre: Session,
    post: Session,
    max_fps: u32,
    msg: ServerMessage,
) -> bool {
    &&& post.metrics.throttled == if pre.metrics.throttled < u64::MAX {
        pre.metrics.throttled + 1
    } else {
        pre.metrics.throttled as int
    }
    &&& post.metrics.frames_received == pre.metrics.frames_received
    &&& post.metrics.p95_rtt_ms == pre.metrics.p95_rtt_ms
    &&& post.id == pre.id
    &&& post.token == pre.token
    &&& post.fsm == pre.fsm
    &&& post.pad_state == pre.pad_state
    &&& post.tele == pre.tele
    &&& post.challenge_buffer == pre.challenge_buffer
    &&& post.current_attempt_id == pre.current_attempt_id
    &&& (msg matches ServerMessage::Throttle { reason, max_fps: mf } && reason@ == "fps-limit"@
        && mf == max_fps)
}

/// Note a throttled frame: count it and build the throttle reply.
pub fn throttled_frame(s: &mut Session, max_fps: u32) -> (msg: ServerMessage)
    requires
        session_wf(*old(s)),
    ensures
        session_wf(*final(s)),
        throttle_step(*old(s), *final(s), max_fps, msg),
{
    let t = s.metrics.throttled;
    if t < u64::MAX {
        s.metrics.throttled = t + 1;
    }
    ServerMessage::Throttle { reason: "fps-limit", max_fps }
}

/// The whole relation of one text frame: the validity checks, the PAD
/// engine run on the decoded payload, the error and acknowledgement
/// replies, and the received-frame count.
pub open spec fn frame_step(
    pre: Session,
    post: Session,
    config: PadConfig,
    frame: FrameMessage,
    phash: Option<u64>,
    msgs: Seq<ServerMessage>,
) -> bool {
    &&& post.id == pre.id
    &&& post.token == pre.token
    &&& post.fsm == pre.fsm
    &&& post.tele == pre.tele
    &&& post.challenge_buffer == pre.challenge_buffer
    &&& post.current_attempt_id == pre.current_attempt_id
    &&& post.metrics.throttled == pre.metrics.throttled
    &&& post.metrics.p95_rtt_ms == pre.metrics.p95_rtt_ms
    &&& post.metrics.frames_received == if json_frame_valid(frame)
        && pre.metrics.frames_received < u64::MAX {
        pre.metrics.frames_received + 1
    } else {
        pre.metrics.frames_received as int
    }
    &&& msgs.len() == if json_frame_valid(frame) {
        1int
    } else {
        2int
    }
    &&& (!json_frame_valid(frame) ==> (msgs[0] matches ServerMessage::ProtocolError {
        code,
        message,
    } && code == ErrorCode::InvalidFrame && message@ == "invalid frame"@))
    &&& (msgs.last() matches ServerMessage::FrameAck { ts, rtt_ms, face, pad } && ts == frame.ts
        && rtt_ms is None && face is None && (match frame.data {
        Some(d) => match base64_decoding(d@) {
            Some(bytes) => pad matches Some(pd) && pad_step(
                config,
                pre.pad_state,
                post.pad_state,
                frame.ts,
                bytes,
                phash,
                PadSignals {
                    suspected_replay: pd.suspected_replay,
                    duplicate_hash: pd.duplicate_hash,
                    flicker_permille: pd.flicker_permille,
                },
            ),
            None => pad is None && post.pad_state == pre.pad_state,
        },
        None => pad is None && post.pad_state == pre.pad_state,
    }))
    &&& (pad_wf(pre.pad_state, config) && (pre.pad_state.last_ts matches Some(prev) ==> prev
        <= frame.ts) ==> pad_wf(post.pad_state, config))
}

/// Handle a text frame: validate format and payload, run the PAD engine on
/// the decoded bytes (with the caller's perceptual hash of those bytes),
/// reply an invalid-frame error for a malformed frame, and acknowledge
/// with the PAD signals; only a valid frame counts as received.
pub fn handle_frame(
    s: &mut Session,
    config: &PadConfig,
    frame: &FrameMessage,
    phash: Option<u64>,
) -> (msgs: Vec<ServerMessage>)
    requires
        session_wf(*old(s)),
    ensures
        session_wf(*final(s)),
        frame_step(*old(s), *final(s), *config, *frame, phash, msgs@),
{
    let mut msgs: Vec<ServerMessage> = Vec::new();
    let format_ok = str_eq(frame.format.as_str(), "jpeg") || str_eq(frame.format.as_str(), "png");
    let mut valid = format_ok;
    let mut pad_dbg: Option<PadDebug> = None;
    match &frame.data {
        Some(d) => {
            match base64_decode(d) {
                Some(bytes) => {
                    if bytes.len() < crate::envelope::MIN_PAYLOAD_LEN {
                        valid = false;
                    }
                    let sig = process_frame(config, &mut s.pad_state, frame.ts, &bytes, phash);
                    pad_dbg = Some(
                        PadDebug {
                            suspected_replay: sig.suspected_replay,
                            duplicate_hash: sig.duplicate_hash,
                            flicker_permille: sig.flicker_permille,
                        },
                    );
                },
                None => {
                    valid = false;
                },
            }
        },
        None => {
            valid = false;
        },
    }
    if !valid {
        msgs.push(
            ServerMessage::ProtocolError {
                code: ErrorCode::InvalidFrame,
                message: "invalid frame",
            },
        );
    }
    msgs.push(ServerMessage::FrameAck { ts: frame.ts, rtt_ms: None, face: None, pad: pad_dbg });
    if valid {
        let fr = s.metrics.frames_received;
        if fr < u64::MAX {
            s.metrics.frames_received = fr + 1;
        }
    }
    msgs
}

/// Truncating halving, the rounding a hardware division performs.
pub open spec fn div2_trunc(v: int) -> int {
    if v >= 0 {
        v / 2
    } else {
        -((-v) / 2)
    }
}

/// Handle a parsed binary frame: record the detected face center in the
/// telemetry history, run the PAD engine on the payload, and acknowledge
/// with the detector output and PAD signals.
pub fn handle_parsed_frame(
    s: &mut Session,
    config: &PadConfig,
    frame: &BinaryFrame,
    phash: Option<u64>,
    face: Option<FaceBox>,
) -> (msgs: Vec<ServerMessage>)
    requires
        session_wf(*old(s)),
        face matches Some(f) ==> box_wf(f),
    ensures
        session_wf(*final(s)),
        final(s).id == old(s).id,
        final(s).token == old(s).token,
        final(s).fsm == old(s).fsm,
        final(s).metrics == old(s).metrics,
        final(s).challenge_buffer == old(s).challenge_buffer,
        final(s).current_attempt_id == old(s).current_attempt_id,
        face is None ==> final(s).tele == old(s).tele,
        face matches Some(f) ==> {
            &&& final(s).tele.face_positions@ == capped_push(
                old(s).tele.face_positions@,
                (
                    div2_trunc(f.x1 + f.x2) as i32,
                    div2_trunc(f.y1 + f.y2) as i32,
                ),
            )
            &&& final(s).tele.motion_scores == old(s).tele.motion_scores
            &&& final(s).tele.motion_hits == old(s).tele.motion_hits
        },
        msgs@.len() == 1,
        (msgs@[0] matches ServerMessage::FrameAck { ts, rtt_ms, face: ack_face, pad } && ts
            == frame.ts && rtt_ms is None && ack_face == face && (pad matches Some(pd) && pad_step(
            *config,
            old(s).pad_state,
            final(s).pad_state,
            frame.ts,
            frame.payload@,
            phash,
            PadSignals {
                suspected_replay: pd.suspected_replay,
                duplicate_hash: pd.duplicate_hash,
                flicker_permille: pd.flicker_permille,
            },
        ))),
        pad_wf(old(s).pad_state, *config) && (old(s).pad_state.last_ts matches Some(prev) ==> prev
            <= frame.ts) ==> pad_wf(final(s).pad_state, *config),
{
    let mut msgs: Vec<ServerMessage> = Vec::new();
    if let Some(f) = face {
        let sx: i64 = f.x1 + f.x2;
        let sy: i64 = f.y1 + f.y2;
        let cx: i64 = if sx >= 0 {
            sx / 2
        } else {
            -((-sx) / 2)
        };
        let cy: i64 = if sy >= 0 {
            sy / 2
        } else {
            -((-sy) / 2)
        };
        s.tele.add_face_position(cx as i32, cy as i32);
    }
    let sig = process_frame(config, &mut s.pad_state, frame.ts, &frame.payload, phash);
    msgs.push(
        ServerMessage::FrameAck {
            ts: frame.ts,
            rtt_ms: None,
            face,
            pad: Some(
                PadDebug {
                    suspected_replay: sig.suspected_replay,
                    duplicate_hash: sig.duplicate_hash,
                    flicker_permille: sig.flicker_permille,
                },
            ),
        },
    );
    msgs
}

/// Dispatch one mid-stream text message: telemetry and buffered evidence
/// drive the state machine, frames pass the rate limiter and the PAD
/// engine, and a repeated hello or a feedback note changes nothing. A
/// terminal decision is never altered except by a challenge-start that
/// opens a fresh attempt.
pub fn handle_client_message(
    s: &mut Session,
    limiter: &mut RateLimiter,
    config: &PadConfig,
    msg: ClientMessage,
    mono_now_ms: u64,
    wall_now_ms: u64,
    phash: Option<u64>,
    max_fps: u32,
) -> (msgs: Vec<ServerMessage>)
    requires
        session_wf(*old(s)),
        old(limiter).last_accepted matches Some(p) ==> p <= mono_now_ms,
    ensures
        session_wf(*final(s)),
        final(s).id == old(s).id,
        final(s).token == old(s).token,
        fsm_terminal(old(s).fsm.state) && !(msg matches ClientMessage::ChallengeStart(m)
            && m.attempt_id@ != old(s).current_attempt_id@) ==> final(s).fsm == old(s).fsm,
        !(msg is ChallengeStart) ==> final(s).current_attempt_id == old(s).current_attempt_id,
        msg is Hello || msg is Feedback ==> *final(s) == *old(s) && *final(limiter) == *old(limiter)
            && msgs@.len() == 0,
        msg matches ClientMessage::Telemetry(tel) ==> telemetry_step(
            *old(s),
            *final(s),
            tel,
            msgs@,
        ) && *final(limiter) == *old(limiter),
        msg matches ClientMessage::Frame(frame) ==> {
            let accepted = old(limiter).last_accepted is None || mono_now_ms - old(
                limiter,
            ).last_accepted.unwrap() >= old(limiter).min_interval_ms;
            &&& final(limiter).min_interval_ms == old(limiter).min_interval_ms
            &&& if accepted {
                final(limiter).last_accepted == Some(mono_now_ms) && frame_step(
                    *old(s),
                    *final(s),
                    *config,
                    frame,
                    phash,
                    msgs@,
                )
            } else {
                final(limiter).last_accepted == old(limiter).last_accepted && msgs@.len() == 1
                    && throttle_step(*old(s), *final(s), max_fps, msgs@[0])
            }
        },
        msg matches ClientMessage::ChallengeStart(m) ==> challenge_start_step(
            *old(s),
            *final(s),
            m,
        ) && msgs@.len() == 0 && *final(limiter) == *old(limiter),
        msg matches ClientMessage::ChallengeFrameBatch(m) ==> frame_batch_step(
            *old(s),
            *final(s),
            m,
        ) && msgs@.len() == 0 && *final(limiter) == *old(limiter),
        msg matches ClientMessage::ChallengeEnd(m) ==> challenge_end_step(
            *old(s),
            *final(s),
            m,
            wall_now_ms,
            msgs@,
        ) && *final(limiter) == *old(limiter),
{
    match msg {
        ClientMessage::Hello { .. } => Vec::new(),
        ClientMessage::Feedback(_) => Vec::new(),
        ClientMessage::Telemetry(tel) => handle_telemetry(s, &tel),
        ClientMessage::Frame(frame) => {
            if limiter.accept(mono_now_ms) {
                handle_frame(s, config, &frame, phash)
            } else {
                let mut msgs: Vec<ServerMessage> = Vec::new();
                msgs.push(throttled_frame(s, max_fps));
                msgs
            }
        },
        ClientMessage::ChallengeStart(m) => {
            handle_challenge_start(s, &m);
            Vec::new()
        },
        ClientMessage::ChallengeFrameBatch(m) => {
            handle_frame_batch(s, m);
            Vec::new()
        },
        ClientMessage::ChallengeEnd(m) => handle_challenge_end(s, &m, wall_now_ms),
    }
}

/// The error text of each malformed binary frame.
pub open spec fn frame_error_text(e: FrameError) -> Seq<char> {
    match e {
        FrameError::TooSmall => "binary frame too small"@,
        FrameError::BadMagic => "bad magic"@,
        FrameError::ShortPayload => "frame payload too small"@,
        FrameError::UnsupportedFormat => "unsupported format"@,
    }
}

/// The invalid-frame reply for a malformed binary frame.
pub fn frame_error_message(e: FrameError) -> (msg: ServerMessage)
    ensures
        msg matches ServerMessage::ProtocolError { code, message } && code
            == ErrorCode::InvalidFrame && message@ == frame_error_text(e),
{
    let text: &'static str = match e {
        FrameError::TooSmall => "binary frame too small",
        FrameError::BadMagic => "bad magic",
        FrameError::ShortPayload => "frame payload too small",
        FrameError::UnsupportedFormat => "unsupported format",
    };
    ServerMessage::ProtocolError { code: ErrorCode::InvalidFrame, message: text }
}

} // verus!
