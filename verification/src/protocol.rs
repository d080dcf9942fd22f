//! Message schema of the duplex channel: tagged client messages, server
//! messages, and the supporting records. Fractional wire fields (motion
//! scores, box coordinates, rates) are held as fixed-point integers: milli
//! units for scores and coordinates, permille for rates.

use crate::detect::FaceBox;
use vstd::prelude::*;

verus! {

/// The gestures the protocol knows. The active configuration supports
/// `OpenMouth`, `TurnLeft`, `TurnRight` and `HeadUp`; `Blink` and `HeadDown`
/// are recognized but optional.
#[derive(Clone, Copy, Debug, PartialEq, Eq, Structural)]
pub enum ChallengeKind {
    Blink,
    OpenMouth,
    TurnLeft,
    TurnRight,
    HeadUp,
    HeadDown,
}

impl ChallengeKind {
    /// The kebab-case name this kind carries on the wire.
    pub fn wire_name(&self) -> (r: &'static str)
        ensures
            r@ == self.wire_name_spec(),
    {
        match self {
            ChallengeKind::Blink => "blink",
            ChallengeKind::OpenMouth => "open-mouth",
            ChallengeKind::TurnLeft => "turn-left",
            ChallengeKind::TurnRight => "turn-right",
            ChallengeKind::HeadUp => "head-up",
            ChallengeKind::HeadDown => "head-down",
        }
    }

    /// The wire name of each kind.
    pub open spec fn wire_name_spec(self) -> Seq<char> {
        match self {
            ChallengeKind::Blink => "blink"@,
            ChallengeKind::OpenMouth => "open-mouth"@,
            ChallengeKind::TurnLeft => "turn-left"@,
            ChallengeKind::TurnRight => "turn-right"@,
            ChallengeKind::HeadUp => "head-up"@,
            ChallengeKind::HeadDown => "head-down"@,
        }
    }
}

/// Client identification carried in the handshake.
#[derive(Clone, Debug)]
pub struct ClientInfo {
    pub sdk_version: String,
    pub platform: String,
}

/// Optional orientation hints of a frame, in milli-units.
#[derive(Clone, Copy, Debug)]
pub struct Hints {
    pub roll_milli: Option<i32>,
    pub pitch_milli: Option<i32>,
    pub yaw_milli: Option<i32>,
}

/// A camera frame sent as a tagged text message; the payload travels
/// base64-encoded in `data`.
#[derive(Clone, Debug)]
pub struct FrameMessage {
    pub ts: u64,
    pub format: String,
    pub data: Option<String>,
    pub hints: Option<Hints>,
}

/// A face rectangle reported by client telemetry, in milli-pixels.
#[derive(Clone, Copy, Debug)]
pub struct TelemetryFaceBox {
    pub x_milli: i32,
    pub y_milli: i32,
    pub width_milli: i32,
    pub height_milli: i32,
}

/// Light client telemetry; `motion_score_milli` feeds gesture validation.
#[derive(Clone, Debug)]
pub struct TelemetryMessage {
    pub fps_milli: Option<u32>,
    pub rtt_ms: Option<u32>,
    pub cam_width: Option<u32>,
    pub cam_height: Option<u32>,
    pub motion_score_milli: Option<u32>,
    pub ahash: Option<String>,
    pub face_present: Option<bool>,
    pub face_box: Option<TelemetryFaceBox>,
}

/// Free-form client feedback about the running challenge.
#[derive(Clone, Debug)]
pub struct FeedbackMessage {
    pub status: Option<String>,
    pub liveness_milli: Option<u32>,
    pub spoof_milli: Option<u32>,
    pub kind: Option<ChallengeKind>,
    pub ok: Option<bool>,
}

/// Opens a buffered challenge: binds an attempt and challenge id, declares
/// how many frames will follow and whether the client saw the gesture.
#[derive(Clone, Debug)]
pub struct ChallengeStartMessage {
    pub attempt_id: String,
    pub challenge_id: String,
    pub challenge_type: String,
    pub start_time: u64,
    pub total_frames: usize,
    pub completion_time: Option<u64>,
    pub gesture_detected: bool,
}

/// A face rectangle inside a buffered challenge frame, in milli-pixels.
#[derive(Clone, Copy, Debug)]
pub struct ChallengeFaceBox {
    pub x_milli: i32,
    pub y_milli: i32,
    pub width_milli: i32,
    pub height_milli: i32,
}

/// Camera telemetry attached to one buffered challenge frame.
#[derive(Clone, Copy, Debug)]
pub struct ChallengeTelemetry {
    pub fps_milli: Option<u32>,
    pub rtt_ms: Option<u32>,
    pub cam_width: Option<u32>,
    pub cam_height: Option<u32>,
}

/// One frame of buffered challenge evidence. `has_landmarks` records
/// whether the client attached a landmark structure.
#[derive(Clone, Debug)]
pub struct ChallengeFrameData {
    pub timestamp_ms: u64,
    pub frame_id: u64,
    pub image_data: Option<String>,
    pub motion_score_milli: Option<u32>,
    pub ahash: Option<String>,
    pub face_present: Option<bool>,
    pub face_box: Option<ChallengeFaceBox>,
    pub has_landmarks: bool,
    pub telemetry: Option<ChallengeTelemetry>,
}

/// A batch of buffered challenge frames.
#[derive(Clone, Debug)]
pub struct ChallengeFrameBatchMessage {
    pub attempt_id: String,
    pub challenge_id: String,
    pub batch_index: usize,
    pub frames: Vec<ChallengeFrameData>,
}

/// Closes a buffered challenge.
#[derive(Clone, Debug)]
pub struct ChallengeEndMessage {
    pub attempt_id: String,
    pub challenge_id: String,
    pub timestamp: u64,
}

/// Every message a client can send, tagged by kind.
#[derive(Clone, Debug)]
pub enum ClientMessage {
    Hello { session_id: String, token: String, client: ClientInfo },
    Frame(FrameMessage),
    Telemetry(TelemetryMessage),
    Feedback(FeedbackMessage),
    ChallengeStart(ChallengeStartMessage),
    ChallengeFrameBatch(ChallengeFrameBatchMessage),
    ChallengeEnd(ChallengeEndMessage),
}

/// The error codes the server emits.
#[derive(Clone, Copy, Debug, PartialEq, Eq, Structural)]
pub enum ErrorCode {
    BadHandshake,
    Unauthorized,
    InvalidFrame,
}

impl ErrorCode {
    /// The kebab-case code carried on the wire.
    pub fn wire_code(&self) -> (r: &'static str)
        ensures
            r@ == self.wire_code_spec(),
    {
        match self {
            ErrorCode::BadHandshake => "bad-handshake",
            ErrorCode::Unauthorized => "unauthorized",
            ErrorCode::InvalidFrame => "invalid-frame",
        }
    }

    /// The wire code of each error.
    pub open spec fn wire_code_spec(self) -> Seq<char> {
        match self {
            ErrorCode::BadHandshake => "bad-handshake"@,
            ErrorCode::Unauthorized => "unauthorized"@,
            ErrorCode::InvalidFrame => "invalid-frame"@,
        }
    }
}

/// A challenge prompt: what to perform, within which timeout, for which
/// attempt.
#[derive(Clone, Debug)]
pub struct PromptChallenge {
    pub id: String,
    pub kind: ChallengeKind,
    pub timeout_ms: u32,
    pub attempt_id: String,
}

/// A pass/fail decision with an optional reason (the first unmet
/// criterion).
#[derive(Clone, Copy, Debug)]
pub struct Decision {
    pub passed: bool,
    pub reason: Option<&'static str>,
}

/// The analysis of one closed challenge buffer. Rates are permille of 1,
/// the average motion score is in milli-units.
#[derive(Clone, Copy, Debug, PartialEq, Eq, Structural)]
pub struct ChallengeAnalysis {
    pub total_frames: usize,
    pub frames_with_face: usize,
    pub frames_with_landmarks: usize,
    pub average_motion_score_milli: u32,
    pub face_detection_rate_permille: u32,
    pub gesture_confidence_permille: u32,
    pub processing_time_ms: u64,
    pub quality_score_permille: u32,
}

/// PAD signals echoed to the client inside a frame acknowledgement.
#[derive(Clone, Copy, Debug, PartialEq, Eq, Structural)]
pub struct PadDebug {
    pub suspected_replay: bool,
    pub duplicate_hash: bool,
    pub flicker_permille: u32,
}

/// Every message the server can send, tagged by kind.
#[derive(Clone, Debug)]
pub enum ServerMessage {
    HelloAck { challenges: Vec<ChallengeKind> },
    ProtocolError { code: ErrorCode, message: &'static str },
    Throttle { reason: &'static str, max_fps: u32 },
    Prompt { challenge: PromptChallenge },
    AttemptResult { attempt_id: String, decision: Decision },
    FrameAck { ts: u64, rtt_ms: Option<u32>, face: Option<FaceBox>, pad: Option<PadDebug> },
    ChallengeResult {
        attempt_id: String,
        challenge_id: String,
        decision: Decision,
        analysis: ChallengeAnalysis,
    },
}

/// The four challenge kinds the active configuration hands out, in the
/// order the handshake acknowledgement lists them.
pub open spec fn supported_challenges() -> Seq<ChallengeKind> {
    seq![
        ChallengeKind::OpenMouth,
        ChallengeKind::TurnLeft,
        ChallengeKind::TurnRight,
        ChallengeKind::HeadUp,
    ]
}

/// Build the list of supported challenge kinds.
pub fn supported_challenge_list() -> (r: Vec<ChallengeKind>)
    ensures
        r@ == supported_challenges(),
{
    let mut v: Vec<ChallengeKind> = Vec::new();
    v.push(ChallengeKind::OpenMouth);
    v.push(ChallengeKind::TurnLeft);
    v.push(ChallengeKind::TurnRight);
    v.push(ChallengeKind::HeadUp);
    proof {
        assert(v@ =~= supported_challenges());
    }
    v
}

} // verus!
