use liveness::analysis::{REASON_FACE, REASON_FRAMES, REASON_GESTURE, REASON_QUALITY};
use liveness::envelope::parse_binary_frame;
use liveness::pad::PadConfig;
use liveness::protocol::{
    ChallengeEndMessage, ChallengeFrameBatchMessage, ChallengeFrameData, ChallengeKind,
    ChallengeStartMessage, ClientInfo, ErrorCode, ServerMessage, TelemetryMessage,
};
use liveness::session::{
    handle_challenge_end, handle_challenge_start, handle_frame_batch, handle_parsed_frame,
    handle_telemetry, handshake_decision, initial_prompt, FirstMessage, FsmState,
    HandshakeDecision, Session,
};

fn fresh_session() -> Session {
    Session::new("sess-1".to_owned(), "tok-1".to_owned(), "att-1".to_owned())
}

fn hello(token: &str) -> FirstMessage {
    FirstMessage::Hello {
        session_id: "sess-1".to_owned(),
        token: token.to_owned(),
        client: ClientInfo { sdk_version: "1.0".to_owned(), platform: "web".to_owned() },
    }
}

fn plain_telemetry(motion_milli: u32) -> TelemetryMessage {
    TelemetryMessage {
        fps_milli: None,
        rtt_ms: None,
        cam_width: None,
        cam_height: None,
        motion_score_milli: Some(motion_milli),
        ahash: None,
        face_present: None,
        face_box: None,
    }
}

fn evidence_frame(face: bool, motion_milli: u32) -> ChallengeFrameData {
    ChallengeFrameData {
        timestamp_ms: 0,
        frame_id: 0,
        image_data: None,
        motion_score_milli: Some(motion_milli),
        ahash: None,
        face_present: Some(face),
        face_box: None,
        has_landmarks: false,
        telemetry: None,
    }
}

fn start_msg(attempt: &str, challenge: &str, total: usize, gesture: bool) -> ChallengeStartMessage {
    ChallengeStartMessage {
        attempt_id: attempt.to_owned(),
        challenge_id: challenge.to_owned(),
        challenge_type: "open-mouth".to_owned(),
        start_time: 0,
        total_frames: total,
        completion_time: None,
        gesture_detected: gesture,
    }
}

fn batch_msg(attempt: &str, challenge: &str, frames: Vec<ChallengeFrameData>) -> ChallengeFrameBatchMessage {
    ChallengeFrameBatchMessage {
        attempt_id: attempt.to_owned(),
        challenge_id: challenge.to_owned(),
        batch_index: 0,
        frames,
    }
}

fn end_msg(attempt: &str, challenge: &str) -> ChallengeEndMessage {
    ChallengeEndMessage {
        attempt_id: attempt.to_owned(),
        challenge_id: challenge.to_owned(),
        timestamp: 0,
    }
}

#[test]
fn handshake_success_acknowledges_supported_challenges() {
    let stored = "tok-1".to_owned();
    match handshake_decision(&hello("tok-1"), Some(&stored)) {
        HandshakeDecision::Accept { ack } => match ack {
            ServerMessage::HelloAck { challenges } => {
                assert_eq!(
                    challenges,
                    vec![
                        ChallengeKind::OpenMouth,
                        ChallengeKind::TurnLeft,
                        ChallengeKind::TurnRight,
                        ChallengeKind::HeadUp,
                    ]
                );
            }
            other => panic!("expected hello ack, got {:?}", other),
        },
        HandshakeDecision::Reject { .. } => panic!("expected accept"),
    }
}

#[test]
fn handshake_wrong_token_is_unauthorized() {
    let stored = "tok-1".to_owned();
    match handshake_decision(&hello("wrong"), Some(&stored)) {
        HandshakeDecision::Reject { error } => match error {
            ServerMessage::ProtocolError { code, .. } => assert_eq!(code, ErrorCode::Unauthorized),
            other => panic!("expected error, got {:?}", other),
        },
        HandshakeDecision::Accept { .. } => panic!("expected reject"),
    }
}

#[test]
fn handshake_unknown_session_is_unauthorized() {
    match handshake_decision(&hello("tok-1"), None) {
        HandshakeDecision::Reject { error } => match error {
            ServerMessage::ProtocolError { code, .. } => assert_eq!(code, ErrorCode::Unauthorized),
            other => panic!("expected error, got {:?}", other),
        },
        HandshakeDecision::Accept { .. } => panic!("expected reject"),
    }
}

#[test]
fn handshake_binary_first_is_bad_handshake() {
    match handshake_decision(&FirstMessage::Binary, None) {
        HandshakeDecision::Reject { error } => match error {
            ServerMessage::ProtocolError { code, .. } => assert_eq!(code, ErrorCode::BadHandshake),
            other => panic!("expected error, got {:?}", other),
        },
        HandshakeDecision::Accept { .. } => panic!("expected reject"),
    }
}

#[test]
fn handshake_non_hello_text_is_bad_handshake() {
    match handshake_decision(&FirstMessage::OtherText, Some(&"tok-1".to_owned())) {
        HandshakeDecision::Reject { error } => match error {
            ServerMessage::ProtocolError { code, .. } => assert_eq!(code, ErrorCode::BadHandshake),
            other => panic!("expected error, got {:?}", other),
        },
        HandshakeDecision::Accept { .. } => panic!("expected reject"),
    }
}

#[test]
fn initial_prompt_is_c1_open_mouth() {
    let mut s = fresh_session();
    let msg = initial_prompt(&mut s);
    match msg {
        ServerMessage::Prompt { challenge } => {
            assert_eq!(challenge.id, "c1");
            assert_eq!(challenge.kind, ChallengeKind::OpenMouth);
            assert_eq!(challenge.timeout_ms, 5000);
            assert_eq!(challenge.attempt_id, "att-1");
        }
        other => panic!("expected prompt, got {:?}", other),
    }
    match &s.fsm.state {
        FsmState::Prompting { challenge_id, kind } => {
            assert_eq!(challenge_id, "c1");
            assert_eq!(*kind, ChallengeKind::OpenMouth);
        }
        _ => panic!("expected prompting state"),
    }
}

#[test]
fn open_mouth_admitted_after_sustained_motion() {
    let mut s = fresh_session();
    initial_prompt(&mut s);
    let mut msgs = Vec::new();
    for _ in 0..15 {
        msgs = handle_telemetry(&mut s, &plain_telemetry(80));
    }
    assert_eq!(s.fsm.completed, 1);
    assert_eq!(msgs.len(), 1);
    match &msgs[0] {
        ServerMessage::Prompt { challenge } => {
            assert_eq!(challenge.id, "c2");
            assert_ne!(challenge.kind, ChallengeKind::OpenMouth);
            assert!(matches!(
                challenge.kind,
                ChallengeKind::TurnLeft | ChallengeKind::TurnRight | ChallengeKind::HeadUp
            ));
        }
        other => panic!("expected next prompt, got {:?}", other),
    }
    assert_eq!(s.tele.motion_scores.len(), 0);
    assert_eq!(s.tele.motion_hits, 0);
}

#[test]
fn weak_motion_does_not_admit() {
    let mut s = fresh_session();
    initial_prompt(&mut s);
    for _ in 0..30 {
        let msgs = handle_telemetry(&mut s, &plain_telemetry(10));
        assert!(msgs.is_empty());
    }
    assert_eq!(s.fsm.completed, 0);
    assert_eq!(s.tele.motion_hits, 0);
    assert_eq!(s.tele.motion_scores.len(), 30);
}

#[test]
fn motion_history_is_capped_at_thirty() {
    let mut s = fresh_session();
    for k in 0..45u32 {
        handle_telemetry(&mut s, &plain_telemetry(10 + (k % 5)));
    }
    assert_eq!(s.tele.motion_scores.len(), 30);
}

#[test]
fn buffered_challenge_passes_with_good_evidence() {
    let mut s = fresh_session();
    initial_prompt(&mut s);
    handle_challenge_start(&mut s, &start_msg("att-1", "c1", 30, true));
    let mut frames = Vec::new();
    for k in 0..30 {
        frames.push(evidence_frame(k < 28, 80));
    }
    handle_frame_batch(&mut s, batch_msg("att-1", "c1", frames));
    let msgs = handle_challenge_end(&mut s, &end_msg("att-1", "c1"), 1234);
    assert_eq!(msgs.len(), 2);
    match &msgs[0] {
        ServerMessage::ChallengeResult { attempt_id, challenge_id, decision, analysis } => {
            assert_eq!(attempt_id, "att-1");
            assert_eq!(challenge_id, "c1");
            assert!(decision.passed);
            assert_eq!(analysis.total_frames, 30);
            assert_eq!(analysis.frames_with_face, 28);
            assert_eq!(analysis.frames_with_landmarks, 0);
            assert_eq!(analysis.face_detection_rate_permille, 933);
            assert_eq!(analysis.average_motion_score_milli, 80);
            // 0.7 * (28/30) + 0.3 * 0.08, truncated to permille.
            assert_eq!(analysis.quality_score_permille, 677);
            // 0.6 * (28/30) + 0.4 * 0.08, truncated to permille.
            assert_eq!(analysis.gesture_confidence_permille, 592);
            assert_eq!(analysis.processing_time_ms, 1234);
        }
        other => panic!("expected challenge result, got {:?}", other),
    }
    match &msgs[1] {
        ServerMessage::Prompt { challenge } => assert_eq!(challenge.id, "c2"),
        other => panic!("expected next prompt, got {:?}", other),
    }
    assert_eq!(s.fsm.completed, 1);
}

#[test]
fn three_buffered_passes_complete_the_attempt() {
    let mut s = fresh_session();
    initial_prompt(&mut s);
    for round in 1..=3u32 {
        let cid = format!("c{}", round);
        handle_challenge_start(&mut s, &start_msg("att-1", &cid, 30, true));
        let frames: Vec<_> = (0..30).map(|_| evidence_frame(true, 80)).collect();
        handle_frame_batch(&mut s, batch_msg("att-1", &cid, frames));
        let msgs = handle_challenge_end(&mut s, &end_msg("att-1", &cid), 0);
        assert_eq!(msgs.len(), 2);
        if round == 3 {
            match &msgs[1] {
                ServerMessage::AttemptResult { attempt_id, decision } => {
                    assert_eq!(attempt_id, "att-1");
                    assert!(decision.passed);
                }
                other => panic!("expected final result, got {:?}", other),
            }
            assert!(matches!(s.fsm.state, FsmState::Passed));
        }
    }
    assert_eq!(s.fsm.completed, 3);
}

#[test]
fn failed_challenge_reports_first_unmet_criterion() {
    let mut s = fresh_session();
    initial_prompt(&mut s);
    handle_challenge_start(&mut s, &start_msg("att-1", "c1", 30, true));
    let frames: Vec<_> = (0..30).map(|k| evidence_frame(k < 10, 80)).collect();
    handle_frame_batch(&mut s, batch_msg("att-1", "c1", frames));
    let msgs = handle_challenge_end(&mut s, &end_msg("att-1", "c1"), 0);
    match &msgs[0] {
        ServerMessage::ChallengeResult { decision, .. } => {
            assert!(!decision.passed);
            assert_eq!(decision.reason, Some(REASON_FACE));
        }
        other => panic!("expected challenge result, got {:?}", other),
    }
    assert_eq!(s.fsm.failed, 1);
}

#[test]
fn too_few_frames_fails_with_frame_reason() {
    let mut s = fresh_session();
    initial_prompt(&mut s);
    handle_challenge_start(&mut s, &start_msg("att-1", "c1", 5, true));
    let frames: Vec<_> = (0..5).map(|_| evidence_frame(true, 900)).collect();
    handle_frame_batch(&mut s, batch_msg("att-1", "c1", frames));
    let msgs = handle_challenge_end(&mut s, &end_msg("att-1", "c1"), 0);
    match &msgs[0] {
        ServerMessage::ChallengeResult { decision, .. } => {
            assert!(!decision.passed);
            assert_eq!(decision.reason, Some(REASON_FRAMES));
        }
        other => panic!("expected challenge result, got {:?}", other),
    }
}

#[test]
fn missing_gesture_fails_with_gesture_reason() {
    let mut s = fresh_session();
    initial_prompt(&mut s);
    handle_challenge_start(&mut s, &start_msg("att-1", "c1", 30, false));
    let frames: Vec<_> = (0..30).map(|_| evidence_frame(true, 900)).collect();
    handle_frame_batch(&mut s, batch_msg("att-1", "c1", frames));
    let msgs = handle_challenge_end(&mut s, &end_msg("att-1", "c1"), 0);
    match &msgs[0] {
        ServerMessage::ChallengeResult { decision, .. } => {
            assert_eq!(decision.reason, Some(REASON_GESTURE));
        }
        other => panic!("expected challenge result, got {:?}", other),
    }
}

#[test]
fn low_quality_fails_with_quality_reason() {
    let mut s = fresh_session();
    initial_prompt(&mut s);
    handle_challenge_start(&mut s, &start_msg("att-1", "c1", 30, true));
    // Face rate 0.7 exactly passes the face bar; zero motion keeps the
    // quality score at 0.49, below the 0.6 bar.
    let frames: Vec<_> = (0..30).map(|k| evidence_frame(k < 21, 0)).collect();
    handle_frame_batch(&mut s, batch_msg("att-1", "c1", frames));
    let msgs = handle_challenge_end(&mut s, &end_msg("att-1", "c1"), 0);
    match &msgs[0] {
        ServerMessage::ChallengeResult { decision, .. } => {
            assert_eq!(decision.reason, Some(REASON_QUALITY));
        }
        other => panic!("expected challenge result, got {:?}", other),
    }
}

#[test]
fn mismatched_batch_leaves_session_untouched() {
    let mut s = fresh_session();
    initial_prompt(&mut s);
    handle_challenge_start(&mut s, &start_msg("att-1", "c1", 30, true));
    let before_frames = s.challenge_buffer.as_ref().unwrap().frames.len();
    let frames: Vec<_> = (0..10).map(|_| evidence_frame(true, 80)).collect();
    handle_frame_batch(&mut s, batch_msg("other-attempt", "c1", frames));
    assert_eq!(s.current_attempt_id, "att-1");
    assert_eq!(s.challenge_buffer.as_ref().unwrap().frames.len(), before_frames);
    assert_eq!(s.challenge_buffer.as_ref().unwrap().received_batches, 0);
}

#[test]
fn batch_growth_is_capped_at_declared_total() {
    let mut s = fresh_session();
    handle_challenge_start(&mut s, &start_msg("att-1", "c1", 5, true));
    let frames: Vec<_> = (0..12).map(|_| evidence_frame(true, 80)).collect();
    handle_frame_batch(&mut s, batch_msg("att-1", "c1", frames));
    assert_eq!(s.challenge_buffer.as_ref().unwrap().frames.len(), 5);
}

#[test]
fn new_attempt_resets_the_state_machine() {
    let mut s = fresh_session();
    initial_prompt(&mut s);
    for _ in 0..15 {
        handle_telemetry(&mut s, &plain_telemetry(80));
    }
    assert_eq!(s.fsm.completed, 1);
    handle_challenge_start(&mut s, &start_msg("att-2", "c1", 30, true));
    assert_eq!(s.current_attempt_id, "att-2");
    assert!(matches!(s.fsm.state, FsmState::Idle));
    assert_eq!(s.fsm.completed, 0);
    assert_eq!(s.fsm.failed, 0);
    assert_eq!(s.tele.motion_scores.len(), 0);
}

#[test]
fn terminal_decision_ignores_later_evidence() {
    let mut s = fresh_session();
    initial_prompt(&mut s);
    for round in 1..=3u32 {
        let cid = format!("c{}", round);
        handle_challenge_start(&mut s, &start_msg("att-1", &cid, 30, true));
        let frames: Vec<_> = (0..30).map(|_| evidence_frame(true, 80)).collect();
        handle_frame_batch(&mut s, batch_msg("att-1", &cid, frames));
        handle_challenge_end(&mut s, &end_msg("att-1", &cid), 0);
    }
    assert!(matches!(s.fsm.state, FsmState::Passed));
    // More telemetry does not change the decision.
    for _ in 0..20 {
        handle_telemetry(&mut s, &plain_telemetry(999));
    }
    assert!(matches!(s.fsm.state, FsmState::Passed));
    assert_eq!(s.fsm.completed, 3);
    // Another buffered challenge on the same attempt reports, but the
    // decision stands.
    handle_challenge_start(&mut s, &start_msg("att-1", "c9", 30, true));
    let frames: Vec<_> = (0..30).map(|_| evidence_frame(false, 0)).collect();
    handle_frame_batch(&mut s, batch_msg("att-1", "c9", frames));
    let msgs = handle_challenge_end(&mut s, &end_msg("att-1", "c9"), 0);
    assert_eq!(msgs.len(), 1);
    assert!(matches!(s.fsm.state, FsmState::Passed));
    assert_eq!(s.fsm.completed, 3);
}

#[test]
fn spent_attempt_finalizes_failed_on_streaming_evidence() {
    let mut s = fresh_session();
    let config = PadConfig::default();
    initial_prompt(&mut s);
    // Two buffered failures leave one challenge of budget; the prompts walk
    // the deterministic order, ending on head-up.
    for round in 1..=2u32 {
        let cid = format!("c{}", round);
        handle_challenge_start(&mut s, &start_msg("att-1", &cid, 30, false));
        let frames: Vec<_> = (0..30).map(|_| evidence_frame(false, 0)).collect();
        handle_frame_batch(&mut s, batch_msg("att-1", &cid, frames));
        handle_challenge_end(&mut s, &end_msg("att-1", &cid), 0);
    }
    assert_eq!(s.fsm.failed, 2);
    match &s.fsm.state {
        FsmState::Prompting { kind, .. } => assert_eq!(*kind, ChallengeKind::HeadUp),
        other => panic!("expected a prompt, got {:?}", other),
    }
    // Twenty face observations tilting downward give the head-movement
    // evidence.
    let mut bytes = vec![0x46, 0x50, 0x46, 0x31, 1, 0, 0, 0];
    bytes.extend_from_slice(&1000u64.to_le_bytes());
    bytes.extend_from_slice(&[5u8; 120]);
    let frame = parse_binary_frame(&bytes).unwrap();
    for k in 0..20i64 {
        let face = liveness::detect::FaceBox {
            x1: 10_000,
            y1: 20_000 + k * 4000,
            x2: 30_000,
            y2: 60_000 + k * 4000,
            score_milli: 900,
        };
        handle_parsed_frame(&mut s, &config, &frame, None, Some(face));
    }
    // Motion hits accumulate to the head-movement bar; the twenty-fifth
    // hit admits the gesture, which spends the attempt: one pass against
    // two failures falls short of three passes.
    let mut last = Vec::new();
    for _ in 0..25 {
        last = handle_telemetry(&mut s, &plain_telemetry(30));
    }
    assert!(matches!(s.fsm.state, FsmState::Failed));
    assert_eq!(s.fsm.completed, 1);
    assert_eq!(s.fsm.failed, 2);
    assert_eq!(last.len(), 1);
    match &last[0] {
        ServerMessage::AttemptResult { attempt_id, decision } => {
            assert_eq!(attempt_id, "att-1");
            assert!(!decision.passed);
        }
        other => panic!("expected final result, got {:?}", other),
    }
}

#[test]
fn binary_jpeg_frame_is_acked_with_clean_pad() {
    let mut s = fresh_session();
    let config = PadConfig::default();
    let img = image::RgbImage::from_fn(64, 64, |x, y| {
        image::Rgb([(x * 2) as u8, (y * 3) as u8, 9])
    });
    let mut jpeg = Vec::new();
    image::DynamicImage::ImageRgb8(img)
        .write_to(&mut std::io::Cursor::new(&mut jpeg), image::ImageFormat::Jpeg)
        .expect("jpeg encoding");
    assert!(jpeg.len() >= 100);
    let mut bytes = vec![0x46, 0x50, 0x46, 0x31, 0x01, 0, 0, 0];
    bytes.extend_from_slice(&1000u64.to_le_bytes());
    bytes.extend_from_slice(&jpeg);
    let frame = parse_binary_frame(&bytes).expect("frame should parse");
    assert_eq!(frame.format_code, 1);
    assert_eq!(frame.ts, 1000);
    let msgs = handle_parsed_frame(&mut s, &config, &frame, Some(7), None);
    assert_eq!(msgs.len(), 1);
    match &msgs[0] {
        ServerMessage::FrameAck { ts, pad, .. } => {
            assert_eq!(*ts, 1000);
            let pad = pad.as_ref().unwrap();
            assert!(!pad.suspected_replay);
            assert!(!pad.duplicate_hash);
            assert_eq!(pad.flicker_permille, 0);
        }
        other => panic!("expected frame ack, got {:?}", other),
    }
    assert_eq!(s.pad_state.recent_hashes.len(), 1);
}

#[test]
fn binary_frame_records_face_center() {
    let mut s = fresh_session();
    let config = PadConfig::default();
    let mut bytes = vec![0x46, 0x50, 0x46, 0x31, 1, 0, 0, 0];
    bytes.extend_from_slice(&1000u64.to_le_bytes());
    bytes.extend_from_slice(&[5u8; 120]);
    let frame = parse_binary_frame(&bytes).unwrap();
    let face = liveness::detect::FaceBox {
        x1: 10_000,
        y1: 20_000,
        x2: 30_000,
        y2: 60_000,
        score_milli: 900,
    };
    let msgs = handle_parsed_frame(&mut s, &config, &frame, None, Some(face));
    assert_eq!(msgs.len(), 1);
    match &msgs[0] {
        ServerMessage::FrameAck { ts, face, pad, .. } => {
            assert_eq!(*ts, 1000);
            assert!(face.is_some());
            let pad = pad.as_ref().unwrap();
            assert!(!pad.suspected_replay);
            assert!(!pad.duplicate_hash);
            assert_eq!(pad.flicker_permille, 0);
        }
        other => panic!("expected frame ack, got {:?}", other),
    }
    assert_eq!(s.tele.face_positions, vec![(20_000, 40_000)]);
}
