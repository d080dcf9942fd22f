use base64::Engine;
use liveness::limiter::RateLimiter;
use liveness::pad::PadConfig;
use liveness::protocol::{ClientMessage, ErrorCode, FrameMessage, ServerMessage};
use liveness::session::{handle_client_message, handle_frame, throttled_frame, Session};

fn fresh_session() -> Session {
    Session::new("sess-1".to_owned(), "tok-1".to_owned(), "att-1".to_owned())
}

fn png_base64() -> String {
    let img = image::RgbImage::from_fn(64, 64, |x, y| {
        image::Rgb([(x * 3) as u8, (y * 2) as u8, 7])
    });
    let mut buf = Vec::new();
    image::DynamicImage::ImageRgb8(img)
        .write_to(&mut std::io::Cursor::new(&mut buf), image::ImageFormat::Png)
        .expect("png encoding");
    assert!(buf.len() >= 100);
    base64::engine::general_purpose::STANDARD.encode(&buf)
}

fn frame(format: &str, data: Option<String>, ts: u64) -> FrameMessage {
    FrameMessage { ts, format: format.to_owned(), data, hints: None }
}

#[test]
fn valid_json_frame_is_acked_and_counted() {
    let mut s = fresh_session();
    let config = PadConfig::default();
    let msgs = handle_frame(&mut s, &config, &frame("png", Some(png_base64()), 1000), Some(77));
    assert_eq!(msgs.len(), 1);
    match &msgs[0] {
        ServerMessage::FrameAck { ts, pad, face, .. } => {
            assert_eq!(*ts, 1000);
            assert!(face.is_none());
            let pad = pad.as_ref().unwrap();
            assert!(!pad.suspected_replay);
            assert!(!pad.duplicate_hash);
            assert_eq!(pad.flicker_permille, 0);
        }
        other => panic!("expected frame ack, got {:?}", other),
    }
    assert_eq!(s.metrics.frames_received, 1);
}

#[test]
fn duplicate_json_frames_are_flagged() {
    let mut s = fresh_session();
    let config = PadConfig::default();
    let data = png_base64();
    handle_frame(&mut s, &config, &frame("png", Some(data.clone()), 1000), Some(77));
    let msgs = handle_frame(&mut s, &config, &frame("png", Some(data), 1500), Some(77));
    match &msgs[0] {
        ServerMessage::FrameAck { pad, .. } => {
            assert!(pad.as_ref().unwrap().duplicate_hash);
        }
        other => panic!("expected frame ack, got {:?}", other),
    }
    assert_eq!(s.metrics.frames_received, 2);
}

#[test]
fn unknown_format_string_is_invalid() {
    let mut s = fresh_session();
    let config = PadConfig::default();
    let msgs = handle_frame(&mut s, &config, &frame("webp", Some(png_base64()), 1), Some(1));
    assert_eq!(msgs.len(), 2);
    match &msgs[0] {
        ServerMessage::ProtocolError { code, .. } => assert_eq!(*code, ErrorCode::InvalidFrame),
        other => panic!("expected error, got {:?}", other),
    }
    assert!(matches!(msgs[1], ServerMessage::FrameAck { .. }));
    assert_eq!(s.metrics.frames_received, 0);
}

#[test]
fn missing_data_is_invalid() {
    let mut s = fresh_session();
    let config = PadConfig::default();
    let msgs = handle_frame(&mut s, &config, &frame("jpeg", None, 1), None);
    assert_eq!(msgs.len(), 2);
    assert!(matches!(
        msgs[0],
        ServerMessage::ProtocolError { code: ErrorCode::InvalidFrame, .. }
    ));
    assert_eq!(s.metrics.frames_received, 0);
}

#[test]
fn undecodable_base64_is_invalid() {
    let mut s = fresh_session();
    let config = PadConfig::default();
    let msgs = handle_frame(&mut s, &config, &frame("png", Some("@@@not-base64@@@".to_owned()), 1), None);
    assert_eq!(msgs.len(), 2);
    assert!(matches!(
        msgs[0],
        ServerMessage::ProtocolError { code: ErrorCode::InvalidFrame, .. }
    ));
    assert_eq!(s.metrics.frames_received, 0);
}

#[test]
fn short_payload_is_invalid_but_acked() {
    let mut s = fresh_session();
    let config = PadConfig::default();
    let tiny = base64::engine::general_purpose::STANDARD.encode(&[1u8; 50]);
    let msgs = handle_frame(&mut s, &config, &frame("png", Some(tiny), 1), None);
    assert_eq!(msgs.len(), 2);
    assert!(matches!(msgs[1], ServerMessage::FrameAck { .. }));
    assert_eq!(s.metrics.frames_received, 0);
}

#[test]
fn second_frame_inside_interval_is_throttled() {
    let mut s = fresh_session();
    let config = PadConfig::default();
    let mut limiter = RateLimiter::new(15);
    assert_eq!(limiter.min_interval_ms, 66);
    let data = png_base64();

    assert!(limiter.accept(0));
    handle_frame(&mut s, &config, &frame("png", Some(data.clone()), 0), Some(1));

    assert!(!limiter.accept(10));
    let reply = throttled_frame(&mut s, 15);
    match reply {
        ServerMessage::Throttle { reason, max_fps } => {
            assert_eq!(reason, "fps-limit");
            assert_eq!(max_fps, 15);
        }
        other => panic!("expected throttle, got {:?}", other),
    }
    assert_eq!(s.metrics.throttled, 1);
    assert_eq!(s.metrics.frames_received, 1);
}

#[test]
fn dispatcher_throttles_fast_frames() {
    let mut s = fresh_session();
    let config = PadConfig::default();
    let mut limiter = RateLimiter::new(15);
    let data = png_base64();
    let first = ClientMessage::Frame(frame("png", Some(data.clone()), 0));
    let second = ClientMessage::Frame(frame("png", Some(data), 10));

    let msgs = handle_client_message(&mut s, &mut limiter, &config, first, 0, 0, Some(1), 15);
    assert!(matches!(msgs[0], ServerMessage::FrameAck { .. }));

    let msgs = handle_client_message(&mut s, &mut limiter, &config, second, 10, 10, Some(1), 15);
    assert_eq!(msgs.len(), 1);
    assert!(matches!(msgs[0], ServerMessage::Throttle { max_fps: 15, .. }));
    assert_eq!(s.metrics.throttled, 1);
    assert_eq!(s.metrics.frames_received, 1);
}

#[test]
fn dispatcher_ignores_repeated_hello() {
    let mut s = fresh_session();
    let config = PadConfig::default();
    let mut limiter = RateLimiter::new(15);
    let hello = ClientMessage::Hello {
        session_id: "sess-1".to_owned(),
        token: "tok-1".to_owned(),
        client: liveness::protocol::ClientInfo {
            sdk_version: "1".to_owned(),
            platform: "web".to_owned(),
        },
    };
    let msgs = handle_client_message(&mut s, &mut limiter, &config, hello, 0, 0, None, 15);
    assert!(msgs.is_empty());
    assert_eq!(s.metrics.frames_received, 0);
}

#[test]
fn limiter_accepts_spaced_frames() {
    let mut limiter = RateLimiter::new(15);
    let mut accepted = 0;
    let mut t = 0u64;
    while t <= 1000 {
        if limiter.accept(t) {
            accepted += 1;
        }
        t += 10;
    }
    // Spacing of 66 ms over a 1000 ms window: 0, 70, 140, ... 980.
    assert_eq!(accepted, 15);
    assert!(accepted <= 1000 / 66 + 1);
}
