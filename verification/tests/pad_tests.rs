use liveness::pad::{hamming_distance_u64, process_frame, PadConfig, PadState};

fn png_bytes(level: u8) -> Vec<u8> {
    let img = image::RgbImage::from_fn(64, 64, |x, y| {
        image::Rgb([level, (x % 7) as u8, (y % 11) as u8])
    });
    let mut buf = Vec::new();
    image::DynamicImage::ImageRgb8(img)
        .write_to(&mut std::io::Cursor::new(&mut buf), image::ImageFormat::Png)
        .expect("png encoding");
    assert!(buf.len() >= 100);
    buf
}

fn uniform_png(level: u8) -> Vec<u8> {
    let img = image::GrayImage::from_pixel(64, 64, image::Luma([level]));
    let mut buf = Vec::new();
    image::DynamicImage::ImageLuma8(img)
        .write_to(&mut std::io::Cursor::new(&mut buf), image::ImageFormat::Png)
        .expect("png encoding");
    buf
}

#[test]
fn hamming_distance_counts_bit_differences() {
    assert_eq!(hamming_distance_u64(0, 0), 0);
    assert_eq!(hamming_distance_u64(0b1011, 0b0010), 2);
    assert_eq!(hamming_distance_u64(u64::MAX, 0), 64);
    assert_eq!(hamming_distance_u64(0xdead_beef, 0xdead_beef), 0);
}

#[test]
fn first_frame_reports_nothing() {
    let config = PadConfig::default();
    let mut state = PadState::default();
    let bytes = png_bytes(10);
    let sig = process_frame(&config, &mut state, 1000, &bytes, Some(42));
    assert!(!sig.suspected_replay);
    assert!(!sig.duplicate_hash);
    assert_eq!(sig.flicker_permille, 0);
    assert_eq!(state.last_ts, Some(1000));
    assert_eq!(state.recent_hashes.len(), 1);
}

#[test]
fn duplicate_hash_within_window_is_flagged() {
    let config = PadConfig::default();
    let mut state = PadState::default();
    let bytes = png_bytes(10);
    let first = process_frame(&config, &mut state, 1000, &bytes, Some(42));
    assert!(!first.duplicate_hash);
    let second = process_frame(&config, &mut state, 1500, &bytes, Some(42));
    assert!(second.duplicate_hash);
    assert!(!second.suspected_replay);
}

#[test]
fn duplicate_outside_window_is_not_flagged() {
    let config = PadConfig::default();
    let mut state = PadState::default();
    let bytes = png_bytes(10);
    process_frame(&config, &mut state, 1000, &bytes, Some(42));
    let late = process_frame(&config, &mut state, 1000 + config.replay_window_ms + 1, &bytes, Some(42));
    assert!(!late.duplicate_hash);
}

#[test]
fn replay_flagged_when_timestamp_jumps_back() {
    let config = PadConfig::default();
    let mut state = PadState::default();
    let bytes = png_bytes(10);
    process_frame(&config, &mut state, 10_000, &bytes, Some(1));
    let sig = process_frame(&config, &mut state, 8000, &bytes, Some(1));
    assert!(sig.suspected_replay);
}

#[test]
fn small_clock_skew_is_tolerated() {
    let config = PadConfig::default();
    let mut state = PadState::default();
    let bytes = png_bytes(10);
    process_frame(&config, &mut state, 10_000, &bytes, Some(1));
    let sig = process_frame(&config, &mut state, 9500, &bytes, Some(2));
    assert!(!sig.suspected_replay);
}

#[test]
fn ring_is_bounded_and_fresh() {
    let config = PadConfig::default();
    let mut state = PadState::default();
    let bytes = png_bytes(10);
    for k in 0..40u64 {
        process_frame(&config, &mut state, 1000 + k * 10, &bytes, Some(k));
    }
    assert!(state.recent_hashes.len() <= config.max_recent_hashes);
    assert_eq!(state.recent_hashes.len(), config.max_recent_hashes);
    let newest = state.recent_hashes.back().unwrap().1;
    for &(_, t) in state.recent_hashes.iter() {
        assert!(newest - t <= config.replay_window_ms);
    }
}

#[test]
fn aged_entries_are_evicted() {
    let config = PadConfig::default();
    let mut state = PadState::default();
    let bytes = png_bytes(10);
    process_frame(&config, &mut state, 1000, &bytes, Some(1));
    process_frame(&config, &mut state, 2000, &bytes, Some(2));
    process_frame(&config, &mut state, 1000 + config.replay_window_ms + 1, &bytes, Some(3));
    for &(_, t) in state.recent_hashes.iter() {
        assert!(t > 1000);
    }
}

#[test]
fn flicker_between_black_and_white_is_full_scale() {
    let config = PadConfig::default();
    let mut state = PadState::default();
    let black = uniform_png(0);
    let white = uniform_png(255);
    process_frame(&config, &mut state, 1000, &black, Some(1));
    let sig = process_frame(&config, &mut state, 1100, &white, Some(2));
    assert_eq!(sig.flicker_permille, 1000);
    let again = process_frame(&config, &mut state, 1200, &white, Some(2));
    assert_eq!(again.flicker_permille, 0);
}

#[test]
fn undecodable_bytes_only_update_timestamp() {
    let config = PadConfig::default();
    let mut state = PadState::default();
    let junk = vec![9u8; 200];
    let sig = process_frame(&config, &mut state, 777, &junk, None);
    assert!(!sig.suspected_replay);
    assert!(!sig.duplicate_hash);
    assert_eq!(sig.flicker_permille, 0);
    assert_eq!(state.last_ts, Some(777));
    assert_eq!(state.recent_hashes.len(), 0);
    assert!(state.last_small_gray.is_none());
}

#[test]
fn undecodable_frame_reports_no_replay() {
    let config = PadConfig::default();
    let mut state = PadState::default();
    let bytes = png_bytes(10);
    process_frame(&config, &mut state, 10_000, &bytes, Some(1));
    let junk = vec![3u8; 200];
    // The timestamp runs far backwards, but an undecoded frame reports
    // nothing; only the timestamp is recorded.
    let sig = process_frame(&config, &mut state, 1000, &junk, None);
    assert!(!sig.suspected_replay);
    assert_eq!(state.last_ts, Some(1000));
}

#[test]
fn default_config_matches_stock_values() {
    let config = PadConfig::default();
    assert_eq!(config.replay_window_ms, 5000);
    assert_eq!(config.allow_clock_skew_ms, 1000);
    assert_eq!(config.max_recent_hashes, 32);
    assert_eq!(config.duplicate_hamming_threshold, 0);
    assert_eq!(config.flicker_size, 32);
    assert_eq!(config.flicker_suspect_threshold_permille, 200);
}
