use game_engine::test_helpers::capture::rgba_image;
use game_engine::test_helpers::h264::{H264Frame, H264Session};
use game_engine::test_helpers::nal::extract_nal_units;
use game_engine::test_helpers::video::{mp4_plan, VideoRecorder};
use game_engine::test_helpers::{padded_bytes_per_row, remove_row_padding, staging_buffer_size};
use std::path::Path;

#[test]
fn padded_rows_round_up_to_256() {
    assert_eq!(padded_bytes_per_row(64), 256);
    assert_eq!(padded_bytes_per_row(65), 512);
    assert_eq!(padded_bytes_per_row(0), 0);
    assert_eq!(padded_bytes_per_row(800), 3328);
    assert_eq!(staging_buffer_size(256, 64), 16384);
}

#[test]
fn row_padding_is_stripped() {
    // two rows of one pixel each, rows 8 bytes apart
    let data: Vec<u8> = vec![1, 2, 3, 4, 0, 0, 0, 0, 5, 6, 7, 8, 0, 0, 0, 0];
    let out = remove_row_padding(&data, 1, 2, 8);
    assert_eq!(out, vec![1, 2, 3, 4, 5, 6, 7, 8]);
    assert!(remove_row_padding(&data, 1, 0, 8).is_empty());
}

#[test]
fn nal_units_split_on_both_start_codes() {
    let stream: Vec<u8> = vec![
        0, 0, 0, 1, 0x67, 1, 2, // SPS behind a 4-byte start code
        0, 0, 1, 0x68, 3, // PPS behind a 3-byte start code
        0, 0, 0, 1, 0x65, 9, 9, 9, // IDR slice
    ];
    let nals = extract_nal_units(&stream);
    assert_eq!(nals, vec![vec![0x67, 1, 2], vec![0x68, 3], vec![0x65, 9, 9, 9]]);
}

#[test]
fn nal_units_skip_leading_garbage_and_empty_units() {
    assert!(extract_nal_units(&[]).is_empty());
    assert!(extract_nal_units(&[7, 7, 7]).is_empty());
    // two start codes back to back give no empty unit
    let nals = extract_nal_units(&[9, 0, 0, 1, 0, 0, 1, 0x41, 5]);
    assert_eq!(nals, vec![vec![0x41, 5]]);
}

#[test]
fn mp4_plan_separates_parameter_sets_from_samples() {
    let nals = vec![vec![0x67, 1], vec![0x68, 2], vec![0x65, 3, 3], vec![0x41, 4], vec![0x67, 9]];
    let plan = match mp4_plan(&nals, 64, 48, 30) {
        Ok(p) => p,
        Err(e) => panic!("unexpected error {}", e),
    };
    assert_eq!(plan.sps, vec![0x67, 9]);
    assert_eq!(plan.pps, vec![0x68, 2]);
    assert_eq!(plan.timescale, 30000);
    assert_eq!((plan.width, plan.height), (64, 48));
    assert_eq!(plan.samples.len(), 2);
    assert_eq!(plan.samples[0].start_time, 0);
    assert_eq!(plan.samples[0].duration, 1000);
    assert!(plan.samples[0].is_sync);
    assert_eq!(plan.samples[0].bytes, vec![0, 0, 0, 3, 0x65, 3, 3]);
    assert_eq!(plan.samples[1].start_time, 1000);
    assert!(!plan.samples[1].is_sync);
    assert_eq!(plan.samples[1].bytes, vec![0, 0, 0, 2, 0x41, 4]);
}

#[test]
fn mp4_plan_reports_missing_parameter_sets() {
    match mp4_plan(&vec![vec![0x68, 1]], 2, 2, 30) {
        Err(e) => assert_eq!(e, "No SPS found in encoded data"),
        Ok(_) => panic!("expected an error"),
    }
    match mp4_plan(&vec![vec![0x67, 1], vec![0x65, 1]], 2, 2, 30) {
        Err(e) => assert_eq!(e, "No PPS found in encoded data"),
        Ok(_) => panic!("expected an error"),
    }
}

#[test]
fn recorder_counts_frames_and_refuses_empty_finish() {
    let mut recorder = VideoRecorder::new(4, 2, 30, Path::new("tests/videos/none.mp4"));
    assert_eq!(recorder.frame_count(), 0);
    assert_eq!(recorder.output_path().as_path(), Path::new("tests/videos/none.mp4"));
    match recorder.finish() {
        Err(e) => assert_eq!(e, "No frames captured"),
        Ok(_) => panic!("expected an error"),
    }
    let mut recorder = VideoRecorder::new(4, 2, 30, Path::new("out.mp4"));
    recorder.capture_frame(vec![0u8; 32]);
    recorder.capture_frame(vec![255u8; 32]);
    assert_eq!(recorder.frame_count(), 2);
    assert!(recorder.finish().is_ok());
}

#[test]
fn encoding_frames_yields_a_track() {
    let (w, h) = (64u32, 64u32);
    let mut recorder = VideoRecorder::new(w, h, 30, Path::new("tests/videos/test_recording.mp4"));
    let colors: [(u8, u8, u8); 5] = [(255, 0, 0), (0, 255, 0), (0, 0, 255), (255, 255, 0), (255, 0, 255)];
    for (r, g, b) in colors.iter() {
        let frame: Vec<u8> = (0..(w * h)).flat_map(|_| [*r, *g, *b, 255u8]).collect();
        recorder.capture_frame(frame);
    }
    assert_eq!(recorder.frame_count(), 5);
    let finished = match recorder.finish() {
        Ok(f) => f,
        Err(e) => panic!("finish failed: {}", e),
    };
    let mut session = match H264Session::new() {
        Ok(s) => s,
        Err(e) => panic!("encoder failed: {}", e),
    };
    let plan = match finished.encode_mp4(&mut session) {
        Ok(p) => p,
        Err(e) => panic!("encode failed: {}", e),
    };
    assert_eq!(plan.sps[0] & 0x1f, 7);
    assert_eq!(plan.pps[0] & 0x1f, 8);
    assert_eq!(plan.timescale, 30000);
    assert!(!plan.samples.is_empty());
    assert!(plan.samples[0].is_sync);
    for (k, s) in plan.samples.iter().enumerate() {
        assert_eq!(s.start_time, k as u64 * 1000);
        let len = u32::from_be_bytes([s.bytes[0], s.bytes[1], s.bytes[2], s.bytes[3]]) as usize;
        assert_eq!(len + 4, s.bytes.len());
    }
}

#[test]
fn encoder_session_turns_a_frame_into_a_bitstream() {
    let (w, h) = (32usize, 32usize);
    let rgba: Vec<u8> = (0..w * h).flat_map(|i| [(i % 256) as u8, 40, 200, 255]).collect();
    let frame = H264Frame::from_rgba(&rgba, w, h);
    let mut session = match H264Session::new() {
        Ok(s) => s,
        Err(e) => panic!("encoder failed: {}", e),
    };
    session.force_intra_frame();
    let stream = match session.encode(&frame) {
        Ok(b) => b,
        Err(e) => panic!("encode failed: {:?}", e),
    };
    assert!(!stream.is_empty());
    assert_ne!(stream, rgba);
    // Annex B: the bitstream starts with a start code.
    assert!(stream.starts_with(&[0, 0, 0, 1]) || stream.starts_with(&[0, 0, 1]));
}

#[test]
fn rgba_image_needs_four_bytes_per_pixel() {
    let exact = vec![7u8; 2 * 3 * 4];
    let img = match rgba_image(2, 3, &exact) {
        Ok(i) => i,
        Err(e) => panic!("image refused: {}", e),
    };
    assert_eq!(img.raw.pixels.dimensions(), (2, 3));
    assert_eq!(img.raw.pixels.get_pixel(1, 2).0, [7, 7, 7, 7]);
    assert!(rgba_image(2, 3, &vec![0u8; 2 * 3 * 4 + 5]).is_ok());
    match rgba_image(2, 3, &vec![0u8; 2 * 3 * 4 - 1]) {
        Ok(_) => panic!("short data accepted"),
        Err(e) => assert_eq!(e, "Failed to create image buffer from raw data"),
    }
    assert!(rgba_image(0, 0, &[]).is_ok());
}

#[test]
fn frame_count_counts_the_captures_since_new() {
    let mut recorder = VideoRecorder::new(2, 2, 30, Path::new("tests/videos/count.mp4"));
    assert_eq!(recorder.frame_count(), 0);
    for k in 0..7u8 {
        recorder.capture_frame(vec![k; 16]);
        assert_eq!(recorder.frame_count(), k as usize + 1);
    }
    assert_eq!(recorder.frame_count(), 7);
}
