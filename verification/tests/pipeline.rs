use lovshot::estimate::{estimate_export_size, format_bytes};
use lovshot::export::{
    delay_centiseconds, export_gif, gif_speed_for_quality, pingpong_expand, sample_indices,
    sampled_frame_count, scale_frames, trim_and_sample, ExportConfig, ExportError, LoopMode,
};
use lovshot::frame::Frame;
use lovshot::recording::{frame_interval_ms, sleep_after_tick_ms, RecordingSession};
use lovshot::frame::Region;

fn solid_frame(width: u32, height: u32, value: u8) -> Frame {
    Frame { width, height, data: vec![value; (width * height * 4) as usize] }
}

fn numbered_frames(count: usize, width: u32, height: u32) -> Vec<Frame> {
    (0..count).map(|i| solid_frame(width, height, (i % 256) as u8)).collect()
}

fn config(start: usize, end: usize, target_fps: u32, speed_percent: u32) -> ExportConfig {
    ExportConfig {
        start_frame: start,
        end_frame: end,
        scale_percent: 100,
        target_fps,
        speed_percent,
        quality: 80,
        loop_mode: LoopMode::Infinite,
        output_path: None,
    }
}

#[test]
fn resample_counts_match_spec_example() {
    // 90 frames captured at 30 fps, real-time speed, 10 fps target: 3 s of
    // output at 10 fps is 30 frames.
    assert_eq!(sampled_frame_count(90, 30, 100, 10), 30);
    let idx = sample_indices(90, 30, 100, 10);
    assert_eq!(idx.len(), 30);
    assert_eq!(idx[0], 0);
    assert_eq!(idx[29], 89);
    for i in 0..30usize {
        let expected = (2 * i * 89 + 29) / (2 * 29);
        assert_eq!(idx[i], expected);
    }
}

#[test]
fn resample_is_identity_at_matching_rates() {
    // speed = 1 and target_fps = capture_fps keep the trimmed set as is.
    let frames = numbered_frames(12, 4, 4);
    let sampled = trim_and_sample(&frames, 15, &config(2, 9, 15, 100)).unwrap();
    assert_eq!(sampled.len(), 7);
    for (i, f) in sampled.iter().enumerate() {
        assert_eq!(f.data, frames[2 + i].data);
    }
}

#[test]
fn resample_keeps_all_when_target_asks_for_more() {
    // Upsampling is never done by duplication.
    assert_eq!(sampled_frame_count(10, 10, 100, 60), 10);
    // Slow motion at the same rate asks for more frames than exist.
    assert_eq!(sampled_frame_count(10, 10, 50, 10), 10);
    // Double speed halves the output.
    assert_eq!(sampled_frame_count(10, 10, 200, 10), 5);
}

#[test]
fn trim_clamps_to_buffer() {
    let frames = numbered_frames(5, 4, 4);
    let sampled = trim_and_sample(&frames, 10, &config(3, 100, 10, 100)).unwrap();
    assert_eq!(sampled.len(), 2);
    assert_eq!(sampled[0].data, frames[3].data);
    assert_eq!(sampled[1].data, frames[4].data);
}

#[test]
fn empty_range_is_invalid() {
    let frames = numbered_frames(5, 4, 4);
    assert!(matches!(
        trim_and_sample(&frames, 10, &config(3, 3, 10, 100)),
        Err(ExportError::InvalidRange)
    ));
    assert!(matches!(
        trim_and_sample(&frames, 10, &config(4, 2, 10, 100)),
        Err(ExportError::InvalidRange)
    ));
}

#[test]
fn pingpong_adds_reversed_interior() {
    // Five frames come back as eight: forward, then frames 3, 2, 1 again.
    let frames = numbered_frames(5, 4, 4);
    let out = pingpong_expand(frames.clone());
    assert_eq!(out.len(), 8);
    for i in 0..5 {
        assert_eq!(out[i].data, frames[i].data);
    }
    assert_eq!(out[5].data, frames[3].data);
    assert_eq!(out[6].data, frames[2].data);
    assert_eq!(out[7].data, frames[1].data);
}

#[test]
fn pingpong_leaves_short_sequences_alone() {
    let out = pingpong_expand(numbered_frames(2, 4, 4));
    assert_eq!(out.len(), 2);
    let out = pingpong_expand(numbered_frames(1, 4, 4));
    assert_eq!(out.len(), 1);
}

#[test]
fn scale_stage_resizes_only_past_the_threshold() {
    let frames = numbered_frames(3, 10, 8);
    // 99% is within a hundredth of unity: untouched.
    let same = scale_frames(frames.clone(), 99);
    assert_eq!(same[0].width, 10);
    assert_eq!(same[0].height, 8);
    // Half size resizes to round(d * 0.5).
    let half = scale_frames(frames, 50);
    assert_eq!(half.len(), 3);
    assert_eq!(half[0].width, 5);
    assert_eq!(half[0].height, 4);
    assert_eq!(half[0].data.len(), 5 * 4 * 4);
}

#[test]
fn still_scaling_matches_the_export_threshold() {
    let f = solid_frame(10, 8, 7);
    let same = lovshot::export::scale_still(&f, 100);
    assert_eq!((same.width, same.height), (10, 8));
    assert_eq!(same.data, f.data);
    let half = lovshot::export::scale_still(&f, 50);
    assert_eq!((half.width, half.height), (5, 4));
    assert_eq!(half.data.len(), 5 * 4 * 4);
    // A solid frame stays solid through the smooth filter.
    assert_eq!(half.data[0], 7);
}

#[test]
fn encoder_delay_follows_target_rate() {
    assert_eq!(delay_centiseconds(10), 10);
    assert_eq!(delay_centiseconds(30), 3);
    assert_eq!(delay_centiseconds(33), 3);
    assert_eq!(delay_centiseconds(1), 100);
    assert_eq!(delay_centiseconds(1000), 1);
    assert_eq!(delay_centiseconds(0), 10);
}

#[test]
fn encoder_speed_follows_quality_monotonically() {
    assert_eq!(gif_speed_for_quality(1), 30);
    assert_eq!(gif_speed_for_quality(100), 1);
    let mut last = 31;
    for q in 1..=100u32 {
        let s = gif_speed_for_quality(q);
        assert!(1 <= s && s <= 30);
        assert!(s <= last);
        last = s;
    }
    // Out-of-range quality clamps.
    assert_eq!(gif_speed_for_quality(0), 30);
    assert_eq!(gif_speed_for_quality(1000), 1);
}

#[test]
fn export_produces_a_decodable_gif() {
    let frames = numbered_frames(6, 8, 6);
    let cfg = config(0, 6, 10, 100);
    let out = export_gif(&frames, 10, &cfg).unwrap();
    assert_eq!(out.frame_count, 6);
    assert_eq!(out.width, 8);
    assert_eq!(out.height, 6);
    assert_eq!(out.progress.len(), 6);
    for (i, p) in out.progress.iter().enumerate() {
        assert_eq!(p.current, i + 1);
        assert_eq!(p.total, 6);
        assert_eq!(p.stage, "encoding");
    }
    let mut options = gif::DecodeOptions::new();
    options.set_color_output(gif::ColorOutput::RGBA);
    let mut decoder = options.read_info(std::io::Cursor::new(&out.bytes[..])).unwrap();
    assert_eq!(decoder.width(), 8);
    assert_eq!(decoder.height(), 6);
    let mut decoded = 0;
    while let Some(frame) = decoder.read_next_frame().unwrap() {
        assert_eq!(frame.delay, 10);
        decoded += 1;
    }
    assert_eq!(decoded, 6);
}

#[test]
fn export_repeat_metadata_follows_loop_mode() {
    // Once encodes a finite repeat of zero extra loops; Infinite and
    // PingPong encode infinite repeat.
    for (mode, expected) in [
        (LoopMode::Once, gif::Repeat::Finite(0)),
        (LoopMode::Infinite, gif::Repeat::Infinite),
        (LoopMode::PingPong, gif::Repeat::Infinite),
    ] {
        let frames = numbered_frames(4, 4, 4);
        let mut cfg = config(0, 4, 10, 100);
        cfg.loop_mode = mode;
        let out = export_gif(&frames, 10, &cfg).unwrap();
        let mut decoder = gif::DecodeOptions::new()
            .read_info(std::io::Cursor::new(&out.bytes[..]))
            .unwrap();
        while decoder.read_next_frame().unwrap().is_some() {}
        assert_eq!(decoder.repeat(), expected);
    }
}

#[test]
fn export_encodes_the_sampled_pixels() {
    // Two solid frames survive the trip through palette encoding exactly.
    let frames = vec![solid_frame(4, 4, 10), solid_frame(4, 4, 250)];
    let cfg = config(0, 2, 5, 100);
    let out = export_gif(&frames, 5, &cfg).unwrap();
    let mut options = gif::DecodeOptions::new();
    options.set_color_output(gif::ColorOutput::RGBA);
    let mut decoder = options.read_info(std::io::Cursor::new(&out.bytes[..])).unwrap();
    let first = decoder.read_next_frame().unwrap().unwrap();
    assert_eq!(&first.buffer[..4], &[10, 10, 10, 255]);
    let second = decoder.read_next_frame().unwrap().unwrap();
    assert_eq!(&second.buffer[..4], &[250, 250, 250, 255]);
}

#[test]
fn export_with_bad_range_fails_without_output() {
    let frames = numbered_frames(5, 4, 4);
    let r = export_gif(&frames, 10, &config(4, 4, 10, 100));
    assert!(matches!(r, Err(ExportError::InvalidRange)));
    let r = export_gif(&Vec::new(), 10, &config(0, 5, 10, 100));
    assert!(matches!(r, Err(ExportError::InvalidRange)));
}

#[test]
fn estimator_matches_the_pipeline() {
    let frames = numbered_frames(90, 16, 12);
    for (mode, speed, fps) in [
        (LoopMode::Infinite, 100, 10),
        (LoopMode::PingPong, 100, 10),
        (LoopMode::Once, 200, 15),
        (LoopMode::PingPong, 50, 30),
    ] {
        let mut cfg = config(5, 85, fps, speed);
        cfg.loop_mode = mode;
        let est = estimate_export_size(&frames, 30, &cfg);
        let out = export_gif(&frames, 30, &cfg).unwrap();
        assert_eq!(est.frame_count, out.frame_count);
        assert_eq!(est.output_width, out.width);
        assert_eq!(est.output_height, out.height);
    }
}

#[test]
fn estimator_on_empty_buffer() {
    let est = estimate_export_size(&Vec::new(), 30, &config(0, 10, 10, 100));
    assert_eq!(est.frame_count, 0);
    assert_eq!(est.output_width, 0);
    assert_eq!(est.output_height, 0);
    assert_eq!(est.estimated_bytes, 0);
    assert_eq!(est.formatted, "0 B");
}

#[test]
fn estimator_pingpong_example() {
    // 30 sampled frames in ping-pong mode become 58; bytes follow the
    // documented per-pixel cost.
    let frames = numbered_frames(90, 10, 10);
    let mut cfg = config(0, 90, 10, 100);
    cfg.loop_mode = LoopMode::PingPong;
    cfg.quality = 100;
    let est = estimate_export_size(&frames, 30, &cfg);
    assert_eq!(est.frame_count, 58);
    let expected = 58u64 * 10 * 10 * (500 + 35 * 100) / 10000;
    assert_eq!(est.estimated_bytes, expected);
    assert_eq!(est.formatted, format_bytes(expected));
}

#[test]
fn format_bytes_uses_binary_units() {
    assert_eq!(format_bytes(0), "0 B");
    assert_eq!(format_bytes(1023), "1023 B");
    assert_eq!(format_bytes(1024), "1.0 KB");
    assert_eq!(format_bytes(1536), "1.5 KB");
    assert_eq!(format_bytes(10 * 1024 * 1024), "10.0 MB");
    assert_eq!(format_bytes(3 * 1024 * 1024 * 1024 + 512 * 1024 * 1024), "3.5 GB");
}

#[test]
fn recording_session_lifecycle() {
    let mut s = RecordingSession::new(20);
    assert!(s.start().is_err());
    s.set_region(Region { x: 5, y: 6, width: 30, height: 20 });
    let region = s.start().unwrap();
    assert_eq!(region.width, 30);
    let n = s.append_frame(solid_frame(30, 20, 1)).unwrap();
    assert!(n.is_recording);
    assert_eq!(n.frame_count, 1);
    s.append_frame(solid_frame(30, 20, 2)).unwrap();
    let info = s.info();
    assert_eq!(info.frame_count, 2);
    assert_eq!(info.width, 30);
    assert_eq!(info.height, 20);
    assert_eq!(info.fps, 20);
    assert_eq!(info.duration_ms, 100);
    assert!(info.has_frames);
    s.stop();
    // A capture that finishes after the stop request is dropped.
    assert!(s.append_frame(solid_frame(30, 20, 3)).is_none());
    assert_eq!(s.frames.len(), 2);
    s.discard();
    assert_eq!(s.frames.len(), 0);
}

#[test]
fn starting_twice_is_refused() {
    let mut s = RecordingSession::new(10);
    s.set_region(Region { x: 0, y: 0, width: 8, height: 8 });
    s.start().unwrap();
    assert!(s.start().is_err());
}

#[test]
fn tick_timing() {
    assert_eq!(frame_interval_ms(10), 100);
    assert_eq!(frame_interval_ms(30), 33);
    assert_eq!(sleep_after_tick_ms(100, 40), 60);
    assert_eq!(sleep_after_tick_ms(100, 100), 0);
    assert_eq!(sleep_after_tick_ms(100, 250), 0);
}
