use lovshot::frame::Frame;
use lovshot::scroll::{
    compare_strips, detect_scroll_delta, stitch_scroll_image, ScrollSession, StepResult,
    StitchError,
};

/// A frame whose every row `y` is filled with `row_value(y)`.
fn row_frame(width: u32, height: u32, row_value: impl Fn(u32) -> u8) -> Frame {
    let mut data = Vec::with_capacity((width * height * 4) as usize);
    for y in 0..height {
        let v = row_value(y);
        for _ in 0..width {
            data.extend_from_slice(&[v, v, v, 255]);
        }
    }
    Frame { width, height, data }
}

#[test]
fn identical_frames_give_no_delta() {
    // At this height every candidate strip runs past the frame, so two
    // identical captures cannot produce a scroll.
    let f = row_frame(8, 25, |y| (y * 9) as u8);
    let g = row_frame(8, 25, |y| (y * 9) as u8);
    assert_eq!(detect_scroll_delta(&f, &g), 0);
}

#[test]
fn unrelated_frames_stay_below_the_match_threshold() {
    // All black against all white: every candidate scores far above the
    // tolerance, so no scroll is reported.
    let f = row_frame(8, 100, |_| 0);
    let g = row_frame(8, 100, |_| 255);
    assert_eq!(detect_scroll_delta(&f, &g), 0);
}

#[test]
fn mismatched_sizes_give_no_delta() {
    let f = row_frame(8, 100, |y| y as u8);
    let g = row_frame(8, 90, |y| y as u8);
    assert_eq!(detect_scroll_delta(&f, &g), 0);
    let h = row_frame(12, 100, |y| y as u8);
    assert_eq!(detect_scroll_delta(&f, &h), 0);
}

#[test]
fn strip_scores_sum_sampled_channel_differences() {
    // 8 columns sample x = 0 and x = 4; all-black against all-white differs
    // by 255 on each of three channels: 20 rows * 2 columns * 765.
    let f = row_frame(8, 40, |_| 0);
    let g = row_frame(8, 40, |_| 255);
    assert_eq!(compare_strips(&f, &g, 0, 0, 8, 20), 20 * 2 * 765);
    assert_eq!(compare_strips(&f, &f, 10, 0, 8, 20), 0);
    // A strip running past either frame scores the sentinel.
    assert_eq!(compare_strips(&f, &g, 30, 0, 8, 20), i64::MAX);
    assert_eq!(compare_strips(&f, &g, 0, 25, 8, 20), i64::MAX);
}

#[test]
fn shift_between_candidates_recovers_to_search_granularity() {
    // A 17-row shift is reported as the nearest candidate offset, 15.
    let prev = row_frame(8, 80, |y| y as u8);
    let curr = row_frame(8, 80, |y| (y + 17) as u8);
    assert_eq!(detect_scroll_delta(&prev, &curr), 15);
}

#[test]
fn shifted_content_is_recovered() {
    // The new capture shows the old content 15 rows further down the page:
    // its rows repeat the old frame's rows 15 lower.
    let prev = row_frame(8, 80, |y| y as u8);
    let curr = row_frame(8, 80, |y| (y + 15) as u8);
    assert_eq!(detect_scroll_delta(&prev, &curr), 15);
}

#[test]
fn shifted_up_content_is_recovered() {
    // Scrolling up: the new capture's rows sit 20 rows above the old ones.
    let prev = row_frame(8, 80, |y| (y + 20) as u8);
    let curr = row_frame(8, 80, |y| y as u8);
    assert_eq!(detect_scroll_delta(&prev, &curr), -20);
}

#[test]
fn stitch_extends_by_the_overlap() {
    // A downward stitch appends exactly min(delta, height) rows taken from
    // the bottom of the new frame.
    let base = row_frame(6, 50, |y| y as u8);
    let new = row_frame(6, 60, |y| (100 + y) as u8);
    let out = stitch_scroll_image(&base, &new, 30).unwrap();
    assert_eq!(out.width, 6);
    assert_eq!(out.height, 80);
    // Base rows first.
    assert_eq!(out.data[0], 0);
    // Appended rows are the last 30 rows of the new frame (rows 30..60).
    let row_bytes = 6 * 4;
    assert_eq!(out.data[50 * row_bytes], 130);
    assert_eq!(out.data[79 * row_bytes], 159);
}

#[test]
fn stitch_upward_prepends() {
    let base = row_frame(6, 50, |y| y as u8);
    let new = row_frame(6, 60, |y| (100 + y) as u8);
    let out = stitch_scroll_image(&base, &new, -25).unwrap();
    assert_eq!(out.height, 75);
    let row_bytes = 6 * 4;
    // The first 25 rows come from the top of the new frame.
    assert_eq!(out.data[0], 100);
    assert_eq!(out.data[24 * row_bytes], 124);
    // The base follows unchanged.
    assert_eq!(out.data[25 * row_bytes], 0);
}

#[test]
fn stitch_concatenates_when_nothing_overlaps() {
    let base = row_frame(6, 40, |y| y as u8);
    let new = row_frame(6, 30, |y| (200 + y) as u8);
    let out = stitch_scroll_image(&base, &new, 30).unwrap();
    assert_eq!(out.height, 70);
    let mut expected = base.data.clone();
    expected.extend_from_slice(&new.data);
    assert_eq!(out.data, expected);
}

#[test]
fn stitch_rejects_width_mismatch() {
    let base = row_frame(6, 40, |y| y as u8);
    let new = row_frame(8, 40, |y| y as u8);
    assert!(matches!(
        stitch_scroll_image(&base, &new, 20),
        Err(StitchError::FrameWidthMismatch)
    ));
}

#[test]
fn scroll_session_grows_composite() {
    let first = row_frame(8, 80, |y| y as u8);
    let mut session = ScrollSession::new();
    session.begin(first);
    assert_eq!(session.progress(), Some((1, 80)));

    // Content moved 15 rows down: the composite grows by 15 rows.
    let second = row_frame(8, 80, |y| (y + 15) as u8);
    assert_eq!(session.step(&second), StepResult::Stitched);
    assert_eq!(session.progress(), Some((2, 95)));

    // A capture that matches nowhere moves nothing and changes nothing.
    let third = row_frame(8, 80, |_| 255);
    assert_eq!(session.step(&third), StepResult::NoMovement);
    assert_eq!(session.progress(), Some((2, 95)));

    let composite = session.finish().unwrap();
    assert_eq!(composite.height, 95);
    // The appended rows continue the page: rows 80..95 hold values 80..94.
    let row_bytes = 8 * 4;
    assert_eq!(composite.data[80 * row_bytes], 80);
    assert_eq!(composite.data[94 * row_bytes], 94);
    assert_eq!(session.progress(), None);
}

#[test]
fn finishing_without_a_run_fails() {
    let mut session = ScrollSession::new();
    assert!(session.finish().is_err());
}

#[test]
fn cancel_discards_everything() {
    let mut session = ScrollSession::new();
    session.begin(row_frame(8, 40, |y| y as u8));
    session.cancel();
    assert!(!session.capturing);
    assert_eq!(session.history.len(), 0);
    assert!(session.composite.is_none());
    assert!(session.finish().is_err());
}
