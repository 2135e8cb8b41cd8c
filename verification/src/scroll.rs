//! Scroll stitching: estimating the vertical scroll offset between two
//! captures by correlating pixel strips, and extending a running composite
//! image with the newly revealed rows.

use vstd::prelude::*;
use crate::frame::{Frame, frame_eq};

verus! {

/// Height in rows of the strips compared during delta detection.
pub const STRIP_HEIGHT: u32 = 20;

/// Vertical step between candidate offsets.
pub const SEARCH_STEP: u32 = 5;

/// Smallest candidate offset; offsets below this count as "no movement".
pub const MIN_SCROLL_DELTA: u32 = 10;

/// Upper bound on the candidate offset search range.
pub const MAX_SEARCH_RANGE: u32 = 200;

/// Average per-channel difference allowed for a strip to count as a match.
pub const MATCH_TOLERANCE: u32 = 50;

/// `|a - b|` for two channel values.
pub open spec fn abs_diff(a: u8, b: u8) -> int {
    if a >= b {
        a - b
    } else {
        b - a
    }
}

/// Sum of absolute R, G, B differences between the pixel at `(x, py)` of
/// `prev` and the pixel at `(x, cy)` of `curr`. Alpha is ignored.
pub open spec fn pixel_score(prev: Frame, curr: Frame, x: int, py: int, cy: int) -> int {
    abs_diff(prev.chan(x, py, 0), curr.chan(x, cy, 0)) + abs_diff(
        prev.chan(x, py, 1),
        curr.chan(x, cy, 1),
    ) + abs_diff(prev.chan(x, py, 2), curr.chan(x, cy, 2))
}

/// Number of sampled columns for a row of width `w`: every 4th column.
pub open spec fn sampled_cols(w: int) -> int {
    (w + 3) / 4
}

/// Score of the first `k` sampled columns (x = 0, 4, 8, ...) of one row pair.
pub open spec fn row_score(prev: Frame, curr: Frame, py: int, cy: int, k: int) -> int
    decreases k,
{
    if k <= 0 {
        0
    } else {
        row_score(prev, curr, py, cy, k - 1) + pixel_score(prev, curr, 4 * (k - 1), py, cy)
    }
}

/// Score of the first `rows` row pairs of the two strips starting at `py` in
/// `prev` and `cy` in `curr`, sampling every 4th column of a `w`-wide row.
pub open spec fn strip_score_rows(
    prev: Frame,
    curr: Frame,
    py: int,
    cy: int,
    w: int,
    rows: int,
) -> int
    decreases rows,
{
    if rows <= 0 {
        0
    } else {
        strip_score_rows(prev, curr, py, cy, w, rows - 1) + row_score(
            prev,
            curr,
            py + (rows - 1),
            cy + (rows - 1),
            sampled_cols(w),
        )
    }
}

/// Strip comparison score; `i64::MAX` when either strip runs past its frame.
pub open spec fn strip_score(
    prev: Frame,
    curr: Frame,
    prev_y: int,
    curr_y: int,
    w: int,
    strip_h: int,
) -> int {
    if prev_y + strip_h > prev.height || curr_y + strip_h > curr.height {
        i64::MAX as int
    } else {
        strip_score_rows(prev, curr, prev_y, curr_y, w, strip_h)
    }
}

/// Each sampled pixel contributes at most `3 * 255` to a row's score.
pub proof fn lemma_row_score_bound(prev: Frame, curr: Frame, py: int, cy: int, k: int)
    requires
        k >= 0,
    ensures
        0 <= row_score(prev, curr, py, cy, k) <= 765 * k,
    decreases k,
{
    if k > 0 {
        lemma_row_score_bound(prev, curr, py, cy, k - 1);
    }
}

/// A strip's score is bounded by its number of sampled pixels times `765`.
pub proof fn lemma_strip_score_rows_bound(
    prev: Frame,
    curr: Frame,
    py: int,
    cy: int,
    w: int,
    rows: int,
)
    requires
        rows >= 0,
        w >= 0,
    ensures
        0 <= strip_score_rows(prev, curr, py, cy, w, rows) <= 765 * sampled_cols(w) * rows,
    decreases rows,
{
    if rows > 0 {
        lemma_strip_score_rows_bound(prev, curr, py, cy, w, rows - 1);
        lemma_row_score_bound(prev, curr, py + (rows - 1), cy + (rows - 1), sampled_cols(w));
        assert(765 * sampled_cols(w) * (rows - 1) + 765 * sampled_cols(w) == 765 * sampled_cols(w)
            * rows) by (nonlinear_arith);
    } else {
        assert(765 * sampled_cols(w) * rows >= 0) by (nonlinear_arith)
            requires
                rows >= 0,
                w >= 0,
        ;
    }
}

/// Sum of absolute per-channel differences between a horizontal strip of
/// `prev` starting at row `prev_y` and one of `curr` starting at `curr_y`,
/// sampling every 4th column. Returns `i64::MAX` when a strip would run past
/// either frame.
pub fn compare_strips(
    prev: &Frame,
    curr: &Frame,
    prev_y: u32,
    curr_y: u32,
    width: u32,
    strip_height: u32,
) -> (r: i64)
    requires
        prev.wf(),
        curr.wf(),
        width <= prev.width,
        width <= curr.width,
        765 * sampled_cols(width as int) * strip_height <= i64::MAX,
    ensures
        r == strip_score(*prev, *curr, prev_y as int, curr_y as int, width as int, strip_height as int),
{
    if prev_y as u64 + strip_height as u64 > prev.height as u64 || curr_y as u64
        + strip_height as u64 > curr.height as u64 {
        return i64::MAX;
    }
    let cols: u32 = width / 4 + if width % 4 != 0 { 1 } else { 0 };
    assert(cols == sampled_cols(width as int));
    let mut total: i64 = 0;
    let mut y: u32 = 0;
    while y < strip_height
        invariant
            prev.wf(),
            curr.wf(),
            width <= prev.width,
            width <= curr.width,
            765 * sampled_cols(width as int) * strip_height <= i64::MAX,
            prev_y + strip_height <= prev.height,
            curr_y + strip_height <= curr.height,
            cols == sampled_cols(width as int),
            y <= strip_height,
            total == strip_score_rows(
                *prev,
                *curr,
                prev_y as int,
                curr_y as int,
                width as int,
                y as int,
            ),
        decreases strip_height - y,
    {
        proof {
            lemma_strip_score_rows_bound(
                *prev,
                *curr,
                prev_y as int,
                curr_y as int,
                width as int,
                y as int,
            );
            assert(765 * sampled_cols(width as int) * y <= 765 * sampled_cols(width as int)
                * strip_height) by (nonlinear_arith)
                requires
                    y <= strip_height,
                    765 * sampled_cols(width as int) >= 0,
            ;
        }
        let mut k: u32 = 0;
        let mut row_total: i64 = 0;
        while k < cols
            invariant
                prev.wf(),
                curr.wf(),
                width <= prev.width,
                width <= curr.width,
                cols == sampled_cols(width as int),
                y < strip_height,
                prev_y + strip_height <= prev.height,
                curr_y + strip_height <= curr.height,
                k <= cols,
                765 * sampled_cols(width as int) * strip_height <= i64::MAX,
                row_total == row_score(
                    *prev,
                    *curr,
                    prev_y + y,
                    curr_y + y,
                    k as int,
                ),
            decreases cols - k,
        {
            proof {
                lemma_row_score_bound(*prev, *curr, prev_y + y, curr_y + y, k as int);
                assert(765 * k + 765 <= 765 * sampled_cols(width as int)) by (nonlinear_arith)
                    requires
                        k < sampled_cols(width as int),
                ;
                assert(765 * sampled_cols(width as int) <= 765 * sampled_cols(width as int)
                    * strip_height) by (nonlinear_arith)
                    requires
                        strip_height >= 1,
                        765 * sampled_cols(width as int) >= 0,
                ;
                assert(4 * k < width) by (nonlinear_arith)
                    requires
                        k < sampled_cols(width as int),
                        sampled_cols(width as int) == (width as int + 3) / 4,
                ;
            }
            let x: u32 = 4 * k;
            let p0 = prev.get_channel(x, prev_y + y, 0);
            let c0 = curr.get_channel(x, curr_y + y, 0);
            let p1 = prev.get_channel(x, prev_y + y, 1);
            let c1 = curr.get_channel(x, curr_y + y, 1);
            let p2 = prev.get_channel(x, prev_y + y, 2);
            let c2 = curr.get_channel(x, curr_y + y, 2);
            let d0: i64 = if p0 >= c0 { (p0 - c0) as i64 } else { (c0 - p0) as i64 };
            let d1: i64 = if p1 >= c1 { (p1 - c1) as i64 } else { (c1 - p1) as i64 };
            let d2: i64 = if p2 >= c2 { (p2 - c2) as i64 } else { (c2 - p2) as i64 };
            row_total = row_total + d0 + d1 + d2;
            k = k + 1;
        }
        proof {
            lemma_strip_score_rows_bound(
                *prev,
                *curr,
                prev_y as int,
                curr_y as int,
                width as int,
                y as int,
            );
            lemma_row_score_bound(*prev, *curr, prev_y + y, curr_y + y, cols as int);
            assert(765 * sampled_cols(width as int) * y + 765 * sampled_cols(width as int) <= 765
                * sampled_cols(width as int) * strip_height) by (nonlinear_arith)
                requires
                    y < strip_height,
                    765 * sampled_cols(width as int) >= 0,
            ;
        }
        total = total + row_total;
        y = y + 1;
    }
    total
}

/// The search range for candidate offsets: half the frame height, capped.
pub open spec fn search_range(h: int) -> int {
    if h / 2 < MAX_SEARCH_RANGE {
        h / 2
    } else {
        MAX_SEARCH_RANGE as int
    }
}

/// Candidate offset number `j`.
pub open spec fn cand(j: int) -> int {
    MIN_SCROLL_DELTA + SEARCH_STEP * j
}

/// How many candidate offsets `10, 15, 20, ...` lie below the search range.
pub open spec fn num_candidates(h: int) -> int {
    if search_range(h) > MIN_SCROLL_DELTA {
        (search_range(h) - MIN_SCROLL_DELTA + 4) / 5
    } else {
        0
    }
}

/// Score of "scrolled down by `o`": the top strip of `curr` against the strip
/// of `prev` starting `o` rows down.
pub open spec fn down_score(prev: Frame, curr: Frame, o: int) -> int {
    strip_score(prev, curr, o, 0, prev.width as int, STRIP_HEIGHT as int)
}

/// Score of "scrolled up by `o`": the strip of `curr` starting `o` rows down
/// against the top strip of `prev`.
pub open spec fn up_score(prev: Frame, curr: Frame, o: int) -> int {
    strip_score(prev, curr, 0, o, prev.width as int, STRIP_HEIGHT as int)
}

/// `(score, offset)` of the best "scroll down" candidate among the first `n`,
/// where an earlier candidate wins ties.
pub open spec fn best_down(prev: Frame, curr: Frame, n: int) -> (int, int)
    decreases n,
{
    if n <= 0 {
        (i64::MAX as int, 0)
    } else {
        let p = best_down(prev, curr, n - 1);
        let s = down_score(prev, curr, cand(n - 1));
        if s < p.0 {
            (s, cand(n - 1))
        } else {
            p
        }
    }
}

/// `(score, offset)` of the best "scroll up" candidate among the first `n`.
pub open spec fn best_up(prev: Frame, curr: Frame, n: int) -> (int, int)
    decreases n,
{
    if n <= 0 {
        (i64::MAX as int, 0)
    } else {
        let p = best_up(prev, curr, n - 1);
        let s = up_score(prev, curr, cand(n - 1));
        if s < p.0 {
            (s, cand(n - 1))
        } else {
            p
        }
    }
}

/// Score a strip match must stay below to count as a real scroll.
pub open spec fn score_threshold(w: int) -> int {
    w * STRIP_HEIGHT * MATCH_TOLERANCE
}

/// The detected scroll delta: positive for scroll down, negative for scroll
/// up, `0` when the frames differ in size or no candidate matches well
/// enough. A "down" match beats an equally good "up" match.
pub open spec fn spec_detect_delta(prev: Frame, curr: Frame) -> int {
    if prev.width != curr.width || prev.height != curr.height {
        0
    } else {
        let n = num_candidates(curr.height as int);
        let bd = best_down(prev, curr, n);
        let bu = best_up(prev, curr, n);
        if bd.0 < score_threshold(prev.width as int) && bd.0 <= bu.0 {
            bd.1
        } else if bu.0 < score_threshold(prev.width as int) {
            -bu.1
        } else {
            0
        }
    }
}

/// The best candidate's offset is either the initial `0` or a candidate
/// strictly below the search range.
proof fn lemma_best_offset_range(prev: Frame, curr: Frame, n: int)
    requires
        forall|j: int| 0 <= j < n ==> cand(j) < search_range(curr.height as int),
    ensures
        0 <= best_down(prev, curr, n).1 <= if n > 0 {
            search_range(curr.height as int) - 1
        } else {
            0
        },
        0 <= best_up(prev, curr, n).1 <= if n > 0 {
            search_range(curr.height as int) - 1
        } else {
            0
        },
        best_down(prev, curr, n).0 < i64::MAX ==> best_down(prev, curr, n).1
            >= MIN_SCROLL_DELTA,
        best_up(prev, curr, n).0 < i64::MAX ==> best_up(prev, curr, n).1 >= MIN_SCROLL_DELTA,
    decreases n,
{
    if n > 0 {
        lemma_best_offset_range(prev, curr, n - 1);
        assert(cand(n - 1) < search_range(curr.height as int));
    }
}

/// Estimates how far the content scrolled between `prev` and `curr` by
/// correlating strips at every candidate offset. Positive means scrolled
/// down (new content at the bottom), negative scrolled up, `0` no clear
/// match.
pub fn detect_scroll_delta(prev: &Frame, curr: &Frame) -> (r: i32)
    requires
        prev.wf(),
        curr.wf(),
    ensures
        r == spec_detect_delta(*prev, *curr),
        -(MAX_SEARCH_RANGE as int) < r < MAX_SEARCH_RANGE as int,
        r != 0 ==> MIN_SCROLL_DELTA <= r || r <= -(MIN_SCROLL_DELTA as int),
{
    if prev.width != curr.width || prev.height != curr.height {
        return 0;
    }
    let h = curr.height;
    let sr: u32 = if h / 2 < MAX_SEARCH_RANGE {
        h / 2
    } else {
        MAX_SEARCH_RANGE
    };
    let n: u32 = if sr > MIN_SCROLL_DELTA {
        (sr - MIN_SCROLL_DELTA + 4) / 5
    } else {
        0
    };
    assert(n == num_candidates(curr.height as int));
    assert(forall|j: int| 0 <= j < n ==> cand(j) < search_range(curr.height as int)) by {
        assert forall|j: int| 0 <= j < n implies cand(j) < search_range(curr.height as int) by {
            assert(5 * j <= 5 * (n - 1)) by (nonlinear_arith)
                requires
                    j <= n - 1,
            ;
        }
    }
    let mut best_score_down: i64 = i64::MAX;
    let mut best_match_down: u32 = 0;
    let mut best_score_up: i64 = i64::MAX;
    let mut best_match_up: u32 = 0;
    let mut j: u32 = 0;
    while j < n
        invariant
            prev.wf(),
            curr.wf(),
            prev.width == curr.width,
            prev.height == curr.height,
            n == num_candidates(curr.height as int),
            forall|i: int| 0 <= i < n ==> cand(i) < search_range(curr.height as int),
            search_range(curr.height as int) <= MAX_SEARCH_RANGE,
            j <= n,
            best_score_down == best_down(*prev, *curr, j as int).0,
            best_match_down == best_down(*prev, *curr, j as int).1,
            best_score_up == best_up(*prev, *curr, j as int).0,
            best_match_up == best_up(*prev, *curr, j as int).1,
        decreases n - j,
    {
        let offset: u32 = MIN_SCROLL_DELTA + SEARCH_STEP * j;
        assert(offset == cand(j as int));
        proof {
            assert(765 * sampled_cols(prev.width as int) * STRIP_HEIGHT <= i64::MAX)
                by (nonlinear_arith)
                requires
                    sampled_cols(prev.width as int) == (prev.width as int + 3) / 4,
                    prev.width <= u32::MAX,
            ;
        }
        let score_down = compare_strips(prev, curr, offset, 0, prev.width, STRIP_HEIGHT);
        if score_down < best_score_down {
            best_score_down = score_down;
            best_match_down = offset;
        }
        let score_up = compare_strips(prev, curr, 0, offset, prev.width, STRIP_HEIGHT);
        if score_up < best_score_up {
            best_score_up = score_up;
            best_match_up = offset;
        }
        j = j + 1;
    }
    proof {
        lemma_best_offset_range(*prev, *curr, n as int);
    }
    let threshold_u: u64 = (prev.width as u64) * (STRIP_HEIGHT as u64) * (MATCH_TOLERANCE as u64);
    let threshold: i64 = threshold_u as i64;
    assert(threshold == score_threshold(prev.width as int)) by {
        assert(prev.width as int * STRIP_HEIGHT * MATCH_TOLERANCE <= u32::MAX as int * 1000)
            by (nonlinear_arith)
            requires
                prev.width <= u32::MAX,
        ;
    }
    if best_score_down < threshold && best_score_down <= best_score_up {
        best_match_down as i32
    } else if best_score_up < threshold {
        -(best_match_up as i32)
    } else {
        0
    }
}

/// Strip scores are symmetric between the two frames of an identical pair.
proof fn lemma_row_score_symmetric(prev: Frame, curr: Frame, py: int, cy: int, k: int)
    requires
        frame_eq(prev, curr),
    ensures
        row_score(prev, curr, py, cy, k) == row_score(prev, curr, cy, py, k),
    decreases k,
{
    if k > 0 {
        lemma_row_score_symmetric(prev, curr, py, cy, k - 1);
    }
}

proof fn lemma_strip_score_symmetric(prev: Frame, curr: Frame, py: int, cy: int, w: int, rows: int)
    requires
        frame_eq(prev, curr),
    ensures
        strip_score_rows(prev, curr, py, cy, w, rows) == strip_score_rows(
            prev,
            curr,
            cy,
            py,
            w,
            rows,
        ),
    decreases rows,
{
    if rows > 0 {
        lemma_strip_score_symmetric(prev, curr, py, cy, w, rows - 1);
        lemma_row_score_symmetric(prev, curr, py + (rows - 1), cy + (rows - 1), sampled_cols(w));
    }
}

/// Every strip score is non-negative.
proof fn lemma_strip_score_nonneg(prev: Frame, curr: Frame, py: int, cy: int, w: int, sh: int)
    requires
        w >= 0,
        sh >= 0,
    ensures
        strip_score(prev, curr, py, cy, w, sh) >= 0,
{
    if !(py + sh > prev.height || cy + sh > curr.height) {
        lemma_strip_score_rows_bound(prev, curr, py, cy, w, sh);
    }
}

/// When every candidate's score stays at or above `t`, so does the best.
proof fn lemma_best_down_min_bound(prev: Frame, curr: Frame, n: int, t: int)
    requires
        t <= i64::MAX,
        forall|j: int| 0 <= j < n ==> down_score(prev, curr, cand(j)) >= t,
    ensures
        best_down(prev, curr, n).0 >= t,
    decreases n,
{
    if n > 0 {
        lemma_best_down_min_bound(prev, curr, n - 1, t);
    }
}

proof fn lemma_best_up_min_bound(prev: Frame, curr: Frame, n: int, t: int)
    requires
        t <= i64::MAX,
        forall|j: int| 0 <= j < n ==> up_score(prev, curr, cand(j)) >= t,
    ensures
        best_up(prev, curr, n).0 >= t,
    decreases n,
{
    if n > 0 {
        lemma_best_up_min_bound(prev, curr, n - 1, t);
    }
}

/// Two identical captures produce no scroll, provided the image does not
/// repeat itself vertically: when no strip at a candidate offset matches the
/// top strip within tolerance, the detected delta is zero — and a zero delta
/// leaves the composite of a running session untouched (see
/// [`ScrollSession::step`]).
pub proof fn lemma_identical_frames_zero_delta(prev: Frame, curr: Frame)
    requires
        prev.wf(),
        curr.wf(),
        frame_eq(prev, curr),
        forall|j: int|
            0 <= j < num_candidates(curr.height as int) ==> down_score(prev, curr, cand(j))
                >= score_threshold(prev.width as int),
    ensures
        spec_detect_delta(prev, curr) == 0,
{
    let n = num_candidates(curr.height as int);
    let t = score_threshold(prev.width as int);
    assert(t <= i64::MAX) by (nonlinear_arith)
        requires
            t == prev.width * STRIP_HEIGHT * MATCH_TOLERANCE,
            prev.width <= u32::MAX,
    ;
    assert forall|j: int| 0 <= j < n implies up_score(prev, curr, cand(j)) >= t by {
        lemma_strip_score_symmetric(prev, curr, cand(j), 0, prev.width as int, STRIP_HEIGHT as int);
        assert(down_score(prev, curr, cand(j)) >= t);
    }
    lemma_best_down_min_bound(prev, curr, n, t);
    lemma_best_up_min_bound(prev, curr, n, t);
}

/// A strip whose compared pixels all agree scores zero.
proof fn lemma_row_score_zero(prev: Frame, curr: Frame, py: int, cy: int, k: int, w: int)
    requires
        k <= sampled_cols(w),
        forall|x: int, c: int|
            0 <= x < w && 0 <= c < 3 ==> #[trigger] prev.chan(x, py, c) == curr.chan(x, cy, c),
    ensures
        row_score(prev, curr, py, cy, k) == 0,
    decreases k,
{
    if k > 0 {
        lemma_row_score_zero(prev, curr, py, cy, k - 1, w);
        assert(4 * (k - 1) < w) by (nonlinear_arith)
            requires
                k <= (w + 3) / 4,
                k >= 1,
        ;
    }
}

proof fn lemma_strip_rows_zero(prev: Frame, curr: Frame, py: int, cy: int, w: int, rows: int)
    requires
        w >= 1,
        forall|x: int, yy: int, c: int|
            0 <= x < w && py <= yy < py + rows && 0 <= c < 3 ==> #[trigger] prev.chan(x, yy, c)
                == curr.chan(x, yy - py + cy, c),
    ensures
        strip_score_rows(prev, curr, py, cy, w, rows) == 0,
    decreases rows,
{
    if rows > 0 {
        lemma_strip_rows_zero(prev, curr, py, cy, w, rows - 1);
        assert forall|x: int, c: int|
            0 <= x < w && 0 <= c < 3 implies #[trigger] prev.chan(x, py + (rows - 1), c)
            == curr.chan(x, cy + (rows - 1), c) by {
            assert(prev.chan(x, py + (rows - 1), c) == curr.chan(x, py + (rows - 1) - py + cy, c));
        }
        lemma_row_score_zero(prev, curr, py + (rows - 1), cy + (rows - 1), sampled_cols(w), w);
    }
}

/// The best-candidate fold picks an exact match: when candidate `j0` scores
/// zero and every other candidate scores above zero, the fold lands on it.
proof fn lemma_best_down_exact(prev: Frame, curr: Frame, n: int, j0: int)
    requires
        0 <= j0 < n,
        down_score(prev, curr, cand(j0)) == 0,
        forall|j: int|
            0 <= j < n && j != j0 ==> down_score(prev, curr, cand(j)) > 0,
    ensures
        best_down(prev, curr, n) == (0int, cand(j0)),
    decreases n,
{
    if n - 1 > j0 {
        lemma_best_down_exact(prev, curr, n - 1, j0);
    } else {
        assert(n - 1 == j0);
        lemma_best_down_min_bound(prev, curr, j0, 1);
    }
}

/// A synthetic pair where the new capture shows the old content shifted up
/// by `d` rows (content duplicated) is recognised: provided `d` is one of
/// the candidate offsets, the strips fit in the frame, and no other
/// candidate strip coincidentally matches exactly, the detector reports
/// exactly `d`.
pub proof fn lemma_shift_recovered(prev: Frame, curr: Frame, d: int)
    requires
        prev.wf(),
        curr.wf(),
        prev.width == curr.width,
        prev.height == curr.height,
        MIN_SCROLL_DELTA <= d < search_range(curr.height as int),
        (d - MIN_SCROLL_DELTA) % (SEARCH_STEP as int) == 0,
        d + STRIP_HEIGHT <= prev.height,
        forall|x: int, y: int, c: int|
            0 <= x < prev.width && 0 <= y < STRIP_HEIGHT && 0 <= c < 3 ==> #[trigger] curr.chan(
                x,
                y,
                c,
            ) == prev.chan(x, d + y, c),
        forall|j: int|
            0 <= j < num_candidates(curr.height as int) && cand(j) != d ==> down_score(
                prev,
                curr,
                cand(j),
            ) > 0,
    ensures
        spec_detect_delta(prev, curr) == d,
{
    let n = num_candidates(curr.height as int);
    let w = prev.width as int;
    let t = score_threshold(w);
    let j0 = (d - MIN_SCROLL_DELTA) / (SEARCH_STEP as int);
    assert(cand(j0) == d && 0 <= j0) by (nonlinear_arith)
        requires
            (d - MIN_SCROLL_DELTA) % (SEARCH_STEP as int) == 0,
            j0 == (d - MIN_SCROLL_DELTA) / (SEARCH_STEP as int),
            d >= MIN_SCROLL_DELTA,
            cand(j0) == MIN_SCROLL_DELTA + SEARCH_STEP * j0,
    ;
    assert(j0 < n) by (nonlinear_arith)
        requires
            d == MIN_SCROLL_DELTA + SEARCH_STEP * j0,
            d < search_range(curr.height as int),
            n == (search_range(curr.height as int) - MIN_SCROLL_DELTA + 4) / 5,
            search_range(curr.height as int) > MIN_SCROLL_DELTA,
            j0 >= 0,
    ;
    assert(down_score(prev, curr, d) == 0) by {
        assert forall|x: int, yy: int, c: int|
            0 <= x < w && d <= yy < d + STRIP_HEIGHT && 0 <= c < 3 implies #[trigger] prev.chan(
            x,
            yy,
            c,
        ) == curr.chan(x, yy - d + 0, c) by {
            assert(curr.chan(x, yy - d, c) == prev.chan(x, d + (yy - d), c));
        }
        lemma_strip_rows_zero(prev, curr, d, 0, w, STRIP_HEIGHT as int);
    }
    lemma_best_down_exact(prev, curr, n, j0);
    assert(t > 0) by (nonlinear_arith)
        requires
            t == w * STRIP_HEIGHT * MATCH_TOLERANCE,
            w >= 1,
    ;
    assert(t <= i64::MAX) by (nonlinear_arith)
        requires
            t == w * STRIP_HEIGHT * MATCH_TOLERANCE,
            w <= u32::MAX,
    ;
    assert forall|j: int| 0 <= j < n implies up_score(prev, curr, cand(j)) >= 0 by {
        lemma_strip_score_nonneg(prev, curr, 0, cand(j), w, STRIP_HEIGHT as int);
    }
    lemma_best_up_min_bound(prev, curr, n, 0);
}

/// A stitch step fails only when the new capture's width differs from the
/// composite's.
#[derive(Clone, Copy, PartialEq, Eq, Structural, Debug)]
pub enum StitchError {
    FrameWidthMismatch,
}

/// Magnitude of a scroll delta, as a mathematical integer.
pub open spec fn abs_delta(delta: int) -> int {
    if delta >= 0 {
        delta
    } else {
        -delta
    }
}

/// Rows a stitch appends to the composite: the non-overlapping part of the
/// new frame, never more than the whole frame.
pub open spec fn stitch_added_rows(new_h: int, delta: int) -> int {
    if abs_delta(delta) < new_h {
        abs_delta(delta)
    } else {
        new_h
    }
}

/// Appends `src[start..end]` to `dst`.
fn append_range(dst: &mut Vec<u8>, src: &Vec<u8>, start: usize, end: usize)
    requires
        start <= end <= src@.len(),
    ensures
        final(dst)@ == old(dst)@ + src@.subrange(start as int, end as int),
{
    let mut i: usize = start;
    while i < end
        invariant
            start <= i <= end <= src@.len(),
            dst@ == old(dst)@ + src@.subrange(start as int, i as int),
        decreases end - i,
    {
        dst.push(src[i]);
        proof {
            assert(dst@ =~= old(dst)@ + src@.subrange(start as int, i + 1));
        }
        i = i + 1;
    }
    proof {
        assert(dst@ =~= old(dst)@ + src@.subrange(start as int, end as int));
    }
}

/// Extends the running composite with the newly revealed rows of a capture.
///
/// For a positive delta (scrolled down) the last `min(|delta|, height)` rows
/// of the new frame go below the composite; for a non-positive delta the
/// first `min(|delta|, height)` rows go above it. When `|delta|` reaches the
/// frame height this degenerates to plain concatenation.
pub fn stitch_scroll_image(base: &Frame, new_frame: &Frame, scroll_delta: i32) -> (r: Result<
    Frame,
    StitchError,
>)
    requires
        base.wf(),
        new_frame.wf(),
        base.height + new_frame.height <= u32::MAX,
    ensures
        r is Err <==> base.width != new_frame.width,
        r matches Ok(out) ==> {
            let w = base.width as int;
            let add = stitch_added_rows(new_frame.height as int, scroll_delta as int);
            &&& out.wf()
            &&& out.width == base.width
            &&& out.height == base.height + add
            &&& scroll_delta > 0 ==> out.data@ == base.data@ + new_frame.data@.subrange(
                (new_frame.height - add) * w * 4,
                new_frame.height * w * 4,
            )
            &&& scroll_delta <= 0 ==> out.data@ == new_frame.data@.subrange(0, add * w * 4)
                + base.data@
        },
        r matches Ok(out) ==> (abs_delta(scroll_delta as int) >= new_frame.height ==> if scroll_delta
            > 0 {
            out.data@ == base.data@ + new_frame.data@
        } else {
            out.data@ == new_frame.data@ + base.data@
        }),
{
    if base.width != new_frame.width {
        return Err(StitchError::FrameWidthMismatch);
    }
    let w = base.width;
    let abs32: u32 = if scroll_delta >= 0 {
        scroll_delta as u32
    } else {
        (-(scroll_delta as i64)) as u32
    };
    assert(abs32 == abs_delta(scroll_delta as int));
    let add: u32 = if abs32 < new_frame.height {
        abs32
    } else {
        new_frame.height
    };
    assert(add == stitch_added_rows(new_frame.height as int, scroll_delta as int));
    let base_len: usize = base.data.len();
    let new_len: usize = new_frame.data.len();
    proof {
        assert(new_frame.height * (w as int * 4) == new_frame.data@.len() && w as int * 4
            <= new_frame.data@.len() && add * (w as int * 4) <= new_frame.height * (w as int
            * 4)) by (nonlinear_arith)
            requires
                new_frame.data@.len() == new_frame.width * new_frame.height * 4,
                new_frame.width == w,
                new_frame.height >= 1,
                add <= new_frame.height,
        ;
    }
    let row_bytes: usize = (w as usize) * 4;
    let mut out_data: Vec<u8> = Vec::new();
    if scroll_delta > 0 {
        append_range(&mut out_data, &base.data, 0, base.data.len());
        proof {
            assert((new_frame.height - add) * (w as int * 4) <= new_frame.height * (w as int * 4))
                by (nonlinear_arith)
                requires
                    add >= 0,
                    new_frame.height >= add,
                    w as int * 4 >= 0,
            ;
        }
        let start: usize = ((new_frame.height - add) as usize) * row_bytes;
        append_range(&mut out_data, &new_frame.data, start, new_frame.data.len());
    } else {
        let end: usize = (add as usize) * row_bytes;
        append_range(&mut out_data, &new_frame.data, 0, end);
        append_range(&mut out_data, &base.data, 0, base.data.len());
    }
    let out = Frame { width: w, height: base.height + add, data: out_data };
    proof {
        assert(base.data@.subrange(0, base.data@.len() as int) =~= base.data@);
        assert((new_frame.height - add) * (w as int * 4) + add * (w as int * 4)
            == new_frame.height * (w as int * 4)) by (nonlinear_arith);
        assert((new_frame.height - add) * (w as int * 4) == (new_frame.height - add) * (
        w as int) * 4 && add * (w as int * 4) == add * (w as int) * 4 && new_frame.height * (
        w as int * 4) == new_frame.height * (w as int) * 4 && new_frame.height * (w as int) * 4
            == new_frame.data@.len()) by (nonlinear_arith)
            requires
                new_frame.data@.len() == new_frame.width * new_frame.height * 4,
                new_frame.width == w,
        ;
        assert(out.data@.len() == base.data@.len() + add * (w as int * 4));
        assert(out.data@.len() == (base.height + add) * w * 4 && out.data@.len() == w as int * (
        base.height + add) * 4) by (nonlinear_arith)
            requires
                out.data@.len() == base.data@.len() + add * (w as int * 4),
                base.data@.len() == w as int * base.height * 4,
        ;
        if abs_delta(scroll_delta as int) >= new_frame.height {
            assert(new_frame.height * (w as int) * 4 == new_frame.data@.len())
                by (nonlinear_arith)
                requires
                    new_frame.data@.len() == new_frame.width * new_frame.height * 4,
                    new_frame.width == w,
            ;
            assert(new_frame.data@.subrange(0, new_frame.height * (w as int) * 4)
                =~= new_frame.data@);
            assert(new_frame.data@.subrange((new_frame.height - add) * (w as int) * 4,
                new_frame.height * (w as int) * 4) =~= new_frame.data@) by {
                assert((new_frame.height - add) * (w as int) * 4 == 0) by (nonlinear_arith)
                    requires
                        add == new_frame.height,
                ;
            }
        }
    }
    Ok(out)
}

/// What a scroll-capture step did to the composite.
#[derive(Clone, Copy, PartialEq, Eq, Structural, Debug)]
pub enum StepResult {
    /// The new capture moved less than `MIN_SCROLL_DELTA`; nothing changed.
    NoMovement,
    /// The composite was extended with the newly revealed rows.
    Stitched,
}

/// Errors of operations that need an active scroll capture.
#[derive(Clone, Copy, PartialEq, Eq, Structural, Debug)]
pub enum ScrollError {
    NotCapturing,
}

/// State of one scroll-capture run: the captures seen so far, their
/// cumulative offsets, and the stitched composite.
pub struct ScrollSession {
    pub capturing: bool,
    pub history: Vec<Frame>,
    pub offsets: Vec<i64>,
    pub composite: Option<Frame>,
}

impl ScrollSession {
    /// Invariant: one offset per capture, starting at zero; each offset moves
    /// by less than the search range per step; the composite exists while
    /// capturing, is at least as tall as the number of captures, and shares
    /// their width.
    pub open spec fn wf(&self) -> bool {
        &&& self.history@.len() == self.offsets@.len()
        &&& (forall|i: int| 0 <= i < self.history@.len() ==> (#[trigger] self.history@[i]).wf())
        &&& (self.history@.len() > 0 ==> self.offsets@[0] == 0)
        &&& (forall|i: int|
            0 <= i < self.offsets@.len() ==> -(MAX_SEARCH_RANGE as int) * i <= (
            #[trigger] self.offsets@[i]) <= (MAX_SEARCH_RANGE as int) * i)
        &&& (self.capturing ==> self.composite is Some && self.history@.len() >= 1)
        &&& match self.composite {
            Some(c) => {
                &&& c.wf()
                &&& self.history@.len() <= c.height
                &&& forall|i: int|
                    0 <= i < self.history@.len() ==> (#[trigger] self.history@[i]).width
                        == c.width
            },
            None => self.history@.len() == 0,
        }
    }

    /// A fresh, idle session.
    pub fn new() -> (r: ScrollSession)
        ensures
            r.wf(),
            !r.capturing,
            r.history@.len() == 0,
            r.composite is None,
    {
        ScrollSession { capturing: false, history: Vec::new(), offsets: Vec::new(), composite: None }
    }

    /// Starts a capture run: the first capture becomes the initial composite.
    pub fn begin(&mut self, first: Frame)
        requires
            first.wf(),
        ensures
            final(self).wf(),
            final(self).capturing,
            final(self).history@.len() == 1,
            frame_eq(final(self).history@[0], first),
            final(self).offsets@ =~= seq![0i64],
            final(self).composite matches Some(c) && frame_eq(c, first),
    {
        let copy = first.duplicate();
        let mut history: Vec<Frame> = Vec::new();
        history.push(copy);
        let mut offsets: Vec<i64> = Vec::new();
        offsets.push(0);
        self.capturing = true;
        self.history = history;
        self.offsets = offsets;
        self.composite = Some(first);
    }

    /// Number of captures and composite height, while a composite exists.
    pub fn progress(&self) -> (r: Option<(usize, u32)>)
        ensures
            match r {
                Some(p) => self.composite matches Some(c) && p.0 == self.history@.len() && p.1
                    == c.height,
                None => self.composite is None,
            },
    {
        match &self.composite {
            Some(c) => Some((self.history.len(), c.height)),
            None => None,
        }
    }

    /// Feeds one new capture to the stitcher. Movement below
    /// `MIN_SCROLL_DELTA` leaves the session unchanged; otherwise the newly
    /// revealed rows extend the composite and the capture joins the history.
    pub fn step(&mut self, new_frame: &Frame) -> (r: StepResult)
        requires
            old(self).wf(),
            old(self).capturing,
            new_frame.wf(),
            old(self).composite matches Some(c) ==> c.height + new_frame.height <= u32::MAX,
        ensures
            final(self).wf(),
            final(self).capturing,
            ({
                let last = old(self).history@.last();
                let d = spec_detect_delta(last, *new_frame);
                let comp = old(self).composite->Some_0;
                let w = comp.width as int;
                let add = stitch_added_rows(new_frame.height as int, d);
                if abs_delta(d) < MIN_SCROLL_DELTA {
                    r == StepResult::NoMovement && final(self).history@ == old(self).history@
                        && final(self).offsets@ == old(self).offsets@ && final(self).composite
                        == old(self).composite
                } else {
                    &&& r == StepResult::Stitched
                    &&& final(self).history@.len() == old(self).history@.len() + 1
                    &&& (forall|i: int|
                        0 <= i < old(self).history@.len() ==> final(self).history@[i] == old(
                            self,
                        ).history@[i])
                    &&& frame_eq(final(self).history@.last(), *new_frame)
                    &&& final(self).offsets@ == old(self).offsets@.push(
                        (old(self).offsets@.last() + d) as i64,
                    )
                    &&& (final(self).composite matches Some(c2) && c2.width == comp.width
                        && c2.height == comp.height + add && (if d > 0 {
                        c2.data@ == comp.data@ + new_frame.data@.subrange(
                            (new_frame.height - add) * w * 4,
                            new_frame.height * w * 4,
                        )
                    } else {
                        c2.data@ == new_frame.data@.subrange(0, add * w * 4) + comp.data@
                    }))
                }
            }),
    {
        let ghost old_self = *self;
        let hist_len = self.history.len();
        let delta = detect_scroll_delta(&self.history[hist_len - 1], new_frame);
        let abs32: u32 = if delta >= 0 {
            delta as u32
        } else {
            (-(delta as i64)) as u32
        };
        if abs32 < MIN_SCROLL_DELTA {
            return StepResult::NoMovement;
        }
        // A delta this large implies the frames matched in size, so the new
        // capture's width equals the composite's and stitching cannot fail.
        let composite = self.composite.take();
        let comp = match composite {
            Some(c) => c,
            None => {
                proof {
                    assert(false);
                }
                unreached()
            },
        };
        assert(new_frame.width == comp.width);
        let stitched = match stitch_scroll_image(&comp, new_frame, delta) {
            Ok(s) => s,
            Err(_) => {
                proof {
                    assert(false);
                }
                unreached()
            },
        };
        let last_offset: i64 = self.offsets[hist_len - 1];
        proof {
            assert(-(MAX_SEARCH_RANGE as int) * (hist_len - 1) <= old_self.offsets@[hist_len
                - 1] <= (MAX_SEARCH_RANGE as int) * (hist_len - 1));
            assert((MAX_SEARCH_RANGE as int) * (hist_len - 1) + MAX_SEARCH_RANGE
                == (MAX_SEARCH_RANGE as int) * (hist_len as int)) by (nonlinear_arith);
            assert(hist_len <= u32::MAX);
        }
        let new_offset: i64 = last_offset + (delta as i64);
        self.history.push(new_frame.duplicate());
        self.offsets.push(new_offset);
        self.composite = Some(stitched);
        proof {
            assert(self.wf()) by {
                assert(forall|i: int|
                    0 <= i < old_self.history@.len() ==> (#[trigger] self.history@[i])
                        == old_self.history@[i]);
                assert(stitch_added_rows(new_frame.height as int, delta as int) >= 1);
            }
        }
        StepResult::Stitched
    }

    /// Ends the capture run, handing the composite out and clearing the
    /// session. Fails when no capture run is active.
    pub fn finish(&mut self) -> (r: Result<Frame, ScrollError>)
        requires
            old(self).wf(),
        ensures
            final(self).wf(),
            r is Err <==> !old(self).capturing,
            r matches Ok(c) ==> old(self).composite matches Some(c2) && frame_eq(c, c2),
            r is Ok ==> !final(self).capturing && final(self).history@.len() == 0
                && final(self).composite is None,
    {
        if !self.capturing {
            return Err(ScrollError::NotCapturing);
        }
        let composite = self.composite.take();
        let comp = match composite {
            Some(c) => c,
            None => {
                proof {
                    assert(false);
                }
                unreached()
            },
        };
        self.capturing = false;
        self.history = Vec::new();
        self.offsets = Vec::new();
        Ok(comp)
    }

    /// Discards the capture run and all its state.
    pub fn cancel(&mut self)
        ensures
            final(self).wf(),
            !final(self).capturing,
            final(self).history@.len() == 0,
            final(self).composite is None,
    {
        self.capturing = false;
        self.history = Vec::new();
        self.offsets = Vec::new();
        self.composite = None;
    }
}

} // verus!
