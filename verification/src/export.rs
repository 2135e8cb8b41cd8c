//! Export planning: trimming, temporal resampling, loop-mode expansion and
//! the per-frame encoder parameters. Ratios that the configuration expresses
//! (speed, output scale) are carried in hundredths, so `100` means unchanged.

use vstd::prelude::*;
use vstd::string::*;
use vstd::arithmetic::div_mod::{
    lemma_div_is_ordered,
    lemma_div_multiples_vanish_fancy,
    lemma_div_pos_is_pos,
    lemma_multiply_divide_lt,
};
use crate::frame::{Frame, frame_eq};
use crate::codecs::{
    GifSink,
    ResizeFilter,
    filter_id,
    gif_encoder_finish,
    gif_encoder_new,
    gif_encoder_set_repeat,
    gif_frames,
    gif_repeats,
    gif_write_rgba_frame,
    resize_of,
    resize_rgba,
};

verus! {

/// How the exported animation repeats.
#[derive(Clone, Copy, PartialEq, Eq, Structural, Debug)]
pub enum LoopMode {
    Infinite,
    Once,
    PingPong,
}

/// Configuration of one export run. `speed_percent` is playback speed in
/// hundredths (clamped to `[10, 1000]`), `scale_percent` the output scale in
/// hundredths (clamped to `[10, 100]`), `quality` a value in `[1, 100]`.
#[derive(Clone, Debug)]
pub struct ExportConfig {
    pub start_frame: usize,
    pub end_frame: usize,
    pub scale_percent: u32,
    pub target_fps: u32,
    pub speed_percent: u32,
    pub quality: u32,
    pub loop_mode: LoopMode,
    pub output_path: Option<String>,
}

/// Why an export run failed.
#[derive(Clone, Debug)]
pub enum ExportError {
    /// The trimmed frame range is empty.
    InvalidRange,
    /// The encoder rejected the stream, or a frame does not fit its limits.
    EncodeFailed(String),
}

/// `v` clamped to `[lo, hi]`.
pub open spec fn clamp_int(v: int, lo: int, hi: int) -> int {
    if v < lo {
        lo
    } else if v > hi {
        hi
    } else {
        v
    }
}

/// Exec clamp, tied to [`clamp_int`].
pub fn clamp_u32(v: u32, lo: u32, hi: u32) -> (r: u32)
    requires
        lo <= hi,
    ensures
        r == clamp_int(v as int, lo as int, hi as int),
{
    if v < lo {
        lo
    } else if v > hi {
        hi
    } else {
        v
    }
}

/// `a / b` rounded to the nearest integer, halves away from zero.
pub open spec fn round_div(a: int, b: int) -> int
    recommends
        b >= 1,
        a >= 0,
{
    (2 * a + b) / (2 * b)
}

/// Number of frames the trim stage keeps: indices `[min(start, total),
/// min(end, total))`.
pub open spec fn trimmed_count(total: int, start: int, end: int) -> int {
    let s = if start < total {
        start
    } else {
        total
    };
    let e = if end < total {
        end
    } else {
        total
    };
    if e > s {
        e - s
    } else {
        0
    }
}

/// The frame count the temporal resample aims for:
/// `round(trimmed / capture_fps / speed * target_fps)`, floored to one.
pub open spec fn target_count(
    trimmed: int,
    capture_fps: int,
    speed_percent: int,
    target_fps: int,
) -> int {
    let n = round_div(trimmed * target_fps * 100, capture_fps * clamp_int(speed_percent, 10, 1000));
    if n < 1 {
        1
    } else {
        n
    }
}

/// Frames the resample emits: the natural set when the target asks for at
/// least as many, else exactly the target.
pub open spec fn sampled_count(
    trimmed: int,
    capture_fps: int,
    speed_percent: int,
    target_fps: int,
) -> int {
    let t = target_count(trimmed, capture_fps, speed_percent, target_fps);
    if t >= trimmed {
        trimmed
    } else {
        t
    }
}

/// Nearest-index uniform resampling: output `i` reads trimmed frame
/// `round(i * (trimmed - 1) / (target - 1))`; a single output reads frame 0.
pub open spec fn sample_index(i: int, trimmed: int, target: int) -> int {
    if target <= 1 {
        0
    } else {
        round_div(i * (trimmed - 1), target - 1)
    }
}

/// Which trimmed frame output `i` of the resample stage shows.
pub open spec fn sample_source_index(
    i: int,
    trimmed: int,
    capture_fps: int,
    speed_percent: int,
    target_fps: int,
) -> int {
    let t = target_count(trimmed, capture_fps, speed_percent, target_fps);
    if t >= trimmed {
        i
    } else {
        sample_index(i, trimmed, t)
    }
}

/// Ping-pong playback of `n` frames: forward, then the interior reversed.
pub open spec fn pingpong_count(n: int) -> int {
    if n > 2 {
        2 * n - 2
    } else {
        n
    }
}

/// Frames after loop-mode expansion.
pub open spec fn expanded_count(n: int, mode: LoopMode) -> int {
    if mode is PingPong {
        pingpong_count(n)
    } else {
        n
    }
}

/// The frame count of the finished export, straight from the configuration.
/// Zero exactly when the trimmed range is empty (the export then fails).
pub open spec fn final_frame_count(
    total: int,
    start: int,
    end: int,
    capture_fps: int,
    speed_percent: int,
    target_fps: int,
    mode: LoopMode,
) -> int {
    let tr = trimmed_count(total, start, end);
    if tr == 0 {
        0
    } else {
        expanded_count(sampled_count(tr, capture_fps, speed_percent, target_fps), mode)
    }
}

/// Whether the spatial scale stage runs: only when the clamped scale is more
/// than one hundredth away from unity.
pub open spec fn scale_applied(scale_percent: int) -> bool {
    clamp_int(scale_percent, 10, 100) <= 98
}

/// `round(d * s / 100)`, floored at one.
pub open spec fn round_or_one(d: int, s: int) -> int {
    let r = round_div(d * s, 100);
    if r < 1 {
        1
    } else {
        r
    }
}

/// A scaled frame dimension: `round(d * scale)`, floored to one pixel so a
/// frame never collapses; untouched when the scale stage does not run.
pub open spec fn scaled_dim(d: int, scale_percent: int) -> int {
    if scale_applied(scale_percent) {
        round_or_one(d, clamp_int(scale_percent, 10, 100))
    } else {
        d
    }
}

/// Per-frame delay in centiseconds, from the target frame rate alone:
/// `max(1, round(100 / fps))`, with a 10 cs fallback for a zero rate.
pub open spec fn spec_delay_centiseconds(target_fps: int) -> int {
    if target_fps >= 1 {
        let d = round_div(100, target_fps);
        if d < 1 {
            1
        } else {
            d
        }
    } else {
        10
    }
}

/// Encoder speed from quality: quality 1 maps to the fastest setting 30,
/// quality 100 to the most careful setting 1, monotonically.
pub open spec fn spec_gif_speed(quality: int) -> int {
    30 - (clamp_int(quality, 1, 100) - 1) * 29 / 99
}

/// How many frames the temporal resample keeps for the trimmed range.
pub fn sampled_frame_count(
    trimmed: usize,
    capture_fps: u32,
    speed_percent: u32,
    target_fps: u32,
) -> (r: usize)
    requires
        trimmed >= 1,
        capture_fps >= 1,
    ensures
        r == sampled_count(trimmed as int, capture_fps as int, speed_percent as int, target_fps as int),
        1 <= r <= trimmed,
{
    let speed: u32 = clamp_u32(speed_percent, 10, 1000);
    proof {
        assert(trimmed <= u64::MAX);
        assert((trimmed as int) * (target_fps as int) * 100 <= 0xFFFF_FFFF_FFFF_FFFFu128
            * 0xFFFF_FFFFu128 * 100 && (capture_fps as int) * (speed as int) >= 1 && (
        capture_fps as int) * (speed as int) <= 0xFFFF_FFFFu128 * 0xFFFF_FFFFu128)
            by (nonlinear_arith)
            requires
                trimmed <= 0xFFFF_FFFF_FFFF_FFFFu128,
                target_fps <= 0xFFFF_FFFFu128,
                capture_fps >= 1,
                1 <= speed <= 0xFFFF_FFFFu128,
                capture_fps <= 0xFFFF_FFFFu128,
        ;
    }
    let a: u128 = (trimmed as u128) * (target_fps as u128) * 100;
    let b: u128 = (capture_fps as u128) * (speed as u128);
    let n: u128 = (2 * a + b) / (2 * b);
    let t: u128 = if n < 1 {
        1
    } else {
        n
    };
    assert(t == target_count(trimmed as int, capture_fps as int, speed_percent as int, target_fps as int));
    if t >= trimmed as u128 {
        trimmed
    } else {
        t as usize
    }
}

/// The temporal resample is the identity at real-time speed and matching
/// rates: with `speed = 1` and `target_fps = capture_fps` every trimmed
/// frame is kept and output `i` shows trimmed frame `i`, so the resampled
/// set equals the trimmed input exactly (see [`trim_and_sample`]).
pub proof fn lemma_resample_identity(trimmed: int, capture_fps: int, target_fps: int, i: int)
    requires
        trimmed >= 1,
        capture_fps >= 1,
        target_fps == capture_fps,
    ensures
        target_count(trimmed, capture_fps, 100, target_fps) == trimmed,
        sampled_count(trimmed, capture_fps, 100, target_fps) == trimmed,
        0 <= i < trimmed ==> sample_source_index(i, trimmed, capture_fps, 100, target_fps) == i,
{
    let d = 2 * (capture_fps * 100);
    let b = capture_fps * 100;
    assert(2 * (trimmed * target_fps * 100) + b == d * trimmed + b) by (nonlinear_arith)
        requires
            target_fps == capture_fps,
            d == 2 * (capture_fps * 100),
            b == capture_fps * 100,
    ;
    assert(0 < b < d) by (nonlinear_arith)
        requires
            capture_fps >= 1,
            d == 2 * (capture_fps * 100),
            b == capture_fps * 100,
    ;
    lemma_div_multiples_vanish_fancy(trimmed, b, d);
    assert(round_div(trimmed * target_fps * 100, capture_fps * clamp_int(100, 10, 1000))
        == trimmed);
}

/// A resampling index never runs past the trimmed range.
pub proof fn lemma_sample_index_bound(i: int, trimmed: int, target: int)
    requires
        2 <= target <= trimmed,
        0 <= i <= target - 1,
    ensures
        0 <= sample_index(i, trimmed, target) <= trimmed - 1,
{
    let a = i * (trimmed - 1);
    let b = target - 1;
    assert(0 <= a <= b * (trimmed - 1)) by (nonlinear_arith)
        requires
            0 <= i <= b,
            trimmed >= 1,
            a == i * (trimmed - 1),
    ;
    assert(2 * a + b <= (2 * b) * (trimmed - 1) + b) by (nonlinear_arith)
        requires
            a <= b * (trimmed - 1),
    ;
    lemma_div_is_ordered(2 * a + b, (2 * b) * (trimmed - 1) + b, 2 * b);
    lemma_div_multiples_vanish_fancy(trimmed - 1, b, 2 * b);
    lemma_div_pos_is_pos(2 * a + b, 2 * b);
}

/// The resampling indices for one export: `r[i]` is the trimmed frame shown
/// at output position `i`.
pub fn sample_indices(trimmed: usize, capture_fps: u32, speed_percent: u32, target_fps: u32) -> (r:
    Vec<usize>)
    requires
        trimmed >= 1,
        trimmed <= u32::MAX,
        capture_fps >= 1,
    ensures
        r@.len() == sampled_count(
            trimmed as int,
            capture_fps as int,
            speed_percent as int,
            target_fps as int,
        ),
        forall|i: int|
            0 <= i < r@.len() ==> #[trigger] r@[i] == sample_source_index(
                i,
                trimmed as int,
                capture_fps as int,
                speed_percent as int,
                target_fps as int,
            ) && r@[i] < trimmed,
{
    let count = sampled_frame_count(trimmed, capture_fps, speed_percent, target_fps);
    let keep_all = count >= trimmed;
    let mut r: Vec<usize> = Vec::new();
    let mut i: usize = 0;
    while i < count
        invariant
            trimmed >= 1,
            trimmed <= u32::MAX,
            capture_fps >= 1,
            count == sampled_count(
                trimmed as int,
                capture_fps as int,
                speed_percent as int,
                target_fps as int,
            ),
            count <= trimmed,
            keep_all <==> count >= trimmed,
            keep_all <==> target_count(
                trimmed as int,
                capture_fps as int,
                speed_percent as int,
                target_fps as int,
            ) >= trimmed,
            !keep_all ==> count == target_count(
                trimmed as int,
                capture_fps as int,
                speed_percent as int,
                target_fps as int,
            ),
            i <= count,
            r@.len() == i,
            forall|k: int|
                0 <= k < i ==> #[trigger] r@[k] == sample_source_index(
                    k,
                    trimmed as int,
                    capture_fps as int,
                    speed_percent as int,
                    target_fps as int,
                ) && r@[k] < trimmed,
        decreases count - i,
    {
        let idx: usize = if keep_all {
            i
        } else if count <= 1 {
            0
        } else {
            proof {
                assert(i as int * (trimmed - 1) <= 0xFFFF_FFFFu128 * 0xFFFF_FFFFu128)
                    by (nonlinear_arith)
                    requires
                        0 <= i < count <= trimmed <= 0xFFFF_FFFFu128,
                ;
                lemma_sample_index_bound(i as int, trimmed as int, count as int);
            }
            let a: u128 = (i as u128) * ((trimmed - 1) as u128);
            let b: u128 = (count - 1) as u128;
            let q: u128 = (2 * a + b) / (2 * b);
            assert(q == sample_index(i as int, trimmed as int, count as int));
            q as usize
        };
        r.push(idx);
        i = i + 1;
    }
    r
}

/// Trim and temporal resample in one pass: clamps the configured range to
/// the buffer, fails on an empty range, and otherwise copies the sampled
/// frames out in order.
pub fn trim_and_sample(frames: &Vec<Frame>, capture_fps: u32, config: &ExportConfig) -> (r: Result<
    Vec<Frame>,
    ExportError,
>)
    requires
        capture_fps >= 1,
        frames@.len() <= u32::MAX,
        forall|i: int| 0 <= i < frames@.len() ==> (#[trigger] frames@[i]).wf(),
    ensures
        r is Err <==> trimmed_count(
            frames@.len() as int,
            config.start_frame as int,
            config.end_frame as int,
        ) == 0,
        r matches Err(e) ==> e is InvalidRange,
        r matches Ok(v) ==> {
            let s = if config.start_frame < frames@.len() {
                config.start_frame as int
            } else {
                frames@.len() as int
            };
            let tr = trimmed_count(
                frames@.len() as int,
                config.start_frame as int,
                config.end_frame as int,
            );
            &&& v@.len() == sampled_count(
                tr,
                capture_fps as int,
                config.speed_percent as int,
                config.target_fps as int,
            )
            &&& forall|i: int|
                0 <= i < v@.len() ==> frame_eq(
                    #[trigger] v@[i],
                    frames@[s + sample_source_index(
                        i,
                        tr,
                        capture_fps as int,
                        config.speed_percent as int,
                        config.target_fps as int,
                    )],
                ) && v@[i].wf()
        },
{
    let total = frames.len();
    let s: usize = if config.start_frame < total {
        config.start_frame
    } else {
        total
    };
    let e: usize = if config.end_frame < total {
        config.end_frame
    } else {
        total
    };
    if e <= s {
        return Err(ExportError::InvalidRange);
    }
    let trimmed = e - s;
    let indices = sample_indices(trimmed, capture_fps, config.speed_percent, config.target_fps);
    let mut out: Vec<Frame> = Vec::new();
    let mut i: usize = 0;
    while i < indices.len()
        invariant
            frames@.len() == total,
            s + trimmed <= total,
            trimmed >= 1,
            forall|k: int| 0 <= k < frames@.len() ==> (#[trigger] frames@[k]).wf(),
            forall|k: int|
                0 <= k < indices@.len() ==> #[trigger] indices@[k] == sample_source_index(
                    k,
                    trimmed as int,
                    capture_fps as int,
                    config.speed_percent as int,
                    config.target_fps as int,
                ) && indices@[k] < trimmed,
            i <= indices@.len(),
            out@.len() == i,
            forall|k: int|
                0 <= k < i ==> frame_eq(
                    #[trigger] out@[k],
                    frames@[s + indices@[k]],
                ) && out@[k].wf(),
        decreases indices@.len() - i,
    {
        let idx = indices[i];
        out.push(frames[s + idx].duplicate());
        i = i + 1;
    }
    Ok(out)
}

/// Ping-pong expansion: after the forward frames, the interior frames
/// (all but the first and last) are appended again in reverse order.
/// Sequences of one or two frames pass through unchanged.
pub fn pingpong_expand(frames: Vec<Frame>) -> (r: Vec<Frame>)
    ensures
        r@.len() == pingpong_count(frames@.len() as int),
        forall|i: int| 0 <= i < frames@.len() ==> #[trigger] r@[i] == frames@[i],
        forall|j: int|
            0 <= j < r@.len() - frames@.len() ==> frame_eq(
                #[trigger] r@[frames@.len() + j],
                frames@[frames@.len() - 2 - j],
            ),
{
    let n = frames.len();
    if n <= 2 {
        return frames;
    }
    let mut out = frames;
    let mut k: usize = 0;
    while k < n - 2
        invariant
            out@.len() == n + k,
            k <= n - 2,
            n == out@.len() - k,
            3 <= n,
            forall|i: int| 0 <= i < n ==> #[trigger] out@[i] == out@.subrange(0, n as int)[i],
            forall|i: int| 0 <= i < n ==> frames@.len() == n && #[trigger] out@[i] == frames@[i],
            forall|j: int|
                0 <= j < k ==> frame_eq(#[trigger] out@[n + j], frames@[n - 2 - j]),
        decreases n - 2 - k,
    {
        let copy = out[n - 2 - k].duplicate();
        out.push(copy);
        k = k + 1;
    }
    out
}

/// Per-frame delay in centiseconds for the encoder, from the target rate.
pub fn delay_centiseconds(target_fps: u32) -> (r: u16)
    ensures
        r == spec_delay_centiseconds(target_fps as int),
        1 <= r <= 100,
{
    if target_fps >= 1 {
        let d: u64 = (200u64 + target_fps as u64) / (2 * target_fps as u64);
        proof {
            assert((200 + target_fps as int) < (2 * target_fps as int) * 101) by (nonlinear_arith)
                requires
                    target_fps >= 1,
            ;
            lemma_multiply_divide_lt(200 + target_fps as int, 2 * target_fps as int, 101);
        }
        if d < 1 {
            1
        } else {
            d as u16
        }
    } else {
        10
    }
}

/// Encoder speed/quality trade-off: the configured quality, mapped
/// monotonically onto the encoder's `1..=30` speed scale (lower is slower
/// and more careful).
pub fn gif_speed_for_quality(quality: u32) -> (r: i32)
    ensures
        r == spec_gif_speed(quality as int),
        1 <= r <= 30,
{
    let q = clamp_u32(quality, 1, 100);
    let reduction: u32 = (q - 1) * 29 / 99;
    proof {
        lemma_div_is_ordered((q - 1) * 29, 99int * 29, 99int);
        assert(99 * 29 / 99 == 29);
        lemma_div_pos_is_pos((q - 1) * 29, 99);
    }
    30 - reduction as i32
}

/// One notification per encoded frame.
pub struct ExportProgress {
    pub current: usize,
    pub total: usize,
    pub stage: String,
}

/// A finished export: the encoded image, its shape, and the progress
/// notifications in the order they were produced. `encoded_frames` records,
/// in ghost form, the exact pixel streams handed to the encoder with their
/// per-frame delays; `repeats` the repeat-count metadata handed over.
pub struct ExportOutput {
    pub bytes: Vec<u8>,
    pub frame_count: usize,
    pub width: u32,
    pub height: u32,
    pub progress: Vec<ExportProgress>,
    pub encoded_frames: Ghost<Seq<(Seq<u8>, u16)>>,
    pub repeats: Ghost<Seq<bool>>,
}

/// Spatial scale stage: when the clamped scale is more than a hundredth
/// away from unity, every frame is resampled with the smoothing filter to
/// `round(dim * scale)`, floored at one pixel; otherwise the frames pass
/// through untouched.
pub fn scale_frames(frames: Vec<Frame>, scale_percent: u32) -> (r: Vec<Frame>)
    requires
        forall|i: int| 0 <= i < frames@.len() ==> (#[trigger] frames@[i]).wf(),
    ensures
        r@.len() == frames@.len(),
        !scale_applied(scale_percent as int) ==> r@ == frames@,
        forall|i: int|
            0 <= i < r@.len() ==> {
                let f = frames@[i];
                &&& (#[trigger] r@[i]).wf()
                &&& r@[i].width == scaled_dim(f.width as int, scale_percent as int)
                &&& r@[i].height == scaled_dim(f.height as int, scale_percent as int)
                &&& if scale_applied(scale_percent as int) {
                    r@[i].data@ == resize_of(
                        f.data@,
                        f.width as int,
                        f.height as int,
                        scaled_dim(f.width as int, scale_percent as int),
                        scaled_dim(f.height as int, scale_percent as int),
                        filter_id(ResizeFilter::Triangle),
                    )
                } else {
                    r@[i] == f
                }
            },
{
    let s = clamp_u32(scale_percent, 10, 100);
    if s > 98 {
        return frames;
    }
    let mut out: Vec<Frame> = Vec::new();
    let mut i: usize = 0;
    while i < frames.len()
        invariant
            forall|k: int| 0 <= k < frames@.len() ==> (#[trigger] frames@[k]).wf(),
            s == clamp_int(scale_percent as int, 10, 100),
            s <= 98,
            i <= frames@.len(),
            out@.len() == i,
            forall|k: int|
                0 <= k < i ==> {
                    let f = frames@[k];
                    &&& (#[trigger] out@[k]).wf()
                    &&& out@[k].width == scaled_dim(f.width as int, scale_percent as int)
                    &&& out@[k].height == scaled_dim(f.height as int, scale_percent as int)
                    &&& out@[k].data@ == resize_of(
                        f.data@,
                        f.width as int,
                        f.height as int,
                        scaled_dim(f.width as int, scale_percent as int),
                        scaled_dim(f.height as int, scale_percent as int),
                        filter_id(ResizeFilter::Triangle),
                    )
                },
        decreases frames@.len() - i,
    {
        let f = &frames[i];
        let nw = scale_one_dim(f.width, s);
        let nh = scale_one_dim(f.height, s);
        let scaled = resize_rgba(f, nw, nh, ResizeFilter::Triangle);
        out.push(scaled);
        i = i + 1;
    }
    out
}

/// `round(d * s / 100)`, floored at one pixel.
pub fn scale_one_dim(d: u32, s: u32) -> (r: u32)
    requires
        10 <= s <= 100,
        d >= 1,
    ensures
        r == round_or_one(d as int, s as int),
        r >= 1,
{
    proof {
        assert(2 * (d as int) * (s as int) + 100 <= 2 * 0xFFFF_FFFFu64 * 100 + 100 && (2 * (
        d as int) * (s as int) + 100) < 200 * (0x1_0000_0000int)) by (nonlinear_arith)
            requires
                d <= 0xFFFF_FFFFu64,
                s <= 100,
        ;
        lemma_multiply_divide_lt(2 * (d as int) * (s as int) + 100, 200, 0x1_0000_0000int);
        assert(2 * (d as int) * (s as int) == 2 * ((d as int) * (s as int))) by (nonlinear_arith);
    }
    let num: u64 = 2 * (d as u64) * (s as u64) + 100;
    let q: u64 = num / 200;
    if q < 1 {
        1
    } else {
        q as u32
    }
}

/// Scales a single still capture for saving: the same threshold and
/// rounding as the export's scale stage, but with the high-quality
/// windowed-sinc filter a one-off screenshot affords.
pub fn scale_still(frame: &Frame, scale_percent: u32) -> (r: Frame)
    requires
        frame.wf(),
    ensures
        r.wf(),
        r.width == scaled_dim(frame.width as int, scale_percent as int),
        r.height == scaled_dim(frame.height as int, scale_percent as int),
        if scale_applied(scale_percent as int) {
            r.data@ == resize_of(
                frame.data@,
                frame.width as int,
                frame.height as int,
                scaled_dim(frame.width as int, scale_percent as int),
                scaled_dim(frame.height as int, scale_percent as int),
                filter_id(ResizeFilter::Lanczos),
            )
        } else {
            frame_eq(r, *frame)
        },
{
    let s = clamp_u32(scale_percent, 10, 100);
    if s > 98 {
        return frame.duplicate();
    }
    let nw = scale_one_dim(frame.width, s);
    let nh = scale_one_dim(frame.height, s);
    resize_rgba(frame, nw, nh, ResizeFilter::Lanczos)
}

/// Which resampled frame the ping-pong sequence shows at output `i`.
pub open spec fn pingpong_source(i: int, n: int) -> int {
    if i < n {
        i
    } else {
        2 * n - 2 - i
    }
}

/// The first trimmed frame's index into the buffer.
pub open spec fn spec_trim_start(total: int, start: int) -> int {
    if start < total {
        start
    } else {
        total
    }
}

/// The exact pixel stream of output frame `i` of an export: the sampled
/// source frame, resampled by the scale stage when it runs, at the position
/// the loop mode dictates.
pub open spec fn planned_pixels(
    frames: Seq<Frame>,
    capture_fps: int,
    config: ExportConfig,
    i: int,
) -> Seq<u8> {
    let total = frames.len() as int;
    let s = spec_trim_start(total, config.start_frame as int);
    let tr = trimmed_count(total, config.start_frame as int, config.end_frame as int);
    let m = sampled_count(tr, capture_fps, config.speed_percent as int, config.target_fps as int);
    let j = if config.loop_mode is PingPong {
        pingpong_source(i, m)
    } else {
        i
    };
    let src = frames[s + sample_source_index(
        j,
        tr,
        capture_fps,
        config.speed_percent as int,
        config.target_fps as int,
    )];
    if scale_applied(config.scale_percent as int) {
        resize_of(
            src.data@,
            src.width as int,
            src.height as int,
            scaled_dim(src.width as int, config.scale_percent as int),
            scaled_dim(src.height as int, config.scale_percent as int),
            filter_id(ResizeFilter::Triangle),
        )
    } else {
        src.data@
    }
}

/// Runs the whole export pipeline — trim, temporal resample, spatial scale,
/// loop expansion, encode — over a snapshot of the frame buffer.
///
/// An empty trimmed range fails with `InvalidRange` before anything is
/// encoded and before any progress entry exists; every other failure —
/// including a scaled dimension past the GIF format's 16-bit limit, which
/// always fails — is `EncodeFailed`. On success the output holds one
/// progress entry per encoded frame, `current` climbing from 1 to `total`
/// exactly once; the ghost `encoded_frames` record pins the pixel stream
/// and delay of every frame handed to the encoder, and `repeats` pins the
/// one repeat block written: infinite unless the loop mode is `Once`.
pub fn export_gif(frames: &Vec<Frame>, capture_fps: u32, config: &ExportConfig) -> (r: Result<
    ExportOutput,
    ExportError,
>)
    requires
        capture_fps >= 1,
        frames@.len() <= u32::MAX,
        forall|i: int| 0 <= i < frames@.len() ==> (#[trigger] frames@[i]).wf(),
        forall|i: int|
            0 <= i < frames@.len() ==> (#[trigger] frames@[i]).width == frames@[0].width
                && frames@[i].height == frames@[0].height,
    ensures
        trimmed_count(frames@.len() as int, config.start_frame as int, config.end_frame as int)
            == 0 <==> (r matches Err(e) && e is InvalidRange),
        trimmed_count(frames@.len() as int, config.start_frame as int, config.end_frame as int)
            != 0 ==> (r matches Err(e) ==> e is EncodeFailed),
        trimmed_count(frames@.len() as int, config.start_frame as int, config.end_frame as int)
            != 0 && (scaled_dim(frames@[0].width as int, config.scale_percent as int) > 0xFFFF
            || scaled_dim(frames@[0].height as int, config.scale_percent as int) > 0xFFFF) ==> (
        r matches Err(e) && e is EncodeFailed),
        r matches Ok(out) ==> {
            let n = final_frame_count(
                frames@.len() as int,
                config.start_frame as int,
                config.end_frame as int,
                capture_fps as int,
                config.speed_percent as int,
                config.target_fps as int,
                config.loop_mode,
            );
            &&& n >= 1
            &&& out.frame_count == n
            &&& out.width == scaled_dim(frames@[0].width as int, config.scale_percent as int)
            &&& out.height == scaled_dim(frames@[0].height as int, config.scale_percent as int)
            &&& out.progress@.len() == n
            &&& (forall|i: int|
                0 <= i < n ==> (#[trigger] out.progress@[i]).current == i + 1
                    && out.progress@[i].total == n && out.progress@[i].stage@ == "encoding"@)
            &&& out.encoded_frames@.len() == n
            &&& (forall|i: int|
                0 <= i < n ==> (#[trigger] out.encoded_frames@[i]).0 == planned_pixels(
                    frames@,
                    capture_fps as int,
                    *config,
                    i,
                ) && out.encoded_frames@[i].1 == spec_delay_centiseconds(
                    config.target_fps as int,
                ))
            &&& out.repeats@ == seq![!(config.loop_mode is Once)]
        },
{
    let ghost total = frames@.len() as int;
    let ghost s_g = spec_trim_start(total, config.start_frame as int);
    let ghost tr = trimmed_count(total, config.start_frame as int, config.end_frame as int);
    let sampled = match trim_and_sample(frames, capture_fps, config) {
        Ok(v) => v,
        Err(_) => {
            return Err(ExportError::InvalidRange);
        },
    };
    let ghost m = sampled_count(
        tr,
        capture_fps as int,
        config.speed_percent as int,
        config.target_fps as int,
    );
    let ghost sampled_seq = sampled@;
    let scaled = scale_frames(sampled, config.scale_percent);
    let is_pingpong = match config.loop_mode {
        LoopMode::PingPong => true,
        _ => false,
    };
    let ghost scaled_seq = scaled@;
    let finalv = if is_pingpong {
        pingpong_expand(scaled)
    } else {
        scaled
    };
    let n = finalv.len();
    assert(n == expanded_count(m, config.loop_mode));
    assert(n >= 1);
    proof {
        assert forall|i: int|
            0 <= i < n implies {
            let j = if config.loop_mode is PingPong {
                pingpong_source(i, m)
            } else {
                i
            };
            frame_eq(#[trigger] finalv@[i], scaled_seq[j])
        } by {
            if config.loop_mode is PingPong && i >= m {
                assert(finalv@[scaled_seq.len() + (i - m)] == finalv@[i]);
                assert(frame_eq(finalv@[scaled_seq.len() + (i - m)], scaled_seq[m - 2 - (i - m)]));
            }
        }
    }
    proof {
        let sp = config.scale_percent as int;
        let cf = capture_fps as int;
        let spd = config.speed_percent as int;
        let tf = config.target_fps as int;
        assert forall|i: int|
            0 <= i < n implies (#[trigger] finalv@[i]).wf() && finalv@[i].width == scaled_dim(
            frames@[0].width as int,
            sp,
        ) && finalv@[i].height == scaled_dim(frames@[0].height as int, sp) && finalv@[i].data@
            == planned_pixels(frames@, cf, *config, i) by {
            let j = if config.loop_mode is PingPong {
                pingpong_source(i, m)
            } else {
                i
            };
            assert(frame_eq(finalv@[i], scaled_seq[j]));
            assert(0 <= j < m);
            let t = target_count(tr, cf, spd, tf);
            let k = sample_source_index(j, tr, cf, spd, tf);
            if t >= tr {
            } else if t <= 1 {
            } else {
                lemma_sample_index_bound(j, tr, t);
            }
            assert(0 <= k < tr);
            assert(frame_eq(sampled_seq[j], frames@[s_g + k]));
            assert(frames@[s_g + k].width == frames@[0].width && frames@[s_g + k].height
                == frames@[0].height);
        }
    }
    let width = finalv[0].width;
    let height = finalv[0].height;
    proof {
        assert(width == scaled_dim(frames@[0].width as int, config.scale_percent as int));
        assert(height == scaled_dim(frames@[0].height as int, config.scale_percent as int));
    }
    if width > 0xFFFF || height > 0xFFFF {
        return Err(ExportError::EncodeFailed(String::from_str("frame exceeds the encoder's limit")));
    }
    let mut enc = match gif_encoder_new(width as u16, height as u16) {
        Ok(e) => e,
        Err(m_) => {
            return Err(ExportError::EncodeFailed(m_));
        },
    };
    let infinite = match config.loop_mode {
        LoopMode::Once => false,
        _ => true,
    };
    assert(infinite == !(config.loop_mode is Once));
    match gif_encoder_set_repeat(&mut enc, infinite) {
        Ok(()) => (),
        Err(m_) => {
            return Err(ExportError::EncodeFailed(m_));
        },
    }
    let ghost repeats_written = gif_repeats(enc);
    proof {
        assert(repeats_written =~= seq![!(config.loop_mode is Once)]);
    }
    let delay = delay_centiseconds(config.target_fps);
    let speed = gif_speed_for_quality(config.quality);
    let mut progress: Vec<ExportProgress> = Vec::new();
    let ghost mut encoded: Seq<(Seq<u8>, u16)> = Seq::empty();
    let mut i: usize = 0;
    while i < n
        invariant
            trimmed_count(
                frames@.len() as int,
                config.start_frame as int,
                config.end_frame as int,
            ) != 0,
            width == scaled_dim(frames@[0].width as int, config.scale_percent as int),
            height == scaled_dim(frames@[0].height as int, config.scale_percent as int),
            n == finalv@.len(),
            i <= n,
            1 <= speed <= 30,
            width <= 0xFFFF,
            height <= 0xFFFF,
            delay == spec_delay_centiseconds(config.target_fps as int),
            forall|k: int|
                0 <= k < n ==> (#[trigger] finalv@[k]).wf() && finalv@[k].width == width
                    && finalv@[k].height == height && finalv@[k].data@ == planned_pixels(
                    frames@,
                    capture_fps as int,
                    *config,
                    k,
                ),
            gif_frames(enc) == encoded,
            gif_repeats(enc) == repeats_written,
            repeats_written == seq![!(config.loop_mode is Once)],
            encoded.len() == i,
            forall|k: int|
                0 <= k < i ==> (#[trigger] encoded[k]).0 == finalv@[k].data@ && encoded[k].1
                    == delay,
            progress@.len() == i,
            forall|k: int|
                0 <= k < i ==> (#[trigger] progress@[k]).current == k + 1 && progress@[k].total
                    == n && progress@[k].stage@ == "encoding"@,
        decreases n - i,
    {
        let f = &finalv[i];
        proof {
            assert(f.data@.len() == (width as u16) * (height as u16) * 4) by (nonlinear_arith)
                requires
                    f.data@.len() == f.width * f.height * 4,
                    f.width == width,
                    f.height == height,
                    width <= 0xFFFF,
                    height <= 0xFFFF,
            ;
        }
        match gif_write_rgba_frame(&mut enc, width as u16, height as u16, &f.data, speed, delay) {
            Ok(()) => (),
            Err(m_) => {
                return Err(ExportError::EncodeFailed(m_));
            },
        }
        proof {
            encoded = encoded.push((f.data@, delay));
        }
        progress.push(
            ExportProgress { current: i + 1, total: n, stage: String::from_str("encoding") },
        );
        i = i + 1;
    }
    let bytes = match gif_encoder_finish(enc) {
        Ok(b) => b,
        Err(m_) => {
            return Err(ExportError::EncodeFailed(m_));
        },
    };
    Ok(
        ExportOutput {
            bytes,
            frame_count: n,
            width,
            height,
            progress,
            encoded_frames: Ghost(encoded),
            repeats: Ghost(repeats_written),
        },
    )
}

} // verus!
