//! Output-size prediction for the export preview. The frame count follows
//! the very same formulas as the export pipeline, so preview and export
//! agree exactly; the byte estimate applies a per-pixel cost that grows
//! monotonically with the configured quality.

use vstd::prelude::*;
use crate::frame::Frame;
use crate::export::{
    ExportConfig,
    clamp_int,
    final_frame_count,
    scaled_dim,
};
use crate::strtools::{dec_str, push_char, push_decimal};

verus! {

/// Round-trip consistency of the preview with the pipeline: the frame
/// count [`estimate_export_size`] promises and the frame count
/// [`crate::export::export_gif`] promises of a successful export are the
/// same function of the same inputs, so preview and real output always
/// agree.
pub proof fn lemma_estimate_matches_export(
    estimated: int,
    exported: int,
    total: int,
    start: int,
    end: int,
    capture_fps: int,
    speed_percent: int,
    target_fps: int,
    mode: crate::export::LoopMode,
)
    requires
        estimated == final_frame_count(
            total,
            start,
            end,
            capture_fps,
            speed_percent,
            target_fps,
            mode,
        ),
        exported == final_frame_count(
            total,
            start,
            end,
            capture_fps,
            speed_percent,
            target_fps,
            mode,
        ),
    ensures
        estimated == exported,
{
}

/// The size prediction shown before an export.
pub struct SizeEstimate {
    pub frame_count: usize,
    pub output_width: u32,
    pub output_height: u32,
    pub estimated_bytes: u64,
    pub formatted: String,
}

/// Estimated output bytes: frames times scaled pixels times a per-pixel
/// cost of `(500 + 35 * quality) / 10000` bytes, i.e. 0.0535 bytes at
/// quality 1 up to 0.4 bytes at quality 100.
pub open spec fn spec_estimated_bytes(frames: int, width: int, height: int, quality: int) -> int {
    frames * width * height * (500 + 35 * clamp_int(quality, 1, 100)) / 10000
}

/// `n` rendered with one decimal digit of the given unit: the rounded
/// tenths of `n / unit`, written as `whole.tenth`.
pub open spec fn tenths_str(n: int, unit: int) -> Seq<char>
    recommends
        unit >= 2,
{
    let t = (n * 10 + unit / 2) / unit;
    dec_str(t / 10) + seq!['.'] + seq![digit_char_of_tenths(t)]
}

/// The digit character of the tenths place.
pub open spec fn digit_char_of_tenths(t: int) -> char {
    crate::strtools::digit_char(t % 10)
}

/// A byte count rendered for people: whole bytes below a kibibyte, else
/// one decimal place of the matching binary unit.
pub open spec fn spec_format_bytes(bytes: int) -> Seq<char> {
    if bytes >= 0x4000_0000 {
        tenths_str(bytes, 0x4000_0000) + " GB"@
    } else if bytes >= 0x10_0000 {
        tenths_str(bytes, 0x10_0000) + " MB"@
    } else if bytes >= 0x400 {
        tenths_str(bytes, 0x400) + " KB"@
    } else {
        dec_str(bytes) + " B"@
    }
}

/// Renders a byte count with its binary unit, one decimal place.
pub fn format_bytes(bytes: u64) -> (r: String)
    ensures
        r@ == spec_format_bytes(bytes as int),
{
    proof {
        reveal_strlit(" GB");
        reveal_strlit(" MB");
        reveal_strlit(" KB");
        reveal_strlit(" B");
    }
    let mut s = String::new();
    if bytes >= 0x4000_0000 {
        push_tenths(&mut s, bytes, 0x4000_0000);
        push_char(&mut s, ' ');
        push_char(&mut s, 'G');
        push_char(&mut s, 'B');
        proof {
            assert(s@ =~= spec_format_bytes(bytes as int));
        }
    } else if bytes >= 0x10_0000 {
        push_tenths(&mut s, bytes, 0x10_0000);
        push_char(&mut s, ' ');
        push_char(&mut s, 'M');
        push_char(&mut s, 'B');
        proof {
            assert(s@ =~= spec_format_bytes(bytes as int));
        }
    } else if bytes >= 0x400 {
        push_tenths(&mut s, bytes, 0x400);
        push_char(&mut s, ' ');
        push_char(&mut s, 'K');
        push_char(&mut s, 'B');
        proof {
            assert(s@ =~= spec_format_bytes(bytes as int));
        }
    } else {
        push_decimal(&mut s, bytes);
        push_char(&mut s, ' ');
        push_char(&mut s, 'B');
        proof {
            assert(s@ =~= spec_format_bytes(bytes as int));
        }
    }
    s
}

/// Appends `whole.tenth` of `n / unit`, rounded to the nearest tenth.
fn push_tenths(s: &mut String, n: u64, unit: u64)
    requires
        unit >= 2,
    ensures
        final(s)@ == old(s)@ + tenths_str(n as int, unit as int),
{
    let t: u128 = ((n as u128) * 10 + (unit / 2) as u128) / (unit as u128);
    proof {
        assert((n as int * 10 + unit as int / 2) / unit as int <= (0xFFFF_FFFF_FFFF_FFFFu128 * 10
            + unit as int / 2) / unit as int) by (nonlinear_arith)
            requires
                n <= 0xFFFF_FFFF_FFFF_FFFFu128,
                unit >= 2,
        ;
        assert((0xFFFF_FFFF_FFFF_FFFFu128 * 10 + unit as int / 2) / unit as int
            <= 0xFFFF_FFFF_FFFF_FFFFu128 * 10) by (nonlinear_arith)
            requires
                unit >= 2,
        ;
    }
    let whole: u128 = t / 10;
    let tenth: u64 = (t % 10) as u64;
    proof {
        assert(whole <= t);
        vstd::arithmetic::div_mod::lemma_mod_division_less_than_divisor(t as int, 10);
    }
    push_decimal(s, whole as u64);
    push_char(s, '.');
    let d = crate::strtools::digit_char_exec(tenth);
    push_char(s, d);
    proof {
        assert(s@ =~= old(s)@ + tenths_str(n as int, unit as int));
    }
}

/// Predicts frame count, output size and encoded bytes of an export without
/// touching pixel data. The frame count mirrors the pipeline's trim,
/// temporal-resample and loop-expansion formulas exactly; an empty buffer
/// yields the all-zero estimate.
pub fn estimate_export_size(frames: &Vec<Frame>, capture_fps: u32, config: &ExportConfig) -> (r:
    SizeEstimate)
    requires
        capture_fps >= 1,
        frames@.len() <= u32::MAX,
        2 * frames@.len() <= usize::MAX,
        forall|i: int| 0 <= i < frames@.len() ==> (#[trigger] frames@[i]).wf(),
    ensures
        frames@.len() == 0 ==> r.frame_count == 0 && r.output_width == 0 && r.output_height == 0
            && r.estimated_bytes == 0 && r.formatted@ == spec_format_bytes(0),
        frames@.len() > 0 ==> {
            let n = final_frame_count(
                frames@.len() as int,
                config.start_frame as int,
                config.end_frame as int,
                capture_fps as int,
                config.speed_percent as int,
                config.target_fps as int,
                config.loop_mode,
            );
            let w = scaled_dim(frames@[0].width as int, config.scale_percent as int);
            let h = scaled_dim(frames@[0].height as int, config.scale_percent as int);
            let b = spec_estimated_bytes(n, w, h, config.quality as int);
            &&& r.frame_count == n
            &&& r.output_width == w
            &&& r.output_height == h
            &&& r.estimated_bytes == (if b > u64::MAX {
                u64::MAX as int
            } else {
                b
            })
            &&& r.formatted@ == spec_format_bytes(r.estimated_bytes as int)
        },
{
    if frames.len() == 0 {
        let formatted = format_bytes(0);
        return SizeEstimate {
            frame_count: 0,
            output_width: 0,
            output_height: 0,
            estimated_bytes: 0,
            formatted,
        };
    }
    let first_w = frames[0].width;
    let first_h = frames[0].height;
    let total = frames.len();
    let s: usize = if config.start_frame < total {
        config.start_frame
    } else {
        total
    };
    let e: usize = if config.end_frame < total {
        config.end_frame
    } else {
        total
    };
    let n: usize = if e <= s {
        0
    } else {
        let trimmed = e - s;
        let sampled = crate::export::sampled_frame_count(
            trimmed,
            capture_fps,
            config.speed_percent,
            config.target_fps,
        );
        let is_pingpong = match config.loop_mode {
            crate::export::LoopMode::PingPong => true,
            _ => false,
        };
        if is_pingpong && sampled > 2 {
            2 * sampled - 2
        } else {
            sampled
        }
    };
    let scale = crate::export::clamp_u32(config.scale_percent, 10, 100);
    let (w, h): (u32, u32) = if scale <= 98 {
        (
            crate::export::scale_one_dim(first_w, scale),
            crate::export::scale_one_dim(first_h, scale),
        )
    } else {
        (first_w, first_h)
    };
    let q = crate::export::clamp_u32(config.quality, 1, 100);
    proof {
        assert((n as int) * (w as int) <= 0x2_0000_0000int * 0x1_0000_0000int && (n as int) * (
        w as int) * (h as int) <= 0x2_0000_0000int * 0x1_0000_0000int * 0x1_0000_0000int && (
        n as int) * (w as int) * (h as int) * (500 + 35 * (q as int)) < u128::MAX)
            by (nonlinear_arith)
            requires
                n <= 0x2_0000_0000int,
                w <= 0xFFFF_FFFFu32,
                h <= 0xFFFF_FFFFu32,
                1 <= q <= 100,
        ;
    }
    let big: u128 = (n as u128) * (w as u128) * (h as u128) * (500 + 35 * (q as u128)) / 10000;
    let estimated_bytes: u64 = if big > u64::MAX as u128 {
        u64::MAX
    } else {
        big as u64
    };
    let formatted = format_bytes(estimated_bytes);
    SizeEstimate { frame_count: n, output_width: w, output_height: h, estimated_bytes, formatted }
}

} // verus!
