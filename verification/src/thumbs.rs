//! Thumbnails and previews: small PNG/JPEG renderings of frames and of the
//! scroll composite, delivered as base64 data URLs for the UI.

use vstd::prelude::*;
use vstd::string::*;
use crate::frame::Frame;
use crate::scroll::ScrollSession;
use crate::export::{sample_index, lemma_sample_index_bound};
use crate::codecs::{
    ResizeFilter,
    base64_encode,
    base64_of,
    encode_jpeg_rgba,
    encode_png_rgba,
    filter_id,
    jpeg_of,
    png_of,
    resize_of,
    resize_rgba,
};

verus! {

/// Why a thumbnail could not be produced.
#[derive(Clone, Debug)]
pub enum ThumbError {
    /// No frames (or no composite) to render.
    NoFrames,
    /// The requested frame index lies past the buffer.
    IndexOutOfBounds,
    /// The still encoder rejected the image.
    EncodeFailed(String),
}

/// Progress of a scroll capture as shown in the overlay.
pub struct ScrollCaptureProgress {
    pub frame_count: usize,
    pub total_height: u32,
    pub preview_base64: String,
}

/// Width of a thumbnail scaled to height `max_h`, floored at one pixel.
pub open spec fn thumb_width(w: int, h: int, max_h: int) -> int {
    let t = w * max_h / h;
    if t < 1 {
        1
    } else {
        t
    }
}

/// The data URL of a frame's PNG thumbnail at height `max_h`.
pub open spec fn png_thumb_url(f: Frame, max_h: int) -> Seq<char> {
    let tw = thumb_width(f.width as int, f.height as int, max_h);
    "data:image/png;base64,"@ + base64_of(
        png_of(
            resize_of(
                f.data@,
                f.width as int,
                f.height as int,
                tw,
                max_h,
                filter_id(ResizeFilter::Triangle),
            ),
            tw,
            max_h,
        ),
    )
}

/// The data URL of a frame's JPEG preview: scaled down with the fast filter
/// when the frame is taller than `max_h`, encoded as captured otherwise.
pub open spec fn jpeg_preview_url(f: Frame, max_h: int) -> Seq<char> {
    if f.height > max_h {
        let pw = thumb_width(f.width as int, f.height as int, max_h);
        "data:image/jpeg;base64,"@ + base64_of(
            jpeg_of(
                resize_of(
                    f.data@,
                    f.width as int,
                    f.height as int,
                    pw,
                    max_h,
                    filter_id(ResizeFilter::Nearest),
                ),
                pw,
                max_h,
            ),
        )
    } else {
        "data:image/jpeg;base64,"@ + base64_of(jpeg_of(f.data@, f.width as int, f.height as int))
    }
}

/// The data URL of a filmstrip cell: always resized with the fast filter.
pub open spec fn jpeg_cell_url(f: Frame, max_h: int) -> Seq<char> {
    let fw = thumb_width(f.width as int, f.height as int, max_h);
    "data:image/jpeg;base64,"@ + base64_of(
        jpeg_of(
            resize_of(
                f.data@,
                f.width as int,
                f.height as int,
                fw,
                max_h,
                filter_id(ResizeFilter::Nearest),
            ),
            fw,
            max_h,
        ),
    )
}

/// Exec computation of [`thumb_width`].
fn thumb_width_exec(w: u32, h: u32, max_h: u32) -> (r: u32)
    requires
        w >= 1,
        h >= 1,
        max_h >= 1,
        w as int * max_h as int / h as int <= u32::MAX,
    ensures
        r == thumb_width(w as int, h as int, max_h as int),
        r >= 1,
{
    proof {
        assert(w as int * max_h as int <= 0xFFFF_FFFFu64 * 0xFFFF_FFFFu64) by (nonlinear_arith)
            requires
                w <= 0xFFFF_FFFFu64,
                max_h <= 0xFFFF_FFFFu64,
        ;
    }
    let t: u64 = (w as u64) * (max_h as u64) / (h as u64);
    if t < 1 {
        1
    } else {
        t as u32
    }
}

/// Renders one frame as a PNG thumbnail of the given height, as the editor
/// shows it.
pub fn thumbnail_data_url_png(frame: &Frame, max_height: u32) -> (r: Result<String, ThumbError>)
    requires
        frame.wf(),
        max_height >= 1,
        frame.width as int * max_height as int / frame.height as int <= u32::MAX,
    ensures
        r matches Ok(s) ==> s@ == png_thumb_url(*frame, max_height as int),
        r matches Err(e) ==> e is EncodeFailed,
{
    let tw = thumb_width_exec(frame.width, frame.height, max_height);
    let small = resize_rgba(frame, tw, max_height, ResizeFilter::Triangle);
    let png = match encode_png_rgba(&small) {
        Ok(v) => v,
        Err(m) => {
            return Err(ThumbError::EncodeFailed(m));
        },
    };
    let b64 = base64_encode(&png);
    let mut url = String::from_str("data:image/png;base64,");
    url.append(b64.as_str());
    Ok(url)
}

/// Renders a frame (typically the scroll composite) as a JPEG preview that
/// fits within the given height.
pub fn preview_data_url_jpeg(frame: &Frame, max_height: u32) -> (r: Result<String, ThumbError>)
    requires
        frame.wf(),
        max_height >= 1,
        frame.width as int * max_height as int / frame.height as int <= u32::MAX,
    ensures
        r matches Ok(s) ==> s@ == jpeg_preview_url(*frame, max_height as int),
        r matches Err(e) ==> e is EncodeFailed,
{
    let jpeg = if frame.height > max_height {
        let pw = thumb_width_exec(frame.width, frame.height, max_height);
        let small = resize_rgba(frame, pw, max_height, ResizeFilter::Nearest);
        match encode_jpeg_rgba(&small) {
            Ok(v) => v,
            Err(m) => {
                return Err(ThumbError::EncodeFailed(m));
            },
        }
    } else {
        match encode_jpeg_rgba(frame) {
            Ok(v) => v,
            Err(m) => {
                return Err(ThumbError::EncodeFailed(m));
            },
        }
    };
    let b64 = base64_encode(&jpeg);
    let mut url = String::from_str("data:image/jpeg;base64,");
    url.append(b64.as_str());
    Ok(url)
}

/// Renders the thumbnail of one frame of the buffer, failing cleanly on an
/// index past the end.
pub fn frame_thumbnail(frames: &Vec<Frame>, frame_index: usize, max_height: u32) -> (r: Result<
    String,
    ThumbError,
>)
    requires
        forall|i: int| 0 <= i < frames@.len() ==> (#[trigger] frames@[i]).wf(),
        max_height >= 1,
        forall|i: int|
            0 <= i < frames@.len() ==> (#[trigger] frames@[i]).width as int * max_height as int / (
            frames@[i].height as int) <= u32::MAX,
    ensures
        frame_index >= frames@.len() ==> (r matches Err(e) && e is IndexOutOfBounds),
        frame_index < frames@.len() ==> (r matches Err(e) ==> e is EncodeFailed),
        r matches Ok(s) ==> frame_index < frames@.len() && s@ == png_thumb_url(
            frames@[frame_index as int],
            max_height as int,
        ),
{
    if frame_index >= frames.len() {
        return Err(ThumbError::IndexOutOfBounds);
    }
    thumbnail_data_url_png(&frames[frame_index], max_height)
}

/// Which buffer frame filmstrip cell `i` of `count` shows: uniform
/// nearest-index sampling over the whole buffer.
pub open spec fn filmstrip_index(i: int, total: int, count: int) -> int {
    if count > 1 {
        sample_index(i, total, count)
    } else {
        0
    }
}

/// Renders an evenly sampled strip of JPEG thumbnails across the whole
/// buffer, at most one per frame and at least one.
pub fn filmstrip(frames: &Vec<Frame>, count: usize, thumb_height: u32) -> (r: Result<
    Vec<String>,
    ThumbError,
>)
    requires
        forall|i: int| 0 <= i < frames@.len() ==> (#[trigger] frames@[i]).wf(),
        thumb_height >= 1,
        frames@.len() <= u32::MAX,
        forall|i: int|
            0 <= i < frames@.len() ==> (#[trigger] frames@[i]).width as int * thumb_height as int
                / (frames@[i].height as int) <= u32::MAX,
    ensures
        frames@.len() == 0 <==> (r matches Err(e) && e is NoFrames),
        frames@.len() > 0 ==> (r matches Err(e) ==> e is EncodeFailed),
        r matches Ok(v) ==> {
            let c = if count > frames@.len() {
                frames@.len() as int
            } else if count < 1 {
                1int
            } else {
                count as int
            };
            &&& v@.len() == c
            &&& forall|i: int|
                0 <= i < c ==> (#[trigger] v@[i])@ == jpeg_cell_url(
                    frames@[filmstrip_index(i, frames@.len() as int, c)],
                    thumb_height as int,
                )
        },
{
    let total = frames.len();
    if total == 0 {
        return Err(ThumbError::NoFrames);
    }
    let c: usize = if count > total {
        total
    } else if count < 1 {
        1
    } else {
        count
    };
    let mut out: Vec<String> = Vec::new();
    let mut i: usize = 0;
    while i < c
        invariant
            forall|k: int| 0 <= k < frames@.len() ==> (#[trigger] frames@[k]).wf(),
            thumb_height >= 1,
            frames@.len() <= u32::MAX,
            forall|k: int|
                0 <= k < frames@.len() ==> (#[trigger] frames@[k]).width as int
                    * thumb_height as int / (frames@[k].height as int) <= u32::MAX,
            1 <= c <= total,
            total == frames@.len(),
            total >= 1,
            i <= c,
            out@.len() == i,
            forall|k: int|
                0 <= k < i ==> (#[trigger] out@[k])@ == jpeg_cell_url(
                    frames@[filmstrip_index(k, total as int, c as int)],
                    thumb_height as int,
                ),
        decreases c - i,
    {
        let idx: usize = if c > 1 {
            proof {
                if c <= total && c >= 2 {
                    lemma_sample_index_bound(i as int, total as int, c as int);
                }
                assert(i as int * (total - 1) <= 0xFFFF_FFFFu128 * 0xFFFF_FFFFu128)
                    by (nonlinear_arith)
                    requires
                        0 <= i < c <= total <= 0xFFFF_FFFFu128,
                ;
            }
            let a: u128 = (i as u128) * ((total - 1) as u128);
            let b: u128 = (c - 1) as u128;
            let q: u128 = (2 * a + b) / (2 * b);
            assert(q == filmstrip_index(i as int, total as int, c as int));
            q as usize
        } else {
            0
        };
        let f = &frames[idx];
        let fw = thumb_width_exec(f.width, f.height, thumb_height);
        let small = resize_rgba(f, fw, thumb_height, ResizeFilter::Nearest);
        let jpeg = match encode_jpeg_rgba(&small) {
            Ok(v) => v,
            Err(m) => {
                return Err(ThumbError::EncodeFailed(m));
            },
        };
        let b64 = base64_encode(&jpeg);
        let mut url = String::from_str("data:image/jpeg;base64,");
        url.append(b64.as_str());
        out.push(url);
        i = i + 1;
    }
    Ok(out)
}

/// The scroll overlay's progress report: capture count, composite height
/// and a preview of the composite. Fails when no capture is running.
pub fn scroll_progress(session: &ScrollSession, max_height: u32) -> (r: Result<
    ScrollCaptureProgress,
    ThumbError,
>)
    requires
        session.wf(),
        max_height >= 1,
        session.composite matches Some(c) ==> c.width as int * max_height as int / (
        c.height as int) <= u32::MAX,
    ensures
        session.composite is None ==> (r matches Err(e) && e is NoFrames),
        session.composite is Some ==> (r matches Err(e) ==> e is EncodeFailed),
        r matches Ok(p) ==> session.composite matches Some(c) && p.frame_count
            == session.history@.len() && p.total_height == c.height && p.preview_base64@
            == jpeg_preview_url(c, max_height as int),
{
    match &session.composite {
        None => Err(ThumbError::NoFrames),
        Some(c) => {
            let preview = match preview_data_url_jpeg(c, max_height) {
                Ok(s) => s,
                Err(e) => {
                    return Err(e);
                },
            };
            Ok(
                ScrollCaptureProgress {
                    frame_count: session.history.len(),
                    total_height: c.height,
                    preview_base64: preview,
                },
            )
        },
    }
}

} // verus!
