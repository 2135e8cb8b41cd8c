//! Trusted boundary to the image codecs: the streaming GIF encoder, the
//! RGBA resampler, the PNG/JPEG still encoders and base64. Each wrapper only
//! converts between the crate's frame type and the codec's arguments; what
//! Verus believes about a call is exactly its stated contract.

use vstd::prelude::*;
use base64::Engine;
use image::ImageEncoder;
use crate::frame::Frame;

verus! {

/// A streaming GIF encoder writing to an in-memory buffer. The field is a
/// `gif::Encoder<Vec<u8>>`; Verus sees the type only through [`gif_frames`],
/// [`gif_repeats`] and the wrappers below.
#[verifier::external_body]
pub struct GifSink {
    inner: gif::Encoder<Vec<u8>>,
}

/// The RGBA pixel streams handed to a GIF encoder so far, in order, each
/// with the per-frame delay in centiseconds it was given.
pub uninterp spec fn gif_frames(enc: GifSink) -> Seq<(Seq<u8>, u16)>;

/// The repeat-count metadata handed to a GIF encoder so far, in order:
/// `true` for infinite repeat, `false` for a finite count of zero extra
/// loops.
pub uninterp spec fn gif_repeats(enc: GifSink) -> Seq<bool>;

/// Relies on `gif::Encoder::new` with an in-memory buffer and an empty
/// global palette: a fresh encoder has been handed no frames and no repeat
/// metadata.
#[verifier::external_body]
pub fn gif_encoder_new(width: u16, height: u16) -> (r: Result<GifSink, String>)
    ensures
        r matches Ok(e) ==> gif_frames(e) == Seq::<(Seq<u8>, u16)>::empty() && gif_repeats(e)
            == Seq::<bool>::empty(),
{
    match gif::Encoder::new(Vec::new(), width, height, &[]) {
        Ok(inner) => Ok(GifSink { inner }),
        Err(e) => Err(e.to_string()),
    }
}

/// Relies on `gif::Encoder::set_repeat`: it writes one block of
/// repeat-count metadata (infinite, or a finite count of zero extra loops)
/// and hands the encoder no frame.
#[verifier::external_body]
pub fn gif_encoder_set_repeat(enc: &mut GifSink, infinite: bool) -> (r: Result<(), String>)
    ensures
        r is Ok ==> gif_frames(*final(enc)) == gif_frames(*old(enc)) && gif_repeats(*final(enc))
            == gif_repeats(*old(enc)).push(infinite),
{
    let repeat = if infinite {
        gif::Repeat::Infinite
    } else {
        gif::Repeat::Finite(0)
    };
    enc.inner.set_repeat(repeat).map_err(|e| e.to_string())
}

/// Relies on `gif::Frame::from_rgba_speed` (which panics unless the buffer
/// holds exactly `width * height` RGBA quads and `speed` lies in `[1, 30]`)
/// and `gif::Encoder::write_frame`: on success the encoder has been handed
/// exactly one more frame, built from these pixels with the given delay,
/// and no repeat metadata.
#[verifier::external_body]
pub fn gif_write_rgba_frame(
    enc: &mut GifSink,
    width: u16,
    height: u16,
    pixels: &Vec<u8>,
    speed: i32,
    delay: u16,
) -> (r: Result<(), String>)
    requires
        pixels@.len() == width * height * 4,
        1 <= speed <= 30,
    ensures
        r is Ok ==> gif_frames(*final(enc)) == gif_frames(*old(enc)).push((pixels@, delay))
            && gif_repeats(*final(enc)) == gif_repeats(*old(enc)),
{
    let mut buf = pixels.clone();
    let mut frame = gif::Frame::from_rgba_speed(width, height, &mut buf, speed);
    frame.delay = delay;
    enc.inner.write_frame(&frame).map_err(|e| e.to_string())
}

/// Relies on `gif::Encoder::into_inner`: it writes the trailer and hands
/// back the in-memory byte buffer of the encoded image.
#[verifier::external_body]
pub fn gif_encoder_finish(enc: GifSink) -> (r: Result<Vec<u8>, String>) {
    enc.inner.into_inner().map_err(|e| e.to_string())
}

/// The resampling filters the library uses.
#[derive(Clone, Copy, PartialEq, Eq, Structural, Debug)]
pub enum ResizeFilter {
    /// Nearest neighbour; fast, for previews.
    Nearest,
    /// Linear smoothing; for export scaling.
    Triangle,
    /// Windowed sinc; for still screenshots.
    Lanczos,
}

/// Stable number of each filter, used to tell the named results apart.
pub open spec fn filter_id(f: ResizeFilter) -> int {
    match f {
        ResizeFilter::Nearest => 0,
        ResizeFilter::Triangle => 1,
        ResizeFilter::Lanczos => 2,
    }
}

/// What `image::imageops::resize` returns: a function of the source pixels,
/// both sizes and the filter alone.
pub uninterp spec fn resize_of(
    src: Seq<u8>,
    src_w: int,
    src_h: int,
    dst_w: int,
    dst_h: int,
    filter: int,
) -> Seq<u8>;

/// Relies on `image::imageops::resize` over an `image::RgbaImage`: the
/// result holds exactly `new_width * new_height` RGBA quads, determined by
/// the source pixels, the dimensions and the filter.
#[verifier::external_body]
pub fn resize_rgba(f: &Frame, new_width: u32, new_height: u32, filter: ResizeFilter) -> (r: Frame)
    requires
        f.wf(),
        new_width >= 1,
        new_height >= 1,
    ensures
        r.wf(),
        r.width == new_width,
        r.height == new_height,
        r.data@ == resize_of(
            f.data@,
            f.width as int,
            f.height as int,
            new_width as int,
            new_height as int,
            filter_id(filter),
        ),
{
    let img = image::RgbaImage::from_raw(f.width, f.height, f.data.clone())
        .expect("frame buffer matches its dimensions");
    let ft = match filter {
        ResizeFilter::Nearest => image::imageops::FilterType::Nearest,
        ResizeFilter::Triangle => image::imageops::FilterType::Triangle,
        ResizeFilter::Lanczos => image::imageops::FilterType::Lanczos3,
    };
    let out = image::imageops::resize(&img, new_width, new_height, ft);
    Frame { width: new_width, height: new_height, data: out.into_raw() }
}

/// What the PNG encoder produces for an RGBA image of these dimensions.
pub uninterp spec fn png_of(rgba: Seq<u8>, w: int, h: int) -> Seq<u8>;

/// Relies on `image::codecs::png::PngEncoder::write_image` with RGBA input:
/// the encoded bytes are a function of the pixels and dimensions alone.
#[verifier::external_body]
pub fn encode_png_rgba(f: &Frame) -> (r: Result<Vec<u8>, String>)
    requires
        f.wf(),
    ensures
        r matches Ok(v) ==> v@ == png_of(f.data@, f.width as int, f.height as int),
{
    let mut png_data = Vec::new();
    let encoder = image::codecs::png::PngEncoder::new(&mut png_data);
    encoder
        .write_image(&f.data, f.width, f.height, image::ExtendedColorType::Rgba8)
        .map_err(|e| e.to_string())?;
    Ok(png_data)
}

/// What the JPEG encoder produces for an RGBA image of these dimensions,
/// after the alpha channel is dropped.
pub uninterp spec fn jpeg_of(rgba: Seq<u8>, w: int, h: int) -> Seq<u8>;

/// Relies on `image::DynamicImage::to_rgb8` (drops alpha) and JPEG encoding
/// through `write_to`: the encoded bytes are a function of the pixels and
/// dimensions alone.
#[verifier::external_body]
pub fn encode_jpeg_rgba(f: &Frame) -> (r: Result<Vec<u8>, String>)
    requires
        f.wf(),
    ensures
        r matches Ok(v) ==> v@ == jpeg_of(f.data@, f.width as int, f.height as int),
{
    let img = image::RgbaImage::from_raw(f.width, f.height, f.data.clone())
        .expect("frame buffer matches its dimensions");
    let rgb = image::DynamicImage::ImageRgba8(img).to_rgb8();
    let mut jpg_data = Vec::new();
    let mut cursor = std::io::Cursor::new(&mut jpg_data);
    rgb.write_to(&mut cursor, image::ImageFormat::Jpeg).map_err(|e| e.to_string())?;
    Ok(jpg_data)
}

/// What standard base64 with padding encodes these bytes to.
pub uninterp spec fn base64_of(bytes: Seq<u8>) -> Seq<char>;

/// Relies on base64's `STANDARD` engine: four output characters for every
/// three input bytes, padded, determined by the input alone.
#[verifier::external_body]
pub fn base64_encode(data: &Vec<u8>) -> (r: String)
    ensures
        r@ == base64_of(data@),
        r@.len() == 4 * ((data@.len() + 2) / 3),
{
    base64::engine::general_purpose::STANDARD.encode(data)
}

} // verus!
