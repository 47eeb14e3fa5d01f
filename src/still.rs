//! Still images: decoding an encoded picture (PNG, JPEG) and turning 8-bit
//! RGBA buffers, as screen capture and image decoding give them, into frames.

use vstd::prelude::*;
use crate::frame::RawFrame;
use crate::stride::{frame_from_plane, plane_fits, plane_pixel, PixelFormat};

verus! {

/// Width, height and row-major RGBA bytes of the picture encoded in `bytes`,
/// or `None` when the bytes are not a picture the decoder understands.
pub uninterp spec fn rgba_decoding(bytes: Seq<u8>) -> Option<(u32, u32, Seq<u8>)>;

/// Relies on image::load_from_memory, which detects the encoding and decodes
/// the picture, and on DynamicImage::to_rgba8, which converts it to 8-bit RGBA.
#[verifier::external_body]
fn decode_rgba(bytes: &[u8]) -> (r: Option<(u32, u32, Vec<u8>)>)
    ensures
        match r {
            Some((w, h, px)) => rgba_decoding(bytes@) == Some((w, h, px@)),
            None => rgba_decoding(bytes@) is None,
        },
{
    match image::load_from_memory(bytes) {
        Ok(img) => {
            let rgba = img.to_rgba8();
            Some((rgba.width(), rgba.height(), rgba.into_raw()))
        },
        Err(_) => None,
    }
}

/// A frame from tightly packed 8-bit RGBA rows (alpha ignored); `None` when
/// the buffer is too short for `width` by `height` pixels.
pub fn frame_from_rgba(width: u32, height: u32, rgba: &[u8]) -> (r: Option<RawFrame>)
    ensures
        r is Some <==> 4 * width <= usize::MAX && plane_fits(
            rgba@.len() as int,
            width as int,
            height as int,
            4 * width,
            4,
        ),
        r matches Some(f) ==> {
            &&& f.wf()
            &&& f@.width == width
            &&& f@.height == height
            &&& forall|x: int, y: int|
                0 <= x < width && 0 <= y < height ==> #[trigger] f@.at(x, y) == plane_pixel(
                    rgba@,
                    4 * width,
                    4,
                    x,
                    y,
                )
        },
{
    if width as u64 * 4 > usize::MAX as u64 {
        return None;
    }
    let stride = width as usize * 4;
    match frame_from_plane(rgba, width, height, stride, PixelFormat::Rgba) {
        Ok(f) => Some(f),
        Err(_) => None,
    }
}

/// Decodes an encoded picture into a frame; `None` when it cannot be decoded.
pub fn image_from_bytes(bytes: &[u8]) -> (r: Option<RawFrame>)
    ensures
        r is Some <==> (rgba_decoding(bytes@) matches Some((w, h, px)) && 4 * w <= usize::MAX
            && plane_fits(px.len() as int, w as int, h as int, 4 * w, 4)),
        r matches Some(f) ==> (rgba_decoding(bytes@) matches Some((w, h, px)) && {
            &&& f.wf()
            &&& f@.width == w
            &&& f@.height == h
            &&& forall|x: int, y: int|
                0 <= x < w && 0 <= y < h ==> #[trigger] f@.at(x, y) == plane_pixel(
                    px,
                    4 * w,
                    4,
                    x,
                    y,
                )
        }),
{
    match decode_rgba(bytes) {
        Some((w, h, px)) => frame_from_rgba(w, h, px.as_slice()),
        None => None,
    }
}

} // verus!
