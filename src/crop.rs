//! Crop rectangles and cropping of frames.

use vstd::prelude::*;
use crate::frame::{lemma_index_in_grid, FrameView, RawFrame, Rgb};

verus! {

/// A rectangle in source-image pixel coordinates.
#[derive(Clone, Copy, PartialEq, Eq, Debug, Structural)]
pub struct CropRect {
    pub x: u32,
    pub y: u32,
    pub width: u32,
    pub height: u32,
}

impl CropRect {
    /// Non-empty and wholly inside a `source_w` by `source_h` image.
    pub open spec fn valid_for(self, source_w: nat, source_h: nat) -> bool {
        &&& self.width > 0
        &&& self.height > 0
        &&& self.x + self.width <= source_w
        &&& self.y + self.height <= source_h
    }

    /// The intersection of this rectangle with a `source_w` by `source_h` image.
    pub open spec fn clamped(self, source_w: u32, source_h: u32) -> CropRect {
        let x = if self.x <= source_w { self.x } else { source_w };
        let y = if self.y <= source_h { self.y } else { source_h };
        let room_w = (source_w - x) as u32;
        let room_h = (source_h - y) as u32;
        CropRect {
            x,
            y,
            width: if self.width <= room_w { self.width } else { room_w },
            height: if self.height <= room_h { self.height } else { room_h },
        }
    }

    /// Intersects this rectangle with a `source_w` by `source_h` image.
    pub fn clamp_to(&self, source_w: u32, source_h: u32) -> (r: CropRect)
        ensures
            r == self.clamped(source_w, source_h),
            r.x + r.width <= source_w,
            r.y + r.height <= source_h,
    {
        let x = if self.x <= source_w { self.x } else { source_w };
        let y = if self.y <= source_h { self.y } else { source_h };
        let room_w = source_w - x;
        let room_h = source_h - y;
        CropRect {
            x,
            y,
            width: if self.width <= room_w { self.width } else { room_w },
            height: if self.height <= room_h { self.height } else { room_h },
        }
    }
}

/// `out` is the part of `img` under the rectangle `c`, which lies inside `img`.
pub open spec fn is_crop_of(out: FrameView, img: FrameView, c: CropRect) -> bool {
    &&& out.width == c.width
    &&& out.height == c.height
    &&& forall|i: int, j: int|
        0 <= i < c.width && 0 <= j < c.height ==> #[trigger] out.at(i, j) == img.at(c.x + i, c.y + j)
}

/// Cropping with a rectangle that is valid for the image gives exactly the
/// rectangle's size, and pixel (i, j) of the result is pixel (x + i, y + j) of
/// the image: no clamping takes place.
pub proof fn lemma_crop_invariant(img: FrameView, r: CropRect, out: FrameView)
    requires
        img.width <= u32::MAX,
        img.height <= u32::MAX,
        r.valid_for(img.width, img.height),
        is_crop_of(out, img, r.clamped(img.width as u32, img.height as u32)),
    ensures
        out.width == r.width,
        out.height == r.height,
        forall|i: int, j: int|
            0 <= i < r.width && 0 <= j < r.height ==> #[trigger] out.at(i, j) == img.at(r.x + i, r.y + j),
{
    assert(r.clamped(img.width as u32, img.height as u32) == r);
}

/// Cuts the rectangle at (`x`, `y`) of size `width` by `height` out of `img`.
/// A rectangle reaching past the image is first cut down to its intersection
/// with the image, so a stale rectangle never fails.
pub fn crop_color_image(img: &RawFrame, x: u32, y: u32, width: u32, height: u32) -> (r: RawFrame)
    requires
        img.wf(),
    ensures
        r.wf(),
        is_crop_of(r@, img@, (CropRect { x, y, width, height }).clamped(img@.width as u32, img@.height as u32)),
{
    let req = CropRect { x, y, width, height };
    let src_w = img.width();
    let src_h = img.height();
    let c = req.clamp_to(src_w, src_h);
    let cw = c.width;
    let ch = c.height;
    let mut pixels: Vec<Rgb> = Vec::new();
    let mut j: u32 = 0;
    while j < ch
        invariant
            img.wf(),
            img@.width == src_w,
            img@.height == src_h,
            c.x + cw <= img@.width,
            c.y + ch <= img@.height,
            cw == c.width,
            ch == c.height,
            j <= ch,
            pixels@.len() == j * cw,
            forall|jj: int, ii: int|
                0 <= jj < j && 0 <= ii < cw ==> #[trigger] pixels@[jj * cw + ii] == img@.at(
                    c.x + ii,
                    c.y + jj,
                ),
        decreases ch - j,
    {
        let mut i: u32 = 0;
        while i < cw
            invariant
                img.wf(),
                img@.width == src_w,
                img@.height == src_h,
                c.x + cw <= img@.width,
                c.y + ch <= img@.height,
                cw == c.width,
                ch == c.height,
                j < ch,
                i <= cw,
                pixels@.len() == j * cw + i,
                forall|jj: int, ii: int|
                    0 <= jj < j && 0 <= ii < cw ==> #[trigger] pixels@[jj * cw + ii] == img@.at(
                        c.x + ii,
                        c.y + jj,
                    ),
                forall|ii: int|
                    0 <= ii < i ==> #[trigger] pixels@[j * cw + ii] == img@.at(c.x + ii, c.y + j),
            decreases cw - i,
        {
            let p = img.pixel(c.x + i, c.y + j);
            let ghost before = pixels@;
            pixels.push(p);
            proof {
                assert forall|jj: int, ii: int| 0 <= jj < j && 0 <= ii < cw implies #[trigger] pixels@[jj
                    * cw + ii] == img@.at(c.x + ii, c.y + jj) by {
                    lemma_index_in_grid(ii, jj, cw as int, j as int);
                    assert(before[jj * cw + ii] == img@.at(c.x + ii, c.y + jj));
                }
                assert forall|ii: int| 0 <= ii < i + 1 implies #[trigger] pixels@[j * cw + ii] == img@.at(
                    c.x + ii,
                    c.y + j,
                ) by {
                    if ii < i {
                        assert(before[j * cw + ii] == img@.at(c.x + ii, c.y + j));
                    }
                }
            }
            i = i + 1;
        }
        proof {
            assert((j + 1) * cw == j * cw + cw) by (nonlinear_arith);
            assert forall|jj: int, ii: int| 0 <= jj < j + 1 && 0 <= ii < cw implies #[trigger] pixels@[jj
                * cw + ii] == img@.at(c.x + ii, c.y + jj) by {
                if jj == j {
                    assert(pixels@[j * cw + ii] == img@.at(c.x + ii, c.y + j));
                }
            }
        }
        j = j + 1;
    }
    assert(ch * cw == cw * ch) by (nonlinear_arith);
    let r = RawFrame::new(cw, ch, pixels);
    r.unwrap()
}

} // verus!
