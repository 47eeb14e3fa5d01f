//! Moving pixels between frames and strided planes, as decoders hand them out
//! and encoders take them in. A plane's rows may be padded: row `y` starts at
//! byte `y * stride`, and only its first `width * bytes_per_pixel` bytes hold
//! pixels.

use vstd::prelude::*;
use crate::frame::{lemma_index_in_grid, FrameView, RawFrame, Rgb};

verus! {

/// The interleaved 8-bit layouts accepted at the frame boundary.
#[derive(Clone, Copy, PartialEq, Eq, Debug, Structural)]
pub enum PixelFormat {
    Rgb,
    /// Alpha is ignored on the way in and written opaque on the way out.
    Rgba,
}

impl PixelFormat {
    pub open spec fn bpp(self) -> nat {
        match self {
            PixelFormat::Rgb => 3,
            PixelFormat::Rgba => 4,
        }
    }

    pub fn bytes_per_pixel(&self) -> (r: usize)
        ensures
            r == self.bpp(),
    {
        match self {
            PixelFormat::Rgb => 3,
            PixelFormat::Rgba => 4,
        }
    }
}

/// Why a plane could not be read as a frame.
#[derive(Clone, Copy, PartialEq, Eq, Debug, Structural)]
pub enum PlaneError {
    /// A row of pixels is longer than the stride.
    StrideTooSmall,
    /// The plane ends before the last row does.
    PlaneTooShort,
}

/// A plane of `len` bytes holds `height` rows of `width * bpp` bytes, `stride` apart.
pub open spec fn plane_fits(len: int, width: int, height: int, stride: int, bpp: int) -> bool {
    &&& stride >= width * bpp
    &&& height == 0 || (height - 1) * stride + width * bpp <= len
}

/// The pixel in column `x` of row `y` of a plane; any alpha byte is ignored.
pub open spec fn plane_pixel(plane: Seq<u8>, stride: int, bpp: int, x: int, y: int) -> Rgb {
    let base = y * stride + x * bpp;
    Rgb { r: plane[base], g: plane[base + 1], b: plane[base + 2] }
}

/// Byte `c` of a pixel in the given format.
pub open spec fn channel(p: Rgb, c: int) -> u8 {
    if c == 0 {
        p.r
    } else if c == 1 {
        p.g
    } else if c == 2 {
        p.b
    } else {
        255
    }
}

/// Byte `o` of row `y` when `f` is laid out at `stride` bytes per row: a
/// channel of a pixel, or zero padding past the pixels.
pub open spec fn packed_byte(f: FrameView, format: PixelFormat, y: int, o: int) -> u8 {
    let bpp = format.bpp() as int;
    if o < f.width * bpp {
        channel(f.at(o / bpp, y), o % bpp)
    } else {
        0
    }
}

/// `plane` holds the frame `f` row by row, `stride` bytes apart.
pub open spec fn is_packing(plane: Seq<u8>, f: FrameView, stride: int, format: PixelFormat) -> bool {
    &&& plane.len() == f.height * stride
    &&& forall|y: int, o: int|
        0 <= y < f.height && 0 <= o < stride ==> #[trigger] plane[y * stride + o] == packed_byte(
            f,
            format,
            y,
            o,
        )
}

proof fn lemma_plane_index(x: int, y: int, w: int, h: int, stride: int, bpp: int, len: int)
    requires
        0 <= x < w,
        0 <= y < h,
        0 < bpp,
        stride >= w * bpp,
        (h - 1) * stride + w * bpp <= len,
    ensures
        0 <= y * stride,
        0 <= x * bpp,
        y * stride + x * bpp + bpp <= len,
        y * stride <= (h - 1) * stride,
{
    assert(y * stride <= (h - 1) * stride) by (nonlinear_arith)
        requires
            0 <= y <= h - 1,
            0 <= stride,
    ;
    assert(x * bpp + bpp <= w * bpp) by (nonlinear_arith)
        requires
            0 <= x < w,
            0 < bpp,
    ;
    assert(0 <= y * stride) by (nonlinear_arith)
        requires
            0 <= y,
            0 <= stride,
    ;
    assert(0 <= x * bpp) by (nonlinear_arith)
        requires
            0 <= x,
            0 < bpp,
    ;
}

proof fn lemma_fitting_plane_covers_frame(len: int, w: int, h: int, stride: int, bpp: int)
    requires
        0 <= w,
        0 < h,
        1 <= bpp,
        plane_fits(len, w, h, stride, bpp),
    ensures
        w * h <= len,
{
    assert((h - 1) * stride >= (h - 1) * (w * bpp)) by (nonlinear_arith)
        requires
            h >= 1,
            stride >= w * bpp,
    ;
    assert((h - 1) * (w * bpp) + w * bpp == h * (w * bpp)) by (nonlinear_arith);
    assert(h * (w * bpp) >= w * h) by (nonlinear_arith)
        requires
            h >= 1,
            w >= 0,
            bpp >= 1,
    ;
}

/// Copies a decoded plane into an owned frame, row by row at its true stride,
/// so that padding at the end of each row never shears the image.
pub fn frame_from_plane(
    plane: &[u8],
    width: u32,
    height: u32,
    stride: usize,
    format: PixelFormat,
) -> (r: Result<RawFrame, PlaneError>)
    ensures
        r is Ok <==> plane_fits(
            plane@.len() as int,
            width as int,
            height as int,
            stride as int,
            format.bpp() as int,
        ),
        r matches Err(e) ==> (e == PlaneError::StrideTooSmall <==> stride < width * format.bpp()),
        r matches Ok(f) ==> {
            &&& f.wf()
            &&& f@.width == width
            &&& f@.height == height
            &&& forall|x: int, y: int|
                0 <= x < width && 0 <= y < height ==> #[trigger] f@.at(x, y) == plane_pixel(
                    plane@,
                    stride as int,
                    format.bpp() as int,
                    x,
                    y,
                )
        },
{
    let bpp = format.bytes_per_pixel();
    let row_bytes: u128 = width as u128 * bpp as u128;
    if (stride as u128) < row_bytes {
        return Err(PlaneError::StrideTooSmall);
    }
    if height > 0 {
        assert((height - 1) * stride <= 0x1_0000_0000 * 0x1_0000_0000_0000_0000) by (nonlinear_arith)
            requires
                0 <= height - 1 < 0x1_0000_0000,
                0 <= stride < 0x1_0000_0000_0000_0000,
        ;
        let last_row_end: u128 = (height - 1) as u128 * stride as u128 + row_bytes;
        if last_row_end > plane.len() as u128 {
            return Err(PlaneError::PlaneTooShort);
        }
    }
    let plane_len = plane.len();
    let ghost len = plane@.len() as int;
    let ghost w = width as int;
    let ghost h = height as int;
    proof {
        if h > 0 {
            lemma_fitting_plane_covers_frame(len, w, h, stride as int, bpp as int);
        }
    }
    let mut pixels: Vec<Rgb> = Vec::new();
    let mut y: u32 = 0;
    while y < height
        invariant
            bpp == format.bpp(),
            3 <= bpp <= 4,
            len == plane@.len(),
            len == plane_len,
            w == width,
            h == height,
            plane_fits(len, w, h, stride as int, bpp as int),
            y <= height,
            pixels@.len() == y * w,
            forall|yy: int, xx: int|
                0 <= yy < y && 0 <= xx < w ==> #[trigger] pixels@[yy * w + xx] == plane_pixel(
                    plane@,
                    stride as int,
                    bpp as int,
                    xx,
                    yy,
                ),
        decreases height - y,
    {
        let mut x: u32 = 0;
        while x < width
            invariant
                bpp == format.bpp(),
                3 <= bpp <= 4,
                len == plane@.len(),
                len == plane_len,
            len == plane_len,
                w == width,
                h == height,
                plane_fits(len, w, h, stride as int, bpp as int),
                y < height,
                x <= width,
                pixels@.len() == y * w + x,
                forall|yy: int, xx: int|
                    0 <= yy < y && 0 <= xx < w ==> #[trigger] pixels@[yy * w + xx] == plane_pixel(
                        plane@,
                        stride as int,
                        bpp as int,
                        xx,
                        yy,
                    ),
                forall|xx: int|
                    0 <= xx < x ==> #[trigger] pixels@[y * w + xx] == plane_pixel(
                        plane@,
                        stride as int,
                        bpp as int,
                        xx,
                        y as int,
                    ),
            decreases width - x,
        {
            proof {
                lemma_plane_index(x as int, y as int, w, h, stride as int, bpp as int, len);
            }
            let base = y as usize * stride + x as usize * bpp;
            let p = Rgb { r: plane[base], g: plane[base + 1], b: plane[base + 2] };
            let ghost before = pixels@;
            pixels.push(p);
            proof {
                assert forall|yy: int, xx: int| 0 <= yy < y && 0 <= xx < w implies #[trigger] pixels@[yy
                    * w + xx] == plane_pixel(plane@, stride as int, bpp as int, xx, yy) by {
                    lemma_index_in_grid(xx, yy, w, y as int);
                    assert(before[yy * w + xx] == plane_pixel(
                        plane@,
                        stride as int,
                        bpp as int,
                        xx,
                        yy,
                    ));
                }
                assert forall|xx: int| 0 <= xx < x + 1 implies #[trigger] pixels@[y * w + xx]
                    == plane_pixel(plane@, stride as int, bpp as int, xx, y as int) by {
                    if xx < x {
                        assert(before[y * w + xx] == plane_pixel(
                            plane@,
                            stride as int,
                            bpp as int,
                            xx,
                            y as int,
                        ));
                    }
                }
            }
            x = x + 1;
        }
        proof {
            assert((y + 1) * w == y * w + w) by (nonlinear_arith);
            assert forall|yy: int, xx: int| 0 <= yy < y + 1 && 0 <= xx < w implies #[trigger] pixels@[yy
                * w + xx] == plane_pixel(plane@, stride as int, bpp as int, xx, yy) by {
                if yy == y {
                    assert(pixels@[y * w + xx] == plane_pixel(
                        plane@,
                        stride as int,
                        bpp as int,
                        xx,
                        y as int,
                    ));
                }
            }
        }
        y = y + 1;
    }
    assert(h * w == w * h) by (nonlinear_arith);
    let r = RawFrame::new(width, height, pixels);
    Ok(r.unwrap())
}

/// Lays a frame out as a plane of `stride` bytes per row, padding each row
/// with zeros; `None` when a row does not fit in `stride` bytes or the plane
/// would not fit in memory.
pub fn pack_rows(frame: &RawFrame, stride: usize, format: PixelFormat) -> (r: Option<Vec<u8>>)
    requires
        frame.wf(),
    ensures
        r is Some <==> (stride >= frame@.width * format.bpp() && frame@.height * stride
            <= usize::MAX),
        r matches Some(plane) ==> is_packing(plane@, frame@, stride as int, format),
{
    let bpp = format.bytes_per_pixel();
    let width = frame.width();
    let height = frame.height();
    let row_bytes: u128 = width as u128 * bpp as u128;
    if (stride as u128) < row_bytes {
        return None;
    }
    assert(height * stride <= 0x1_0000_0000 * 0x1_0000_0000_0000_0000) by (nonlinear_arith)
        requires
            0 <= height < 0x1_0000_0000,
            0 <= stride < 0x1_0000_0000_0000_0000,
    ;
    if height as u128 * stride as u128 > usize::MAX as u128 {
        return None;
    }
    let row_len = row_bytes as usize;
    let ghost f = frame@;
    let ghost st = stride as int;
    let mut out: Vec<u8> = Vec::new();
    let mut y: u32 = 0;
    while y < height
        invariant
            frame.wf(),
            f == frame@,
            f.width == width,
            f.height == height,
            bpp == format.bpp(),
            3 <= bpp <= 4,
            row_len == width * bpp,
            row_len <= stride,
            st == stride,
            height * st <= usize::MAX,
            y <= height,
            out@.len() == y * st,
            forall|yy: int, o: int|
                0 <= yy < y && 0 <= o < st ==> #[trigger] out@[yy * st + o] == packed_byte(
                    f,
                    format,
                    yy,
                    o,
                ),
        decreases height - y,
    {
        let mut o: usize = 0;
        while o < stride
            invariant
                frame.wf(),
                f == frame@,
                f.width == width,
                f.height == height,
                bpp == format.bpp(),
                3 <= bpp <= 4,
                row_len == width * bpp,
                row_len <= stride,
                st == stride,
                height * st <= usize::MAX,
                y < height,
                o <= stride,
                out@.len() == y * st + o,
                forall|yy: int, oo: int|
                    0 <= yy < y && 0 <= oo < st ==> #[trigger] out@[yy * st + oo] == packed_byte(
                        f,
                        format,
                        yy,
                        oo,
                    ),
                forall|oo: int|
                    0 <= oo < o ==> #[trigger] out@[y * st + oo] == packed_byte(
                        f,
                        format,
                        y as int,
                        oo,
                    ),
            decreases stride - o,
        {
            let byte = if o < row_len {
                let x = o / bpp;
                let c = o % bpp;
                proof {
                    assert(x < width) by {
                        vstd::arithmetic::div_mod::lemma_div_is_ordered(o as int, (width * bpp - 1) as int, bpp as int);
                        assert((width * bpp - 1) as int / (bpp as int) < width) by {
                            vstd::arithmetic::div_mod::lemma_div_is_ordered((width * bpp - 1) as int, (width * bpp) as int, bpp as int);
                            assert((width * bpp) as int == (bpp as int) * (width as int)) by (nonlinear_arith);
                            vstd::arithmetic::div_mod::lemma_div_multiples_vanish(width as int, bpp as int);
                            if (width * bpp - 1) as int / (bpp as int) == width as int {
                                vstd::arithmetic::div_mod::lemma_fundamental_div_mod((width * bpp - 1) as int, bpp as int);
                                assert((bpp as int) * (width as int) <= (width * bpp - 1) as int);
                            }
                        }
                    }
                }
                let p = frame.pixel(x as u32, y);
                if c == 0 {
                    p.r
                } else if c == 1 {
                    p.g
                } else if c == 2 {
                    p.b
                } else {
                    255u8
                }
            } else {
                0u8
            };
            proof {
                lemma_index_in_grid(o as int, y as int, st, height as int);
            }
            let ghost before = out@;
            out.push(byte);
            proof {
                assert forall|yy: int, oo: int| 0 <= yy < y && 0 <= oo < st implies #[trigger] out@[yy
                    * st + oo] == packed_byte(f, format, yy, oo) by {
                    lemma_index_in_grid(oo, yy, st, y as int);
                    assert(before[yy * st + oo] == packed_byte(f, format, yy, oo));
                }
                assert forall|oo: int| 0 <= oo < o + 1 implies #[trigger] out@[y * st + oo]
                    == packed_byte(f, format, y as int, oo) by {
                    if oo < o {
                        assert(before[y * st + oo] == packed_byte(f, format, y as int, oo));
                    }
                }
            }
            o = o + 1;
        }
        proof {
            assert((y + 1) * st == y * st + st) by (nonlinear_arith);
            assert forall|yy: int, oo: int| 0 <= yy < y + 1 && 0 <= oo < st implies #[trigger] out@[yy
                * st + oo] == packed_byte(f, format, yy, oo) by {
                if yy == y {
                    assert(out@[y * st + oo] == packed_byte(f, format, y as int, oo));
                }
            }
        }
        y = y + 1;
    }
    Some(out)
}

/// Reading back a plane that holds a frame at any stride wide enough for its
/// rows gives the frame's pixels exactly: padding never leaks into the image.
pub proof fn lemma_unpack_inverts_pack(plane: Seq<u8>, f: FrameView, stride: int, format: PixelFormat)
    requires
        f.well_formed(),
        stride >= f.width * format.bpp(),
        is_packing(plane, f, stride, format),
    ensures
        plane_fits(plane.len() as int, f.width as int, f.height as int, stride, format.bpp() as int),
        forall|x: int, y: int|
            0 <= x < f.width && 0 <= y < f.height ==> plane_pixel(
                plane,
                stride,
                format.bpp() as int,
                x,
                y,
            ) == #[trigger] f.at(x, y),
{
    let bpp = format.bpp() as int;
    let w = f.width as int;
    let h = f.height as int;
    if h > 0 {
        assert((h - 1) * stride + stride == h * stride) by (nonlinear_arith);
    }
    assert forall|x: int, y: int| 0 <= x < w && 0 <= y < h implies plane_pixel(
        plane,
        stride,
        bpp,
        x,
        y,
    ) == #[trigger] f.at(x, y) by {
        assert(x * bpp + bpp <= w * bpp) by (nonlinear_arith)
            requires
                0 <= x < w,
                0 < bpp,
        ;
        assert(0 <= x * bpp) by (nonlinear_arith)
            requires
                0 <= x,
                0 < bpp,
        ;
        assert forall|c: int| 0 <= c < 3 implies plane[y * stride + x * bpp + c] == channel(
            f.at(x, y),
            c,
        ) by {
            let o = x * bpp + c;
            vstd::arithmetic::div_mod::lemma_fundamental_div_mod_converse(o, bpp, x, c);
            assert(y * stride + x * bpp + c == y * stride + o);
            assert(plane[y * stride + o] == packed_byte(f, format, y, o));
        }
        assert(plane[y * stride + x * bpp + 0] == channel(f.at(x, y), 0));
        assert(plane[y * stride + x * bpp + 1] == channel(f.at(x, y), 1));
        assert(plane[y * stride + x * bpp + 2] == channel(f.at(x, y), 2));
    }
}

} // verus!
