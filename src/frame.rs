//! Raw frames: a width, a height and one RGB sample per pixel, row by row.

use vstd::prelude::*;

verus! {

/// One 8-bit RGB pixel.
#[derive(Clone, Copy, PartialEq, Eq, Debug, Structural)]
pub struct Rgb {
    pub r: u8,
    pub g: u8,
    pub b: u8,
}

/// The mathematical content of a frame.
pub struct FrameView {
    pub width: nat,
    pub height: nat,
    pub pixels: Seq<Rgb>,
}

impl FrameView {
    /// The pixel in column `x` of row `y`.
    pub open spec fn at(self, x: int, y: int) -> Rgb {
        self.pixels[y * self.width + x]
    }

    /// Pixels are stored row-major, exactly `width * height` of them.
    pub open spec fn well_formed(self) -> bool {
        self.pixels.len() == self.width * self.height
    }
}

/// A decoded or captured frame. Immutable once built.
#[derive(Clone, Debug)]
pub struct RawFrame {
    width: u32,
    height: u32,
    pixels: Vec<Rgb>,
}

impl View for RawFrame {
    type V = FrameView;

    closed spec fn view(&self) -> FrameView {
        FrameView { width: self.width as nat, height: self.height as nat, pixels: self.pixels@ }
    }
}

impl RawFrame {
    /// Every frame built by this module is well formed.
    pub open spec fn wf(&self) -> bool {
        self@.well_formed()
    }

    /// Builds a frame from row-major pixels; `None` when the pixel count is not
    /// `width * height`.
    pub fn new(width: u32, height: u32, pixels: Vec<Rgb>) -> (r: Option<RawFrame>)
        ensures
            r is Some <==> pixels@.len() == width * height,
            r matches Some(f) ==> f.wf() && f@ == (FrameView {
                width: width as nat,
                height: height as nat,
                pixels: pixels@,
            }),
    {
        let len = pixels.len();
        let count = (width as u64).checked_mul(height as u64);
        match count {
            Some(n) => {
                if n == len as u64 {
                    Some(RawFrame { width, height, pixels })
                } else {
                    None
                }
            },
            None => {
                assert(len <= u64::MAX);
                None
            },
        }
    }

    pub fn width(&self) -> (r: u32)
        ensures
            r == self@.width,
    {
        self.width
    }

    pub fn height(&self) -> (r: u32)
        ensures
            r == self@.height,
    {
        self.height
    }

    /// The pixels, row by row.
    pub fn pixels(&self) -> (r: &Vec<Rgb>)
        ensures
            r@ == self@.pixels,
    {
        &self.pixels
    }

    /// The pixel in column `x` of row `y`.
    pub fn pixel(&self, x: u32, y: u32) -> (r: Rgb)
        requires
            self.wf(),
            x < self@.width,
            y < self@.height,
        ensures
            r == self@.at(x as int, y as int),
    {
        let len = self.pixels.len();
        proof {
            lemma_index_in_grid(x as int, y as int, self@.width as int, self@.height as int);
            assert(y * self.width <= y * self.width + x);
        }
        let i = y as usize * self.width as usize + x as usize;
        self.pixels[i]
    }
}

/// The synthetic pattern whose pixel (x, y) is `(x mod 256, y mod 256, 0)`.
pub open spec fn pattern_pixel(x: int, y: int) -> Rgb {
    Rgb { r: (x % 256) as u8, g: (y % 256) as u8, b: 0 }
}

/// A synthetic test frame: pixel (x, y) is `(x mod 256, y mod 256, 0)`.
/// `None` when the frame would not fit in memory.
pub fn test_pattern(width: u32, height: u32) -> (r: Option<RawFrame>)
    ensures
        r is Some <==> width * height <= usize::MAX,
        r matches Some(f) ==> {
            &&& f.wf()
            &&& f@.width == width
            &&& f@.height == height
            &&& forall|x: int, y: int|
                0 <= x < width && 0 <= y < height ==> #[trigger] f@.at(x, y) == pattern_pixel(x, y)
        },
{
    assert(width * height <= 0x1_0000_0000 * 0x1_0000_0000) by (nonlinear_arith)
        requires
            0 <= width < 0x1_0000_0000,
            0 <= height < 0x1_0000_0000,
    ;
    if width as u128 * height as u128 > usize::MAX as u128 {
        return None;
    }
    let ghost w = width as int;
    let mut pixels: Vec<Rgb> = Vec::new();
    let mut y: u32 = 0;
    while y < height
        invariant
            w == width,
            w * height <= usize::MAX,
            y <= height,
            pixels@.len() == y * w,
            forall|yy: int, xx: int|
                0 <= yy < y && 0 <= xx < w ==> #[trigger] pixels@[yy * w + xx] == pattern_pixel(xx, yy),
        decreases height - y,
    {
        let mut x: u32 = 0;
        while x < width
            invariant
                w == width,
                w * height <= usize::MAX,
                y < height,
                x <= width,
                pixels@.len() == y * w + x,
                forall|yy: int, xx: int|
                    0 <= yy < y && 0 <= xx < w ==> #[trigger] pixels@[yy * w + xx] == pattern_pixel(
                        xx,
                        yy,
                    ),
                forall|xx: int| 0 <= xx < x ==> #[trigger] pixels@[y * w + xx] == pattern_pixel(xx, y as int),
            decreases width - x,
        {
            let p = Rgb { r: (x % 256) as u8, g: (y % 256) as u8, b: 0 };
            let ghost before = pixels@;
            pixels.push(p);
            proof {
                assert forall|yy: int, xx: int| 0 <= yy < y && 0 <= xx < w implies #[trigger] pixels@[yy
                    * w + xx] == pattern_pixel(xx, yy) by {
                    lemma_index_in_grid(xx, yy, w, y as int);
                    assert(before[yy * w + xx] == pattern_pixel(xx, yy));
                }
                assert forall|xx: int| 0 <= xx < x + 1 implies #[trigger] pixels@[y * w + xx]
                    == pattern_pixel(xx, y as int) by {
                    if xx < x {
                        assert(before[y * w + xx] == pattern_pixel(xx, y as int));
                    }
                }
            }
            x = x + 1;
        }
        proof {
            assert((y + 1) * w == y * w + w) by (nonlinear_arith);
            assert forall|yy: int, xx: int| 0 <= yy < y + 1 && 0 <= xx < w implies #[trigger] pixels@[yy
                * w + xx] == pattern_pixel(xx, yy) by {
                if yy == y {
                    assert(pixels@[y * w + xx] == pattern_pixel(xx, y as int));
                }
            }
        }
        y = y + 1;
    }
    assert(height * w == w * height) by (nonlinear_arith);
    RawFrame::new(width, height, pixels)
}

/// A cell of a `width` by `height` grid has a row-major index below `width * height`.
pub proof fn lemma_index_in_grid(x: int, y: int, width: int, height: int)
    requires
        0 <= x < width,
        0 <= y < height,
    ensures
        0 <= y * width + x < width * height,
        y * width + x < height * width,
        y * width <= (height - 1) * width,
{
    assert(width * height == height * width) by (nonlinear_arith);
    assert(y * width <= (height - 1) * width) by (nonlinear_arith)
        requires
            0 <= y <= height - 1,
            0 < width,
    ;
    assert((height - 1) * width + width == width * height) by (nonlinear_arith);
    assert(0 <= y * width) by (nonlinear_arith)
        requires
            0 <= y,
            0 < width,
    ;
}

} // verus!
