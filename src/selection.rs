//! The scale-and-letterbox mapping used to show a frame inside a display area,
//! and its inverse, which turns a drag gesture into a crop rectangle.

use vstd::prelude::*;
use vstd::arithmetic::div_mod::{lemma_div_is_ordered, lemma_div_multiples_vanish};
use crate::crop::CropRect;

verus! {

/// A selection must be more than this many source pixels wide and high.
pub const MIN_SELECTION: u32 = 5;

/// A `source_w` by `source_h` frame shown as large as fits, centred, inside a
/// display area of `area_w` by `area_h` (whole display pixels).
#[derive(Clone, Copy, PartialEq, Eq, Debug, Structural)]
pub struct Letterbox {
    pub area_w: u32,
    pub area_h: u32,
    pub source_w: u32,
    pub source_h: u32,
}

/// A display coordinate `p` mapped back into a source axis of length `limit`,
/// where the frame starts at `offset` and is scaled by `num / den`.
pub open spec fn source_coord(p: int, offset: int, num: int, den: int, limit: int) -> int {
    if p <= offset {
        0
    } else {
        let v = (p - offset) * den / num;
        if v <= limit {
            v
        } else {
            limit
        }
    }
}

impl Letterbox {
    pub open spec fn valid(self) -> bool {
        self.area_w > 0 && self.area_h > 0 && self.source_w > 0 && self.source_h > 0
    }

    /// The width of the area, not its height, limits the scale.
    pub open spec fn width_limited(self) -> bool {
        self.area_w * self.source_h <= self.area_h * self.source_w
    }

    /// The scale factor is `scale_num() / scale_den()`.
    pub open spec fn scale_num(self) -> int {
        if self.width_limited() {
            self.area_w as int
        } else {
            self.area_h as int
        }
    }

    pub open spec fn scale_den(self) -> int {
        if self.width_limited() {
            self.source_w as int
        } else {
            self.source_h as int
        }
    }

    pub open spec fn shown_w(self) -> int {
        self.source_w * self.scale_num() / self.scale_den()
    }

    pub open spec fn shown_h(self) -> int {
        self.source_h * self.scale_num() / self.scale_den()
    }

    pub open spec fn offset_x(self) -> int {
        (self.area_w - self.shown_w()) / 2
    }

    pub open spec fn offset_y(self) -> int {
        (self.area_h - self.shown_h()) / 2
    }

    pub open spec fn source_x(self, px: int) -> int {
        source_coord(px, self.offset_x(), self.scale_num(), self.scale_den(), self.source_w as int)
    }

    pub open spec fn source_y(self, py: int) -> int {
        source_coord(py, self.offset_y(), self.scale_num(), self.scale_den(), self.source_h as int)
    }

    proof fn lemma_shown_fits(self)
        requires
            self.valid(),
        ensures
            0 <= self.shown_w() <= self.area_w,
            0 <= self.shown_h() <= self.area_h,
    {
        let sw = self.source_w as int;
        let sh = self.source_h as int;
        let aw = self.area_w as int;
        let ah = self.area_h as int;
        assert(0 <= sw * aw && 0 <= sh * aw && 0 <= sw * ah && 0 <= sh * ah) by (nonlinear_arith)
            requires
                0 <= sw && 0 <= sh && 0 <= aw && 0 <= ah,
        ;
        if self.width_limited() {
            assert(sw * aw == aw * sw) by (nonlinear_arith);
            lemma_div_multiples_vanish(aw, sw);
            assert(sh * aw == aw * sh) by (nonlinear_arith);
            assert(ah * sw == sw * ah) by (nonlinear_arith);
            lemma_div_is_ordered(sh * aw, sw * ah, sw);
            lemma_div_multiples_vanish(ah, sw);
            vstd::arithmetic::div_mod::lemma_div_pos_is_pos(sw * aw, sw);
            vstd::arithmetic::div_mod::lemma_div_pos_is_pos(sh * aw, sw);
        } else {
            assert(sh * ah == ah * sh) by (nonlinear_arith);
            lemma_div_multiples_vanish(ah, sh);
            assert(aw * sh == sh * aw) by (nonlinear_arith);
            lemma_div_is_ordered(sw * ah, sh * aw, sh);
            lemma_div_multiples_vanish(aw, sh);
            vstd::arithmetic::div_mod::lemma_div_pos_is_pos(sw * ah, sh);
            vstd::arithmetic::div_mod::lemma_div_pos_is_pos(sh * ah, sh);
        }
    }

    /// The size at which the frame is drawn.
    pub fn shown_size(&self) -> (r: (u32, u32))
        requires
            self.valid(),
        ensures
            r.0 == self.shown_w(),
            r.1 == self.shown_h(),
            r.0 <= self.area_w,
            r.1 <= self.area_h,
    {
        proof {
            self.lemma_shown_fits();
        }
        let (num, den) = self.scale();
        proof {
            lemma_u32_product(self.source_w as int, num as int);
            lemma_u32_product(self.source_h as int, num as int);
        }
        let w = (self.source_w as u64 * num) / den;
        let h = (self.source_h as u64 * num) / den;
        (w as u32, h as u32)
    }

    fn scale(&self) -> (r: (u64, u64))
        requires
            self.valid(),
        ensures
            r.0 == self.scale_num(),
            r.1 == self.scale_den(),
            0 < r.1 <= u32::MAX,
            0 < r.0 <= u32::MAX,
    {
        proof {
            lemma_u32_product(self.area_w as int, self.source_h as int);
            lemma_u32_product(self.area_h as int, self.source_w as int);
        }
        if (self.area_w as u64) * (self.source_h as u64) <= (self.area_h as u64) * (
        self.source_w as u64) {
            (self.area_w as u64, self.source_w as u64)
        } else {
            (self.area_h as u64, self.source_h as u64)
        }
    }

    /// Maps a display point, relative to the area's top-left corner, to the
    /// source pixel under it, clamped to the frame.
    pub fn to_source(&self, px: i64, py: i64) -> (r: (u32, u32))
        requires
            self.valid(),
        ensures
            r.0 == self.source_x(px as int),
            r.1 == self.source_y(py as int),
    {
        let (shown_w, shown_h) = self.shown_size();
        let (num, den) = self.scale();
        let off_x = (self.area_w - shown_w) / 2;
        let off_y = (self.area_h - shown_h) / 2;
        let x = map_axis(px, off_x as u64, num, den, self.source_w);
        let y = map_axis(py, off_y as u64, num, den, self.source_h);
        (x, y)
    }
}

proof fn lemma_u32_product(a: int, b: int)
    requires
        0 <= a <= u32::MAX,
        0 <= b <= u32::MAX,
    ensures
        0 <= a * b <= u64::MAX,
{
    assert(0 <= a * b <= u32::MAX * u32::MAX) by (nonlinear_arith)
        requires
            0 <= a <= u32::MAX,
            0 <= b <= u32::MAX,
    ;
}

fn map_axis(p: i64, offset: u64, num: u64, den: u64, limit: u32) -> (r: u32)
    requires
        0 < num <= u32::MAX,
        0 < den <= u32::MAX,
        offset <= u32::MAX,
    ensures
        r == source_coord(p as int, offset as int, num as int, den as int, limit as int),
{
    if (p as i128) <= (offset as i128) {
        0
    } else {
        let d = ((p as i128) - (offset as i128)) as u128;
        assert(d * den <= 0x1_0000_0000_0000_0000 * 0x1_0000_0000) by (nonlinear_arith)
            requires
                d < 0x1_0000_0000_0000_0000,
                den <= 0x1_0000_0000,
        ;
        let v = d * (den as u128) / (num as u128);
        if v <= limit as u128 {
            v as u32
        } else {
            limit
        }
    }
}

/// The crop rectangle selected by a drag from `start` to `end` (display points
/// relative to the area), or `None` when the letterbox is degenerate or the
/// selection is not more than `MIN_SELECTION` source pixels in each direction.
pub open spec fn selection_spec(lb: Letterbox, start: (i64, i64), end: (i64, i64)) -> Option<
    CropRect,
> {
    if !lb.valid() {
        None
    } else {
        let ax = lb.source_x(start.0 as int);
        let bx = lb.source_x(end.0 as int);
        let ay = lb.source_y(start.1 as int);
        let by = lb.source_y(end.1 as int);
        let x1 = if ax <= bx { ax } else { bx };
        let x2 = if ax <= bx { bx } else { ax };
        let y1 = if ay <= by { ay } else { by };
        let y2 = if ay <= by { by } else { ay };
        if x2 - x1 > MIN_SELECTION && y2 - y1 > MIN_SELECTION {
            Some(
                CropRect {
                    x: x1 as u32,
                    y: y1 as u32,
                    width: (x2 - x1) as u32,
                    height: (y2 - y1) as u32,
                },
            )
        } else {
            None
        }
    }
}

/// Turns a drag gesture into a crop rectangle in source coordinates: both
/// corners are mapped back through the letterbox, ordered, and clamped to the
/// frame; a selection too small to mean anything gives `None`.
pub fn selection_to_crop(lb: &Letterbox, start: (i64, i64), end: (i64, i64)) -> (r: Option<CropRect>)
    ensures
        r == selection_spec(*lb, start, end),
        r matches Some(c) ==> c.valid_for(lb.source_w as nat, lb.source_h as nat),
{
    if lb.area_w == 0 || lb.area_h == 0 || lb.source_w == 0 || lb.source_h == 0 {
        return None;
    }
    let (ax, ay) = lb.to_source(start.0, start.1);
    let (bx, by) = lb.to_source(end.0, end.1);
    let x1 = if ax <= bx { ax } else { bx };
    let x2 = if ax <= bx { bx } else { ax };
    let y1 = if ay <= by { ay } else { by };
    let y2 = if ay <= by { by } else { ay };
    if x2 - x1 > MIN_SELECTION && y2 - y1 > MIN_SELECTION {
        Some(CropRect { x: x1, y: y1, width: x2 - x1, height: y2 - y1 })
    } else {
        None
    }
}

} // verus!
