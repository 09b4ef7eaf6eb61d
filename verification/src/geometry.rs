//! Points and axis-aligned rectangles in surface coordinates.
//!
//! Coordinates are exact rationals (`Frac`), so a region edge such as half
//! an odd surface width, or a centred margin, is represented without loss.
//! A rectangle is `{x, y, w, h}` with nonnegative extent; containment is
//! half open on both axes: `[x, x + w) x [y, y + h)`, so that a degenerate
//! rectangle contains nothing and neighbouring cells never both claim a
//! boundary point.

use vstd::prelude::*;

use crate::ratio::Frac;
use crate::ratio::FRAC_LIMIT;
use crate::ratio::Ratio;
use crate::ratio::r_add;
use crate::ratio::r_le;
use crate::ratio::r_lt;
use crate::ratio::r_of_int;
use crate::ratio::r_sub;

verus! {

/// Cap on coordinates handed to the outline helper, far above any real
/// surface, low enough that offsetting by a pixel or two stays well formed.
pub const COORD_LIMIT: i64 = 0x1000_0000_0000_0000;

/// A position on the drawing surface.
#[derive(Clone, Copy, Debug)]
pub struct FracPoint {
    pub x: Frac,
    pub y: Frac,
}

impl FracPoint {
    pub open spec fn wf(self) -> bool {
        self.x.wf() && self.y.wf()
    }

    pub fn new(x: Frac, y: Frac) -> (r: FracPoint)
        ensures
            r.x == x,
            r.y == y,
    {
        FracPoint { x, y }
    }
}

/// An axis-aligned rectangle of the drawing surface.
#[derive(Clone, Copy, Debug)]
pub struct Rect {
    pub x: Frac,
    pub y: Frac,
    pub w: Frac,
    pub h: Frac,
}

/// A point lies in a rectangle; half open on the right and bottom edges.
pub open spec fn in_rect(r: Rect, px: Ratio, py: Ratio) -> bool {
    &&& r_le(r.x@, px)
    &&& r_lt(px, r_add(r.x@, r.w@))
    &&& r_le(r.y@, py)
    &&& r_lt(py, r_add(r.y@, r.h@))
}

impl Rect {
    /// Well formed: rational fields are well formed and the extent is
    /// nonnegative, as every region keeps it after any scale or move.
    pub open spec fn wf(self) -> bool {
        &&& self.x.wf()
        &&& self.y.wf()
        &&& self.w.wf()
        &&& self.h.wf()
        &&& 0 <= self.w@.n
        &&& 0 <= self.h@.n
    }

    /// The far edges `x + w` and `y + h` can be formed as `Frac` values.
    pub open spec fn edges_fit(self) -> bool {
        &&& -FRAC_LIMIT <= self.x@.n * self.w@.d + self.w@.n * self.x@.d <= FRAC_LIMIT
        &&& self.x@.d * self.w@.d <= FRAC_LIMIT
        &&& -FRAC_LIMIT <= self.y@.n * self.h@.d + self.h@.n * self.y@.d <= FRAC_LIMIT
        &&& self.y@.d * self.h@.d <= FRAC_LIMIT
    }

    pub fn new(x: Frac, y: Frac, w: Frac, h: Frac) -> (r: Rect)
        ensures
            r == (Rect { x, y, w, h }),
    {
        Rect { x, y, w, h }
    }

    /// The zero-area rectangle at the origin.
    pub fn zero() -> (r: Rect)
        ensures
            r.wf(),
            r.edges_fit(),
            r.x@ == r_of_int(0),
            r.y@ == r_of_int(0),
            r.w@ == r_of_int(0),
            r.h@ == r_of_int(0),
    {
        Rect { x: Frac::zero(), y: Frac::zero(), w: Frac::zero(), h: Frac::zero() }
    }

    /// Whether `p` lies in this rectangle.
    pub fn contains(&self, p: FracPoint) -> (r: bool)
        requires
            self.wf(),
            self.edges_fit(),
            p.wf(),
        ensures
            r == in_rect(*self, p.x@, p.y@),
    {
        let right: Frac = self.x.plus(self.w);
        let bottom: Frac = self.y.plus(self.h);
        self.x.le(p.x) && p.x.lt(right) && self.y.le(p.y) && p.y.lt(bottom)
    }
}

/// The outline drawn around a highlighted cell: the cell's rectangle grown
/// by one pixel on every side, to be stroked, not filled.
pub fn hightlight_square(pos: FracPoint, width: Frac, height: Frac) -> (r: Rect)
    requires
        pos.wf(),
        width.wf(),
        height.wf(),
        0 <= width@.n,
        0 <= height@.n,
        -COORD_LIMIT <= pos.x.num <= COORD_LIMIT,
        -COORD_LIMIT <= pos.y.num <= COORD_LIMIT,
        pos.x.den <= COORD_LIMIT,
        pos.y.den <= COORD_LIMIT,
        -COORD_LIMIT <= width.num <= COORD_LIMIT,
        -COORD_LIMIT <= height.num <= COORD_LIMIT,
        width.den <= COORD_LIMIT,
        height.den <= COORD_LIMIT,
    ensures
        r.wf(),
        r.x@ == r_sub(pos.x@, r_of_int(1)),
        r.y@ == r_sub(pos.y@, r_of_int(1)),
        r.w@ == r_add(width@, r_of_int(2)),
        r.h@ == r_add(height@, r_of_int(2)),
{
    let one: Frac = Frac::from_int(1);
    let two: Frac = Frac::from_int(2);
    Rect {
        x: pos.x.minus(one),
        y: pos.y.minus(one),
        w: width.plus(two),
        h: height.plus(two),
    }
}

} // verus!
