//! The layout engine.
//!
//! Once per frame the drawing surface is partitioned into three disjoint
//! regions: the left half is a panel stack (font atlas on top, zoomed
//! character below, each half the stack's height); the right half is the
//! map's nominal region.  The map cell scale is the smaller of
//! `nominal_w / columns` and `nominal_h / rows`, so the scaled grid
//! overflows neither axis, and the grid is centred inside the nominal
//! region; the layout carries that centred sub-rectangle, never the raw
//! half-surface split.  A zero-size grid is a hard precondition violation;
//! a zero or negative surface (a minimised window) yields a zero-area
//! layout instead of failing.

use vstd::prelude::*;

use crate::geometry::Rect;
use crate::geometry::FracPoint;
use crate::geometry::in_rect;
use crate::ratio::Frac;
use crate::ratio::FRAC_LIMIT;
use crate::ratio::Ratio;
use crate::ratio::f_capped;
use crate::ratio::lemma_mul_bounds;
use crate::ratio::lemma_mul_pos;
use crate::ratio::lemma_r_eq_trans;
use crate::ratio::lemma_r_le_trans;
use crate::ratio::lemma_r_lt_le_trans;
use crate::ratio::r_add;
use crate::ratio::r_div;
use crate::ratio::r_div_int;
use crate::ratio::r_eq;
use crate::ratio::r_le;
use crate::ratio::r_min;
use crate::ratio::r_mul_int;
use crate::ratio::r_of_int;
use crate::ratio::r_sub;
use crate::ratio::r_wf;
use crate::ratio::r_zero;

verus! {

/// Surface dimensions accepted per axis, in pixels.  Far beyond any real
/// display, low enough that every intermediate product fits an `i64`.
pub const MAX_SURFACE_DIM: i64 = 0x10_0000;

/// Grid cells accepted per axis, for the same reason.
pub const MAX_GRID_DIM: usize = 0x1_0000;

/// Caps on a region's origin coordinates as produced by the layout engine.
pub const POS_NUM_CAP: i64 = 0x400_0000_0000;

pub const POS_DEN_CAP: i64 = 0x10_0000;

/// Caps on a region's extent and on the cell scale.
pub const SIZE_NUM_CAP: i64 = 0x10_0000_0000;

pub const SIZE_DEN_CAP: i64 = 0x2_0000;

/// The drawing surface's size in pixels, as the windowing side reports it.
#[derive(Clone, Copy, Debug, PartialEq, Eq, Structural)]
pub struct SurfaceSize {
    pub width: i64,
    pub height: i64,
}

/// The shape of the map grid, constant for a session.
#[derive(Clone, Copy, Debug, PartialEq, Eq, Structural)]
pub struct GridDimensions {
    pub columns: usize,
    pub rows: usize,
}

/// The one hard failure of the layout engine: an empty grid cannot be
/// displayed and signals a malformed upstream decode.
#[derive(Clone, Copy, Debug, PartialEq, Eq, Structural)]
pub enum LayoutError {
    PreconditionViolation,
}

/// The per-frame layout: three disjoint regions and the uniform map cell
/// scale.  `map_region` is the centred, scaled sub-rectangle of the right
/// half-surface; consumers never see the raw half split.
#[derive(Clone, Copy, Debug)]
pub struct Layout {
    pub map_region: Rect,
    pub font_region: Rect,
    pub char_region: Rect,
    pub map_cell_scale: Frac,
}

/// A region description in the mathematical world.
pub struct RegionSpec {
    pub x: Ratio,
    pub y: Ratio,
    pub w: Ratio,
    pub h: Ratio,
}

/// The rectangle's fields take exactly the described values.
pub open spec fn rect_is(r: Rect, s: RegionSpec) -> bool {
    &&& r.x@ == s.x
    &&& r.y@ == s.y
    &&& r.w@ == s.w
    &&& r.h@ == s.h
}

pub open spec fn zero_region() -> RegionSpec {
    RegionSpec { x: r_zero(), y: r_zero(), w: r_zero(), h: r_zero() }
}

/// Left edge of the map's nominal region: the surface's vertical midline.
pub open spec fn nominal_map_x(sx: int, sw: int) -> Ratio {
    r_add(r_of_int(sx), r_div_int(r_of_int(sw), 2))
}

/// Candidate scale that makes the grid exactly as wide as the nominal
/// region: `(sw / 2) / columns`.
pub open spec fn scale_by_width(sw: int, columns: int) -> Ratio {
    r_div(r_div_int(r_of_int(sw), 2), r_of_int(columns))
}

/// Candidate scale that makes the grid exactly as tall as the nominal
/// region: `sh / rows`.
pub open spec fn scale_by_height(sh: int, rows: int) -> Ratio {
    r_div(r_of_int(sh), r_of_int(rows))
}

/// The canonical map cell scale: always the smaller candidate, which
/// overflows neither axis and is monotonic in the surface size.
pub open spec fn chosen_scale(sw: int, sh: int, columns: int, rows: int) -> Ratio {
    r_min(scale_by_width(sw, columns), scale_by_height(sh, rows))
}

/// The centred map region for a surface rectangle `(sx, sy, sw, sh)`:
/// the scaled grid's extent, offset so the leftover margin of the nominal
/// right half splits evenly on each axis.
pub open spec fn map_region_spec(
    sx: int,
    sy: int,
    sw: int,
    sh: int,
    columns: int,
    rows: int,
) -> RegionSpec {
    let scale = chosen_scale(sw, sh, columns, rows);
    let used_w = r_mul_int(scale, columns);
    let used_h = r_mul_int(scale, rows);
    RegionSpec {
        x: r_add(nominal_map_x(sx, sw), r_div_int(r_sub(r_div_int(r_of_int(sw), 2), used_w), 2)),
        y: r_add(r_of_int(sy), r_div_int(r_sub(r_of_int(sh), used_h), 2)),
        w: used_w,
        h: used_h,
    }
}

/// The font atlas region: top half of the left panel stack.
pub open spec fn font_region_spec(width: int, height: int) -> RegionSpec {
    RegionSpec {
        x: r_of_int(0),
        y: r_of_int(0),
        w: Ratio { n: width, d: 2 },
        h: Ratio { n: height, d: 2 },
    }
}

/// The zoomed character region: bottom half of the left panel stack.
pub open spec fn char_region_spec(width: int, height: int) -> RegionSpec {
    RegionSpec {
        x: r_of_int(0),
        y: Ratio { n: height, d: 2 },
        w: Ratio { n: width, d: 2 },
        h: Ratio { n: height, d: 2 },
    }
}

/// All fields of a region within the caps the picker's arithmetic needs.
pub open spec fn region_capped(r: Rect) -> bool {
    &&& f_capped(r.x, POS_NUM_CAP as int, POS_DEN_CAP as int)
    &&& f_capped(r.y, POS_NUM_CAP as int, POS_DEN_CAP as int)
    &&& f_capped(r.w, SIZE_NUM_CAP as int, SIZE_DEN_CAP as int)
    &&& f_capped(r.h, SIZE_NUM_CAP as int, SIZE_DEN_CAP as int)
}

impl Layout {
    /// What every layout handed to the picker satisfies: well-formed
    /// regions with representable far edges, bounded coordinates, a
    /// nonnegative scale, and a positive scale wherever the map region
    /// has positive width.
    pub open spec fn wf(self) -> bool {
        &&& self.map_region.wf()
        &&& self.font_region.wf()
        &&& self.char_region.wf()
        &&& self.map_region.edges_fit()
        &&& self.font_region.edges_fit()
        &&& self.char_region.edges_fit()
        &&& region_capped(self.map_region)
        &&& region_capped(self.font_region)
        &&& region_capped(self.char_region)
        &&& self.map_cell_scale.wf()
        &&& f_capped(self.map_cell_scale, MAX_SURFACE_DIM as int, SIZE_DEN_CAP as int)
        &&& 0 <= self.map_cell_scale@.n
        &&& (0 < self.map_region.w@.n ==> 0 < self.map_cell_scale@.n)
    }
}

/// The layout a surface and a grid determine: a zero or negative surface
/// gives the zero-area layout; otherwise the three regions and the scale
/// take their canonical values.
pub open spec fn layout_spec(width: int, height: int, columns: int, rows: int, l: Layout) -> bool {
    if width <= 0 || height <= 0 {
        &&& rect_is(l.map_region, zero_region())
        &&& rect_is(l.font_region, zero_region())
        &&& rect_is(l.char_region, zero_region())
        &&& l.map_cell_scale@ == r_zero()
    } else {
        &&& rect_is(l.font_region, font_region_spec(width, height))
        &&& rect_is(l.char_region, char_region_spec(width, height))
        &&& rect_is(l.map_region, map_region_spec(0, 0, width, height, columns, rows))
        &&& l.map_cell_scale@ == chosen_scale(width, height, columns, rows)
    }
}

/// For every positive surface and grid, the chosen scale is exactly the
/// smaller of the two axis candidates, and the scaled grid extent overflows
/// neither axis of the nominal half-surface region.
pub proof fn lemma_scale_no_overflow(sw: int, sh: int, columns: int, rows: int)
    requires
        0 < sw,
        0 < sh,
        0 < columns,
        0 < rows,
    ensures
        chosen_scale(sw, sh, columns, rows) == r_min(
            scale_by_width(sw, columns),
            scale_by_height(sh, rows),
        ),
        r_le(
            r_mul_int(chosen_scale(sw, sh, columns, rows), columns),
            r_div_int(r_of_int(sw), 2),
        ),
        r_le(r_mul_int(chosen_scale(sw, sh, columns, rows), rows), r_of_int(sh)),
{
    let a = scale_by_width(sw, columns);
    let b = scale_by_height(sh, rows);
    assert(a.n == sw && a.d == 2 * columns);
    assert(b.n == sh && b.d == rows);
    if r_le(a, b) {
        assert((sw * columns) * 2 <= sw * (2 * columns)) by (nonlinear_arith);
        assert((sw * rows) * 1 <= sh * (2 * columns)) by (nonlinear_arith)
            requires
                sw * rows <= sh * (2 * columns),
        ;
    } else {
        assert((sh * rows) * 1 <= sh * rows);
        assert((sh * columns) * 2 <= sw * rows) by (nonlinear_arith)
            requires
                sh * (2 * columns) <= sw * rows,
        ;
    }
}

/// Adding in either association order gives equal rational values.
pub proof fn lemma_add_assoc_eq(x: Ratio, a: Ratio, b: Ratio)
    requires
        r_wf(x),
        r_wf(a),
        r_wf(b),
    ensures
        r_eq(r_add(r_add(x, a), b), r_add(x, r_add(a, b))),
{
    let lhs = r_add(r_add(x, a), b);
    let rhs = r_add(x, r_add(a, b));
    assert(lhs.n == rhs.n && lhs.d == rhs.d) by (nonlinear_arith)
        requires
            lhs.n == (x.n * a.d + a.n * x.d) * b.d + b.n * (x.d * a.d),
            lhs.d == (x.d * a.d) * b.d,
            rhs.n == x.n * (a.d * b.d) + (a.n * b.d + b.n * a.d) * x.d,
            rhs.d == x.d * (a.d * b.d),
    ;
}

/// Half the margin plus half the used extent is half the nominal extent.
pub proof fn lemma_half_split(nw: Ratio, u: Ratio)
    requires
        r_wf(nw),
        r_wf(u),
    ensures
        r_eq(r_add(r_div_int(r_sub(nw, u), 2), r_div_int(u, 2)), r_div_int(nw, 2)),
{
    let lhs = r_add(r_div_int(r_sub(nw, u), 2), r_div_int(u, 2));
    assert(lhs.n * (nw.d * 2) == nw.n * lhs.d) by (nonlinear_arith)
        requires
            lhs.n == (nw.n * u.d - u.n * nw.d) * (u.d * 2) + u.n * (((nw.d * u.d) * 2)),
            lhs.d == ((nw.d * u.d) * 2) * (u.d * 2),
    ;
}

/// Adding the same value to equal values gives equal values.
pub proof fn lemma_add_eq_right(x: Ratio, a: Ratio, b: Ratio)
    requires
        r_wf(x),
        r_wf(a),
        r_wf(b),
        r_eq(a, b),
    ensures
        r_eq(r_add(x, a), r_add(x, b)),
{
    let lhs = r_add(x, a);
    let rhs = r_add(x, b);
    assert((x.n * a.d + a.n * x.d) * (x.d * b.d) == x.n * a.d * x.d * b.d + a.n * x.d * x.d * b.d)
        by (nonlinear_arith);
    assert((x.n * b.d + b.n * x.d) * (x.d * a.d) == x.n * b.d * x.d * a.d + b.n * x.d * x.d * a.d)
        by (nonlinear_arith);
    assert(x.n * a.d * x.d * b.d == x.n * b.d * x.d * a.d) by (nonlinear_arith);
    assert(a.n * x.d * x.d * b.d == b.n * x.d * x.d * a.d) by (nonlinear_arith)
        requires
            a.n * b.d == b.n * a.d,
    ;
    assert(lhs.n * rhs.d == rhs.n * lhs.d) by (nonlinear_arith)
        requires
            lhs.n == x.n * a.d + a.n * x.d,
            lhs.d == x.d * a.d,
            rhs.n == x.n * b.d + b.n * x.d,
            rhs.d == x.d * b.d,
            (x.n * a.d + a.n * x.d) * (x.d * b.d) == x.n * a.d * x.d * b.d + a.n * x.d * x.d * b.d,
            (x.n * b.d + b.n * x.d) * (x.d * a.d) == x.n * b.d * x.d * a.d + b.n * x.d * x.d * a.d,
            x.n * a.d * x.d * b.d == x.n * b.d * x.d * a.d,
            a.n * x.d * x.d * b.d == b.n * x.d * x.d * a.d,
    ;
}

/// Centring is exact: on each axis, the midpoint of the centred map region
/// is the midpoint of the nominal half-surface region.
pub proof fn lemma_center_identity(nx: Ratio, nw: Ratio, u: Ratio)
    requires
        r_wf(nx),
        r_wf(nw),
        r_wf(u),
    ensures
        r_eq(
            r_add(r_add(nx, r_div_int(r_sub(nw, u), 2)), r_div_int(u, 2)),
            r_add(nx, r_div_int(nw, 2)),
        ),
{
    let a = r_div_int(r_sub(nw, u), 2);
    let b = r_div_int(u, 2);
    lemma_mul_pos(nw.d, u.d);
    lemma_mul_pos(nx.d, a.d);
    lemma_mul_pos(a.d, b.d);
    lemma_mul_pos(nx.d, a.d * b.d);
    lemma_mul_pos(nx.d * a.d, b.d);
    lemma_mul_pos(nx.d, nw.d * 2);
    lemma_add_assoc_eq(nx, a, b);
    lemma_half_split(nw, u);
    lemma_add_eq_right(nx, r_add(a, b), r_div_int(nw, 2));
    lemma_r_eq_trans(
        r_add(r_add(nx, a), b),
        r_add(nx, r_add(a, b)),
        r_add(nx, r_div_int(nw, 2)),
    );
}

/// The midpoints of the centred map region and of the nominal right half
/// coincide on both axes, for every surface and grid.
pub proof fn lemma_centering(sx: int, sy: int, sw: int, sh: int, columns: int, rows: int)
    requires
        0 < columns,
        0 < rows,
    ensures
        ({
            let m = map_region_spec(sx, sy, sw, sh, columns, rows);
            &&& r_eq(
                r_add(m.x, r_div_int(m.w, 2)),
                r_add(nominal_map_x(sx, sw), r_div_int(r_div_int(r_of_int(sw), 2), 2)),
            )
            &&& r_eq(
                r_add(m.y, r_div_int(m.h, 2)),
                r_add(r_of_int(sy), r_div_int(r_of_int(sh), 2)),
            )
        }),
{
    let scale = chosen_scale(sw, sh, columns, rows);
    assert(0 < scale.d) by (nonlinear_arith)
        requires
            0 < columns,
            0 < rows,
            scale.d == (1 * 2) * columns || scale.d == 1 * rows,
    ;
    lemma_center_identity(
        nominal_map_x(sx, sw),
        r_div_int(r_of_int(sw), 2),
        r_mul_int(scale, columns),
    );
    lemma_center_identity(r_of_int(sy), r_of_int(sh), r_mul_int(scale, rows));
}

/// Growing the surface while holding the grid fixed never shrinks the map
/// cell scale.
pub proof fn lemma_scale_monotone(sw1: int, sh1: int, sw2: int, sh2: int, columns: int, rows: int)
    requires
        0 <= sw1 <= sw2,
        0 <= sh1 <= sh2,
        0 < columns,
        0 < rows,
    ensures
        r_le(chosen_scale(sw1, sh1, columns, rows), chosen_scale(sw2, sh2, columns, rows)),
{
    let a1 = scale_by_width(sw1, columns);
    let b1 = scale_by_height(sh1, rows);
    let a2 = scale_by_width(sw2, columns);
    let b2 = scale_by_height(sh2, rows);
    let c1 = chosen_scale(sw1, sh1, columns, rows);
    assert(r_le(a1, a2)) by (nonlinear_arith)
        requires
            sw1 <= sw2,
            0 < columns,
            a1.n == sw1 * 1 && a1.d == (1 * 2) * columns,
            a2.n == sw2 * 1 && a2.d == (1 * 2) * columns,
    ;
    assert(r_le(b1, b2)) by (nonlinear_arith)
        requires
            sh1 <= sh2,
            0 < rows,
            b1.n == sh1 * 1 && b1.d == 1 * rows,
            b2.n == sh2 * 1 && b2.d == 1 * rows,
    ;
    assert(0 < a1.d && 0 < a2.d && 0 < b1.d && 0 < b2.d) by (nonlinear_arith)
        requires
            0 < columns,
            0 < rows,
            a1.d == (1 * 2) * columns,
            a2.d == (1 * 2) * columns,
            b1.d == 1 * rows,
            b2.d == 1 * rows,
    ;
    assert(r_le(c1, a1) && r_le(c1, b1));
    lemma_r_le_trans(c1, a1, a2);
    lemma_r_le_trans(c1, b1, b2);
}

/// A value does not decrease when a nonnegative amount is added.
pub proof fn lemma_add_nonneg(a: Ratio, m: Ratio)
    requires
        r_wf(a),
        r_wf(m),
        0 <= m.n,
    ensures
        r_le(a, r_add(a, m)),
{
    assert(a.n * (a.d * m.d) <= (a.n * m.d + m.n * a.d) * a.d) by (nonlinear_arith)
        requires
            0 < a.d,
            0 < m.d,
            0 <= m.n,
    ;
}

/// The three regions of a layout are pairwise disjoint: no pointer position
/// lies in two of them.
pub proof fn lemma_regions_disjoint(
    l: Layout,
    width: int,
    height: int,
    columns: int,
    rows: int,
    px: Ratio,
    py: Ratio,
)
    requires
        0 < width,
        0 < height,
        0 < columns,
        0 < rows,
        layout_spec(width, height, columns, rows, l),
        r_wf(px),
        r_wf(py),
    ensures
        !(in_rect(l.font_region, px, py) && in_rect(l.char_region, px, py)),
        !(in_rect(l.font_region, px, py) && in_rect(l.map_region, px, py)),
        !(in_rect(l.char_region, px, py) && in_rect(l.map_region, px, py)),
{
    let scale = chosen_scale(width, height, columns, rows);
    let used_w = r_mul_int(scale, columns);
    let nominal_w = r_div_int(r_of_int(width), 2);
    let nx = nominal_map_x(0, width);
    let margin = r_sub(nominal_w, used_w);
    let half_margin = r_div_int(margin, 2);
    assert(0 < scale.d) by (nonlinear_arith)
        requires
            0 < columns,
            0 < rows,
            scale.d == (1 * 2) * columns || scale.d == 1 * rows,
    ;
    assert(nx.d == 2 && nominal_w.d == 2) by (nonlinear_arith)
        requires
            nx.d == 1 * (1 * 2),
            nominal_w.d == 1 * 2,
    ;
    lemma_scale_no_overflow(width, height, columns, rows);
    // the margin is nonnegative, so the centred region starts no further
    // left than the surface's midline, where the panel stack ends
    assert(0 <= half_margin.n);
    lemma_mul_pos(nominal_w.d, used_w.d);
    lemma_mul_pos(margin.d, 2);
    lemma_mul_pos(nx.d, half_margin.d);
    lemma_add_nonneg(nx, half_margin);
    assert(l.map_region.x@ == r_add(nx, half_margin));
    let font_right = r_add(l.font_region.x@, l.font_region.w@);
    assert(font_right.n == nx.n && font_right.d == nx.d) by (nonlinear_arith)
        requires
            font_right.n == 0 * 2 + width * 1,
            font_right.d == 1 * 2,
            nx.n == 0 * (1 * 2) + width * 1,
            nx.d == 1 * (1 * 2),
    ;
    if in_rect(l.font_region, px, py) && in_rect(l.map_region, px, py) {
        // px < midline <= map origin <= px
        lemma_r_lt_le_trans(px, nx, l.map_region.x@);
        assert(false);
    }
    if in_rect(l.char_region, px, py) && in_rect(l.map_region, px, py) {
        let char_right = r_add(l.char_region.x@, l.char_region.w@);
        assert(char_right.n == nx.n && char_right.d == nx.d) by (nonlinear_arith)
            requires
                char_right.n == 0 * 2 + width * 1,
                char_right.d == 1 * 2,
                nx.n == 0 * (1 * 2) + width * 1,
                nx.d == 1 * (1 * 2),
        ;
        lemma_r_lt_le_trans(px, nx, l.map_region.x@);
        assert(false);
    }
    // the font region ends at half height exactly where the character
    // region begins, and containment is half open
    let font_bottom = r_add(l.font_region.y@, l.font_region.h@);
    assert(font_bottom.n == l.char_region.y@.n && font_bottom.d == l.char_region.y@.d)
        by (nonlinear_arith)
        requires
            font_bottom.n == 0 * 2 + height * 1,
            font_bottom.d == 1 * 2,
            l.char_region.y@.n == height,
            l.char_region.y@.d == 2,
    ;
}

/// The uniform scale that fits a `map_width x map_height` grid into
/// `map_disp` without distortion: the smaller of the two axis candidates.
pub fn calc_map_scaler(map_disp: Rect, map_width: usize, map_height: usize) -> (r: Frac)
    requires
        map_disp.wf(),
        0 < map_width <= MAX_GRID_DIM,
        0 < map_height <= MAX_GRID_DIM,
        f_capped(map_disp.w, MAX_SURFACE_DIM as int, 2),
        f_capped(map_disp.h, MAX_SURFACE_DIM as int, 2),
    ensures
        r@ == r_min(
            r_div(map_disp.w@, r_of_int(map_width as int)),
            r_div(map_disp.h@, r_of_int(map_height as int)),
        ),
        r.wf(),
        f_capped(r, MAX_SURFACE_DIM as int, SIZE_DEN_CAP as int),
        0 <= r@.n,
        0 < map_disp.w@.n && 0 < map_disp.h@.n ==> 0 < r@.n,
{
    proof {
        lemma_mul_bounds(map_disp.w.den as int, map_width as int, 2, MAX_GRID_DIM as int);
        lemma_mul_bounds(map_disp.h.den as int, map_height as int, 2, MAX_GRID_DIM as int);
    }
    let width_scale: Frac = map_disp.w.over_whole(map_width);
    let height_scale: Frac = map_disp.h.over_whole(map_height);
    width_scale.min_with(height_scale)
}

/// Splits the right half of `screen_coords` off for the map, fits the grid
/// into it with the canonical scale, and centres the scaled grid there.
/// Returns the centred map rectangle and the scale.
pub fn calc_map_coords(screen_coords: Rect, width_cells: usize, height_cells: usize) -> (r: (
    Rect,
    Frac,
))
    requires
        screen_coords.wf(),
        0 < width_cells <= MAX_GRID_DIM,
        0 < height_cells <= MAX_GRID_DIM,
        screen_coords.x@.d == 1,
        screen_coords.y@.d == 1,
        screen_coords.w@.d == 1,
        screen_coords.h@.d == 1,
        -MAX_SURFACE_DIM <= screen_coords.x@.n <= MAX_SURFACE_DIM,
        -MAX_SURFACE_DIM <= screen_coords.y@.n <= MAX_SURFACE_DIM,
        screen_coords.w@.n <= MAX_SURFACE_DIM,
        screen_coords.h@.n <= MAX_SURFACE_DIM,
    ensures
        ({
            let s = map_region_spec(
                screen_coords.x@.n,
                screen_coords.y@.n,
                screen_coords.w@.n,
                screen_coords.h@.n,
                width_cells as int,
                height_cells as int,
            );
            &&& rect_is(r.0, s)
            &&& r.1@ == chosen_scale(
                screen_coords.w@.n,
                screen_coords.h@.n,
                width_cells as int,
                height_cells as int,
            )
        }),
        r.0.wf(),
        r.0.edges_fit(),
        region_capped(r.0),
        r.1.wf(),
        f_capped(r.1, MAX_SURFACE_DIM as int, SIZE_DEN_CAP as int),
        0 <= r.1@.n,
        0 < r.0.w@.n ==> 0 < r.1@.n,
{
    // split the screen at its vertical midline; the right part is the map
    let nominal_w: Frac = screen_coords.w.over_whole(2);
    proof {
        lemma_mul_bounds(
            screen_coords.x.num as int,
            nominal_w.den as int,
            MAX_SURFACE_DIM as int,
            2,
        );
        lemma_mul_bounds(nominal_w.num as int, screen_coords.x.den as int, MAX_SURFACE_DIM as int, 1);
        lemma_mul_bounds(screen_coords.x.den as int, nominal_w.den as int, 1, 2);
    }
    let nominal_x: Frac = screen_coords.x.plus(nominal_w);
    let nominal: Rect = Rect::new(nominal_x, screen_coords.y, nominal_w, screen_coords.h);

    let map_scaler: Frac = calc_map_scaler(nominal, width_cells, height_cells);

    proof {
        lemma_mul_bounds(
            map_scaler.num as int,
            width_cells as int,
            MAX_SURFACE_DIM as int,
            MAX_GRID_DIM as int,
        );
        lemma_mul_bounds(
            map_scaler.num as int,
            height_cells as int,
            MAX_SURFACE_DIM as int,
            MAX_GRID_DIM as int,
        );
    }
    let used_map_width: Frac = map_scaler.times_whole(width_cells);
    let used_map_height: Frac = map_scaler.times_whole(height_cells);

    proof {
        lemma_mul_bounds(
            nominal_w.num as int,
            used_map_width.den as int,
            MAX_SURFACE_DIM as int,
            SIZE_DEN_CAP as int,
        );
        lemma_mul_bounds(
            used_map_width.num as int,
            nominal_w.den as int,
            SIZE_NUM_CAP as int,
            2,
        );
        lemma_mul_bounds(
            screen_coords.h.num as int,
            used_map_height.den as int,
            MAX_SURFACE_DIM as int,
            SIZE_DEN_CAP as int,
        );
        lemma_mul_bounds(
            used_map_height.num as int,
            screen_coords.h.den as int,
            SIZE_NUM_CAP as int,
            2,
        );
        lemma_mul_bounds(nominal_w.den as int, used_map_width.den as int, 2, SIZE_DEN_CAP as int);
        lemma_mul_bounds(
            screen_coords.h.den as int,
            used_map_height.den as int,
            1,
            SIZE_DEN_CAP as int,
        );
    }
    let x_margin: Frac = nominal_w.minus(used_map_width);
    let y_margin: Frac = screen_coords.h.minus(used_map_height);
    let half_x_margin: Frac = x_margin.over_whole(2);
    let half_y_margin: Frac = y_margin.over_whole(2);

    proof {
        lemma_mul_bounds(
            nominal_x.num as int,
            half_x_margin.den as int,
            4 * MAX_SURFACE_DIM as int,
            4 * SIZE_DEN_CAP as int,
        );
        lemma_mul_bounds(
            half_x_margin.num as int,
            nominal_x.den as int,
            SIZE_NUM_CAP as int * 4,
            2,
        );
        lemma_mul_bounds(
            screen_coords.y.num as int,
            half_y_margin.den as int,
            MAX_SURFACE_DIM as int,
            4 * SIZE_DEN_CAP as int,
        );
        lemma_mul_bounds(
            half_y_margin.num as int,
            screen_coords.y.den as int,
            SIZE_NUM_CAP as int * 4,
            1,
        );
        lemma_mul_bounds(
            nominal_x.den as int,
            half_x_margin.den as int,
            2,
            4 * SIZE_DEN_CAP as int,
        );
        lemma_mul_bounds(
            screen_coords.y.den as int,
            half_y_margin.den as int,
            1,
            4 * SIZE_DEN_CAP as int,
        );
    }
    let map_x: Frac = nominal_x.plus(half_x_margin);
    let map_y: Frac = screen_coords.y.plus(half_y_margin);

    let map_disp: Rect = Rect::new(map_x, map_y, used_map_width, used_map_height);

    proof {
        // nonnegative extent: a nonnegative scale times a cell count
        lemma_mul_bounds(
            map_scaler.num as int,
            width_cells as int,
            MAX_SURFACE_DIM as int,
            MAX_GRID_DIM as int,
        );
        assert(0 <= used_map_width@.n && 0 <= used_map_height@.n) by (nonlinear_arith)
            requires
                0 <= map_scaler@.n,
                0 < width_cells,
                0 < height_cells,
                used_map_width@.n == map_scaler@.n * width_cells,
                used_map_height@.n == map_scaler@.n * height_cells,
        ;
        // the far edges of the centred rectangle stay representable
        lemma_mul_bounds(
            map_x.num as int,
            used_map_width.den as int,
            POS_NUM_CAP as int,
            SIZE_DEN_CAP as int,
        );
        lemma_mul_bounds(
            used_map_width.num as int,
            map_x.den as int,
            SIZE_NUM_CAP as int,
            POS_DEN_CAP as int,
        );
        lemma_mul_bounds(
            map_x.den as int,
            used_map_width.den as int,
            POS_DEN_CAP as int,
            SIZE_DEN_CAP as int,
        );
        lemma_mul_bounds(
            map_y.num as int,
            used_map_height.den as int,
            POS_NUM_CAP as int,
            SIZE_DEN_CAP as int,
        );
        lemma_mul_bounds(
            used_map_height.num as int,
            map_y.den as int,
            SIZE_NUM_CAP as int,
            POS_DEN_CAP as int,
        );
        lemma_mul_bounds(
            map_y.den as int,
            used_map_height.den as int,
            POS_DEN_CAP as int,
            SIZE_DEN_CAP as int,
        );
        // a visible map implies a positive scale
        if 0 < map_disp.w@.n {
            assert(0 < map_scaler@.n) by (nonlinear_arith)
                requires
                    0 < map_disp.w@.n,
                    map_disp.w@.n == map_scaler@.n * width_cells,
                    0 <= map_scaler@.n,
            ;
        }
    }
    (map_disp, map_scaler)
}

/// Partitions the surface and derives the map scale: the layout engine's
/// entry point, run once per frame.  Fails exactly on an empty grid; a
/// degenerate surface yields the zero-area layout so a minimised window
/// never crashes the frame loop.
pub fn compute_layout(surface: SurfaceSize, grid: GridDimensions) -> (r: Result<
    Layout,
    LayoutError,
>)
    requires
        surface.width <= MAX_SURFACE_DIM,
        surface.height <= MAX_SURFACE_DIM,
        grid.columns <= MAX_GRID_DIM,
        grid.rows <= MAX_GRID_DIM,
    ensures
        r is Err <==> grid.columns == 0 || grid.rows == 0,
        r is Err ==> r->Err_0 == LayoutError::PreconditionViolation,
        r is Ok ==> layout_spec(
            surface.width as int,
            surface.height as int,
            grid.columns as int,
            grid.rows as int,
            r->Ok_0,
        ),
        r is Ok ==> r->Ok_0.wf(),
{
    if grid.columns == 0 || grid.rows == 0 {
        return Err(LayoutError::PreconditionViolation);
    }
    if surface.width <= 0 || surface.height <= 0 {
        return Ok(
            Layout {
                map_region: Rect::zero(),
                font_region: Rect::zero(),
                char_region: Rect::zero(),
                map_cell_scale: Frac::zero(),
            },
        );
    }

    let half_w: Frac = Frac::new(surface.width, 2);
    let half_h: Frac = Frac::new(surface.height, 2);
    let font_region: Rect = Rect::new(Frac::zero(), Frac::zero(), half_w, half_h);
    let char_region: Rect = Rect::new(Frac::zero(), half_h, half_w, half_h);

    let screen: Rect = Rect::new(
        Frac::zero(),
        Frac::zero(),
        Frac::new(surface.width, 1),
        Frac::new(surface.height, 1),
    );
    let pair: (Rect, Frac) = calc_map_coords(screen, grid.columns, grid.rows);

    Ok(
        Layout {
            map_region: pair.0,
            font_region,
            char_region,
            map_cell_scale: pair.1,
        },
    )
}

/// Cell extent of the map display: the region's width and height divided
/// by the grid's column and row counts.
pub fn map_ch_dims(map_disp: Rect, columns: usize, rows: usize) -> (r: (Frac, Frac))
    requires
        map_disp.wf(),
        0 < columns,
        0 < rows,
        map_disp.w@.d * columns <= FRAC_LIMIT,
        map_disp.h@.d * rows <= FRAC_LIMIT,
    ensures
        r.0@ == r_div_int(map_disp.w@, columns as int),
        r.1@ == r_div_int(map_disp.h@, rows as int),
        r.0.wf(),
        r.1.wf(),
{
    (map_disp.w.over_whole(columns), map_disp.h.over_whole(rows))
}

/// The screen position of map cell `(x, y)`: the map region's origin plus
/// the cell coordinates scaled by the map cell scale.
pub fn map_pos_to_screen(map_disp: Rect, x: usize, y: usize, map_scaler: Frac) -> (r: FracPoint)
    requires
        map_disp.wf(),
        map_scaler.wf(),
        region_capped(map_disp),
        f_capped(map_scaler, MAX_SURFACE_DIM as int, SIZE_DEN_CAP as int),
        x <= MAX_GRID_DIM,
        y <= MAX_GRID_DIM,
    ensures
        r.x@ == r_add(map_disp.x@, r_mul_int(map_scaler@, x as int)),
        r.y@ == r_add(map_disp.y@, r_mul_int(map_scaler@, y as int)),
        r.wf(),
{
    proof {
        lemma_mul_bounds(
            map_scaler.num as int,
            x as int,
            MAX_SURFACE_DIM as int,
            MAX_GRID_DIM as int,
        );
        lemma_mul_bounds(
            map_scaler.num as int,
            y as int,
            MAX_SURFACE_DIM as int,
            MAX_GRID_DIM as int,
        );
        lemma_mul_bounds(
            map_disp.x.num as int,
            map_scaler.den as int,
            POS_NUM_CAP as int,
            SIZE_DEN_CAP as int,
        );
        lemma_mul_bounds(
            map_disp.y.num as int,
            map_scaler.den as int,
            POS_NUM_CAP as int,
            SIZE_DEN_CAP as int,
        );
        lemma_mul_bounds(
            map_scaler.num as int * x as int,
            map_disp.x.den as int,
            SIZE_NUM_CAP as int,
            POS_DEN_CAP as int,
        );
        lemma_mul_bounds(
            map_scaler.num as int * y as int,
            map_disp.y.den as int,
            SIZE_NUM_CAP as int,
            POS_DEN_CAP as int,
        );
        lemma_mul_bounds(
            map_disp.x.den as int,
            map_scaler.den as int,
            POS_DEN_CAP as int,
            SIZE_DEN_CAP as int,
        );
        lemma_mul_bounds(
            map_disp.y.den as int,
            map_scaler.den as int,
            POS_DEN_CAP as int,
            SIZE_DEN_CAP as int,
        );
    }
    let sx: Frac = map_scaler.times_whole(x);
    let sy: Frac = map_scaler.times_whole(y);
    FracPoint { x: map_disp.x.plus(sx), y: map_disp.y.plus(sy) }
}

} // verus!
