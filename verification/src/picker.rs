//! The picker.
//!
//! Given the frame's layout, the decoded grid and the pointer position, the
//! picker decides which font atlas cell and which map cell the pointer
//! occupies.  Hovering a map cell selects that cell and the font cell of
//! its glyph; hovering the font atlas selects only the font cell, since
//! many map cells may share a glyph.  Every pointer position yields a valid
//! (possibly empty) selection: a pointer in the map region's margin, past
//! the last cell, or over an all-empty cell selects nothing.

use vstd::prelude::*;

use crate::geometry::FracPoint;
use crate::geometry::in_rect;
use crate::grid::FONT_GRID_SIDE;
use crate::grid::TileGrid;
use crate::grid::font_cell_to_glyph;
use crate::grid::glyph_char;
use crate::grid::glyph_to_font_cell;
use crate::layout::Layout;
use crate::layout::layout_spec;
use crate::layout::map_region_spec;
use crate::layout::chosen_scale;
use crate::ratio::Frac;
use crate::ratio::f_capped;
use crate::ratio::lemma_floor_div_at_least;
use crate::ratio::lemma_floor_div_below;
use crate::ratio::lemma_floor_div_upper;
use crate::ratio::lemma_floor_nonneg;
use crate::ratio::lemma_interval_offset;
use crate::ratio::lemma_mul_bounds;
use crate::ratio::lemma_mul_pos;
use crate::ratio::lemma_offset_within;
use crate::ratio::lemma_r_lt_le_trans;
use crate::ratio::Ratio;
use crate::ratio::r_add;
use crate::ratio::r_div;
use crate::ratio::r_div_int;
use crate::ratio::r_floor;
use crate::ratio::r_le;
use crate::ratio::r_lt;
use crate::ratio::r_mul_int;
use crate::ratio::r_sub;
use crate::ratio::r_wf;
use crate::ratio::r_zero;

verus! {

/// Caps on a pointer coordinate handed to the picker; the windowing side
/// reports positions within the surface, far inside these.
pub const PTR_NUM_CAP: i64 = 0x100_0000_0000;

pub const PTR_DEN_CAP: i64 = 0x400;

/// The hovered font atlas cell: its column, row, and character.
#[derive(Copy, Clone, Eq, PartialEq, Debug)]
pub struct FontInfo {
    pub x: i32,
    pub y: i32,
    pub ch: char,
}

impl Default for FontInfo {
    fn default() -> (r: FontInfo)
        ensures
            r.x == 0,
            r.y == 0,
            r.ch == ' ',
    {
        FontInfo { x: 0, y: 0, ch: ' ' }
    }
}

impl FontInfo {
    pub fn new(x: i32, y: i32, ch: char) -> (r: FontInfo)
        ensures
            r == (FontInfo { x, y, ch }),
    {
        FontInfo { x, y, ch }
    }
}

/// The hovered map cell: its column, row, and the character it shows.
#[derive(Copy, Clone, Eq, PartialEq, Debug)]
pub struct MapInfo {
    pub x: usize,
    pub y: usize,
    pub ch: char,
}

impl Default for MapInfo {
    fn default() -> (r: MapInfo)
        ensures
            r.x == 0,
            r.y == 0,
            r.ch == ' ',
    {
        MapInfo { x: 0, y: 0, ch: ' ' }
    }
}

impl MapInfo {
    pub fn new(ch: char, x: usize, y: usize) -> (r: MapInfo)
        ensures
            r == (MapInfo { x, y, ch }),
    {
        MapInfo { ch, x, y }
    }
}

/// The per-frame selection snapshot handed to the renderer and the
/// information panel: at most one font cell and one map cell.
pub struct Info {
    pub font_info: Option<FontInfo>,
    pub map_info: Option<MapInfo>,
}

impl Default for Info {
    fn default() -> (r: Info)
        ensures
            r.font_info is None,
            r.map_info is None,
    {
        Info { font_info: None, map_info: None }
    }
}

/// What the pointer currently selects.  A tagged variant rather than two
/// independent options, so the two sides can never disagree: a map hover
/// carries the font cell its glyph determines; a font hover carries no map
/// cell, since many map cells may share the glyph.
#[derive(Copy, Clone, Eq, PartialEq, Debug)]
pub enum Selection {
    NoHover,
    FontHover { font_info: FontInfo },
    MapHover { font_info: FontInfo, map_info: MapInfo },
}

impl Selection {
    /// The font side of the selection, if any.
    pub fn font_info(&self) -> (r: Option<FontInfo>)
        ensures
            r == match *self {
                Selection::NoHover => None::<FontInfo>,
                Selection::FontHover { font_info } => Some(font_info),
                Selection::MapHover { font_info, .. } => Some(font_info),
            },
    {
        match *self {
            Selection::NoHover => None,
            Selection::FontHover { font_info } => Some(font_info),
            Selection::MapHover { font_info, map_info: _ } => Some(font_info),
        }
    }

    /// The map side of the selection, if any.
    pub fn map_info(&self) -> (r: Option<MapInfo>)
        ensures
            r == match *self {
                Selection::NoHover => None::<MapInfo>,
                Selection::FontHover { .. } => None::<MapInfo>,
                Selection::MapHover { map_info, .. } => Some(map_info),
            },
    {
        match *self {
            Selection::NoHover => None,
            Selection::FontHover { font_info: _ } => None,
            Selection::MapHover { font_info: _, map_info } => Some(map_info),
        }
    }

    /// The selection as the two-optional snapshot the info panel displays.
    pub fn to_info(&self) -> (r: Info)
        ensures
            r.font_info == match *self {
                Selection::NoHover => None::<FontInfo>,
                Selection::FontHover { font_info } => Some(font_info),
                Selection::MapHover { font_info, .. } => Some(font_info),
            },
            r.map_info == match *self {
                Selection::NoHover => None::<MapInfo>,
                Selection::FontHover { .. } => None::<MapInfo>,
                Selection::MapHover { map_info, .. } => Some(map_info),
            },
    {
        Info { font_info: self.font_info(), map_info: self.map_info() }
    }
}

/// Extent of one font atlas cell on screen, horizontally.
pub open spec fn font_cell_extent_x(l: Layout) -> Ratio {
    r_div_int(l.font_region.w@, 16)
}

/// Extent of one font atlas cell on screen, vertically.
pub open spec fn font_cell_extent_y(l: Layout) -> Ratio {
    r_div_int(l.font_region.h@, 16)
}

/// The font grid column under surface position `px`.
pub open spec fn font_col_at(l: Layout, px: Ratio) -> int {
    r_floor(r_div(r_sub(px, l.font_region.x@), font_cell_extent_x(l)))
}

/// The font grid row under surface position `py`.
pub open spec fn font_row_at(l: Layout, py: Ratio) -> int {
    r_floor(r_div(r_sub(py, l.font_region.y@), font_cell_extent_y(l)))
}

/// The map grid column under surface position `px`.
pub open spec fn map_col_at(l: Layout, px: Ratio) -> int {
    r_floor(r_div(r_sub(px, l.map_region.x@), l.map_cell_scale@))
}

/// The map grid row under surface position `py`.
pub open spec fn map_row_at(l: Layout, py: Ratio) -> int {
    r_floor(r_div(r_sub(py, l.map_region.y@), l.map_cell_scale@))
}

/// Resolves the pointer against the layout: a pointer in the font region
/// always selects the font cell under it; one in the centred map region
/// selects the map cell under it together with its glyph's font cell,
/// provided the cell index passes the mandatory bound check and the cell
/// shows a glyph; anything else selects nothing.
pub fn pick(layout: &Layout, grid: &TileGrid, pointer: FracPoint) -> (r: Selection)
    requires
        layout.wf(),
        grid.wf(),
        pointer.wf(),
        f_capped(pointer.x, PTR_NUM_CAP as int, PTR_DEN_CAP as int),
        f_capped(pointer.y, PTR_NUM_CAP as int, PTR_DEN_CAP as int),
    ensures
        in_rect(layout.font_region, pointer.x@, pointer.y@) ==> ({
            let col = font_col_at(*layout, pointer.x@);
            let row = font_row_at(*layout, pointer.y@);
            &&& 0 <= col < 16
            &&& 0 <= row < 16
            &&& r == (Selection::FontHover {
                font_info: (FontInfo {
                    x: col as i32,
                    y: row as i32,
                    ch: ((row * 16 + col) as u8) as char,
                }),
            })
        }),
        !in_rect(layout.font_region, pointer.x@, pointer.y@) && in_rect(
            layout.map_region,
            pointer.x@,
            pointer.y@,
        ) ==> ({
            let col = map_col_at(*layout, pointer.x@);
            let row = map_row_at(*layout, pointer.y@);
            &&& 0 <= col
            &&& 0 <= row
            &&& (col < grid.columns && row < grid.rows ==> match grid.top_glyph(col, row) {
                Some(g) => r == (Selection::MapHover {
                    font_info: (FontInfo {
                        x: (g % 16) as i32,
                        y: (g / 16) as i32,
                        ch: g as char,
                    }),
                    map_info: (MapInfo { x: col as usize, y: row as usize, ch: g as char }),
                }),
                None => r == Selection::NoHover,
            })
            &&& (!(col < grid.columns && row < grid.rows) ==> r == Selection::NoHover)
        }),
        !in_rect(layout.font_region, pointer.x@, pointer.y@) && !in_rect(
            layout.map_region,
            pointer.x@,
            pointer.y@,
        ) ==> r == Selection::NoHover,
{
    if layout.font_region.contains(pointer) {
        proof {
            lemma_interval_offset(layout.font_region.x@, layout.font_region.w@, pointer.x@);
            lemma_interval_offset(layout.font_region.y@, layout.font_region.h@, pointer.y@);
            lemma_mul_bounds(
                pointer.x.num as int,
                layout.font_region.x.den as int,
                PTR_NUM_CAP as int,
                crate::layout::POS_DEN_CAP as int,
            );
            lemma_mul_bounds(
                layout.font_region.x.num as int,
                pointer.x.den as int,
                crate::layout::POS_NUM_CAP as int,
                PTR_DEN_CAP as int,
            );
            lemma_mul_bounds(
                pointer.x.den as int,
                layout.font_region.x.den as int,
                PTR_DEN_CAP as int,
                crate::layout::POS_DEN_CAP as int,
            );
            lemma_mul_bounds(
                pointer.y.num as int,
                layout.font_region.y.den as int,
                PTR_NUM_CAP as int,
                crate::layout::POS_DEN_CAP as int,
            );
            lemma_mul_bounds(
                layout.font_region.y.num as int,
                pointer.y.den as int,
                crate::layout::POS_NUM_CAP as int,
                PTR_DEN_CAP as int,
            );
            lemma_mul_bounds(
                pointer.y.den as int,
                layout.font_region.y.den as int,
                PTR_DEN_CAP as int,
                crate::layout::POS_DEN_CAP as int,
            );
        }
        let cell_w: Frac = layout.font_region.w.over_whole(FONT_GRID_SIDE);
        let cell_h: Frac = layout.font_region.h.over_whole(FONT_GRID_SIDE);
        let local_x: Frac = pointer.x.minus(layout.font_region.x);
        let local_y: Frac = pointer.y.minus(layout.font_region.y);
        proof {
            assert(r_lt(local_x@, r_mul_int(cell_w@, 16))) by (nonlinear_arith)
                requires
                    r_lt(local_x@, layout.font_region.w@),
                    cell_w@.n == layout.font_region.w@.n,
                    cell_w@.d == layout.font_region.w@.d * 16,
                    r_mul_int(cell_w@, 16) == (Ratio { n: cell_w@.n * 16, d: cell_w@.d }),
                    0 < layout.font_region.w@.d,
                    0 < local_x@.d,
            ;
            assert(r_lt(local_y@, r_mul_int(cell_h@, 16))) by (nonlinear_arith)
                requires
                    r_lt(local_y@, layout.font_region.h@),
                    cell_h@.n == layout.font_region.h@.n,
                    cell_h@.d == layout.font_region.h@.d * 16,
                    r_mul_int(cell_h@, 16) == (Ratio { n: cell_h@.n * 16, d: cell_h@.d }),
                    0 < layout.font_region.h@.d,
                    0 < local_y@.d,
            ;
            lemma_floor_div_below(local_x@, cell_w@, 16);
            lemma_floor_div_below(local_y@, cell_h@, 16);
            lemma_mul_pos(local_x@.d, cell_w@.n);
            lemma_mul_pos(local_y@.d, cell_h@.n);
            lemma_floor_nonneg(r_div(local_x@, cell_w@));
            lemma_floor_nonneg(r_div(local_y@, cell_h@));
        }
        let col64: i64 = local_x.floor_div_by(cell_w);
        let row64: i64 = local_y.floor_div_by(cell_h);
        // clamp to the grid, the policy for any rounding slack at the far
        // edge; with exact arithmetic it provably never fires
        let col: i64 = if col64 > 15 {
            15
        } else {
            col64
        };
        let row: i64 = if row64 > 15 {
            15
        } else {
            row64
        };
        let glyph: u8 = font_cell_to_glyph(col as u8, row as u8);
        let ch: char = glyph_char(glyph);
        return Selection::FontHover { font_info: FontInfo::new(col as i32, row as i32, ch) };
    }
    if layout.map_region.contains(pointer) {
        proof {
            lemma_interval_offset(layout.map_region.x@, layout.map_region.w@, pointer.x@);
            lemma_interval_offset(layout.map_region.y@, layout.map_region.h@, pointer.y@);
            lemma_mul_bounds(
                pointer.x.num as int,
                layout.map_region.x.den as int,
                PTR_NUM_CAP as int,
                crate::layout::POS_DEN_CAP as int,
            );
            lemma_mul_bounds(
                layout.map_region.x.num as int,
                pointer.x.den as int,
                crate::layout::POS_NUM_CAP as int,
                PTR_DEN_CAP as int,
            );
            lemma_mul_bounds(
                pointer.x.den as int,
                layout.map_region.x.den as int,
                PTR_DEN_CAP as int,
                crate::layout::POS_DEN_CAP as int,
            );
            lemma_mul_bounds(
                pointer.y.num as int,
                layout.map_region.y.den as int,
                PTR_NUM_CAP as int,
                crate::layout::POS_DEN_CAP as int,
            );
            lemma_mul_bounds(
                layout.map_region.y.num as int,
                pointer.y.den as int,
                crate::layout::POS_NUM_CAP as int,
                PTR_DEN_CAP as int,
            );
            lemma_mul_bounds(
                pointer.y.den as int,
                layout.map_region.y.den as int,
                PTR_DEN_CAP as int,
                crate::layout::POS_DEN_CAP as int,
            );
        }
        let local_x: Frac = pointer.x.minus(layout.map_region.x);
        let local_y: Frac = pointer.y.minus(layout.map_region.y);
        proof {
            lemma_floor_div_upper(local_x@, layout.map_cell_scale@, layout.map_region.w@);
            lemma_floor_div_upper(local_y@, layout.map_cell_scale@, layout.map_region.h@);
            lemma_mul_bounds(
                layout.map_region.w.num as int,
                layout.map_cell_scale.den as int,
                crate::layout::SIZE_NUM_CAP as int,
                crate::layout::SIZE_DEN_CAP as int,
            );
            lemma_mul_bounds(
                layout.map_region.h.num as int,
                layout.map_cell_scale.den as int,
                crate::layout::SIZE_NUM_CAP as int,
                crate::layout::SIZE_DEN_CAP as int,
            );
        }
        let col64: i64 = local_x.floor_div_by(layout.map_cell_scale);
        let row64: i64 = local_y.floor_div_by(layout.map_cell_scale);
        // the mandatory bound check: region containment alone cannot vouch
        // for the far edge
        if col64 >= 0 && row64 >= 0 && (col64 as u64) < (grid.columns() as u64) && (row64 as u64)
            < (grid.rows() as u64) {
            let col: usize = col64 as usize;
            let row: usize = row64 as usize;
            match grid.glyph_at(col, row) {
                Some(g) => {
                    let pair: (u8, u8) = glyph_to_font_cell(g);
                    let ch: char = glyph_char(g);
                    return Selection::MapHover {
                        font_info: FontInfo::new(pair.0 as i32, pair.1 as i32, ch),
                        map_info: MapInfo::new(ch, col, row),
                    };
                },
                None => {
                    return Selection::NoHover;
                },
            }
        }
        return Selection::NoHover;
    }
    Selection::NoHover
}

/// A pointer that stands a sub-cell offset into cell `cell` of a row of
/// `count` cells lies inside the row's extent, and dividing its offset by
/// the cell scale recovers exactly `cell`.
#[verifier::rlimit(50)]
pub proof fn lemma_cell_offset_brackets(
    mx: Ratio,
    scale: Ratio,
    cell: int,
    count: int,
    offset: Ratio,
)
    requires
        r_wf(mx),
        r_wf(scale),
        r_wf(offset),
        0 < scale.n,
        0 <= cell < count,
        r_le(r_zero(), offset),
        r_lt(offset, scale),
    ensures
        ({
            let p = r_add(r_add(mx, r_mul_int(scale, cell)), offset);
            &&& r_le(mx, p)
            &&& r_lt(p, r_add(mx, r_mul_int(scale, count)))
            &&& r_floor(r_div(r_sub(p, mx), scale)) == cell
        }),
{
    let t = r_mul_int(scale, cell);
    let a = r_add(mx, t);
    let p = r_add(a, offset);
    let local = r_sub(p, mx);
    lemma_mul_pos(mx.d, scale.d);
    lemma_mul_pos(a.d, offset.d);
    lemma_mul_pos(p.d, mx.d);
    assert(local.n == (a.n * mx.d - mx.n * a.d) * offset.d + offset.n * (a.d * mx.d))
        by (nonlinear_arith)
        requires
            local.n == p.n * mx.d - mx.n * p.d,
            p.n == a.n * offset.d + offset.n * a.d,
            p.d == a.d * offset.d,
    ;
    assert(a.n * mx.d - mx.n * a.d == scale.n * cell * (mx.d * mx.d)) by (nonlinear_arith)
        requires
            a.n == mx.n * scale.d + (scale.n * cell) * mx.d,
            a.d == mx.d * scale.d,
    ;
    assert(local.n == mx.d * mx.d * (scale.n * cell * offset.d + offset.n * scale.d))
        by (nonlinear_arith)
        requires
            local.n == (a.n * mx.d - mx.n * a.d) * offset.d + offset.n * (a.d * mx.d),
            a.n * mx.d - mx.n * a.d == scale.n * cell * (mx.d * mx.d),
            a.d == mx.d * scale.d,
    ;
    assert(local.d == mx.d * mx.d * (scale.d * offset.d)) by (nonlinear_arith)
        requires
            local.d == p.d * mx.d,
            p.d == a.d * offset.d,
            a.d == mx.d * scale.d,
    ;
    assert(0 <= local.n && (scale.n * cell) * local.d <= local.n * scale.d) by (nonlinear_arith)
        requires
            0 < mx.d,
            0 < scale.d,
            0 < offset.d,
            0 < scale.n,
            0 <= cell,
            0 <= offset.n,
            local.n == mx.d * mx.d * (scale.n * cell * offset.d + offset.n * scale.d),
            local.d == mx.d * mx.d * (scale.d * offset.d),
    ;
    assert(local.n * scale.d < (scale.n * (cell + 1)) * local.d) by (nonlinear_arith)
        requires
            0 < mx.d,
            0 < scale.d,
            0 < offset.d,
            offset.n * scale.d < scale.n * offset.d,
            local.n == mx.d * mx.d * (scale.n * cell * offset.d + offset.n * scale.d),
            local.d == mx.d * mx.d * (scale.d * offset.d),
    ;
    assert((scale.n * (cell + 1)) * scale.d <= (scale.n * count) * scale.d) by (nonlinear_arith)
        requires
            cell + 1 <= count,
            0 < scale.n,
            0 < scale.d,
    ;
    assert(r_le(r_mul_int(scale, cell), local));
    assert(r_lt(local, r_mul_int(scale, cell + 1)));
    assert(r_le(r_mul_int(scale, cell + 1), r_mul_int(scale, count)));
    lemma_r_lt_le_trans(local, r_mul_int(scale, cell + 1), r_mul_int(scale, count));
    lemma_offset_within(mx, r_mul_int(scale, count), p);
    lemma_floor_div_at_least(local, scale, cell);
    lemma_floor_div_below(local, scale, cell + 1);
}

/// In a layout the engine produced for a positive surface, the map region
/// is the scaled grid and its scale and origin denominators are positive.
pub proof fn lemma_layout_map_shape(l: Layout, width: int, height: int, columns: int, rows: int)
    requires
        0 < width,
        0 < height,
        0 < columns,
        0 < rows,
        layout_spec(width, height, columns, rows, l),
    ensures
        r_wf(l.map_region.x@),
        r_wf(l.map_region.y@),
        r_wf(l.map_cell_scale@),
        0 < l.map_cell_scale@.n,
        l.map_region.w@ == r_mul_int(l.map_cell_scale@, columns),
        l.map_region.h@ == r_mul_int(l.map_cell_scale@, rows),
{
    let s = l.map_cell_scale@;
    assert(0 < s.d) by (nonlinear_arith)
        requires
            0 < columns,
            0 < rows,
            s.d == (1 * 2) * columns || s.d == 1 * rows,
    ;
    assert(0 < chosen_scale(width, height, columns, rows).d);
    assert(0 < l.map_region.x@.d) by (nonlinear_arith)
        requires
            l.map_region.x@.d == (1 * (1 * 2)) * ((((1 * 2) * chosen_scale(
                width,
                height,
                columns,
                rows,
            ).d)) * 2),
            0 < chosen_scale(width, height, columns, rows).d,
    ;
    assert(0 < l.map_region.y@.d) by (nonlinear_arith)
        requires
            l.map_region.y@.d == 1 * (((1 * chosen_scale(width, height, columns, rows).d)) * 2),
            0 < chosen_scale(width, height, columns, rows).d,
    ;
}

/// Picker round trip: placing the pointer anywhere within map cell
/// `(col, row)` on screen and picking it back yields the same cell, for any
/// sub-cell offset `(dx, dy)`.
pub proof fn lemma_pick_round_trip(
    l: Layout,
    width: int,
    height: int,
    columns: int,
    rows: int,
    col: int,
    row: int,
    dx: Ratio,
    dy: Ratio,
)
    requires
        0 < width,
        0 < height,
        0 < columns,
        0 < rows,
        layout_spec(width, height, columns, rows, l),
        0 <= col < columns,
        0 <= row < rows,
        r_wf(dx),
        r_wf(dy),
        r_le(r_zero(), dx),
        r_lt(dx, l.map_cell_scale@),
        r_le(r_zero(), dy),
        r_lt(dy, l.map_cell_scale@),
    ensures
        ({
            let px = r_add(r_add(l.map_region.x@, r_mul_int(l.map_cell_scale@, col)), dx);
            let py = r_add(r_add(l.map_region.y@, r_mul_int(l.map_cell_scale@, row)), dy);
            &&& r_le(l.map_region.x@, px)
            &&& r_lt(px, r_add(l.map_region.x@, l.map_region.w@))
            &&& r_le(l.map_region.y@, py)
            &&& r_lt(py, r_add(l.map_region.y@, l.map_region.h@))
            &&& map_col_at(l, px) == col
            &&& map_row_at(l, py) == row
        }),
{
    lemma_layout_map_shape(l, width, height, columns, rows);
    lemma_cell_offset_brackets(l.map_region.x@, l.map_cell_scale@, col, columns, dx);
    lemma_cell_offset_brackets(l.map_region.y@, l.map_cell_scale@, row, rows, dy);
}

/// Boundary: a pointer half a pixel left of the map region's right edge
/// picks the last column, never one past it, whenever a cell spans at
/// least half a pixel.
pub proof fn lemma_pick_boundary(l: Layout, width: int, height: int, columns: int, rows: int)
    requires
        0 < width,
        0 < height,
        0 < columns,
        0 < rows,
        layout_spec(width, height, columns, rows, l),
        r_le(Ratio { n: 1, d: 2 }, l.map_cell_scale@),
    ensures
        ({
            let px = r_sub(r_add(l.map_region.x@, l.map_region.w@), Ratio { n: 1, d: 2 });
            &&& r_le(l.map_region.x@, px)
            &&& r_lt(px, r_add(l.map_region.x@, l.map_region.w@))
            &&& map_col_at(l, px) == columns - 1
        }),
{
    lemma_layout_map_shape(l, width, height, columns, rows);
    let mx = l.map_region.x@;
    let w = l.map_region.w@;
    let s = l.map_cell_scale@;
    let e = r_add(mx, w);
    let px = r_sub(e, Ratio { n: 1, d: 2 });
    let local = r_sub(px, mx);
    lemma_mul_pos(mx.d, w.d);
    lemma_mul_pos(px.d, mx.d);
    assert(local.n == mx.d * mx.d * (2 * w.n - w.d)) by (nonlinear_arith)
        requires
            local.n == px.n * mx.d - mx.n * px.d,
            px.n == e.n * 2 - 1 * e.d,
            px.d == e.d * 2,
            e.n == mx.n * w.d + w.n * mx.d,
            e.d == mx.d * w.d,
    ;
    assert(local.d == mx.d * mx.d * (2 * w.d)) by (nonlinear_arith)
        requires
            local.d == px.d * mx.d,
            px.d == e.d * 2,
            e.d == mx.d * w.d,
    ;
    assert(0 <= local.n && (s.n * (columns - 1)) * local.d <= local.n * s.d && local.n * s.d < (
    s.n * columns) * local.d) by (nonlinear_arith)
        requires
            0 < mx.d,
            0 < s.d,
            0 < s.n,
            0 < columns,
            1 * s.d <= s.n * 2,
            w.n == s.n * columns,
            w.d == s.d,
            local.n == mx.d * mx.d * (2 * w.n - w.d),
            local.d == mx.d * mx.d * (2 * w.d),
    ;
    assert(r_le(r_mul_int(s, columns - 1), local));
    assert(r_lt(local, r_mul_int(s, columns)));
    assert(r_lt(local, w));
    lemma_offset_within(mx, w, px);
    lemma_floor_div_at_least(local, s, columns - 1);
    lemma_floor_div_below(local, s, columns);
}

} // verus!
