//! The decoded tile grid and the glyph correspondence.
//!
//! The upstream decoder hands over one or more layers of cells sharing one
//! set of dimensions; a cell either references a glyph of the 16x16 font
//! atlas or is empty.  Hit testing and rendering read the topmost non-empty
//! glyph at a cell, falling through empty cells to the layers beneath.
//! A glyph index in `[0, 256)` corresponds to the font atlas cell
//! `(index % 16, index / 16)`.

use vstd::prelude::*;
use vstd::arithmetic::div_mod::lemma_fundamental_div_mod;
use vstd::arithmetic::div_mod::lemma_fundamental_div_mod_converse;
use vstd::arithmetic::div_mod::lemma_mod_bound;

use crate::geometry::Rect;
use crate::ratio::Frac;
use crate::ratio::Ratio;

verus! {

/// Cells per axis of the font atlas, on both axes.
pub const FONT_GRID_SIDE: usize = 16;

/// Row-major cell positions are bounded by the cell count.
pub proof fn lemma_row_major_bound(col: int, row: int, columns: int, rows: int)
    by (nonlinear_arith)
    requires
        0 <= col < columns,
        0 <= row < rows,
    ensures
        0 <= row * columns + col < columns * rows,
{
}

/// A row-major position decomposes uniquely into a column and a row.
pub proof fn lemma_row_major_decompose(k: int, columns: int, rows: int)
    requires
        0 < columns,
        0 <= k < columns * rows,
    ensures
        0 <= k % columns < columns,
        0 <= k / columns < rows,
        (k / columns) * columns + (k % columns) == k,
{
    lemma_fundamental_div_mod(k, columns);
    lemma_mod_bound(k, columns);
    assert(0 <= k / columns && k / columns < rows) by (nonlinear_arith)
        requires
            0 < columns,
            0 <= k < columns * rows,
            k == columns * (k / columns) + k % columns,
            0 <= k % columns < columns,
    ;
    assert((k / columns) * columns == columns * (k / columns)) by (nonlinear_arith);
}

/// One layer of the decoded tile file: its cells in row-major order, each
/// empty or a glyph index.
#[derive(Debug)]
pub struct TileLayer {
    pub cells: Vec<Option<u8>>,
}

impl TileLayer {
    pub fn new(cells: Vec<Option<u8>>) -> (r: TileLayer)
        ensures
            r.cells@ == cells@,
    {
        TileLayer { cells }
    }
}

/// The decoded grid: every layer has `columns * rows` cells, drawn in layer
/// order, later layers over earlier ones.
#[derive(Debug)]
pub struct TileGrid {
    pub columns: usize,
    pub rows: usize,
    pub layers: Vec<TileLayer>,
}

impl TileGrid {
    pub open spec fn wf(self) -> bool {
        &&& self.columns * self.rows <= usize::MAX
        &&& forall|l: int|
            0 <= l < self.layers@.len() ==> (#[trigger] self.layers@[l]).cells@.len()
                == self.columns * self.rows
    }

    /// The topmost non-empty glyph at `(col, row)` among the first `layer`
    /// layers, scanning from the top of the stack down.
    pub open spec fn top_glyph_from(self, layer: int, col: int, row: int) -> Option<u8>
        decreases layer,
    {
        if layer <= 0 {
            None
        } else {
            let cell = self.layers@[layer - 1].cells@[row * self.columns + col];
            if cell is Some {
                cell
            } else {
                self.top_glyph_from(layer - 1, col, row)
            }
        }
    }

    /// The glyph shown (and hit-tested) at `(col, row)`: the topmost
    /// non-empty cell over the whole stack, if any.
    pub open spec fn top_glyph(self, col: int, row: int) -> Option<u8> {
        self.top_glyph_from(self.layers@.len() as int, col, row)
    }

    /// The cell is in bounds and shows `glyph`.
    pub open spec fn has_top_glyph(self, glyph: u8, col: int, row: int) -> bool {
        &&& 0 <= col < self.columns
        &&& 0 <= row < self.rows
        &&& self.top_glyph(col, row) == Some(glyph)
    }

    /// The row-major position of a cell.
    pub open spec fn rm_index(self, col: int, row: int) -> int {
        row * self.columns + col
    }

    /// Builds a grid after checking that every layer matches the
    /// dimensions; `None` exactly when some layer does not, or the cell
    /// count overflows.
    pub fn from_layers(columns: usize, rows: usize, layers: Vec<TileLayer>) -> (r: Option<
        TileGrid,
    >)
        ensures
            r is Some <==> {
                &&& columns * rows <= usize::MAX
                &&& forall|l: int|
                    0 <= l < layers@.len() ==> (#[trigger] layers@[l]).cells@.len() == columns
                        * rows
            },
            r is Some ==> r->0 == (TileGrid { columns, rows, layers }),
            r is Some ==> r->0.wf(),
    {
        let count: usize = match columns.checked_mul(rows) {
            Some(c) => c,
            None => {
                return None;
            },
        };
        let mut l: usize = 0;
        while l < layers.len()
            invariant
                count == columns * rows,
                l <= layers@.len(),
                forall|i: int| 0 <= i < l ==> (#[trigger] layers@[i]).cells@.len() == count,
            decreases layers@.len() - l,
        {
            if layers[l].cells.len() != count {
                return None;
            }
            l = l + 1;
        }
        Some(TileGrid { columns, rows, layers })
    }

    pub fn columns(&self) -> (r: usize)
        ensures
            r == self.columns,
    {
        self.columns
    }

    pub fn rows(&self) -> (r: usize)
        ensures
            r == self.rows,
    {
        self.rows
    }

    /// The glyph shown at `(col, row)`: the topmost non-empty cell, or
    /// `None` when every layer is empty there.
    pub fn glyph_at(&self, col: usize, row: usize) -> (r: Option<u8>)
        requires
            self.wf(),
            col < self.columns,
            row < self.rows,
        ensures
            r == self.top_glyph(col as int, row as int),
    {
        proof {
            lemma_row_major_bound(col as int, row as int, self.columns as int, self.rows as int);
        }
        let idx: usize = row * self.columns + col;
        let mut layer: usize = self.layers.len();
        while layer > 0
            invariant
                self.wf(),
                col < self.columns,
                row < self.rows,
                idx == row * self.columns + col,
                idx < self.columns * self.rows,
                layer <= self.layers@.len(),
                self.top_glyph(col as int, row as int) == self.top_glyph_from(
                    layer as int,
                    col as int,
                    row as int,
                ),
            decreases layer,
        {
            layer = layer - 1;
            let cell: Option<u8> = self.layers[layer].cells[idx];
            if let Some(g) = cell {
                return Some(g);
            }
        }
        None
    }

    /// Every cell whose topmost glyph is `glyph`, in row-major order: the
    /// one-to-many half of the correspondence, highlighted together when
    /// that glyph's font cell is hovered.
    pub fn cells_with_glyph(&self, glyph: u8) -> (r: Vec<(usize, usize)>)
        requires
            self.wf(),
        ensures
            forall|i: int|
                0 <= i < r@.len() ==> self.has_top_glyph(
                    glyph,
                    (#[trigger] r@[i]).0 as int,
                    r@[i].1 as int,
                ),
            forall|col: int, row: int|
                #[trigger] self.has_top_glyph(glyph, col, row) ==> exists|i: int|
                    0 <= i < r@.len() && #[trigger] r@[i] == (col as usize, row as usize),
            forall|i: int, j: int|
                0 <= i < j < r@.len() ==> self.rm_index((#[trigger] r@[i]).0 as int, r@[i].1 as int)
                    < self.rm_index((#[trigger] r@[j]).0 as int, r@[j].1 as int),
    {
        let count: usize = self.columns * self.rows;
        let mut out: Vec<(usize, usize)> = Vec::new();
        let mut k: usize = 0;
        while k < count
            invariant
                self.wf(),
                count == self.columns * self.rows,
                k <= count,
                forall|i: int|
                    0 <= i < out@.len() ==> self.has_top_glyph(
                        glyph,
                        (#[trigger] out@[i]).0 as int,
                        out@[i].1 as int,
                    ),
                forall|col: int, row: int|
                    self.has_top_glyph(glyph, col, row) && #[trigger] self.rm_index(col, row) < k
                        ==> exists|i: int|
                        0 <= i < out@.len() && #[trigger] out@[i] == (col as usize, row as usize),
                forall|i: int|
                    0 <= i < out@.len() ==> self.rm_index(
                        (#[trigger] out@[i]).0 as int,
                        out@[i].1 as int,
                    ) < k,
                forall|i: int, j: int|
                    0 <= i < j < out@.len() ==> self.rm_index(
                        (#[trigger] out@[i]).0 as int,
                        out@[i].1 as int,
                    ) < self.rm_index((#[trigger] out@[j]).0 as int, out@[j].1 as int),
            decreases count - k,
        {
            proof {
                assert(0 < self.columns && 0 < self.rows) by (nonlinear_arith)
                    requires
                        k < self.columns * self.rows,
                ;
                lemma_row_major_decompose(k as int, self.columns as int, self.rows as int);
            }
            let col: usize = k % self.columns;
            let row: usize = k / self.columns;
            let hit: bool = match self.glyph_at(col, row) {
                Some(g) => g == glyph,
                None => false,
            };
            let ghost pre = out@;
            if hit {
                out.push((col, row));
            }
            proof {
                assert forall|c: int, rw: int|
                    self.has_top_glyph(glyph, c, rw) && #[trigger] self.rm_index(c, rw) < k + 1
                        implies exists|i: int|
                    0 <= i < out@.len() && #[trigger] out@[i] == (c as usize, rw as usize) by {
                    if self.rm_index(c, rw) == k {
                        lemma_fundamental_div_mod_converse(k as int, self.columns as int, rw, c);
                        assert(c == col as int && rw == row as int);
                        assert(hit);
                        assert(out@[out@.len() - 1] == (c as usize, rw as usize));
                    } else {
                        let i = choose|i: int|
                            0 <= i < pre.len() && pre[i] == (c as usize, rw as usize);
                        assert(out@[i] == (c as usize, rw as usize));
                    }
                }
            }
            k = k + 1;
        }
        proof {
            assert forall|col: int, row: int| #[trigger] self.has_top_glyph(glyph, col, row)
                implies self.rm_index(col, row) < count by {
                lemma_row_major_bound(col, row, self.columns as int, self.rows as int);
            }
        }
        out
    }
}

/// The font atlas cell that shows `glyph`: `(glyph % 16, glyph / 16)`.
pub fn glyph_to_font_cell(glyph: u8) -> (r: (u8, u8))
    ensures
        r.0 == glyph % 16,
        r.1 == glyph / 16,
        r.0 < 16,
        r.1 < 16,
{
    (glyph % 16, glyph / 16)
}

/// The glyph shown by font atlas cell `(col, row)`: `row * 16 + col`.
pub fn font_cell_to_glyph(col: u8, row: u8) -> (r: u8)
    requires
        col < 16,
        row < 16,
    ensures
        r == row * 16 + col,
{
    row * 16 + col
}

/// The character a glyph index stands for.
pub fn glyph_char(glyph: u8) -> (r: char)
    ensures
        r == glyph as char,
{
    glyph as char
}

/// Where `glyph` sits in the font atlas texture, in texture coordinates
/// normalised to `[0, 1)` on both axes: a `1/16 x 1/16` cell at
/// `((glyph % 16) / 16, (glyph / 16) / 16)`.
pub fn glyph_src_rect(glyph: u8) -> (r: Rect)
    ensures
        r.wf(),
        r.x@ == (Ratio { n: (glyph % 16) as int, d: 16 }),
        r.y@ == (Ratio { n: (glyph / 16) as int, d: 16 }),
        r.w@ == (Ratio { n: 1, d: 16 }),
        r.h@ == (Ratio { n: 1, d: 16 }),
{
    Rect {
        x: Frac::new((glyph % 16) as i64, 16),
        y: Frac::new((glyph / 16) as i64, 16),
        w: Frac::new(1, 16),
        h: Frac::new(1, 16),
    }
}

} // verus!
