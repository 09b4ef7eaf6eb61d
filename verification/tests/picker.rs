use font_indexer::Frac;
use font_indexer::FracPoint;
use font_indexer::FontInfo;
use font_indexer::GridDimensions;
use font_indexer::MapInfo;
use font_indexer::Selection;
use font_indexer::SurfaceSize;
use font_indexer::compute_layout;
use font_indexer::grid::TileGrid;
use font_indexer::grid::TileLayer;
use font_indexer::layout::Layout;
use font_indexer::layout::map_pos_to_screen;
use font_indexer::picker::pick;

fn whole(v: i64) -> Frac {
    Frac::from_int(v)
}

fn point(x: Frac, y: Frac) -> FracPoint {
    FracPoint::new(x, y)
}

/// A 40x25 grid whose cell at (col, row) shows glyph (row * 40 + col) % 256.
fn wide_grid() -> TileGrid {
    let mut cells: Vec<Option<u8>> = Vec::new();
    for row in 0..25usize {
        for col in 0..40usize {
            cells.push(Some(((row * 40 + col) % 256) as u8));
        }
    }
    TileGrid::from_layers(40, 25, vec![TileLayer::new(cells)]).unwrap()
}

fn wide_layout() -> Layout {
    compute_layout(
        SurfaceSize { width: 1200, height: 800 },
        GridDimensions { columns: 40, rows: 25 },
    )
    .unwrap()
}

#[test]
fn font_corner_cells() {
    // pointer at the font region's origin picks glyph 0; at its last pixel,
    // column 15, row 15, glyph 255
    let layout = wide_layout();
    let grid = wide_grid();
    let sel = pick(&layout, &grid, point(whole(0), whole(0)));
    assert_eq!(sel, Selection::FontHover { font_info: FontInfo::new(0, 0, '\0') });
    let sel = pick(&layout, &grid, point(whole(599), whole(399)));
    assert_eq!(sel, Selection::FontHover { font_info: FontInfo::new(15, 15, 255u8 as char) });
}

#[test]
fn font_hover_leaves_map_side_empty() {
    let layout = wide_layout();
    let grid = wide_grid();
    let sel = pick(&layout, &grid, point(whole(40), whole(70)));
    assert!(sel.font_info().is_some());
    assert!(sel.map_info().is_none());
    let info = sel.to_info();
    assert!(info.font_info.is_some());
    assert!(info.map_info.is_none());
}

#[test]
fn map_hover_sets_both_sides() {
    // map cell (3, 7) shows glyph 283 % 256 = 27, font cell (11, 1)
    let layout = wide_layout();
    let grid = wide_grid();
    let pos = map_pos_to_screen(layout.map_region, 3, 7, layout.map_cell_scale);
    let half = Frac::new(1, 2);
    let sel = pick(&layout, &grid, point(pos.x.plus(half), pos.y.plus(half)));
    let ch = 27u8 as char;
    assert_eq!(
        sel,
        Selection::MapHover {
            font_info: FontInfo::new(11, 1, ch),
            map_info: MapInfo::new(ch, 3, 7),
        }
    );
}

#[test]
fn round_trip_every_cell() {
    // picking anywhere inside a cell's on-screen square returns that cell
    let layout = wide_layout();
    let grid = wide_grid();
    let half = Frac::new(1, 2);
    for col in 0..40usize {
        for row in 0..25usize {
            let pos = map_pos_to_screen(layout.map_region, col, row, layout.map_cell_scale);
            let sel = pick(&layout, &grid, point(pos.x.plus(half), pos.y.plus(half)));
            match sel {
                Selection::MapHover { map_info, .. } => {
                    assert_eq!((map_info.x, map_info.y), (col, row));
                },
                _ => panic!("cell ({}, {}) missed", col, row),
            }
        }
    }
}

#[test]
fn boundary_last_half_pixel_is_last_column() {
    // map region is [600, 1200): its last half pixel, x = 1199.5, is column
    // 39, never 40
    let layout = wide_layout();
    let grid = wide_grid();
    let sel = pick(&layout, &grid, point(Frac::new(2399, 2), whole(300)));
    match sel {
        Selection::MapHover { map_info, .. } => {
            assert_eq!(map_info.x, 39);
        },
        _ => panic!("boundary pointer missed the map"),
    }
}

#[test]
fn margin_above_grid_selects_nothing() {
    // the centred grid starts at y = 212.5; the margin above it is inside
    // the nominal right half but selects nothing
    let layout = wide_layout();
    let grid = wide_grid();
    assert_eq!(pick(&layout, &grid, point(whole(610), whole(100))), Selection::NoHover);
    assert_eq!(pick(&layout, &grid, point(whole(610), whole(700))), Selection::NoHover);
}

#[test]
fn char_region_selects_nothing() {
    let layout = wide_layout();
    let grid = wide_grid();
    assert_eq!(pick(&layout, &grid, point(whole(100), whole(500))), Selection::NoHover);
}

#[test]
fn pointer_outside_surface_selects_nothing() {
    let layout = wide_layout();
    let grid = wide_grid();
    assert_eq!(pick(&layout, &grid, point(whole(-3), whole(10))), Selection::NoHover);
    assert_eq!(pick(&layout, &grid, point(whole(1200), whole(300))), Selection::NoHover);
}

#[test]
fn degenerate_layout_selects_nothing() {
    let layout = compute_layout(
        SurfaceSize { width: 0, height: 800 },
        GridDimensions { columns: 40, rows: 25 },
    )
    .unwrap();
    let grid = wide_grid();
    assert_eq!(pick(&layout, &grid, point(whole(10), whole(10))), Selection::NoHover);
}

#[test]
fn empty_cell_falls_through_layers() {
    // surface 320x160, grid 2x2: map region is the full right half
    // [160, 320) x [0, 160) at scale 80
    let layout = compute_layout(
        SurfaceSize { width: 320, height: 160 },
        GridDimensions { columns: 2, rows: 2 },
    )
    .unwrap();
    let below = TileLayer::new(vec![Some(1), Some(2), None, Some(4)]);
    let above = TileLayer::new(vec![None, Some(9), None, None]);
    let grid = TileGrid::from_layers(2, 2, vec![below, above]).unwrap();
    assert_eq!(grid.glyph_at(0, 0), Some(1));
    assert_eq!(grid.glyph_at(1, 0), Some(9));
    assert_eq!(grid.glyph_at(0, 1), None);
    assert_eq!(grid.glyph_at(1, 1), Some(4));
    // hovering the all-empty cell (0, 1) selects nothing
    let sel = pick(&layout, &grid, point(whole(170), whole(90)));
    assert_eq!(sel, Selection::NoHover);
    // hovering (1, 0) picks the upper layer's glyph
    let sel = pick(&layout, &grid, point(whole(250), whole(10)));
    let ch = 9u8 as char;
    assert_eq!(
        sel,
        Selection::MapHover {
            font_info: FontInfo::new(9, 0, ch),
            map_info: MapInfo::new(ch, 1, 0),
        }
    );
}

#[test]
fn selection_defaults_and_accessors() {
    let none = Selection::NoHover;
    assert!(none.font_info().is_none());
    assert!(none.map_info().is_none());
    let fi = FontInfo::new(2, 3, 'a');
    let sel = Selection::FontHover { font_info: fi };
    assert_eq!(sel.font_info(), Some(fi));
    assert_eq!(sel.map_info(), None);
    let mi = MapInfo::new('b', 4, 5);
    let sel = Selection::MapHover { font_info: fi, map_info: mi };
    assert_eq!(sel.font_info(), Some(fi));
    assert_eq!(sel.map_info(), Some(mi));
    let d = FontInfo::default();
    assert_eq!((d.x, d.y, d.ch), (0, 0, ' '));
    let d = MapInfo::default();
    assert_eq!((d.x, d.y, d.ch), (0, 0, ' '));
    let d = font_indexer::Info::default();
    assert!(d.font_info.is_none() && d.map_info.is_none());
}
