use font_indexer::Frac;
use font_indexer::FracPoint;
use font_indexer::Rect;
use font_indexer::geometry::hightlight_square;
use font_indexer::grid::TileGrid;
use font_indexer::grid::TileLayer;
use font_indexer::grid::font_cell_to_glyph;
use font_indexer::grid::glyph_char;
use font_indexer::grid::glyph_src_rect;
use font_indexer::grid::glyph_to_font_cell;

fn whole(v: i64) -> Frac {
    Frac::from_int(v)
}

#[test]
fn frac_arithmetic_is_exact() {
    let a = Frac::new(3, 2);
    let b = Frac::new(1, 4);
    assert!(a.plus(b).equiv(Frac::new(7, 4)));
    assert!(a.minus(b).equiv(Frac::new(5, 4)));
    assert!(a.times_whole(6).equiv(whole(9)));
    assert!(a.over_whole(3).equiv(Frac::new(1, 2)));
    assert!(Frac::new(30, 2).equiv(whole(15)));
    assert!(!Frac::new(31, 2).equiv(whole(15)));
    assert!(b.le(a) && b.lt(a) && !a.le(b));
    assert!(a.min_with(b).equiv(b));
    assert!(Frac::zero().equiv(whole(0)));
}

#[test]
fn floor_division_truncates_downward() {
    // 599 / 37.5 = 15.97...
    assert_eq!(whole(599).floor_div_by(Frac::new(75, 2)), 15);
    assert_eq!(whole(600).floor_div_by(whole(15)), 40);
    assert_eq!(Frac::new(1199, 2).floor_div_by(whole(15)), 39);
    assert_eq!(whole(0).floor_div_by(whole(15)), 0);
}

#[test]
fn rect_containment_is_half_open() {
    let r = Rect::new(whole(0), whole(0), whole(10), whole(10));
    assert!(r.contains(FracPoint::new(whole(0), whole(0))));
    assert!(r.contains(FracPoint::new(Frac::new(19, 2), Frac::new(19, 2))));
    assert!(!r.contains(FracPoint::new(whole(10), whole(5))));
    assert!(!r.contains(FracPoint::new(whole(5), whole(10))));
    assert!(!r.contains(FracPoint::new(whole(-1), whole(5))));
    let empty = Rect::new(whole(3), whole(3), whole(0), whole(5));
    assert!(!empty.contains(FracPoint::new(whole(3), whole(4))));
}

#[test]
fn highlight_outline_grows_one_pixel() {
    let r = hightlight_square(FracPoint::new(whole(10), whole(20)), whole(30), whole(40));
    assert!(r.x.equiv(whole(9)));
    assert!(r.y.equiv(whole(19)));
    assert!(r.w.equiv(whole(32)));
    assert!(r.h.equiv(whole(42)));
}

#[test]
fn glyph_font_cell_correspondence() {
    assert_eq!(glyph_to_font_cell(0), (0, 0));
    assert_eq!(glyph_to_font_cell(255), (15, 15));
    assert_eq!(glyph_to_font_cell(0x41), (1, 4));
    for g in 0..=255u8 {
        let (col, row) = glyph_to_font_cell(g);
        assert_eq!(font_cell_to_glyph(col, row), g);
        assert_eq!(glyph_char(g), g as char);
    }
}

#[test]
fn glyph_atlas_source_rect() {
    let r = glyph_src_rect(0x41);
    assert!(r.x.equiv(Frac::new(1, 16)));
    assert!(r.y.equiv(Frac::new(4, 16)));
    assert!(r.w.equiv(Frac::new(1, 16)));
    assert!(r.h.equiv(Frac::new(1, 16)));
}

#[test]
fn grid_rejects_mismatched_layers() {
    let ok = TileGrid::from_layers(2, 2, vec![TileLayer::new(vec![None, None, None, None])]);
    assert!(ok.is_some());
    let bad = TileGrid::from_layers(2, 2, vec![TileLayer::new(vec![None, None, None])]);
    assert!(bad.is_none());
    let grid = ok.unwrap();
    assert_eq!(grid.columns(), 2);
    assert_eq!(grid.rows(), 2);
}

#[test]
fn cells_sharing_a_glyph_in_row_major_order() {
    let cells = vec![Some(5), None, Some(7), Some(5), Some(5), None];
    let grid = TileGrid::from_layers(3, 2, vec![TileLayer::new(cells)]).unwrap();
    assert_eq!(grid.cells_with_glyph(5), vec![(0, 0), (0, 1), (1, 1)]);
    assert_eq!(grid.cells_with_glyph(7), vec![(2, 0)]);
    assert_eq!(grid.cells_with_glyph(9), vec![]);
}

#[test]
fn topmost_glyph_wins() {
    let below = TileLayer::new(vec![Some(1), Some(2)]);
    let above = TileLayer::new(vec![Some(3), None]);
    let grid = TileGrid::from_layers(2, 1, vec![below, above]).unwrap();
    assert_eq!(grid.glyph_at(0, 0), Some(3));
    assert_eq!(grid.glyph_at(1, 0), Some(2));
    assert_eq!(grid.cells_with_glyph(3), vec![(0, 0)]);
    assert_eq!(grid.cells_with_glyph(1), vec![]);
}
