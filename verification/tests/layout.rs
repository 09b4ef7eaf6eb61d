use font_indexer::Frac;
use font_indexer::GridDimensions;
use font_indexer::LayoutError;
use font_indexer::Rect;
use font_indexer::SurfaceSize;
use font_indexer::compute_layout;
use font_indexer::layout::calc_map_coords;
use font_indexer::layout::calc_map_scaler;
use font_indexer::layout::map_ch_dims;
use font_indexer::layout::map_pos_to_screen;

fn whole(v: i64) -> Frac {
    Frac::from_int(v)
}

#[test]
fn scenario_wide_surface() {
    // surface 1200x800, grid 40x25: scale_by_width = 15, scale_by_height = 32,
    // chosen scale 15; used extent 600x375, centred with 212.5 px top/bottom
    let layout = compute_layout(
        SurfaceSize { width: 1200, height: 800 },
        GridDimensions { columns: 40, rows: 25 },
    )
    .unwrap();
    assert!(layout.map_cell_scale.equiv(whole(15)));
    assert!(layout.map_region.x.equiv(whole(600)));
    assert!(layout.map_region.y.equiv(Frac::new(425, 2)));
    assert!(layout.map_region.w.equiv(whole(600)));
    assert!(layout.map_region.h.equiv(whole(375)));
    assert!(layout.font_region.x.equiv(whole(0)));
    assert!(layout.font_region.y.equiv(whole(0)));
    assert!(layout.font_region.w.equiv(whole(600)));
    assert!(layout.font_region.h.equiv(whole(400)));
    assert!(layout.char_region.x.equiv(whole(0)));
    assert!(layout.char_region.y.equiv(whole(400)));
    assert!(layout.char_region.w.equiv(whole(600)));
    assert!(layout.char_region.h.equiv(whole(400)));
}

#[test]
fn scenario_tall_surface_fits_by_height() {
    // surface 800x300, grid 10x10: right half 400 wide, 300 tall;
    // scale_by_width = 40, scale_by_height = 30, chosen 30; used 300x300,
    // margin 100 splits to 50 px left and right of the grid
    let layout = compute_layout(
        SurfaceSize { width: 800, height: 300 },
        GridDimensions { columns: 10, rows: 10 },
    )
    .unwrap();
    assert!(layout.map_cell_scale.equiv(whole(30)));
    assert!(layout.map_region.x.equiv(whole(450)));
    assert!(layout.map_region.y.equiv(whole(0)));
    assert!(layout.map_region.w.equiv(whole(300)));
    assert!(layout.map_region.h.equiv(whole(300)));
}

#[test]
fn zero_grid_is_precondition_violation() {
    let r = compute_layout(
        SurfaceSize { width: 1200, height: 800 },
        GridDimensions { columns: 0, rows: 25 },
    );
    assert_eq!(r.unwrap_err(), LayoutError::PreconditionViolation);
    let r = compute_layout(
        SurfaceSize { width: 1200, height: 800 },
        GridDimensions { columns: 40, rows: 0 },
    );
    assert_eq!(r.unwrap_err(), LayoutError::PreconditionViolation);
}

#[test]
fn degenerate_surface_yields_zero_layout() {
    for (w, h) in [(0i64, 800i64), (1200, 0), (-5, 800), (0, 0)] {
        let layout = compute_layout(
            SurfaceSize { width: w, height: h },
            GridDimensions { columns: 40, rows: 25 },
        )
        .unwrap();
        assert!(layout.map_region.w.equiv(whole(0)));
        assert!(layout.map_region.h.equiv(whole(0)));
        assert!(layout.font_region.w.equiv(whole(0)));
        assert!(layout.char_region.h.equiv(whole(0)));
        assert!(layout.map_cell_scale.equiv(whole(0)));
    }
}

#[test]
fn odd_surface_split_is_exact() {
    // an odd width splits into exact rational halves, not rounded pixels
    let layout = compute_layout(
        SurfaceSize { width: 1201, height: 800 },
        GridDimensions { columns: 40, rows: 25 },
    )
    .unwrap();
    assert!(layout.font_region.w.equiv(Frac::new(1201, 2)));
    assert!(layout.map_cell_scale.equiv(Frac::new(1201, 80)));
}

#[test]
fn scaler_picks_smaller_candidate() {
    let disp = Rect::new(whole(0), whole(0), whole(600), whole(800));
    assert!(calc_map_scaler(disp, 40, 25).equiv(whole(15)));
    let disp = Rect::new(whole(0), whole(0), whole(600), whole(200));
    assert!(calc_map_scaler(disp, 40, 25).equiv(whole(8)));
}

#[test]
fn scaler_tie_gives_same_value() {
    let disp = Rect::new(whole(0), whole(0), whole(400), whole(250));
    assert!(calc_map_scaler(disp, 40, 25).equiv(whole(10)));
}

#[test]
fn scale_grows_with_surface() {
    // growing the surface while the grid is fixed never shrinks the scale
    let mut last = Frac::from_int(0);
    for w in [200i64, 400, 800, 801, 1200, 4000] {
        let layout = compute_layout(
            SurfaceSize { width: w, height: 800 },
            GridDimensions { columns: 40, rows: 25 },
        )
        .unwrap();
        assert!(last.le(layout.map_cell_scale));
        last = layout.map_cell_scale;
    }
}

#[test]
fn map_coords_centres_inside_right_half() {
    let screen = Rect::new(whole(0), whole(0), whole(1000), whole(800));
    let (disp, scaler) = calc_map_coords(screen, 10, 10);
    assert!(scaler.equiv(whole(50)));
    assert!(disp.x.equiv(whole(500)));
    assert!(disp.y.equiv(whole(150)));
    assert!(disp.w.equiv(whole(500)));
    assert!(disp.h.equiv(whole(500)));
}

#[test]
fn cell_dims_divide_region() {
    let disp = Rect::new(whole(600), Frac::new(425, 2), whole(600), whole(375));
    let (cw, ch) = map_ch_dims(disp, 40, 25);
    assert!(cw.equiv(whole(15)));
    assert!(ch.equiv(whole(15)));
}

#[test]
fn cell_position_on_screen() {
    let disp = Rect::new(whole(600), Frac::new(425, 2), whole(600), whole(375));
    let pos = map_pos_to_screen(disp, 3, 7, whole(15));
    assert!(pos.x.equiv(whole(645)));
    assert!(pos.y.equiv(Frac::new(635, 2)));
}
