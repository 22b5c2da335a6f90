use libreland::geometry::{Point, Rect, Size};
use libreland::tree::{ratio_for_divider, Ratio, ResizeEdges, MIN_TILE_H, MIN_TILE_W};

fn share(r: Ratio) -> f32 {
    r.num as f32 / r.den as f32
}

/// A divider dropped at the middle of a cell is one half, wherever the cell
/// is.
#[test]
fn divider_maps_to_ratio_relative_to_the_cell() {
    assert!((share(ratio_for_divider(1000, 0, 500, MIN_TILE_W)) - 0.5).abs() < f32::EPSILON);
    assert!((share(ratio_for_divider(1000, 1920, 2420, MIN_TILE_W)) - 0.5).abs() < f32::EPSILON);
}

/// A divider dragged past either end leaves both cells at least the minimum
/// wide.
#[test]
fn divider_is_clamped_to_keep_both_cells_usable() {
    let squashed_left = share(ratio_for_divider(1000, 0, -400, MIN_TILE_W));
    let squashed_right = share(ratio_for_divider(1000, 0, 9999, MIN_TILE_W));
    let min_ratio = MIN_TILE_W as f32 / 1000.0;
    assert!((squashed_left - min_ratio).abs() < f32::EPSILON);
    assert!((squashed_right - (1.0 - min_ratio)).abs() < f32::EPSILON);
}

/// A cell too narrow to hold two minimums still gives a sane ratio.
#[test]
fn degenerate_cell_does_not_panic() {
    let r = share(ratio_for_divider(100, 0, 9999, MIN_TILE_W));
    assert!((0.0..=1.0).contains(&r), "ratio out of range: {r}");
    let r = share(ratio_for_divider(1, 0, 0, MIN_TILE_H));
    assert!((0.0..=1.0).contains(&r), "ratio out of range: {r}");
}

/// A drag moves whichever edge the cursor started nearest.
#[test]
fn press_half_picks_the_near_edge() {
    let rect = Rect::new(Point::new(100, 100), Size::new(400, 200));
    let edges = |x, y| ResizeEdges::from_press(rect, Point::new(x, y));
    assert_eq!(
        edges(450, 250),
        ResizeEdges {
            right: true,
            bottom: true
        }
    );
    assert_eq!(
        edges(150, 150),
        ResizeEdges {
            right: false,
            bottom: false
        }
    );
    assert_eq!(
        edges(450, 150),
        ResizeEdges {
            right: true,
            bottom: false
        }
    );
    assert_eq!(
        edges(150, 250),
        ResizeEdges {
            right: false,
            bottom: true
        }
    );
}
