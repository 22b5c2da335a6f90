use libreland::geometry::{Point, Rect, Size};
use libreland::window::{deco_for_fill, x11_flag_changes, Deco, FillMode, LayoutMode};

/// The top edge differs from the other three, and every conversion agrees
/// about that.
#[test]
fn the_titlebar_only_insets_the_top_edge() {
    let deco = Deco::new(2, 28);
    assert_eq!(deco.top(), 30);
    assert_eq!(deco.content_offset(), Point::new(2, 30));

    let cell = Rect::new(Point::new(100, 200), Size::new(500, 400));
    let content = deco.content_rect(cell);
    assert_eq!(content.loc, Point::new(102, 230));
    // width loses 2 borders, height loses 2 borders AND the titlebar
    assert_eq!(content.size, Size::new(496, 368));
}

/// A client's size can be turned into a cell and back without drifting.
#[test]
fn cell_and_content_sizes_round_trip() {
    for deco in [Deco::none(), Deco::new(1, 0), Deco::new(2, 28), Deco::new(6, 13)] {
        for content in [Size::new(1, 1), Size::new(800, 600), Size::new(3840, 2160)] {
            let cell = deco.cell_size_for(content);
            let back = deco.content_size(cell);
            assert_eq!(
                (back.w, back.h),
                (content.w, content.h),
                "{deco:?} lost size round-tripping {content:?} through {cell:?}"
            );
        }
    }
}

/// A cell too small for its own decoration still yields 1x1.
#[test]
fn a_degenerate_cell_never_configures_to_zero() {
    let deco = Deco::new(4, 28);
    let content = deco.content_size(Size::new(2, 2));
    assert_eq!((content.w, content.h), (1, 1));
}

/// Growing a size near the limit saturates and does not wrap.
#[test]
fn growing_a_huge_content_size_saturates() {
    let deco = Deco::new(2, 28);
    let cell = deco.cell_size_for(Size::new(i32::MAX, i32::MAX));
    assert_eq!(cell.w, i32::MAX);
    assert_eq!(cell.h, i32::MAX);
}

/// Fullscreen owns the output and never carries decoration. A maximized
/// window keeps its titlebar when windows stack, and has none when they tile.
#[test]
fn fill_decides_the_inset_per_mode() {
    let deco = Deco::new(2, 28);
    for mode in [LayoutMode::Tiling, LayoutMode::Floating] {
        assert_eq!(deco_for_fill(deco, mode, FillMode::Normal), deco);
        assert_eq!(
            deco_for_fill(deco, mode, FillMode::Fullscreen),
            Deco::none()
        );
    }
    assert_eq!(
        deco_for_fill(deco, LayoutMode::Floating, FillMode::Maximized),
        deco
    );
    assert_eq!(
        deco_for_fill(deco, LayoutMode::Tiling, FillMode::Maximized),
        Deco::none()
    );
}

/// Without a titlebar the border is the same on all sides.
#[test]
fn a_zero_titlebar_is_the_old_symmetric_border() {
    let deco = Deco::new(3, 0);
    let cell = Rect::new(Point::new(0, 0), Size::new(100, 100));
    assert_eq!(deco.content_rect(cell).loc, Point::new(3, 3));
    assert_eq!(deco.content_rect(cell).size, Size::new(94, 94));
}

/// The flags of a window of the X server are only written where they differ.
#[test]
fn unchanged_flags_are_not_written() {
    assert_eq!(x11_flag_changes(false, false, false, false), (None, None));
    assert_eq!(x11_flag_changes(false, true, true, true), (Some(true), None));
    assert_eq!(x11_flag_changes(true, true, true, false), (None, Some(false)));
    assert_eq!(x11_flag_changes(true, false, false, true), (Some(false), Some(true)));
}
