use libreland::config::{ScreenshotBind, ScreenshotMode};
use libreland::desktop::Gaps;
use libreland::geometry::{Point, Rect, Size};
use libreland::layout::Layout;
use libreland::screenshot::{
    complete_internal_capture, compositor_rect_to_physical, rect_from_corners, CapturePurpose,
    CaptureStep, FinePoint, FrozenFrame, InternalCapture, OutputGeometry, Screenshots, ShotStart,
    ShotStep,
};
use libreland::window::{Deco, LayoutMode, WindowSurface};

fn rect(x: i32, y: i32, w: i32, h: i32) -> Rect {
    Rect::new(Point::new(x, y), Size::new(w, h))
}

fn fine(x: i32, y: i32) -> FinePoint {
    FinePoint { x: x * 256, y: y * 256 }
}

fn bind(mode: ScreenshotMode, freeze: bool) -> ScreenshotBind {
    ScreenshotBind {
        mods: 0,
        keysym: 0,
        mode,
        freeze,
        show_cursor: true,
        clipboard: true,
        directory: Some("~/Pictures".to_owned()),
    }
}

fn outputs() -> Vec<OutputGeometry> {
    vec![
        OutputGeometry {
            name: "DP-1".to_owned(),
            compositor: rect(0, 0, 1000, 600),
            mode_size: Size::new(1000, 600),
            scale: 120,
        },
        OutputGeometry {
            name: "DP-2".to_owned(),
            compositor: rect(1000, 0, 800, 600),
            mode_size: Size::new(1200, 900),
            scale: 180,
        },
    ]
}

fn desktop() -> Layout {
    let mut l = Layout::new(
        vec![
            ("DP-1".to_owned(), rect(0, 0, 1000, 600)),
            ("DP-2".to_owned(), rect(1000, 0, 800, 600)),
        ],
        Gaps { outer: 0, inner: 0 },
        Deco::none(),
        LayoutMode::Tiling,
    );
    l.insert(WindowSurface::Xdg(1), Some(Point::new(10, 10)));
    l
}

#[test]
fn corners_make_a_rectangle_either_way() {
    let a = FinePoint { x: 10 * 256 + 127, y: 20 * 256 + 128 };
    let b = FinePoint { x: 5 * 256, y: 100 * 256 };
    assert_eq!(rect_from_corners(a, b), rect(5, 21, 5, 80));
    assert_eq!(rect_from_corners(b, a), rect(5, 21, 5, 80));
    // Halves go away from zero.
    assert_eq!(FinePoint { x: -128, y: 128 }.cursor_point(), Point::new(-1, 1));
    assert_eq!(FinePoint { x: -127, y: 127 }.cursor_point(), Point::new(0, 0));
}

#[test]
fn desktop_units_become_pixels() {
    let r = compositor_rect_to_physical(rect(1010, 7, 101, 5), Point::new(1000, 0), 180);
    // 10.5 rounds up.
    assert_eq!(r, rect(15, 11, 152, 8));
    let r = compositor_rect_to_physical(rect(1010, 7, 101, 5), Point::new(1000, 0), 120);
    assert_eq!(r, rect(10, 7, 101, 5));
}

#[test]
fn an_output_is_taken_at_once() {
    let mut s = Screenshots::new();
    let b = bind(ScreenshotMode::Output, false);
    assert_eq!(s.start(&b, fine(5000, 10), &outputs()), ShotStart::NoOutput);
    assert_eq!(s.start(&b, fine(1200, 10), &outputs()), ShotStart::Captured);
    assert!(s.session.is_none());
    assert_eq!(s.pending.len(), 1);
    assert_eq!(s.pending[0].output, "DP-2");
    assert_eq!(s.pending[0].region, rect(0, 0, 1200, 900));
    assert!(s.pending[0].show_cursor);
    assert!(s.take_for_output("DP-1").is_empty());
    assert_eq!(s.take_for_output("DP-2").len(), 1);
    assert!(s.pending.is_empty());
}

#[test]
fn a_region_is_selected_and_queued() {
    let mut s = Screenshots::new();
    let l = desktop();
    let os = outputs();
    let b = bind(ScreenshotMode::Region, false);
    assert_eq!(s.start(&b, fine(0, 0), &os), ShotStart::Selecting { overlay: true });
    assert_eq!(s.start(&b, fine(0, 0), &os), ShotStart::Busy);
    assert_eq!(s.current_screenshot_selection(&l, fine(5, 5)), None);
    // Nothing is begun yet.
    assert!(matches!(s.screenshot_pointer_release(&l, fine(5, 5), &os), ShotStep::Nothing));
    assert!(matches!(s.confirm_screenshot_region(&l, fine(5, 5), &os), ShotStep::Nothing));
    assert!(matches!(s.screenshot_pointer_press(&l, fine(1010, 20), &os), ShotStep::Overlay));
    assert_eq!(
        s.current_screenshot_selection(&l, fine(1110, 60)),
        Some(rect(1010, 20, 100, 40))
    );
    assert!(matches!(s.screenshot_pointer_release(&l, fine(1110, 60), &os), ShotStep::Queued));
    assert!(s.session.is_none());
    assert_eq!(s.pending.len(), 1);
    assert_eq!(s.pending[0].output, "DP-2");
    assert_eq!(s.pending[0].region, rect(15, 30, 150, 60));
    assert!(matches!(s.pending[0].purpose, CapturePurpose::Finalize { .. }));
}

#[test]
fn an_empty_or_lost_region_is_given_up() {
    let l = desktop();
    let os = outputs();
    for (from, to) in [(fine(10, 10), fine(10, 50)), (fine(5000, 10), fine(5100, 50))] {
        let mut s = Screenshots::new();
        s.start(&bind(ScreenshotMode::Region, false), from, &os);
        s.screenshot_pointer_press(&l, from, &os);
        assert!(matches!(s.confirm_screenshot_region(&l, to, &os), ShotStep::Cancelled));
        assert!(s.session.is_none());
        assert!(s.pending.is_empty());
    }
}

#[test]
fn a_window_is_taken_by_a_click_or_a_key() {
    let l = desktop();
    let os = outputs();
    let mut s = Screenshots::new();
    s.start(&bind(ScreenshotMode::Window, false), fine(10, 10), &os);
    assert_eq!(s.current_screenshot_selection(&l, fine(10, 10)), Some(rect(0, 0, 1000, 600)));
    assert!(matches!(s.screenshot_pointer_press(&l, fine(10, 10), &os), ShotStep::Queued));
    assert_eq!(s.pending[0].region, rect(0, 0, 1000, 600));
    let mut s = Screenshots::new();
    s.start(&bind(ScreenshotMode::Window, false), fine(10, 10), &os);
    // Where there is none it is given up.
    assert!(matches!(s.confirm_screenshot_region(&l, fine(1500, 10), &os), ShotStep::Cancelled));
}

#[test]
fn a_frozen_selection_is_cut_from_its_frame() {
    let l = desktop();
    let os = outputs();
    let mut s = Screenshots::new();
    let b = bind(ScreenshotMode::Region, true);
    assert_eq!(s.start(&b, fine(0, 0), &os), ShotStart::Selecting { overlay: false });
    assert_eq!(s.pending.len(), 2);
    assert!(matches!(s.pending[0].purpose, CapturePurpose::Freeze));
    let frame = |name: &str, byte| FrozenFrame {
        output: name.to_owned(),
        bytes: vec![byte; 4],
        width: 1,
        height: 1,
    };
    // The overlay comes with the last frame.
    s.take_for_output("DP-1");
    assert!(!s.freeze(frame("DP-1", 1)));
    s.take_for_output("DP-2");
    assert!(s.freeze(frame("DP-2", 2)));
    assert!(s.freeze(frame("DP-1", 3)));
    s.screenshot_pointer_press(&l, fine(10, 10), &os);
    match s.screenshot_pointer_release(&l, fine(20, 20), &os) {
        ShotStep::Encode { frame, region, bind } => {
            assert_eq!(frame.output, "DP-1");
            assert_eq!(frame.bytes, vec![3; 4]);
            assert_eq!(region, rect(10, 10, 10, 10));
            assert_eq!(bind.directory, Some("~/Pictures".to_owned()));
        }
        other => panic!("{other:?}"),
    }
    assert!(s.session.is_none());
    // Without a frame there is no screenshot.
    let mut s = Screenshots::new();
    s.start(&b, fine(0, 0), &os);
    s.screenshot_pointer_press(&l, fine(10, 10), &os);
    assert!(matches!(s.screenshot_pointer_release(&l, fine(20, 20), &os), ShotStep::NoFrame));
    assert!(s.pending.is_empty());
}

#[test]
fn ending_keeps_what_is_to_be_kept() {
    let os = outputs();
    let mut s = Screenshots::new();
    s.start(&bind(ScreenshotMode::Output, false), fine(0, 0), &os);
    s.start(&bind(ScreenshotMode::Region, true), fine(0, 0), &os);
    assert_eq!(s.pending.len(), 3);
    s.end_screenshot();
    assert_eq!(s.pending.len(), 1);
    s.cancel_screenshot();
    assert!(s.pending.is_empty());
}

#[test]
fn finished_pictures_go_where_they_belong() {
    let cap = |purpose| InternalCapture {
        output: "DP-1".to_owned(),
        region: rect(0, 0, 2, 1),
        show_cursor: false,
        purpose,
    };
    let pixels = || Some((vec![7u8; 8], 2, 1));
    assert!(matches!(
        complete_internal_capture(cap(CapturePurpose::Freeze), None),
        CaptureStep::Nothing
    ));
    assert!(matches!(
        complete_internal_capture(cap(CapturePurpose::Freeze), Some((vec![], 0x8000_0000, 1))),
        CaptureStep::Nothing
    ));
    match complete_internal_capture(cap(CapturePurpose::Freeze), pixels()) {
        CaptureStep::Freeze { frame } => assert_eq!((frame.width, frame.height), (2, 1)),
        other => panic!("{other:?}"),
    }
    let purpose = CapturePurpose::Finalize { bind: bind(ScreenshotMode::Output, false) };
    match complete_internal_capture(cap(purpose), pixels()) {
        CaptureStep::Encode { region, .. } => assert_eq!(region, rect(0, 0, 2, 1)),
        other => panic!("{other:?}"),
    }
}

/// A region that is dragged across outputs is cut to the one where the drag
/// began, though its middle is on another.
#[test]
fn a_region_stays_on_the_output_where_it_began() {
    let l = desktop();
    let os = outputs();
    let mut s = Screenshots::new();
    s.start(&bind(ScreenshotMode::Region, false), fine(900, 20), &os);
    s.screenshot_pointer_press(&l, fine(900, 20), &os);
    assert!(matches!(s.screenshot_pointer_release(&l, fine(1300, 60), &os), ShotStep::Queued));
    assert_eq!(s.pending[0].output, "DP-1");
    assert_eq!(s.pending[0].region, rect(900, 20, 100, 40));
}
