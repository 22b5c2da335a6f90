use libreland::config::{ScreenshotBind, ScreenshotMode};
use libreland::desktop::Gaps;
use libreland::frame::{
    frame_contents, lock_size, nonfullscreen, present_info, render_crtc, Feedback, FrameInputs,
    Pipeline, Presented, ScanoutFeedback, ShownAt,
};
use libreland::geometry::{Point, Rect, Size};
use libreland::layers::{Anchors, LayerBucket, LayerSurface, Margins, OutputRect};
use libreland::layout::Layout;
use libreland::popups::PopupFacts;
use libreland::screenshot::{FinePoint, OutputGeometry, Screenshots};
use libreland::window::{Deco, LayoutMode, WindowSurface};

fn rect(x: i32, y: i32, w: i32, h: i32) -> Rect {
    Rect::new(Point::new(x, y), Size::new(w, h))
}

fn desktop() -> Layout {
    let mut l = Layout::new(
        vec![
            ("DP-1".to_owned(), rect(0, 0, 1000, 600)),
            ("DP-2".to_owned(), rect(1000, 0, 800, 600)),
        ],
        Gaps { outer: 0, inner: 0 },
        Deco::none(),
        LayoutMode::Tiling,
    );
    l.insert(WindowSurface::Xdg(1), Some(Point::new(10, 10)));
    l.insert(WindowSurface::Xdg(2), Some(Point::new(1200, 10)));
    l
}

#[test]
fn a_locked_session_shows_only_the_lock_screen() {
    let l = desktop();
    let ps = || l.placements(None, &vec![None, None]);
    let all = frame_contents(false, Some((9, rect(0, 0, 1000, 600))), ps(), vec![], vec![]);
    assert_eq!(all.placements.len(), 2);
    assert!(all.layers.is_empty());
    let locked = frame_contents(true, Some((9, rect(0, 0, 1000, 600))), ps(), vec![], vec![]);
    assert!(locked.placements.is_empty());
    assert_eq!(locked.layers.len(), 1);
    assert_eq!(locked.layers[0].surface, 9);
    assert_eq!(locked.layers[0].layer, LayerBucket::Overlay);
    // Without a lock screen nothing at all is shown.
    let blank = frame_contents(true, None, ps(), vec![], vec![]);
    assert!(blank.layers.is_empty());
    assert_eq!(lock_size(rect(5, 5, 1920, 1080)), (1920, 1080));
    assert_eq!(lock_size(rect(5, 5, -1, 1080)), (0, 1080));
}

#[test]
fn frames_are_timed_by_the_display_where_it_can() {
    let exact = Presented { time: 5, sequence: 7, vsync: true, hw_clock: true, hw_completion: true };
    assert_eq!(present_info(Some((ShownAt::Monotonic(5), 7)), 100), exact);
    let rough =
        Presented { time: 100, sequence: 7, vsync: true, hw_clock: false, hw_completion: false };
    assert_eq!(present_info(Some((ShownAt::Realtime, 7)), 100), rough);
    assert_eq!(present_info(None, 100), Presented { sequence: 0, ..rough });
}

#[test]
fn fullscreen_clients_keep_their_buffers() {
    let mut l = desktop();
    let mut s = ScanoutFeedback::new();
    let here = rect(0, 0, 1000, 600);
    let got = s.sync_scanout_feedback(&l.placements(None, &vec![None, None]), here);
    assert_eq!(got, vec![Feedback { surface: 1, scanout: false }]);
    l.toggle_fullscreen(1);
    let got = s.sync_scanout_feedback(&l.placements(None, &vec![None, None]), here);
    assert_eq!(got, vec![Feedback { surface: 1, scanout: true }]);
    l.toggle_fullscreen(1);
    let got = s.sync_scanout_feedback(&l.placements(None, &vec![None, None]), here);
    assert_eq!(got, vec![Feedback { surface: 1, scanout: true }]);
}

#[test]
fn fullscreen_outputs_are_left_alone() {
    let mut l = desktop();
    l.toggle_fullscreen(2);
    let pipes = vec![
        Pipeline { crtc: 10, output: Some("DP-1".to_owned()) },
        Pipeline { crtc: 11, output: Some("DP-2".to_owned()) },
        Pipeline { crtc: 12, output: None },
    ];
    assert_eq!(nonfullscreen(&l, &pipes), vec![10, 12]);
}

#[test]
fn a_frame_is_set_up() {
    let mut l = desktop();
    let mut shots = Screenshots::new();
    let mut scanout = ScanoutFeedback::new();
    let bind = ScreenshotBind {
        mods: 0,
        keysym: 0,
        mode: ScreenshotMode::Output,
        freeze: false,
        show_cursor: false,
        clipboard: false,
        directory: None,
    };
    let geometry = vec![OutputGeometry {
        name: "DP-1".to_owned(),
        compositor: rect(0, 0, 1000, 600),
        mode_size: Size::new(1000, 600),
        scale: 120,
    }];
    shots.start(&bind, FinePoint { x: 0, y: 0 }, &geometry);
    let layers = vec![LayerSurface {
        surface: 5,
        output: Some("DP-1".to_owned()),
        anchors: Anchors { top: true, bottom: false, left: true, right: false },
        margins: Margins { top: 0, bottom: 0, left: 0, right: 0 },
        size: Size::new(100, 30),
        layer: LayerBucket::Top,
        exclusive_zone: 0,
        keyboard_exclusive: false,
        alive: true,
    }];
    let outputs = vec![OutputRect { name: "DP-1".to_owned(), rect: rect(0, 0, 1000, 600) }];
    let areas = vec![rect(0, 0, 1000, 600)];
    let popups = vec![PopupFacts {
        root: 1,
        surface: 11,
        is_menu: true,
        location: Point::new(10, 10),
        geometry: rect(0, 0, 50, 50),
        extent: rect(0, 0, 50, 50),
    }];
    let slides = vec![None, None];
    let mut inputs = FrameInputs {
        output: Some("DP-1"),
        output_rect: Some(rect(0, 0, 1000, 600)),
        now: 0,
        durations: None,
        slides: &slides,
        focused: Some(1),
        layers: &layers,
        outputs: &outputs,
        primary: rect(0, 0, 1000, 600),
        border: 2,
        popups: &popups,
        overrides: &vec![],
        areas: &areas,
        session_locked: false,
        lock: Some(9),
        copies: &vec![],
        pointer_locked: false,
    };
    let plan = render_crtc(&mut l, &mut shots, &mut scanout, &inputs);
    assert_eq!(plan.contents.placements.len(), 2);
    assert!(plan.contents.placements[0].focused);
    assert_eq!(plan.contents.layers[0].rect, rect(0, 0, 100, 30));
    assert_eq!(plan.contents.popups[0].rect, rect(12, 12, 50, 50));
    assert_eq!(plan.feedback, vec![Feedback { surface: 1, scanout: false }]);
    assert_eq!(plan.captures.len(), 1);
    // The picture leaves the cursor out.
    assert!(plan.cursor.hide);
    assert!(!plan.cursor.compose);
    inputs.session_locked = true;
    let plan = render_crtc(&mut l, &mut shots, &mut scanout, &inputs);
    assert!(plan.contents.placements.is_empty());
    assert!(plan.contents.popups.is_empty());
    assert_eq!(plan.contents.layers[0].surface, 9);
    assert!(plan.captures.is_empty());
    assert!(!plan.cursor.hide);
    inputs.output = None;
    let plan = render_crtc(&mut l, &mut shots, &mut scanout, &inputs);
    assert!(plan.contents.layers.is_empty());
    assert!(plan.feedback.is_empty());
}
