use libreland::desktop::Gaps;
use libreland::geometry::{Point, Rect, Size};
use libreland::layers::{
    first_exclusive_layer_surface, focus_locked_by_layer, layer_at, recompute_layer_layout,
    snapshot_layer_placements, work_area, Anchors, LayerBucket, LayerSurface, Margins, OutputRect,
    Zone,
};
use libreland::layout::Layout;
use libreland::window::{Deco, LayoutMode, WindowSurface};

fn rect(x: i32, y: i32, w: i32, h: i32) -> Rect {
    Rect::new(Point::new(x, y), Size::new(w, h))
}

fn outputs() -> Vec<OutputRect> {
    vec![
        OutputRect { name: "DP-1".to_owned(), rect: rect(0, 0, 1000, 600) },
        OutputRect { name: "DP-2".to_owned(), rect: rect(1000, 0, 800, 600) },
    ]
}

fn desktop() -> Layout {
    Layout::new(
        vec![
            ("DP-1".to_owned(), rect(0, 0, 1000, 600)),
            ("DP-2".to_owned(), rect(1000, 0, 800, 600)),
        ],
        Gaps { outer: 0, inner: 0 },
        Deco::none(),
        LayoutMode::Tiling,
    )
}

fn layer(surface: u64, bucket: LayerBucket, output: Option<&str>) -> LayerSurface {
    LayerSurface {
        surface,
        output: output.map(|s| s.to_owned()),
        anchors: Anchors { top: false, bottom: false, left: false, right: false },
        margins: Margins { top: 0, bottom: 0, left: 0, right: 0 },
        size: Size::new(100, 30),
        layer: bucket,
        exclusive_zone: 0,
        keyboard_exclusive: false,
        alive: true,
    }
}

#[test]
fn layers_stick_to_their_edges() {
    let mut top = layer(1, LayerBucket::Top, Some("DP-2"));
    top.anchors = Anchors { top: true, bottom: false, left: true, right: true };
    top.margins = Margins { top: 5, bottom: 0, left: 7, right: 9 };
    let mut corner = layer(2, LayerBucket::Top, None);
    corner.anchors = Anchors { top: false, bottom: true, left: false, right: true };
    corner.margins = Margins { top: 0, bottom: 5, left: 0, right: 9 };
    let middle = layer(3, LayerBucket::Overlay, Some("gone"));
    let all = vec![top, corner, middle];
    let ps = snapshot_layer_placements(&all, &outputs(), rect(0, 0, 1000, 600));
    assert_eq!(ps[0].rect, rect(1007, 5, 100, 30));
    assert_eq!(ps[1].rect, rect(891, 565, 100, 30));
    assert_eq!(ps[2].rect, rect(450, 285, 100, 30));
    assert_eq!(ps[2].layer, LayerBucket::Overlay);
}

/// A side that asks for no size has that of its output, from margin to margin
/// where it is tied to both edges.
#[test]
fn layers_without_a_size_fill_their_output() {
    let mut bar = layer(1, LayerBucket::Top, Some("DP-2"));
    bar.size = Size::new(0, 30);
    bar.anchors = Anchors { top: true, bottom: false, left: true, right: true };
    let mut inset = layer(2, LayerBucket::Top, Some("DP-2"));
    inset.size = Size::new(0, 30);
    inset.anchors = bar.anchors;
    inset.margins = Margins { top: 5, bottom: 0, left: 7, right: 9 };
    let mut all = layer(3, LayerBucket::Overlay, None);
    all.size = Size::new(0, -1);
    let ps =
        snapshot_layer_placements(&vec![bar, inset, all], &outputs(), rect(0, 0, 1000, 600));
    assert_eq!(ps[0].rect, rect(1000, 0, 800, 30));
    assert_eq!(ps[1].rect, rect(1007, 5, 784, 30));
    assert_eq!(ps[2].rect, rect(0, 0, 1000, 600));
}

#[test]
fn the_highest_layer_takes_the_pointer() {
    let l = desktop();
    let all = vec![
        layer(1, LayerBucket::Bottom, Some("DP-1")),
        layer(2, LayerBucket::Overlay, Some("DP-1")),
        layer(3, LayerBucket::Overlay, Some("DP-1")),
        layer(4, LayerBucket::Top, Some("DP-1")),
    ];
    let ps = snapshot_layer_placements(&all, &outputs(), rect(0, 0, 1000, 600));
    let at = Point::new(500, 300);
    let hit = layer_at(&l, &all, &ps, &vec![true, true, true, true], at);
    assert_eq!(hit, Some((2, rect(450, 285, 100, 30))));
    // What claims no input there is looked through.
    let hit = layer_at(&l, &all, &ps, &vec![true, false, false, true], at);
    assert_eq!(hit.map(|h| h.0), Some(4));
    assert_eq!(layer_at(&l, &all, &ps, &vec![true, true, true, true], Point::new(0, 0)), None);
}

#[test]
fn fullscreen_windows_hide_all_but_the_overlay() {
    let mut l = desktop();
    l.insert(WindowSurface::Xdg(9), Some(Point::new(10, 10)));
    l.toggle_fullscreen(9);
    let all = vec![
        layer(1, LayerBucket::Top, Some("DP-1")),
        layer(2, LayerBucket::Top, Some("DP-2")),
    ];
    let ps = snapshot_layer_placements(&all, &outputs(), rect(0, 0, 1000, 600));
    let claims = vec![true, true];
    assert_eq!(layer_at(&l, &all, &ps, &claims, Point::new(500, 300)), None);
    assert_eq!(
        layer_at(&l, &all, &ps, &claims, Point::new(1400, 300)).map(|h| h.0),
        Some(2)
    );
    let over = vec![layer(3, LayerBucket::Overlay, Some("DP-1"))];
    let ps = snapshot_layer_placements(&over, &outputs(), rect(0, 0, 1000, 600));
    assert_eq!(
        layer_at(&l, &over, &ps, &vec![true], Point::new(500, 300)).map(|h| h.0),
        Some(3)
    );
}

#[test]
fn only_layers_above_windows_keep_the_keyboard() {
    let mut a = layer(1, LayerBucket::Bottom, None);
    a.keyboard_exclusive = true;
    let mut b = layer(2, LayerBucket::Top, None);
    b.keyboard_exclusive = true;
    let mut c = layer(3, LayerBucket::Overlay, None);
    c.keyboard_exclusive = true;
    c.alive = false;
    let mut d = layer(4, LayerBucket::Overlay, None);
    d.keyboard_exclusive = true;
    let all = vec![a, b, c, d];
    assert!(!focus_locked_by_layer(&all, None));
    assert!(!focus_locked_by_layer(&all, Some(1)));
    assert!(focus_locked_by_layer(&all, Some(2)));
    assert!(!focus_locked_by_layer(&all, Some(99)));
    assert_eq!(first_exclusive_layer_surface(&all, 99), Some(2));
    assert_eq!(first_exclusive_layer_surface(&all, 2), Some(4));
    assert_eq!(first_exclusive_layer_surface(&vec![], 2), None);
}

#[test]
fn reserved_zones_shrink_the_work_area() {
    let mut l = desktop();
    l.insert(WindowSurface::Xdg(9), Some(Point::new(10, 10)));
    let mut bar = layer(1, LayerBucket::Top, None);
    bar.anchors = Anchors { top: true, bottom: false, left: true, right: true };
    bar.exclusive_zone = 30;
    let mut bigger = layer(2, LayerBucket::Top, Some("DP-1"));
    bigger.anchors = bar.anchors;
    bigger.exclusive_zone = 40;
    let mut dock = layer(3, LayerBucket::Top, Some("DP-1"));
    dock.anchors = Anchors { top: true, bottom: true, left: false, right: true };
    dock.exclusive_zone = 50;
    let mut nowhere = layer(4, LayerBucket::Top, Some("DP-1"));
    nowhere.exclusive_zone = 70;
    let mut ignored = layer(5, LayerBucket::Top, Some("DP-1"));
    ignored.anchors = bar.anchors;
    ignored.exclusive_zone = -1;
    let mut overlay = layer(6, LayerBucket::Overlay, Some("DP-1"));
    overlay.anchors = Anchors { top: false, bottom: true, left: true, right: true };
    overlay.exclusive_zone = 100;
    let mut behind = layer(7, LayerBucket::Background, Some("DP-1"));
    behind.anchors = overlay.anchors;
    behind.exclusive_zone = 100;
    let all = vec![bar, bigger, dock, nowhere, ignored, overlay, behind];
    recompute_layer_layout(&mut l, &all, &outputs(), Some("DP-1"));
    let p = l.placements(None, &vec![None, None]);
    assert_eq!(p[0].cell_rect, rect(0, 70, 950, 530));
    // Without a primary output nothing is done.
    recompute_layer_layout(&mut l, &vec![], &outputs(), None);
    assert_eq!(l.placements(None, &vec![None, None])[0].cell_rect, rect(0, 70, 950, 530));
    recompute_layer_layout(&mut l, &vec![], &outputs(), Some("DP-1"));
    assert_eq!(l.placements(None, &vec![None, None])[0].cell_rect, rect(0, 0, 1000, 600));
}

#[test]
fn a_work_area_is_never_empty() {
    let z = Zone { top: 400, bottom: 400, left: 10, right: 20 };
    assert_eq!(work_area(rect(0, 0, 1000, 600), z), rect(10, 400, 970, 1));
}
