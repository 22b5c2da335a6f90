use libreland::desktop::Gaps;
use libreland::geometry::{Point, Rect, Size};
use libreland::layers::{LayerBucket, LayerPlacement};
use libreland::layout::Layout;
use libreland::popups::{
    popup_at, refresh_popup_grab, snapshot_popup_placements, unconstrain_popup_geometry,
    OverrideWindow, PopupFacts, PopupPlacement,
};
use libreland::window::{Deco, LayoutMode, WindowSurface};

fn rect(x: i32, y: i32, w: i32, h: i32) -> Rect {
    Rect::new(Point::new(x, y), Size::new(w, h))
}

fn menu(root: u64, surface: u64, x: i32, y: i32, geometry: Rect) -> PopupFacts {
    PopupFacts {
        root,
        surface,
        is_menu: true,
        location: Point::new(x, y),
        geometry,
        extent: rect(0, 0, 77, 88),
    }
}

#[test]
fn menus_hang_on_their_windows_and_stay_on_screen() {
    let mut l = Layout::new(
        vec![("DP-1".to_owned(), rect(0, 0, 1000, 600))],
        Gaps { outer: 0, inner: 0 },
        Deco::none(),
        LayoutMode::Tiling,
    );
    l.insert(WindowSurface::Xdg(1), None);
    let placements = l.placements(None, &vec![None]);
    let layers = vec![LayerPlacement {
        surface: 5,
        rect: rect(0, 570, 1000, 30),
        layer: LayerBucket::Top,
    }];
    let facts = vec![
        // From a panel at the bottom edge: slid up.
        menu(5, 50, 100, 30, rect(10, 10, 200, 100)),
        menu(1, 10, 20, 40, rect(4, 4, 100, 50)),
        // Beyond the right edge: slid left. Without a geometry its extent counts.
        menu(1, 11, 980, 40, rect(0, 0, 0, 0)),
        PopupFacts { is_menu: false, ..menu(1, 12, 0, 0, rect(0, 0, 10, 10)) },
        menu(9, 13, 0, 0, rect(0, 0, 10, 10)),
    ];
    let overrides = vec![
        OverrideWindow { surface: 90, alive: true, rect: rect(-5, -5, 10, 10) },
        OverrideWindow { surface: 91, alive: false, rect: rect(0, 0, 10, 10) },
    ];
    let outputs = vec![rect(0, 0, 1000, 600)];
    let got = snapshot_popup_placements(&placements, &layers, 2, &outputs, &facts, &overrides);
    assert_eq!(
        got,
        vec![
            PopupPlacement {
                surface: 10,
                buffer_origin: Point::new(18, 38),
                rect: rect(22, 42, 100, 50),
            },
            PopupPlacement {
                surface: 11,
                buffer_origin: Point::new(923, 42),
                rect: rect(923, 42, 77, 88),
            },
            PopupPlacement {
                surface: 50,
                buffer_origin: Point::new(90, 490),
                rect: rect(100, 500, 200, 100),
            },
            PopupPlacement {
                surface: 90,
                buffer_origin: Point::new(-5, -5),
                rect: rect(-5, -5, 10, 10),
            },
        ]
    );
    // The topmost is the last.
    assert_eq!(popup_at(&got, Point::new(0, 0)), Some((90, Point::new(-5, -5))));
    assert_eq!(popup_at(&got, Point::new(110, 510)), Some((50, Point::new(90, 490))));
    assert_eq!(popup_at(&got, Point::new(500, 300)), None);
}

#[test]
fn a_menu_larger_than_its_output_starts_at_its_corner() {
    let layers = vec![LayerPlacement {
        surface: 5,
        rect: rect(1000, 0, 800, 30),
        layer: LayerBucket::Top,
    }];
    let facts = vec![menu(5, 50, 10, 30, rect(0, 0, 900, 700))];
    let outputs = vec![rect(0, 0, 1000, 600), rect(1000, 0, 800, 600)];
    let got = snapshot_popup_placements(&vec![], &layers, 2, &outputs, &facts, &vec![]);
    assert_eq!(got[0].rect, rect(1000, 0, 900, 700));
    // Without any output it stays where its client put it.
    let got = snapshot_popup_placements(&vec![], &layers, 2, &vec![], &facts, &vec![]);
    assert_eq!(got[0].rect, rect(1010, 30, 900, 700));
}

#[test]
fn clients_are_given_the_output_to_fit_in() {
    let outputs = vec![rect(0, 0, 1000, 600), rect(1000, 0, 800, 600)];
    let target = unconstrain_popup_geometry(Some(Point::new(1100, 50)), Point::new(5, 6), &outputs);
    assert_eq!(target, Some(rect(-105, -56, 800, 600)));
    assert_eq!(unconstrain_popup_geometry(None, Point::new(0, 0), &outputs), None);
    assert_eq!(unconstrain_popup_geometry(Some(Point::new(0, 0)), Point::new(0, 0), &vec![]), None);
}

#[test]
fn a_grab_lasts_as_long_as_its_menus() {
    assert_eq!(refresh_popup_grab(Some(1), true, true), Some(1));
    assert_eq!(refresh_popup_grab(Some(1), false, true), None);
    assert_eq!(refresh_popup_grab(Some(1), true, false), None);
    assert_eq!(refresh_popup_grab(None, true, true), None);
}
