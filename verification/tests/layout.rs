use libreland::desktop::{ClientFacts, Gaps, SlideOffsets, SlideTiming};
use libreland::geometry::{Point, Rect, Size};
use libreland::layout::Layout;
use libreland::tree::ResizeEdges;
use libreland::window::{Configure, Deco, FillMode, LayoutMode, WindowSurface};

/// Slides are switched off.
const STILL: SlideTiming = SlideTiming { now: 0, duration: None };

fn rect(x: i32, y: i32, w: i32, h: i32) -> Rect {
    Rect::new(Point::new(x, y), Size::new(w, h))
}

fn desktop() -> Layout {
    Layout::new(
        vec![
            ("DP-1".to_owned(), rect(0, 0, 1000, 600)),
            ("DP-2".to_owned(), rect(1000, 0, 800, 600)),
        ],
        Gaps { outer: 0, inner: 0 },
        Deco::none(),
        LayoutMode::Tiling,
    )
}

fn facts() -> ClientFacts {
    ClientFacts::Xdg {
        has_parent: false,
        declared_dialog: false,
        min: Size::new(0, 0),
        max: Size::new(0, 0),
        geometry: Some(Size::new(300, 200)),
    }
}

fn cells(l: &Layout) -> Vec<(u64, Rect)> {
    l.placements(None, &vec![None, None])
        .iter()
        .map(|p| (p.surface, p.cell_rect))
        .collect()
}

#[test]
fn the_first_window_fills_its_output() {
    let mut l = desktop();
    l.insert(WindowSurface::Xdg(1), Some(Point::new(10, 10)));
    assert_eq!(cells(&l), vec![(1, rect(0, 0, 1000, 600))]);
    assert_eq!(
        l.take_configures(),
        vec![Configure::Xdg {
            surface: 1,
            size: Size::new(1000, 600),
            tiled: true,
            maximized: false,
            fullscreen: false,
        }]
    );
    assert!(l.take_configures().is_empty());
}

#[test]
fn a_second_window_splits_the_longer_side() {
    let mut l = desktop();
    l.insert(WindowSurface::Xdg(1), None);
    l.insert(WindowSurface::Xdg(2), Some(Point::new(900, 10)));
    assert_eq!(
        cells(&l),
        vec![(1, rect(0, 0, 500, 600)), (2, rect(500, 0, 500, 600))]
    );
    // In the leading half the new window comes first.
    l.insert(WindowSurface::Xdg(3), Some(Point::new(510, 10)));
    assert_eq!(
        cells(&l),
        vec![
            (1, rect(0, 0, 500, 600)),
            (3, rect(500, 0, 500, 300)),
            (2, rect(500, 300, 500, 300)),
        ]
    );
}

#[test]
fn windows_open_on_the_output_under_the_cursor() {
    let mut l = desktop();
    l.insert(WindowSurface::Xdg(1), Some(Point::new(1200, 10)));
    assert_eq!(l.output_of(1), Some("DP-2".to_owned()));
    // Without one under it, on the first.
    l.insert(WindowSurface::Xdg(2), Some(Point::new(5000, 10)));
    assert_eq!(l.output_of(2), Some("DP-1".to_owned()));
    assert_eq!(l.output_of(3), None);
}

#[test]
fn gaps_lie_around_and_between_tiles() {
    let mut l = Layout::new(
        vec![("DP-1".to_owned(), rect(0, 0, 1000, 600))],
        Gaps { outer: 10, inner: 20 },
        Deco::none(),
        LayoutMode::Tiling,
    );
    l.insert(WindowSurface::Xdg(1), None);
    assert_eq!(cells(&l), vec![(1, rect(10, 10, 980, 580))]);
    l.insert(WindowSurface::Xdg(2), None);
    assert_eq!(
        cells(&l),
        vec![(1, rect(10, 10, 480, 580)), (2, rect(510, 10, 480, 580))]
    );
}

#[test]
fn closing_a_window_gives_its_place_back() {
    let mut l = desktop();
    l.insert(WindowSurface::Xdg(1), None);
    let before = cells(&l);
    l.insert(WindowSurface::Xdg(2), None);
    l.remove(2);
    assert_eq!(cells(&l), before);
    assert!(l.window_surface(2).is_none());
    assert_eq!(l.window_surface(1), Some(WindowSurface::Xdg(1)));
    // A surface that is not there changes nothing.
    l.remove(9);
    assert_eq!(cells(&l), before);
}

#[test]
fn floating_toggles() {
    let mut l = desktop();
    l.insert(WindowSurface::Xdg(1), None);
    l.insert(WindowSurface::Xdg(2), None);
    assert!(l.toggle_floating(2, &facts()));
    let p = l.placements(Some(2), &vec![None, None]);
    assert_eq!(p.len(), 2);
    assert_eq!((p[0].surface, p[0].floating, p[0].focused), (1, false, false));
    assert_eq!((p[1].surface, p[1].floating, p[1].focused), (2, true, true));
    assert_eq!(p[0].cell_rect, rect(0, 0, 1000, 600));
    assert!(l.toggle_floating(2, &facts()));
    assert!(!l.placements(None, &vec![None, None])[1].floating);
    assert!(!l.toggle_floating(9, &facts()));
}

#[test]
fn dialogs_float_by_themselves() {
    let mut l = desktop();
    l.insert(WindowSurface::Xdg(1), None);
    l.insert(WindowSurface::Xdg(2), None);
    let dialog = ClientFacts::Xdg {
        has_parent: true,
        declared_dialog: false,
        min: Size::new(0, 0),
        max: Size::new(0, 0),
        geometry: Some(Size::new(300, 200)),
    };
    assert!(!l.float_if_dialog(2, &facts()));
    assert!(l.float_if_dialog(2, &dialog));
    let p = l.placements(None, &vec![None, None]);
    assert!(p[1].floating);
    assert_eq!(p[1].cell_rect.size, Size::new(300, 200));
    assert_eq!(p[1].cell_rect, rect(350, 200, 300, 200));
    // It floats already.
    assert!(!l.float_if_dialog(2, &dialog));
}

#[test]
fn fullscreen_covers_the_output_and_goes_again() {
    let mut l = desktop();
    l.set_output_bounds("DP-1", rect(0, 0, 1000, 600), rect(0, 30, 1000, 570));
    l.insert(WindowSurface::Xdg(1), None);
    assert_eq!(cells(&l), vec![(1, rect(0, 30, 1000, 570))]);
    assert!(l.toggle_fullscreen(1));
    assert_eq!(cells(&l), vec![(1, rect(0, 0, 1000, 600))]);
    assert!(l.output_has_fullscreen("DP-1"));
    assert!(!l.output_has_fullscreen("DP-2"));
    assert!(!l.output_fullscreen_other_than("DP-1", 1));
    assert!(l.output_fullscreen_other_than("DP-1", 2));
    assert!(l.toggle_fullscreen(1));
    assert!(!l.output_has_fullscreen("DP-1"));
    assert!(l.toggle_maximized(1));
    assert_eq!(l.placements(None, &vec![None, None])[0].fill, FillMode::Maximized);
    assert_eq!(cells(&l), vec![(1, rect(0, 30, 1000, 570))]);
    assert!(!l.toggle_fullscreen(9));
}

#[test]
fn the_pointer_finds_the_topmost_window() {
    let mut l = desktop();
    l.insert(WindowSurface::Xdg(1), None);
    l.insert(WindowSurface::Xdg(2), None);
    assert!(l.toggle_floating(2, &facts()));
    l.set_floating_rect(2, rect(100, 100, 200, 100));
    let at = |l: &Layout, x, y| l.window_at(Point::new(x, y)).map(|(w, r)| (w.toplevel.wl_surface(), r));
    assert_eq!(at(&l, 150, 150), Some((2, rect(100, 100, 200, 100))));
    assert_eq!(at(&l, 50, 50), Some((1, rect(0, 0, 1000, 600))));
    assert_eq!(at(&l, 1500, 50), None);
    assert_eq!(at(&l, -1, 0), None);
    l.toggle_fullscreen(1);
    assert_eq!(at(&l, 150, 150), Some((1, rect(0, 0, 1000, 600))));
}

#[test]
fn a_tile_is_dragged_to_another_output() {
    let mut l = desktop();
    l.insert(WindowSurface::Xdg(1), None);
    l.insert(WindowSurface::Xdg(2), None);
    assert_eq!(l.start_move_drag(2), Some(rect(500, 0, 500, 600)));
    // Only one window is in transit at a time.
    assert_eq!(l.start_move_drag(1), None);
    assert_eq!(cells(&l), vec![(1, rect(0, 0, 1000, 600)), (2, rect(500, 0, 500, 600))]);
    l.update_in_transit_rect(rect(1100, 50, 500, 600));
    l.finish_move_drag(Point::new(1200, 100));
    assert_eq!(l.output_of(2), Some("DP-2".to_owned()));
    assert_eq!(
        cells(&l),
        vec![(1, rect(0, 0, 1000, 600)), (2, rect(1000, 0, 800, 600))]
    );
}

#[test]
fn a_floating_window_keeps_its_rectangle_when_dropped() {
    let mut l = desktop();
    l.insert(WindowSurface::Xdg(1), None);
    l.toggle_floating(1, &facts());
    l.set_floating_rect(1, rect(10, 20, 300, 200));
    assert_eq!(l.start_move_drag(1), Some(rect(10, 20, 300, 200)));
    l.finish_move_drag(Point::new(20, 30));
    assert_eq!(cells(&l), vec![(1, rect(10, 20, 300, 200))]);
}

#[test]
fn dividers_are_dragged() {
    let mut l = desktop();
    l.insert(WindowSurface::Xdg(1), None);
    l.insert(WindowSurface::Xdg(2), None);
    assert_eq!(l.start_resize_drag(1), Some(rect(0, 0, 500, 600)));
    l.apply_resize(
        1,
        rect(0, 0, 700, 600),
        ResizeEdges { right: true, bottom: true },
    );
    assert_eq!(
        cells(&l),
        vec![(1, rect(0, 0, 700, 600)), (2, rect(700, 0, 300, 600))]
    );
    // The neighbour keeps a usable width.
    l.apply_resize(
        1,
        rect(0, 0, 5000, 600),
        ResizeEdges { right: true, bottom: true },
    );
    assert_eq!(
        cells(&l),
        vec![(1, rect(0, 0, 880, 600)), (2, rect(880, 0, 120, 600))]
    );
}

#[test]
fn workspaces_are_switched_and_tidied() {
    let mut l = desktop();
    l.insert(WindowSurface::Xdg(1), None);
    assert_eq!(l.active_workspace("DP-1"), Some(0));
    assert!(l.switch_at(Point::new(10, 10), 1, STILL));
    assert_eq!(l.active_workspace("DP-1"), Some(1));
    assert_eq!(l.active_workspace("DP-2"), Some(0));
    assert!(cells(&l).is_empty());
    assert!(l.on_inactive_workspace(1));
    // From an empty workspace at the end there is nowhere further to go.
    assert!(!l.switch_at(Point::new(10, 10), -5, STILL));
    l.insert(WindowSurface::Xdg(2), None);
    assert!(l.switch_workspace_to("DP-1", 0, STILL));
    assert_eq!(cells(&l), vec![(1, rect(0, 0, 1000, 600))]);
    let lists: Vec<_> = l
        .workspace_entries()
        .iter()
        .map(|e| (e.output.clone(), e.index, e.active, e.windows))
        .collect();
    assert_eq!(
        lists,
        vec![
            ("DP-1".to_owned(), 0, true, 1),
            ("DP-1".to_owned(), 1, false, 1),
            ("DP-1".to_owned(), 2, false, 0),
            ("DP-2".to_owned(), 0, true, 0),
        ]
    );
    assert!(!l.switch_workspace_to("HDMI-1", 0, STILL));
    assert!(!l.switch_workspace_to("DP-1", 0, STILL));
    assert_eq!(l.active_workspace("HDMI-1"), None);
}

#[test]
fn a_window_moves_to_another_workspace_and_is_followed() {
    let mut l = desktop();
    l.insert(WindowSurface::Xdg(1), None);
    l.insert(WindowSurface::Xdg(2), None);
    assert!(l.move_focused_window(2, 1));
    assert_eq!(l.active_workspace("DP-1"), Some(1));
    assert_eq!(cells(&l), vec![(2, rect(0, 0, 1000, 600))]);
    let es: Vec<_> = l
        .window_entries()
        .iter()
        .map(|e| (e.surface, e.workspace, e.floating))
        .collect();
    assert_eq!(es, vec![(1, 0, false), (2, 1, false)]);
    // The other is not on show.
    assert!(!l.move_window_to_workspace(1, 5));
    assert!(l.move_window_to_workspace(2, 0));
    assert_eq!(l.active_workspace("DP-1"), Some(0));
    assert!(!l.move_focused_window(2, -1));
}

#[test]
fn a_slide_runs_its_time() {
    let mut l = desktop();
    l.insert(WindowSurface::Xdg(1), None);
    let at = |now| SlideTiming { now, duration: Some(200) };
    assert!(!l.is_animating());
    assert!(l.switch_at(Point::new(10, 10), 1, at(1000)));
    assert!(l.is_animating());
    assert_eq!(l.slide_of("DP-1"), Some((1, 1000)));
    let slides = vec![
        Some(SlideOffsets { from: Point::new(-300, 0), to: Point::new(700, 0) }),
        None,
    ];
    let p = l.placements(None, &slides);
    assert_eq!(p.len(), 1);
    assert_eq!(p[0].slide, Point::new(-300, 0));
    l.tick_transitions(1100, Some(&vec![200, 200]));
    assert!(l.is_animating());
    l.tick_transitions(1200, Some(&vec![200, 200]));
    assert!(!l.is_animating());
    assert_eq!(l.slide_of("DP-1"), None);
}

#[test]
fn a_flick_keeps_one_slide() {
    let mut l = desktop();
    l.insert(WindowSurface::Xdg(1), None);
    l.switch_workspace_to("DP-1", 1, STILL);
    l.insert(WindowSurface::Xdg(2), None);
    l.switch_workspace_to("DP-1", 0, STILL);
    l.tick_transitions(0, None);
    let at = |now| SlideTiming { now, duration: Some(200) };
    assert!(l.switch_at(Point::new(10, 10), 1, at(1000)));
    assert!(l.switch_at(Point::new(10, 10), 1, at(1010)));
    assert_eq!(l.slide_of("DP-1"), Some((2, 1000)));
    // Back where it began, it is dropped.
    assert!(l.switch_at(Point::new(10, 10), -2, at(1020)));
    assert_eq!(l.slide_of("DP-1"), None);
}

#[test]
fn an_unplugged_output_hands_its_windows_over() {
    let mut l = desktop();
    l.insert(WindowSurface::Xdg(1), Some(Point::new(10, 10)));
    l.insert(WindowSurface::Xdg(2), Some(Point::new(1200, 10)));
    l.remove_output("DP-2", Some("DP-1"));
    assert_eq!(l.output_of(2), Some("DP-1".to_owned()));
    assert_eq!(l.workspace_entries().len(), 2);
    l.add_output("DP-2".to_owned(), rect(1000, 0, 800, 600));
    assert_eq!(l.active_workspace("DP-2"), Some(0));
    // A second one of the name is not added.
    l.add_output("DP-2".to_owned(), rect(0, 0, 1, 1));
    assert_eq!(l.output_name_at(Point::new(1500, 10)), Some("DP-2".to_owned()));
    // Without another output nothing is lost.
    l.remove_output("DP-1", None);
    assert_eq!(l.output_of(1), Some("DP-1".to_owned()));
}

#[test]
fn a_floating_window_follows_its_client() {
    let mut l = desktop();
    l.insert(WindowSurface::Xdg(1), None);
    l.toggle_floating(1, &facts());
    l.set_floating_rect(1, rect(10, 20, 300, 200));
    assert!(l.reconcile_floating_size(1, Size::new(320, 240)));
    assert_eq!(cells(&l), vec![(1, rect(10, 20, 320, 240))]);
    assert!(!l.reconcile_floating_size(1, Size::new(320, 240)));
    assert!(!l.reconcile_floating_size(1, Size::new(0, 240)));
    assert!(!l.reconcile_floating_size(2, Size::new(320, 240)));
    // It never outgrows its output.
    assert!(l.reconcile_floating_size(1, Size::new(9999, 240)));
    assert_eq!(cells(&l)[0].1.size, Size::new(1000, 240));
}

#[test]
fn limits_come_from_the_client_with_its_frame() {
    let mut l = Layout::new(
        vec![("DP-1".to_owned(), rect(0, 0, 1000, 600))],
        Gaps { outer: 0, inner: 0 },
        Deco::new(2, 28),
        LayoutMode::Tiling,
    );
    l.insert(WindowSurface::Xdg(1), None);
    let f = ClientFacts::Xdg {
        has_parent: false,
        declared_dialog: false,
        min: Size::new(100, 50),
        max: Size::new(0, 0),
        geometry: None,
    };
    let (least, _) = l.client_size_limits(1, &f);
    assert_eq!(least, Size::new(104, 82));
    assert_eq!(l.deco(), Deco::new(2, 28));
    assert!(l.any_output_full_size(1000, 600));
    assert!(!l.any_output_full_size(1000, 601));
}

#[test]
fn x_windows_are_told_where_they_are() {
    let mut l = desktop();
    l.insert(WindowSurface::X11 { window: 77, wl_surface: 5 }, Some(Point::new(1200, 10)));
    assert_eq!(
        l.take_configures(),
        vec![Configure::X11 {
            window: 77,
            rect: rect(1000, 0, 800, 600),
            maximized: false,
            fullscreen: false,
        }]
    );
    assert!(l.reconfigure(5));
    assert_eq!(l.take_configures().len(), 1);
    assert!(!l.reconfigure(6));
}

#[test]
fn appearance_changes_reach_every_tile() {
    let mut l = desktop();
    l.insert(WindowSurface::Xdg(1), None);
    l.set_appearance(Gaps { outer: 5, inner: 0 }, Deco::new(1, 0));
    assert_eq!(cells(&l), vec![(1, rect(5, 5, 990, 590))]);
    let told = l.take_configures();
    assert_eq!(
        told.last(),
        Some(&Configure::Xdg {
            surface: 1,
            size: Size::new(988, 588),
            tiled: true,
            maximized: false,
            fullscreen: false,
        })
    );
}

/// An output that is named as its own heir leaves its windows to the next one.
#[test]
fn an_output_that_inherits_itself_leaves_to_the_next() {
    let mut l = desktop();
    l.insert(WindowSurface::Xdg(1), Some(Point::new(10, 10)));
    l.remove_output("DP-1", Some("DP-1"));
    assert_eq!(l.output_of(1), Some("DP-2".to_owned()));
    // An output that is not there is nobody's loss.
    l.remove_output("DP-9", Some("DP-9"));
    assert_eq!(l.workspace_entries().len(), 2);
}

/// A slide that began while slides were off still knows when it began.
#[test]
fn a_slide_knows_when_it_began() {
    let mut l = desktop();
    l.insert(WindowSurface::Xdg(1), None);
    assert!(l.switch_workspace_to("DP-1", 1, SlideTiming { now: 700, duration: None }));
    assert_eq!(l.slide_of("DP-1"), Some((1, 700)));
    l.tick_transitions(800, Some(&vec![200, 200]));
    assert!(l.is_animating());
    l.tick_transitions(900, None);
    assert!(!l.is_animating());
}

/// Past a blank workspace at the end there is nothing to switch to.
#[test]
fn a_switch_past_a_blank_end_changes_nothing() {
    let mut l = desktop();
    assert!(!l.switch_workspace_to("DP-1", 7, STILL));
    assert!(!l.switch_at(Point::new(10, 10), 1, STILL));
    l.insert(WindowSurface::Xdg(1), None);
    assert!(l.switch_workspace_to("DP-1", 7, STILL));
    assert_eq!(l.active_workspace("DP-1"), Some(1));
    let before = l.workspace_entries().len();
    l.tick_transitions(0, None);
    assert!(!l.switch_workspace_to("DP-1", 7, STILL));
    assert_eq!(l.active_workspace("DP-1"), Some(1));
    assert_eq!(l.workspace_entries().len(), before);
    assert!(!l.is_animating());
}

/// A cursor outside the tile that is split puts the new window last.
#[test]
fn a_cursor_elsewhere_splits_to_the_right() {
    let mut l = desktop();
    l.set_output_bounds("DP-1", rect(0, 0, 1000, 600), rect(100, 0, 900, 600));
    l.insert(WindowSurface::Xdg(1), None);
    l.insert(WindowSurface::Xdg(2), Some(Point::new(10, 10)));
    let p = l.placements(None, &vec![None, None]);
    assert_eq!((p[0].surface, p[1].surface), (1, 2));
    l.insert(WindowSurface::Xdg(3), Some(Point::new(110, 10)));
    let p = l.placements(None, &vec![None, None]);
    assert_eq!((p[0].surface, p[1].surface), (3, 1));
}
