use libreland::desktop::Gaps;
use libreland::geometry::{Point, Rect, Size};
use libreland::layout::Layout;
use libreland::redraw::{
    cursor_plan, queue_redraw_for_surface, CaptureWish, CursorPlan, RedrawTable, RedrawTarget,
};
use libreland::window::{Deco, LayoutMode, WindowSurface};

#[test]
fn a_frame_is_scheduled_once() {
    let mut t = RedrawTable::new();
    assert_eq!(t.scene_epoch(), 1);
    assert!(t.queue_redraw(5));
    assert!(!t.queue_redraw(5));
    assert_eq!(t.scene_epoch(), 3);
    t.rendered(5, Some(false));
    // While a frame is on its way changes are only noted.
    assert!(!t.queue_redraw(5));
    assert!(t.vblank(5));
    t.rendered(5, Some(false));
    assert!(!t.vblank(5));
    assert!(t.queue_redraw(5));
    t.rendered(5, None);
    assert!(t.queue_redraw(5));
    t.reset(5);
    assert!(t.queue_redraw(5));
    t.prime(6);
    assert!(t.vblank(6));
    t.forget(6);
    assert!(!t.vblank(6));
    // Animations go on by themselves.
    t.rendered(7, Some(true));
    assert!(t.vblank(7));
}

#[test]
fn all_outputs_are_drawn_when_the_session_is_back() {
    let mut t = RedrawTable::new();
    t.prime(1);
    assert!(t.queue_redraw(2));
    assert_eq!(t.scene_epoch(), 2);
    assert_eq!(t.queue_redraw_all(&vec![1, 2, 3]), vec![3]);
    assert_eq!(t.scene_epoch(), 5);
    assert_eq!(t.activate(&vec![1, 2, 3]), vec![1, 2, 3]);
    assert_eq!(t.scene_epoch(), 8);
    assert!(!t.queue_redraw(1));
    // One that is listed twice is scheduled once.
    assert_eq!(t.activate(&vec![1, 1]), vec![1]);
}

#[test]
fn only_the_output_that_shows_a_surface_is_drawn() {
    let mut l = Layout::new(
        vec![("DP-1".to_owned(), Rect::new(Point::new(0, 0), Size::new(1000, 600)))],
        Gaps { outer: 0, inner: 0 },
        Deco::none(),
        LayoutMode::Tiling,
    );
    l.insert(WindowSurface::Xdg(1), None);
    l.insert(WindowSurface::Xdg(2), None);
    let on = |t: RedrawTarget| match t {
        RedrawTarget::Output(n) => n,
        other => format!("{other:?}"),
    };
    assert_eq!(on(queue_redraw_for_surface(&l, 1, None)), "DP-1");
    assert_eq!(on(queue_redraw_for_surface(&l, 9, None)), "NonFullscreen");
    assert_eq!(on(queue_redraw_for_surface(&l, 9, Some("DP-1"))), "DP-1");
    l.toggle_fullscreen(2);
    assert_eq!(on(queue_redraw_for_surface(&l, 1, None)), "Nothing");
    assert_eq!(on(queue_redraw_for_surface(&l, 2, None)), "DP-1");
    assert_eq!(on(queue_redraw_for_surface(&l, 9, Some("DP-1"))), "Nothing");
}

#[test]
fn the_cursor_is_drawn_where_it_is_wanted() {
    let yes = CaptureWish { cursor: true };
    let no = CaptureWish { cursor: false };
    let plan = |hide, compose| CursorPlan { hide, compose };
    assert_eq!(cursor_plan(false, &vec![], &vec![]), plan(false, false));
    assert_eq!(cursor_plan(true, &vec![], &vec![]), plan(true, false));
    assert_eq!(cursor_plan(false, &vec![no, no], &vec![]), plan(true, false));
    assert_eq!(cursor_plan(false, &vec![no, yes], &vec![]), plan(false, true));
    assert_eq!(cursor_plan(false, &vec![yes], &vec![no]), plan(true, true));
}
