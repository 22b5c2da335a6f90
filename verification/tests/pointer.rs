use libreland::config::FocusModel;
use libreland::desktop::{Gaps, SlideTiming};
use libreland::geometry::{Point, Rect, Size};
use libreland::layers::{
    snapshot_layer_placements, Anchors, LayerBucket, LayerSurface, Margins, OutputRect,
};
use libreland::layout::Layout;
use libreland::pointer::{
    activates_constraint, axis_part, forward_pointer_button, forward_pointer_motion, hover_focus,
    locked_surface_at, motion_redraw, motion_step, scroll_workspaces, scrolls_workspaces, workspace_gesture,
    AxisPart, ButtonPlan, ButtonStep, Constraint, DragMode, DragState, LockedOutput, MotionRedraw,
    MotionStep, PointerContext, Scene, Shadow, BTN_LEFT, BTN_RIGHT,
};
use libreland::popups::PopupPlacement;
use libreland::window::{Deco, LayoutMode, WindowSurface};

/// Slides are switched off.
const STILL: SlideTiming = SlideTiming { now: 0, duration: None };

fn rect(x: i32, y: i32, w: i32, h: i32) -> Rect {
    Rect::new(Point::new(x, y), Size::new(w, h))
}

fn desktop() -> Layout {
    let mut l = Layout::new(
        vec![("DP-1".to_owned(), rect(0, 0, 1000, 600))],
        Gaps { outer: 0, inner: 0 },
        Deco::none(),
        LayoutMode::Tiling,
    );
    l.insert(WindowSurface::Xdg(1), None);
    l.insert(WindowSurface::Xdg(2), None);
    l
}

fn context() -> PointerContext {
    PointerContext {
        screenshot: false,
        super_held: false,
        model: FocusModel::Click,
        layer_locked: false,
        session_locked: false,
        in_popup: false,
        grabbed: false,
        popup_grab: false,
        focus: None,
        layer: None,
    }
}

#[test]
fn a_resize_drag_keeps_a_usable_window() {
    let d = DragState { surface: 1, mode: DragMode::Resize, rect_start: rect(10, 20, 300, 200) };
    assert_eq!(d.rect_at(50, -20), rect(10, 20, 350, 180));
    assert_eq!(d.rect_at(-500, -500), rect(10, 20, 100, 60));
    assert_eq!(d.rect_at(0, 0), rect(10, 20, 300, 200));
    let m = DragState { mode: DragMode::Move, ..d };
    assert_eq!(m.rect_at(50, -20), rect(60, 0, 300, 200));
}

#[test]
fn motions_go_to_whoever_holds_the_pointer() {
    assert_eq!(motion_redraw(true, true, true), MotionRedraw::No);
    assert_eq!(motion_redraw(false, true, false), MotionRedraw::Yes);
    assert_eq!(motion_redraw(false, false, true), MotionRedraw::Yes);
    assert_eq!(motion_redraw(false, false, false), MotionRedraw::UnlessPlaneMoves);
    assert_eq!(motion_step(true, true, true, None), MotionStep::Select);
    assert_eq!(motion_step(false, true, true, None), MotionStep::Drag);
    assert_eq!(motion_step(false, false, false, None), MotionStep::Ignore);
    assert_eq!(
        motion_step(false, false, true, Some(Constraint::Locked)),
        MotionStep::Relative
    );
    assert_eq!(
        motion_step(false, false, true, Some(Constraint::Confined)),
        MotionStep::Free { confined: true }
    );
    assert_eq!(motion_step(false, false, true, None), MotionStep::Free { confined: false });
    assert!(activates_constraint(false, None));
    assert!(activates_constraint(false, Some(true)));
    assert!(!activates_constraint(false, Some(false)));
    assert!(!activates_constraint(true, None));
}

#[test]
fn the_pointer_sees_menus_first_and_the_keyboard_does_not() {
    let l = desktop();
    let layers = vec![LayerSurface {
        surface: 5,
        output: Some("DP-1".to_owned()),
        anchors: Anchors { top: true, bottom: false, left: true, right: false },
        margins: Margins { top: 0, bottom: 0, left: 0, right: 0 },
        size: Size::new(100, 30),
        layer: LayerBucket::Top,
        exclusive_zone: 0,
        keyboard_exclusive: false,
        alive: true,
    }];
    let outputs = vec![OutputRect { name: "DP-1".to_owned(), rect: rect(0, 0, 1000, 600) }];
    let placed = snapshot_layer_placements(&layers, &outputs, rect(0, 0, 1000, 600));
    let claims = vec![true];
    let popups = vec![PopupPlacement {
        surface: 7,
        buffer_origin: Point::new(95, 95),
        rect: rect(100, 100, 50, 50),
    }];
    let locks = vec![LockedOutput { rect: rect(0, 0, 1000, 600), surface: Some(8) }];
    let shadows = vec![Shadow { surface: 1, offset: Point::new(12, 14) }];
    let mut scene = Scene {
        layout: &l,
        layers: &layers,
        layer_placements: &placed,
        claims: &claims,
        popups: &popups,
        session_locked: false,
        locks: &locks,
        shadows: &shadows,
    };
    assert_eq!(
        scene.pointer_hit_test(Point::new(110, 110)),
        (Some((7, Point::new(95, 95))), Some(1))
    );
    assert_eq!(
        scene.pointer_hit_test(Point::new(10, 10)),
        (Some((5, Point::new(0, 0))), Some(5))
    );
    // A shadow lies before the window; a window without one starts at its cell.
    assert_eq!(
        scene.pointer_hit_test(Point::new(300, 300)),
        (Some((1, Point::new(-12, -14))), Some(1))
    );
    assert_eq!(
        scene.pointer_hit_test(Point::new(700, 300)),
        (Some((2, Point::new(500, 0))), Some(2))
    );
    assert_eq!(scene.pointer_hit_test(Point::new(2000, 300)), (None, None));
    assert_eq!(scene.confine_rect(Point::new(10, 10)), Some(rect(0, 0, 100, 30)));
    assert_eq!(scene.confine_rect(Point::new(700, 300)), Some(rect(500, 0, 500, 600)));
    assert_eq!(scene.confine_rect(Point::new(2000, 300)), None);
    // A resting cursor is only told of when something else is under it.
    assert_eq!(scene.refresh_pointer_focus(false, Some(2), Point::new(700, 300)), None);
    assert_eq!(
        scene.refresh_pointer_focus(false, Some(1), Point::new(700, 300)),
        Some(Some((2, Point::new(500, 0))))
    );
    assert_eq!(scene.refresh_pointer_focus(true, Some(1), Point::new(700, 300)), None);
    assert_eq!(scene.refresh_pointer_focus(false, Some(1), Point::new(2000, 300)), Some(None));
    let hover = PointerContext { model: FocusModel::Hover, focus: Some(2), ..context() };
    let moved = forward_pointer_motion(&scene, Point::new(110, 110), hover);
    assert_eq!(moved.pointer, Some((7, Point::new(95, 95))));
    assert_eq!(moved.focus, Some(Some(1)));
    let moved = forward_pointer_motion(&scene, Point::new(700, 300), hover);
    assert_eq!((moved.pointer, moved.focus), (Some((2, Point::new(500, 0))), None));
    scene.session_locked = true;
    assert_eq!(
        scene.pointer_hit_test(Point::new(110, 110)),
        (Some((8, Point::new(0, 0))), Some(8))
    );
    assert_eq!(
        locked_surface_at(&vec![LockedOutput { rect: rect(0, 0, 10, 10), surface: None }], Point::new(1, 1)),
        None
    );
}

#[test]
fn focus_follows_the_cursor_only_where_it_may() {
    let c = PointerContext { model: FocusModel::Hover, focus: Some(1), ..context() };
    assert_eq!(hover_focus(c, Some(2)), Some(Some(2)));
    assert_eq!(hover_focus(c, None), Some(None));
    assert_eq!(hover_focus(c, Some(1)), None);
    assert_eq!(hover_focus(PointerContext { grabbed: true, ..c }, Some(2)), None);
    assert_eq!(hover_focus(PointerContext { layer_locked: true, ..c }, Some(2)), None);
    assert_eq!(hover_focus(PointerContext { popup_grab: true, ..c }, Some(2)), None);
    assert_eq!(hover_focus(PointerContext { model: FocusModel::Click, ..c }, Some(2)), None);
}

#[test]
fn buttons_belong_to_a_screenshot_while_one_is_taken() {
    let mut l = desktop();
    let mut drag = None;
    let c = PointerContext { screenshot: true, super_held: true, ..context() };
    let mut go = |button, pressed| {
        forward_pointer_button(&mut l, &mut drag, button, pressed, Point::new(10, 10), c)
    };
    let plan = |step| ButtonPlan { dismiss_popups: false, step };
    assert_eq!(go(BTN_LEFT, true), plan(ButtonStep::ShotPress));
    assert_eq!(go(BTN_LEFT, false), plan(ButtonStep::ShotRelease));
    assert_eq!(go(BTN_RIGHT, true), plan(ButtonStep::ShotCancel));
    assert_eq!(go(BTN_RIGHT, false), plan(ButtonStep::Swallow));
    assert_eq!(go(0x112, true), plan(ButtonStep::Swallow));
    assert_eq!(drag, None);
}

#[test]
fn the_logo_key_drags_windows() {
    let mut l = desktop();
    let mut drag = None;
    let c = PointerContext { super_held: true, focus: Some(2), ..context() };
    let at = Point::new(10, 10);
    let plan = forward_pointer_button(&mut l, &mut drag, BTN_LEFT, true, at, c);
    assert_eq!(
        plan,
        ButtonPlan {
            dismiss_popups: true,
            step: ButtonStep::Drag { window: 1, refocus: true, begun: true },
        }
    );
    assert_eq!(
        drag,
        Some(DragState { surface: 1, mode: DragMode::Move, rect_start: rect(0, 0, 500, 600) })
    );
    drag.unwrap().follow(&mut l, 40, 50);
    assert_eq!(l.placements(None, &vec![None])[1].cell_rect, rect(40, 50, 500, 600));
    // Another press while dragging does nothing; the release ends it.
    let plan = forward_pointer_button(&mut l, &mut drag, BTN_RIGHT, true, at, c);
    assert_eq!(plan.step, ButtonStep::Swallow);
    let plan = forward_pointer_button(&mut l, &mut drag, BTN_LEFT, false, Point::new(900, 10), c);
    assert_eq!(plan.step, ButtonStep::EndDrag);
    assert_eq!(drag, None);
    let order: Vec<u64> = l.placements(None, &vec![None]).iter().map(|p| p.surface).collect();
    assert_eq!(order, vec![2, 1]);
    // A fullscreen window cannot be dragged, but the press is taken.
    l.toggle_fullscreen(2);
    let plan = forward_pointer_button(&mut l, &mut drag, BTN_RIGHT, true, at, c);
    assert_eq!(
        plan.step,
        ButtonStep::Drag { window: 2, refocus: false, begun: false }
    );
    assert_eq!(drag, None);
}

#[test]
fn a_click_focuses_what_is_under_it() {
    let mut l = desktop();
    let mut drag = None;
    let at = Point::new(10, 10);
    let mut go = |c, pressed| forward_pointer_button(&mut l, &mut drag, BTN_LEFT, pressed, at, c);
    let c = context();
    assert_eq!(
        go(c, true),
        ButtonPlan { dismiss_popups: true, step: ButtonStep::Forward { focus: Some(Some(1)) } }
    );
    assert_eq!(
        go(c, false),
        ButtonPlan { dismiss_popups: false, step: ButtonStep::Forward { focus: None } }
    );
    assert_eq!(
        go(PointerContext { layer: Some(5), ..c }, true).step,
        ButtonStep::Forward { focus: Some(Some(5)) }
    );
    assert_eq!(
        go(PointerContext { focus: Some(1), ..c }, true).step,
        ButtonStep::Forward { focus: None }
    );
    assert_eq!(
        go(PointerContext { in_popup: true, ..c }, true),
        ButtonPlan { dismiss_popups: false, step: ButtonStep::Forward { focus: None } }
    );
    assert_eq!(
        go(PointerContext { session_locked: true, ..c }, true).step,
        ButtonStep::Forward { focus: None }
    );
    assert_eq!(
        go(PointerContext { layer_locked: true, ..c }, true).step,
        ButtonStep::Forward { focus: None }
    );
    assert_eq!(
        go(PointerContext { model: FocusModel::Hover, ..c }, true).step,
        ButtonStep::Forward { focus: None }
    );
}

#[test]
fn scrolling_adds_up_to_workspace_steps() {
    let mut l = desktop();
    let at = Point::new(10, 10);
    let mut left = 0;
    assert_eq!(scroll_workspaces(&mut l, &mut left, 80, false, Some(1), at, STILL), None);
    assert_eq!(left, 80);
    assert_eq!(scroll_workspaces(&mut l, &mut left, 80, false, Some(1), at, STILL), Some(None));
    assert_eq!(left, 40);
    assert_eq!(l.active_workspace("DP-1"), Some(1));
    let r = scroll_workspaces(&mut l, &mut left, -200, false, None, at, STILL);
    assert_eq!((r, left), (Some(Some(1)), -40));
    assert_eq!(l.active_workspace("DP-1"), Some(0));
    // With shift the focused window moves along.
    let r = scroll_workspaces(&mut l, &mut left, 160, true, Some(2), at, STILL);
    assert_eq!((r, left), (None, 0));
    assert_eq!(l.active_workspace("DP-1"), Some(1));
    assert_eq!(l.placements(None, &vec![None])[0].surface, 2);
    assert_eq!(workspace_gesture(&mut l, true, 1, None, at, STILL), None);
    // Before the first there is none.
    l.switch_workspace_to("DP-1", 0, STILL);
    assert_eq!(workspace_gesture(&mut l, false, -1, None, at, STILL), None);
}

#[test]
fn scrolls_are_told_axis_by_axis() {
    assert!(scrolls_workspaces(true, Some(120)));
    assert!(!scrolls_workspaces(true, Some(0)));
    assert!(!scrolls_workspaces(true, None));
    assert!(!scrolls_workspaces(false, Some(120)));
    assert_eq!(axis_part(false, true, None), AxisPart::Stop);
    assert_eq!(axis_part(false, false, None), AxisPart::Nothing);
    assert_eq!(axis_part(true, true, Some(120)), AxisPart::Move { v120: Some(120) });
}
