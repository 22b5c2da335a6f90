//! What the pointer does: which surface is under it, what a drag or a scroll
//! changes, and which clicks move the keyboard focus.

use vstd::prelude::*;

use crate::config::FocusModel;
use crate::desktop::{LayoutModel, Probe, SlideTiming};
use crate::geometry::{clip, clipped, larger, max32, Point, Rect, Size};
use crate::layers::{layer_at, topmost_layer, LayerPlacement, LayerSurface};
use crate::layout::Layout;
use crate::popups::{menu_at, popup_at, PopupPlacement};
use crate::window::{FillMode, SurfaceId};

verus! {

/// The left button's code.
pub const BTN_LEFT: u32 = 0x110;

/// The right button's code.
pub const BTN_RIGHT: u32 = 0x111;

/// A drag makes no window narrower than this.
pub const MIN_DRAG_RESIZE_W: i32 = 100;

/// A drag makes no window lower than this.
pub const MIN_DRAG_RESIZE_H: i32 = 60;

/// What a drag changes.
#[derive(Debug, Clone, Copy, PartialEq, Eq, Structural)]
pub enum DragMode {
    /// Where the window is.
    Move,
    /// How large it is, from its lower right corner.
    Resize,
}

/// A drag that is under way.
#[derive(Debug, Clone, Copy, PartialEq, Eq, Structural)]
pub struct DragState {
    pub surface: SurfaceId,
    pub mode: DragMode,
    /// The window's rectangle when the drag began.
    pub rect_start: Rect,
}

impl DragState {
    /// The window's rectangle once the cursor has come this far.
    pub open spec fn rect_after(self, dx: int, dy: int) -> Rect {
        let r = self.rect_start;
        match self.mode {
            DragMode::Move => Rect {
                loc: Point { x: clipped(r.loc.x + dx), y: clipped(r.loc.y + dy) },
                size: r.size,
            },
            DragMode::Resize => Rect {
                loc: r.loc,
                size: Size {
                    w: larger(clipped(r.size.w + dx) as int, MIN_DRAG_RESIZE_W as int) as i32,
                    h: larger(clipped(r.size.h + dy) as int, MIN_DRAG_RESIZE_H as int) as i32,
                },
            },
        }
    }

    /// The window's rectangle once the cursor has come this far.
    pub fn rect_at(&self, dx: i32, dy: i32) -> (r: Rect)
        ensures
            r == self.rect_after(dx as int, dy as int),
    {
        let r = self.rect_start;
        match self.mode {
            DragMode::Move => Rect {
                loc: Point {
                    x: clip(r.loc.x as i64 + dx as i64),
                    y: clip(r.loc.y as i64 + dy as i64),
                },
                size: r.size,
            },
            DragMode::Resize => Rect {
                loc: r.loc,
                size: Size {
                    w: max32(clip(r.size.w as i64 + dx as i64), MIN_DRAG_RESIZE_W),
                    h: max32(clip(r.size.h as i64 + dy as i64), MIN_DRAG_RESIZE_H),
                },
            },
        }
    }

    /// The desktop once the cursor has come this far.
    pub open spec fn following(self, m: LayoutModel, dx: int, dy: int) -> LayoutModel {
        match self.mode {
            DragMode::Move => m.carrying(self.rect_after(dx, dy)),
            DragMode::Resize => m.moving_float(self.surface, self.rect_after(dx, dy)),
        }
    }

    /// Lets the dragged window follow the cursor, which has come this far
    /// since the drag began.
    pub fn follow(&self, layout: &mut Layout, dx: i32, dy: i32)
        requires
            old(layout)@.valid(),
        ensures
            final(layout)@ == self.following(old(layout)@, dx as int, dy as int),
            final(layout)@.valid(),
    {
        let rect = self.rect_at(dx, dy);
        match self.mode {
            DragMode::Move => layout.update_in_transit_rect(rect),
            DragMode::Resize => layout.set_floating_rect(self.surface, rect),
        }
    }
}

/// No drag makes a window smaller than the least size, or moves the corner it
/// is resized from.
pub proof fn resize_drags_keep_a_usable_window(d: DragState, dx: int, dy: int)
    requires
        d.mode == DragMode::Resize,
    ensures
        d.rect_after(dx, dy).size.w >= MIN_DRAG_RESIZE_W,
        d.rect_after(dx, dy).size.h >= MIN_DRAG_RESIZE_H,
        d.rect_after(dx, dy).loc == d.rect_start.loc,
{
}

/// A drag back to where it began changes nothing: the window has the place
/// and size it had, unless it was smaller than a drag may make it.
pub proof fn drags_can_be_taken_back(d: DragState)
    requires
        d.mode == DragMode::Resize ==> d.rect_start.size.w >= MIN_DRAG_RESIZE_W
            && d.rect_start.size.h >= MIN_DRAG_RESIZE_H,
    ensures
        d.rect_after(0, 0) == d.rect_start,
{
}

/// How the pointer is bound to the surface that has it.
#[derive(Debug, Clone, Copy, PartialEq, Eq, Structural)]
pub enum Constraint {
    /// The cursor stays where it is.
    Locked,
    /// The cursor stays on the surface.
    Confined,
}

/// Whether a motion needs a frame.
#[derive(Debug, Clone, Copy, PartialEq, Eq, Structural)]
pub enum MotionRedraw {
    No,
    Yes,
    /// Unless the cursor plane can be moved by itself.
    UnlessPlaneMoves,
}

/// Whether a motion needs a frame: not while the cursor is locked in place;
/// always while a drag icon or a screenshot selection follows it.
pub fn motion_redraw(locked: bool, drag_icon: bool, screenshot: bool) -> (r: MotionRedraw)
    ensures
        r == (if locked {
            MotionRedraw::No
        } else if drag_icon || screenshot {
            MotionRedraw::Yes
        } else {
            MotionRedraw::UnlessPlaneMoves
        }),
{
    if locked {
        MotionRedraw::No
    } else if drag_icon || screenshot {
        MotionRedraw::Yes
    } else {
        MotionRedraw::UnlessPlaneMoves
    }
}

/// What a motion of the pointer device does.
#[derive(Debug, Clone, Copy, PartialEq, Eq, Structural)]
pub enum MotionStep {
    /// Moves the cursor and with it the screenshot selection.
    Select,
    /// Moves the cursor and with it the dragged window.
    Drag,
    /// Nothing: there is no pointer.
    Ignore,
    /// Only tells the surface how far the device moved.
    Relative,
    /// Moves the cursor, kept on its surface where `confined`.
    Free { confined: bool },
}

/// What a motion of the pointer device does. `constraint` is the active
/// constraint of the surface that has the pointer.
pub fn motion_step(
    screenshot: bool,
    dragging: bool,
    has_pointer: bool,
    constraint: Option<Constraint>,
) -> (r: MotionStep)
    ensures
        r == (if screenshot {
            MotionStep::Select
        } else if dragging {
            MotionStep::Drag
        } else if !has_pointer {
            MotionStep::Ignore
        } else if constraint == Some(Constraint::Locked) {
            MotionStep::Relative
        } else {
            MotionStep::Free { confined: constraint == Some(Constraint::Confined) }
        }),
{
    if screenshot {
        return MotionStep::Select;
    }
    if dragging {
        return MotionStep::Drag;
    }
    if !has_pointer {
        return MotionStep::Ignore;
    }
    match constraint {
        Some(Constraint::Locked) => MotionStep::Relative,
        Some(Constraint::Confined) => MotionStep::Free { confined: true },
        None => MotionStep::Free { confined: false },
    }
}

/// Whether a constraint takes effect when the pointer comes to a place: it is
/// not active yet, and its region, where it has one, has the place.
pub fn activates_constraint(active: bool, region_has: Option<bool>) -> (r: bool)
    ensures
        r == (!active && region_has != Some(false)),
{
    !active && (match region_has {
        None => true,
        Some(has) => has,
    })
}

/// An output while the session is locked.
#[derive(Debug, Clone, Copy, PartialEq, Eq, Structural)]
pub struct LockedOutput {
    pub rect: Rect,
    /// The surface of the lock screen on it.
    pub surface: Option<SurfaceId>,
}

/// A surface and where its buffer starts.
pub type Hit = (SurfaceId, Point);

/// The lock screen at a point: that of the first output at or after `from`
/// that has the point.
pub open spec fn lock_from(outputs: Seq<LockedOutput>, pos: Point, from: int) -> Option<Hit>
    decreases outputs.len() - from,
{
    if from < 0 || from >= outputs.len() {
        None
    } else if outputs[from].rect.holds(pos) {
        match outputs[from].surface {
            None => None,
            Some(s) => Some((s, outputs[from].rect.loc)),
        }
    } else {
        lock_from(outputs, pos, from + 1)
    }
}

/// The lock screen at a point.
pub fn locked_surface_at(outputs: &Vec<LockedOutput>, pos: Point) -> (r: Option<Hit>)
    ensures
        r == lock_from(outputs@, pos, 0),
{
    let mut i: usize = 0;
    while i < outputs.len()
        invariant
            i <= outputs@.len(),
            lock_from(outputs@, pos, 0) == lock_from(outputs@, pos, i as int),
        decreases outputs@.len() - i,
    {
        if outputs[i].rect.contains(pos) {
            return match outputs[i].surface {
                None => None,
                Some(s) => Some((s, outputs[i].rect.loc)),
            };
        }
        i += 1;
    }
    None
}

/// How far a window's content is inside its buffer: the width of the shadow
/// that its client draws.
#[derive(Debug, Clone, Copy, PartialEq, Eq, Structural)]
pub struct Shadow {
    pub surface: SurfaceId,
    pub offset: Point,
}

/// The shadow of a surface at or after `from`; none has no width.
pub open spec fn shadow_from(shadows: Seq<Shadow>, surface: SurfaceId, from: int) -> Point
    decreases shadows.len() - from,
{
    if from < 0 || from >= shadows.len() {
        Point::zero()
    } else if shadows[from].surface == surface {
        shadows[from].offset
    } else {
        shadow_from(shadows, surface, from + 1)
    }
}

fn shadow_of(shadows: &Vec<Shadow>, surface: SurfaceId) -> (r: Point)
    ensures
        r == shadow_from(shadows@, surface, 0),
{
    let mut i: usize = 0;
    while i < shadows.len()
        invariant
            i <= shadows@.len(),
            shadow_from(shadows@, surface, 0) == shadow_from(shadows@, surface, i as int),
        decreases shadows@.len() - i,
    {
        if shadows[i].surface == surface {
            return shadows[i].offset;
        }
        i += 1;
    }
    Point { x: 0, y: 0 }
}

/// Everything that can be under the pointer.
pub struct Scene<'a> {
    pub layout: &'a Layout,
    pub layers: &'a Vec<LayerSurface>,
    /// Where each of the layers is.
    pub layer_placements: &'a Vec<LayerPlacement>,
    /// Whether the input region of each of the layers has the point.
    pub claims: &'a Vec<bool>,
    pub popups: &'a Vec<PopupPlacement>,
    pub session_locked: bool,
    pub locks: &'a Vec<LockedOutput>,
    pub shadows: &'a Vec<Shadow>,
}

impl<'a> Scene<'a> {
    pub open spec fn valid(&self) -> bool {
        &&& self.layout@.valid()
        &&& self.layer_placements@.len() == self.layers@.len()
        &&& self.claims@.len() == self.layers@.len()
    }

    /// The layer that takes the pointer at a point.
    pub open spec fn layer(&self, pos: Point) -> Option<(SurfaceId, Rect)> {
        match topmost_layer(
            self.layout@,
            self.layers@,
            self.layer_placements@,
            self.claims@,
            pos,
            self.layers@.len() as int,
        ) {
            None => None,
            Some(i) => Some((self.layer_placements@[i].surface, self.layer_placements@[i].rect)),
        }
    }

    /// The window or layer at a point; on a locked session only the lock
    /// screen. A window's buffer starts before its cell by its shadow, unless
    /// it fills its output.
    pub open spec fn surface_hit(&self, pos: Point) -> Option<Hit> {
        if self.session_locked {
            lock_from(self.locks@, pos, 0)
        } else {
            match self.layer(pos) {
                Some((s, rect)) => Some((s, rect.loc)),
                None => match self.layout@.window_at(pos) {
                    None => None,
                    Some((w, rect)) => {
                        let by = if w.fill == FillMode::Normal {
                            shadow_from(self.shadows@, w.id(), 0)
                        } else {
                            Point::zero()
                        };
                        Some(
                            (
                                w.id(),
                                Point {
                                    x: clipped(rect.loc.x - by.x),
                                    y: clipped(rect.loc.y - by.y),
                                },
                            ),
                        )
                    },
                },
            }
        }
    }

    /// The menu at a point; none on a locked session.
    pub open spec fn popup_hit(&self, pos: Point) -> Option<Hit> {
        if self.session_locked {
            None
        } else {
            match menu_at(self.popups@, pos, self.popups@.len() as int) {
                None => None,
                Some(p) => Some((p.surface, p.buffer_origin)),
            }
        }
    }

    /// What gets the pointer at a point, and what would get the keyboard:
    /// menus get the first only.
    pub fn pointer_hit_test(&self, pos: Point) -> (r: (Option<Hit>, Option<SurfaceId>))
        requires
            self.valid(),
        ensures
            r.0 == (if self.popup_hit(pos).is_some() {
                self.popup_hit(pos)
            } else {
                self.surface_hit(pos)
            }),
            r.1 == (match self.surface_hit(pos) {
                None => None,
                Some(h) => Some(h.0),
            }),
    {
        let surface: Option<Hit> = if self.session_locked {
            locked_surface_at(self.locks, pos)
        } else {
            match layer_at(self.layout, self.layers, self.layer_placements, self.claims, pos) {
                Some((s, rect)) => Some((s, rect.loc)),
                None => match self.layout.window_at(pos) {
                    None => None,
                    Some((w, rect)) => {
                        let id: SurfaceId = w.toplevel.wl_surface();
                        let by = if w.fill == FillMode::Normal {
                            shadow_of(self.shadows, id)
                        } else {
                            Point { x: 0, y: 0 }
                        };
                        Some(
                            (
                                id,
                                Point {
                                    x: clip(rect.loc.x as i64 - by.x as i64),
                                    y: clip(rect.loc.y as i64 - by.y as i64),
                                },
                            ),
                        )
                    },
                },
            }
        };
        let popup: Option<Hit> = if self.session_locked {
            None
        } else {
            popup_at(self.popups, pos)
        };
        let keyboard: Option<SurfaceId> = match surface {
            None => None,
            Some(h) => Some(h.0),
        };
        let pointer = match popup {
            None => surface,
            Some(h) => Some(h),
        };
        (pointer, keyboard)
    }

    /// The rectangle that a confined cursor is kept in: the layer or window
    /// under it.
    pub fn confine_rect(&self, pos: Point) -> (r: Option<Rect>)
        requires
            self.valid(),
        ensures
            r == (match self.layer(pos) {
                Some((_, rect)) => Some(rect),
                None => match self.layout@.window_at(pos) {
                    None => None,
                    Some((_, rect)) => Some(rect),
                },
            }),
    {
        match layer_at(self.layout, self.layers, self.layer_placements, self.claims, pos) {
            Some((_, rect)) => Some(rect),
            None => match self.layout.window_at(pos) {
                None => None,
                Some((_, rect)) => Some(rect),
            },
        }
    }

    /// Whether the surface under a resting cursor has to be told of it: it is
    /// not the one that has the pointer, and nothing holds the pointer.
    pub fn refresh_pointer_focus(&self, held: bool, current: Option<SurfaceId>, pos: Point) -> (r:
        Option<Option<Hit>>)
        requires
            self.valid(),
        ensures
            ({
                let hit = if self.popup_hit(pos).is_some() {
                    self.popup_hit(pos)
                } else {
                    self.surface_hit(pos)
                };
                let there: Option<SurfaceId> = match hit {
                    None => None,
                    Some(h) => Some(h.0),
                };
                r == (if held || there == current {
                    None
                } else {
                    Some(hit)
                })
            }),
    {
        if held {
            return None;
        }
        let (hit, _) = self.pointer_hit_test(pos);
        let there: Option<SurfaceId> = match hit {
            None => None,
            Some(h) => Some(h.0),
        };
        if same_target(there, current) {
            None
        } else {
            Some(hit)
        }
    }
}

/// On a locked session nothing but the lock screen gets input.
pub proof fn locked_sessions_only_show_the_lock_screen(s: Scene, pos: Point)
    requires
        s.session_locked,
    ensures
        s.popup_hit(pos).is_none(),
        s.surface_hit(pos) == lock_from(s.locks@, pos, 0),
{
}

fn same_target(a: Option<SurfaceId>, b: Option<SurfaceId>) -> (r: bool)
    ensures
        r == (a == b),
{
    match (a, b) {
        (None, None) => true,
        (Some(x), Some(y)) => x == y,
        _ => false,
    }
}

/// The state of the seat when an event of the pointer comes.
#[derive(Debug, Clone, Copy, PartialEq, Eq, Structural)]
pub struct PointerContext {
    /// Whether a screenshot selection is under way.
    pub screenshot: bool,
    /// Whether the logo key is held.
    pub super_held: bool,
    pub model: FocusModel,
    /// Whether the keyboard is held by a layer that keeps it.
    pub layer_locked: bool,
    pub session_locked: bool,
    /// Whether a menu is under the cursor.
    pub in_popup: bool,
    /// Whether a client holds the pointer.
    pub grabbed: bool,
    /// Whether a client holds a menu open.
    pub popup_grab: bool,
    /// What has the keyboard.
    pub focus: Option<SurfaceId>,
    /// The layer under the cursor.
    pub layer: Option<SurfaceId>,
}

/// The keyboard focus that follows the cursor, where it does and changes.
pub fn hover_focus(c: PointerContext, target: Option<SurfaceId>) -> (r: Option<Option<SurfaceId>>)
    ensures
        r == (if c.model == FocusModel::Hover && !c.grabbed && !c.layer_locked && !c.popup_grab
            && c.focus != target {
            Some(target)
        } else {
            None
        }),
{
    if c.model == FocusModel::Hover && !c.grabbed && !c.layer_locked && !c.popup_grab
        && !same_target(c.focus, target) {
        Some(target)
    } else {
        None
    }
}

/// What follows from a motion of the cursor.
#[derive(Debug, Clone, Copy, PartialEq, Eq)]
pub struct MotionOutcome {
    /// What gets the pointer.
    pub pointer: Option<Hit>,
    /// Where the keyboard goes, if it goes elsewhere.
    pub focus: Option<Option<SurfaceId>>,
}

/// What follows from a motion that has brought the cursor to a point: what is
/// under it gets the pointer, and where focus follows the cursor the keyboard.
pub fn forward_pointer_motion(scene: &Scene, pos: Point, c: PointerContext) -> (r: MotionOutcome)
    requires
        scene.valid(),
    ensures
        r.pointer == (if scene.popup_hit(pos).is_some() {
            scene.popup_hit(pos)
        } else {
            scene.surface_hit(pos)
        }),
        ({
            let under: Option<SurfaceId> = match scene.surface_hit(pos) {
                None => None,
                Some(h) => Some(h.0),
            };
            r.focus == (if c.model == FocusModel::Hover && !c.grabbed && !c.layer_locked
                && !c.popup_grab && c.focus != under {
                Some(under)
            } else {
                None
            })
        }),
{
    let (pointer, keyboard) = scene.pointer_hit_test(pos);
    MotionOutcome { pointer, focus: hover_focus(c, keyboard) }
}

/// What a button does.
#[derive(Debug, Clone, Copy, PartialEq, Eq, Structural)]
pub enum ButtonStep {
    /// Begins or takes the screenshot selection.
    ShotPress,
    /// Ends the screenshot selection.
    ShotRelease,
    /// Gives the screenshot up.
    ShotCancel,
    /// Nothing.
    Swallow,
    /// Ends the drag that was under way.
    EndDrag,
    /// Is taken for a drag of a window, which gets the keyboard if it has it
    /// not. The drag begins if the window can be dragged.
    Drag { window: SurfaceId, refocus: bool, begun: bool },
    /// Goes to the surface that has the pointer, after the keyboard has gone
    /// where it should.
    Forward { focus: Option<Option<SurfaceId>> },
}

/// What a button does, and whether menus are closed first.
#[derive(Debug, Clone, Copy, PartialEq, Eq, Structural)]
pub struct ButtonPlan {
    pub dismiss_popups: bool,
    pub step: ButtonStep,
}

/// The drag that a button stands for while the logo key is held.
pub open spec fn drag_mode(button: u32, super_held: bool) -> Option<DragMode> {
    if !super_held {
        None
    } else if button == BTN_LEFT {
        Some(DragMode::Move)
    } else if button == BTN_RIGHT {
        Some(DragMode::Resize)
    } else {
        None
    }
}

/// The keyboard focus that a click gives, where it changes: to the layer, else
/// the window under it, else to nothing.
pub open spec fn click_focus(m: LayoutModel, c: PointerContext, cursor: Point) -> Option<
    Option<SurfaceId>,
> {
    let target: Option<SurfaceId> = if c.layer.is_some() {
        c.layer
    } else {
        match m.window_at(cursor) {
            None => None,
            Some((w, _)) => Some(w.id()),
        }
    };
    if c.model == FocusModel::Click && !c.layer_locked && !c.session_locked && !c.in_popup
        && c.focus != target {
        Some(target)
    } else {
        None
    }
}

/// The desktop, the drag and the plan after a button.
pub open spec fn buttoned(
    m: LayoutModel,
    drag: Option<DragState>,
    button: u32,
    pressed: bool,
    cursor: Point,
    c: PointerContext,
) -> (LayoutModel, Option<DragState>, ButtonPlan) {
    if c.screenshot {
        let step = if button == BTN_LEFT {
            if pressed {
                ButtonStep::ShotPress
            } else {
                ButtonStep::ShotRelease
            }
        } else if button == BTN_RIGHT && pressed {
            ButtonStep::ShotCancel
        } else {
            ButtonStep::Swallow
        };
        (m, drag, ButtonPlan { dismiss_popups: false, step })
    } else if drag.is_some() {
        if pressed {
            (m, drag, ButtonPlan { dismiss_popups: false, step: ButtonStep::Swallow })
        } else {
            (
                if drag.unwrap().mode == DragMode::Move {
                    m.landing_drag(cursor)
                } else {
                    m
                },
                None,
                ButtonPlan { dismiss_popups: false, step: ButtonStep::EndDrag },
            )
        }
    } else if !pressed {
        (m, drag, ButtonPlan { dismiss_popups: false, step: ButtonStep::Forward { focus: None } })
    } else if drag_mode(button, c.super_held).is_some() && m.window_at(cursor).is_some() {
        let mode = drag_mode(button, c.super_held).unwrap();
        let surface = m.window_at(cursor).unwrap().0.id();
        let (m2, start) = match mode {
            DragMode::Move => m.lifting(surface),
            DragMode::Resize => (m, m.resize_start(surface)),
        };
        (
            m2,
            match start {
                None => None,
                Some(rect_start) => Some(DragState { surface, mode, rect_start }),
            },
            ButtonPlan {
                dismiss_popups: !c.in_popup,
                step: ButtonStep::Drag {
                    window: surface,
                    refocus: c.focus != Some(surface),
                    begun: start.is_some(),
                },
            },
        )
    } else {
        (
            m,
            drag,
            ButtonPlan {
                dismiss_popups: !c.in_popup,
                step: ButtonStep::Forward { focus: click_focus(m, c, cursor) },
            },
        )
    }
}

/// Takes a button in: while a screenshot is taken it belongs to that, while a
/// window is dragged it ends the drag, with the logo key held it begins one,
/// and otherwise it goes to the client.
pub fn forward_pointer_button(
    layout: &mut Layout,
    drag: &mut Option<DragState>,
    button: u32,
    pressed: bool,
    cursor: Point,
    c: PointerContext,
) -> (r: ButtonPlan)
    requires
        old(layout)@.valid(),
    ensures
        (final(layout)@, *final(drag), r) == buttoned(
            old(layout)@,
            *old(drag),
            button,
            pressed,
            cursor,
            c,
        ),
        final(layout)@.valid(),
{
    if c.screenshot {
        let step = if button == BTN_LEFT {
            if pressed {
                ButtonStep::ShotPress
            } else {
                ButtonStep::ShotRelease
            }
        } else if button == BTN_RIGHT && pressed {
            ButtonStep::ShotCancel
        } else {
            ButtonStep::Swallow
        };
        return ButtonPlan { dismiss_popups: false, step };
    }
    if let Some(d) = *drag {
        if pressed {
            return ButtonPlan { dismiss_popups: false, step: ButtonStep::Swallow };
        }
        *drag = None;
        if d.mode == DragMode::Move {
            layout.finish_move_drag(cursor);
        }
        return ButtonPlan { dismiss_popups: false, step: ButtonStep::EndDrag };
    }
    if !pressed {
        return ButtonPlan { dismiss_popups: false, step: ButtonStep::Forward { focus: None } };
    }
    let dismiss_popups = !c.in_popup;
    let mode = if !c.super_held {
        None
    } else if button == BTN_LEFT {
        Some(DragMode::Move)
    } else if button == BTN_RIGHT {
        Some(DragMode::Resize)
    } else {
        None
    };
    let under: Option<SurfaceId> = match layout.window_at(cursor) {
        None => None,
        Some((w, _)) => Some(w.toplevel.wl_surface()),
    };
    if let (Some(mode), Some(surface)) = (mode, under) {
        let start = match mode {
            DragMode::Move => layout.start_move_drag(surface),
            DragMode::Resize => layout.start_resize_drag(surface),
        };
        let begun = start.is_some();
        if let Some(rect_start) = start {
            *drag = Some(DragState { surface, mode, rect_start });
        }
        let refocus = !same_target(c.focus, Some(surface));
        return ButtonPlan {
            dismiss_popups,
            step: ButtonStep::Drag { window: surface, refocus, begun },
        };
    }
    let target = if c.layer.is_some() {
        c.layer
    } else {
        under
    };
    let focus = if c.model == FocusModel::Click && !c.layer_locked && !c.session_locked
        && !c.in_popup && !same_target(c.focus, target) {
        Some(target)
    } else {
        None
    };
    ButtonPlan { dismiss_popups, step: ButtonStep::Forward { focus } }
}

/// A press with the logo key and its release, with no motion between, leave no
/// drag behind.
pub proof fn released_buttons_leave_no_drag(
    m: LayoutModel,
    drag: Option<DragState>,
    button: u32,
    cursor: Point,
    c: PointerContext,
)
    requires
        !c.screenshot,
    ensures
        buttoned(m, drag, button, false, cursor, c).1.is_none(),
{
}

/// The desktop after one step through the workspaces, and the keyboard focus
/// where it changes: with shift the focused window moves along, else the
/// window that comes to be under the cursor gets the keyboard.
pub open spec fn stepped(
    m: LayoutModel,
    shift: bool,
    delta: int,
    focus: Option<SurfaceId>,
    cursor: Point,
    slide: SlideTiming,
) -> (LayoutModel, Option<Option<SurfaceId>>) {
    if shift {
        match focus {
            None => (m, None),
            Some(s) => (
                match m.pane(Probe::Shown(s)) {
                    Some(i) if m.outputs[i].active + delta >= 0 => m.relocating(
                        s,
                        i,
                        m.outputs[i].active + delta,
                    ).0,
                    _ => m,
                },
                None,
            ),
        }
    } else {
        let (m2, switched) = match m.pane(Probe::At(cursor)) {
            None => (m, false),
            Some(i) => m.switching_by(i, delta, slide),
        };
        if !switched {
            (m2, None)
        } else {
            (
                m2,
                Some(
                    match m2.window_at(cursor) {
                        None => None,
                        Some((w, _)) => Some(w.id()),
                    },
                ),
            )
        }
    }
}

/// Takes one step through the workspaces.
pub fn workspace_gesture(
    layout: &mut Layout,
    shift: bool,
    delta: i32,
    focus: Option<SurfaceId>,
    cursor: Point,
    slide: SlideTiming,
) -> (r: Option<Option<SurfaceId>>)
    requires
        old(layout)@.valid(),
    ensures
        (final(layout)@, r) == stepped(old(layout)@, shift, delta as int, focus, cursor, slide),
        final(layout)@.valid(),
{
    if shift {
        if let Some(s) = focus {
            layout.move_focused_window(s, delta);
        }
        return None;
    }
    if !layout.switch_at(cursor, delta, slide) {
        return None;
    }
    match layout.window_at(cursor) {
        None => Some(None),
        Some((w, _)) => Some(Some(w.toplevel.wl_surface())),
    }
}

/// The desktop after `n` steps one way, and the last change of focus.
pub open spec fn stepped_often(
    m: LayoutModel,
    shift: bool,
    delta: int,
    focus: Option<SurfaceId>,
    cursor: Point,
    slide: SlideTiming,
    n: int,
) -> (LayoutModel, Option<Option<SurfaceId>>)
    decreases n,
{
    if n <= 0 {
        (m, None)
    } else {
        let (before, earlier) = stepped_often(m, shift, delta, focus, cursor, slide, n - 1);
        let (after, later) = stepped(before, shift, delta, focus, cursor, slide);
        (
            after,
            if later.is_some() {
                later
            } else {
                earlier
            },
        )
    }
}

/// How many whole steps an amount of scrolling holds, either way.
pub open spec fn whole_steps(amount: int) -> int {
    if amount >= 0 {
        amount / 120
    } else {
        -((-amount) / 120)
    }
}

/// Scrolls through the workspaces: each 120 units are one step, and what is
/// left over is kept for the next time.
pub fn scroll_workspaces(
    layout: &mut Layout,
    left_over: &mut i32,
    v120: i32,
    shift: bool,
    focus: Option<SurfaceId>,
    cursor: Point,
    slide: SlideTiming,
) -> (r: Option<Option<SurfaceId>>)
    requires
        old(layout)@.valid(),
        -120 < *old(left_over) < 120,
    ensures
        ({
            let steps = whole_steps(*old(left_over) + v120);
            &&& (final(layout)@, r) == stepped_often(
                old(layout)@,
                shift,
                if steps >= 0 {
                    1
                } else {
                    -1
                },
                focus,
                cursor,
                slide,
                if steps >= 0 {
                    steps
                } else {
                    -steps
                },
            )
            &&& *final(left_over) == *old(left_over) + v120 - 120 * steps
        }),
        -120 < *final(left_over) < 120,
        final(layout)@.valid(),
{
    let total: i64 = *left_over as i64 + v120 as i64;
    let (delta, size): (i32, i64) = if total > -120 {
        (1, total)
    } else {
        (-1, -total)
    };
    let count: i64 = if size >= 0 {
        size / 120
    } else {
        0
    };
    let ghost steps = whole_steps(total as int);
    assert(count == if steps >= 0 {
        steps
    } else {
        -steps
    });
    assert(steps < 0 <==> delta == -1);
    let mut focused: Option<Option<SurfaceId>> = None;
    let mut n: i64 = 0;
    while n < count
        invariant
            0 <= n <= count,
            layout@.valid(),
            (layout@, focused) == stepped_often(
                old(layout)@,
                shift,
                delta as int,
                focus,
                cursor,
                slide,
                n as int,
            ),
        decreases count - n,
    {
        let f = workspace_gesture(layout, shift, delta, focus, cursor, slide);
        if f.is_some() {
            focused = f;
        }
        n += 1;
    }
    let taken: i64 = 120 * count;
    *left_over = if delta == 1 {
        (total - taken) as i32
    } else {
        (total + taken) as i32
    };
    focused
}

/// No scrolling is lost: the steps taken and what is left over make up the
/// whole, and less than a step is left.
pub proof fn no_scrolling_is_lost(amount: int)
    ensures
        -120 < amount - 120 * whole_steps(amount) < 120,
        amount >= 0 ==> whole_steps(amount) >= 0 && amount - 120 * whole_steps(amount) >= 0,
        amount <= 0 ==> whole_steps(amount) <= 0 && amount - 120 * whole_steps(amount) <= 0,
{
}

/// What a client is told of one axis of a scroll.
#[derive(Debug, Clone, Copy, PartialEq, Eq, Structural)]
pub enum AxisPart {
    Nothing,
    /// The fingers have left the pad.
    Stop,
    /// It moved, by this many 120ths of a notch where the device has notches.
    Move { v120: Option<i32> },
}

/// Whether a scroll goes through the workspaces, and not to a client.
pub fn scrolls_workspaces(super_held: bool, v120: Option<i32>) -> (r: bool)
    ensures
        r == (super_held && v120.is_some() && v120 != Some(0i32)),
{
    super_held && (match v120 {
        None => false,
        Some(v) => v != 0,
    })
}

/// What a client is told of one axis of a scroll.
pub fn axis_part(moved: bool, fingers: bool, v120: Option<i32>) -> (r: AxisPart)
    ensures
        r == (if moved {
            AxisPart::Move { v120 }
        } else if fingers {
            AxisPart::Stop
        } else {
            AxisPart::Nothing
        }),
{
    if moved {
        AxisPart::Move { v120 }
    } else if fingers {
        AxisPart::Stop
    } else {
        AxisPart::Nothing
    }
}

/// A moved window follows the cursor: its corner has come as far as the cursor,
/// and its size stays. A resized one grows by as much as the cursor has moved
/// away from its corner, down to the least size.
pub proof fn dragged_windows_follow_the_cursor(d: DragState, dx: int, dy: int)
    requires
        i32::MIN <= d.rect_start.loc.x + dx <= i32::MAX,
        i32::MIN <= d.rect_start.loc.y + dy <= i32::MAX,
        i32::MIN <= d.rect_start.size.w + dx <= i32::MAX,
        i32::MIN <= d.rect_start.size.h + dy <= i32::MAX,
    ensures
        ({
            let r = d.rect_after(dx, dy);
            let was = d.rect_start;
            &&& d.mode == DragMode::Move ==> r.size == was.size && r.loc.x - was.loc.x == dx
                && r.loc.y - was.loc.y == dy
            &&& d.mode == DragMode::Resize ==> r.loc == was.loc
            &&& d.mode == DragMode::Resize && was.size.w + dx >= 100 ==> r.size.w - was.size.w
                == dx
            &&& d.mode == DragMode::Resize && was.size.h + dy >= 60 ==> r.size.h - was.size.h == dy
            &&& d.mode == DragMode::Resize && was.size.w + dx < 100 ==> r.size.w == 100
            &&& d.mode == DragMode::Resize && was.size.h + dy < 60 ==> r.size.h == 60
        }),
{
}

/// On a locked session the pointer finds the lock screen of the first output it
/// is on, at that output's corner.
pub proof fn lock_screens_cover_their_output(outputs: Seq<LockedOutput>, pos: Point, i: int, from: int)
    requires
        0 <= from <= i < outputs.len(),
        outputs[i].rect.holds(pos),
        forall|j: int| from <= j < i ==> !(#[trigger] outputs[j]).rect.holds(pos),
    ensures
        outputs[i].surface.is_none() ==> lock_from(outputs, pos, from).is_none(),
        outputs[i].surface matches Some(s) ==> lock_from(outputs, pos, from) == Some(
            (s, outputs[i].rect.loc),
        ),
    decreases i - from,
{
    if from < i {
        assert(!outputs[from].rect.holds(pos));
        lock_screens_cover_their_output(outputs, pos, i, from + 1);
    }
}

/// Layers lie above the windows, and a window's buffer starts before its cell
/// by the shadow that its client draws, unless it fills its output.
pub proof fn layers_lie_above_windows(s: Scene, pos: Point)
    requires
        !s.session_locked,
    ensures
        s.layer(pos) matches Some(l) ==> s.surface_hit(pos) == Some((l.0, l.1.loc)),
        s.layer(pos).is_none() && s.layout@.window_at(pos).is_none() ==> s.surface_hit(
            pos,
        ).is_none(),
        s.layer(pos).is_none() && s.layout@.window_at(pos).is_some() ==> {
            let (w, rect) = s.layout@.window_at(pos).unwrap();
            let by = shadow_from(s.shadows@, w.id(), 0);
            &&& s.surface_hit(pos).is_some()
            &&& s.surface_hit(pos).unwrap().0 == w.id()
            &&& w.fill != FillMode::Normal ==> s.surface_hit(pos).unwrap().1 == rect.loc
            &&& w.fill == FillMode::Normal && i32::MIN <= rect.loc.x - by.x <= i32::MAX ==> s.surface_hit(
                pos,
            ).unwrap().1.x + by.x == rect.loc.x
            &&& w.fill == FillMode::Normal && i32::MIN <= rect.loc.y - by.y <= i32::MAX ==> s.surface_hit(
                pos,
            ).unwrap().1.y + by.y == rect.loc.y
        },
{
}

/// A press with the logo key on a window begins a drag of that window, from the
/// rectangle it has: with the left button it is moved, with the right one
/// resized. Without the logo key, and with any other button, no drag begins and
/// the desktop stays as it is.
pub proof fn the_logo_key_begins_drags(
    m: LayoutModel,
    button: u32,
    cursor: Point,
    c: PointerContext,
)
    requires
        !c.screenshot,
    ensures
        ({
            let (after, drag, plan) = buttoned(m, None, button, true, cursor, c);
            let under = m.window_at(cursor);
            let drags = c.super_held && (button == 0x110 || button == 0x111) && under.is_some();
            &&& !drags ==> after == m && drag.is_none() && plan.step is Forward
            &&& drags ==> {
                let s = under.unwrap().0.id();
                &&& plan.step matches ButtonStep::Drag { window, refocus, begun }
                &&& window == s
                &&& refocus == (c.focus != Some(s))
                &&& begun == drag.is_some()
                &&& button == 0x110 ==> after == m.lifting(s).0
                &&& button == 0x111 ==> after == m
                &&& drag matches Some(d) ==> {
                    &&& d.surface == s
                    &&& d.mode == (if button == 0x110 {
                        DragMode::Move
                    } else {
                        DragMode::Resize
                    })
                    &&& button == 0x110 ==> Some(d.rect_start) == m.lifting(s).1
                    &&& button == 0x111 ==> Some(d.rect_start) == m.resize_start(s)
                }
            }
            &&& plan.dismiss_popups == !c.in_popup
        }),
{
}

/// A resize drag starts from the rectangle of the window on show; a window that
/// fills its output is not resized.
pub proof fn resize_drags_start_from_the_window(m: LayoutModel, s: SurfaceId, i: int)
    requires
        m.valid(),
        m.pane(Probe::Shown(s)) == Some(i),
    ensures
        m.is_filled(s) ==> m.resize_start(s).is_none(),
        !m.is_filled(s) && m.outputs[i].current().floats(s) ==> m.resize_start(s) == Some(
            m.outputs[i].current().float(s).rect,
        ),
        !m.is_filled(s) && !m.outputs[i].current().floats(s) ==> m.resize_start(s) == Some(
            m.outputs[i].current().tile(s).rect,
        ),
{
}

/// The release of a button ends a drag: a moved window is dropped where the
/// cursor is, a resized one stays. Presses during a drag do nothing.
pub proof fn releases_end_drags(
    m: LayoutModel,
    d: DragState,
    button: u32,
    pressed: bool,
    cursor: Point,
    c: PointerContext,
)
    requires
        !c.screenshot,
    ensures
        ({
            let (after, drag, plan) = buttoned(m, Some(d), button, pressed, cursor, c);
            &&& pressed ==> after == m && drag == Some(d) && plan.step == ButtonStep::Swallow
            &&& !pressed ==> drag.is_none() && plan.step == ButtonStep::EndDrag
            &&& !pressed && d.mode == DragMode::Move ==> after == m.landing_drag(cursor)
            &&& !pressed && d.mode == DragMode::Resize ==> after == m
            &&& !plan.dismiss_popups
        }),
{
}

/// While a screenshot is taken no button reaches windows or clients: the left
/// one selects and the right one gives it up.
pub proof fn screenshots_take_all_buttons(
    m: LayoutModel,
    drag: Option<DragState>,
    button: u32,
    pressed: bool,
    cursor: Point,
    c: PointerContext,
)
    requires
        c.screenshot,
    ensures
        ({
            let (after, now, plan) = buttoned(m, drag, button, pressed, cursor, c);
            &&& after == m
            &&& now == drag
            &&& !plan.dismiss_popups
            &&& button == 0x110 && pressed ==> plan.step == ButtonStep::ShotPress
            &&& button == 0x110 && !pressed ==> plan.step == ButtonStep::ShotRelease
            &&& button == 0x111 && pressed ==> plan.step == ButtonStep::ShotCancel
            &&& button == 0x111 && !pressed ==> plan.step == ButtonStep::Swallow
            &&& button != 0x110 && button != 0x111 ==> plan.step == ButtonStep::Swallow
        }),
{
}

/// A click moves the keyboard to what is under it, where clicks do: to a layer
/// before a window, and to nothing where nothing is. A layer that keeps the
/// keyboard, a lock screen and an open menu prevent it.
pub proof fn clicks_focus_what_is_under_them(m: LayoutModel, c: PointerContext, cursor: Point)
    ensures
        ({
            let free = c.model == FocusModel::Click && !c.layer_locked && !c.session_locked
                && !c.in_popup;
            &&& !free ==> click_focus(m, c, cursor).is_none()
            &&& free && c.layer.is_some() ==> click_focus(m, c, cursor) == (if c.focus == c.layer {
                None
            } else {
                Some(c.layer)
            })
            &&& free && c.layer.is_none() && m.window_at(cursor).is_some() ==> {
                let s = m.window_at(cursor).unwrap().0.id();
                click_focus(m, c, cursor) == (if c.focus == Some(s) {
                    None
                } else {
                    Some(Some(s))
                })
            }
            &&& free && c.layer.is_none() && m.window_at(cursor).is_none() ==> click_focus(
                m,
                c,
                cursor,
            ) == (if c.focus.is_none() {
                None
            } else {
                Some(None::<SurfaceId>)
            })
        }),
{
}

/// A step through the workspaces with shift takes the focused window along to
/// the workspace next to the one on show, and leaves the keyboard to it.
pub proof fn steps_with_shift_take_the_window_along(
    m: LayoutModel,
    delta: int,
    s: SurfaceId,
    cursor: Point,
    slide: SlideTiming,
    i: int,
)
    requires
        m.valid(),
        m.pane(Probe::Shown(s)) == Some(i),
    ensures
        stepped(m, true, delta, Some(s), cursor, slide).1.is_none(),
        m.outputs[i].active + delta < 0 ==> stepped(m, true, delta, Some(s), cursor, slide).0 == m,
        m.outputs[i].active + delta >= 0 ==> stepped(m, true, delta, Some(s), cursor, slide).0
            == m.sending(s, m.outputs[i].active + delta).0,
        stepped(m, true, delta, None, cursor, slide) == (m, None::<Option<SurfaceId>>),
{
}

/// A step through the workspaces switches the output under the cursor, and
/// gives the keyboard to the window that comes to be there. Where there is
/// nothing to switch to, nothing happens.
pub proof fn steps_switch_the_output_under_the_cursor(
    m: LayoutModel,
    delta: int,
    focus: Option<SurfaceId>,
    cursor: Point,
    slide: SlideTiming,
    i: int,
)
    requires
        m.valid(),
        m.pane(Probe::At(cursor)) == Some(i),
    ensures
        ({
            let (after, moved) = stepped(m, false, delta, focus, cursor, slide);
            let (switched, done) = m.switching_by(i, delta, slide);
            &&& after == switched
            &&& moved.is_some() == done
            &&& done ==> match after.window_at(cursor) {
                None => moved == Some(None::<SurfaceId>),
                Some(f) => moved == Some(Some(f.0.id())),
            }
        }),
{
}

/// The shadow of a surface is the first that is said to be its; a surface
/// without one has none.
pub proof fn the_first_shadow_of_a_surface_counts(
    shadows: Seq<Shadow>,
    surface: SurfaceId,
    i: int,
    from: int,
)
    requires
        0 <= from <= i <= shadows.len(),
        forall|k: int| from <= k < i ==> (#[trigger] shadows[k]).surface != surface,
        i < shadows.len() ==> shadows[i].surface == surface,
    ensures
        i < shadows.len() ==> shadow_from(shadows, surface, from) == shadows[i].offset,
        i == shadows.len() ==> shadow_from(shadows, surface, from) == (Point { x: 0, y: 0 }),
    decreases i - from,
{
    if from < i {
        the_first_shadow_of_a_surface_counts(shadows, surface, i, from + 1);
    }
}

/// A window gets the pointer where its buffer starts: before its cell by its
/// shadow, and at its cell where it fills its output.
pub proof fn shadows_lie_before_their_windows(s: Scene, pos: Point, w: crate::window::Window, rect: Rect, by: Point)
    requires
        !s.session_locked,
        s.layer(pos).is_none(),
        s.layout@.window_at(pos) == Some((w, rect)),
        by == shadow_from(s.shadows@, w.id(), 0),
        i32::MIN <= rect.loc.x - by.x <= i32::MAX,
        i32::MIN <= rect.loc.y - by.y <= i32::MAX,
    ensures
        s.surface_hit(pos) matches Some(hit) && {
            &&& hit.0 == w.id()
            &&& w.fill == FillMode::Normal ==> hit.1.x + by.x == rect.loc.x && hit.1.y + by.y
                == rect.loc.y
            &&& w.fill != FillMode::Normal ==> hit.1 == rect.loc
        },
{
}

/// The menu at a point gets the pointer, at the corner of its buffer; on a
/// locked session none does.
pub proof fn menus_get_the_pointer(s: Scene, pos: Point)
    ensures
        s.session_locked ==> s.popup_hit(pos).is_none(),
        !s.session_locked ==> match menu_at(s.popups@, pos, s.popups@.len() as int) {
            None => s.popup_hit(pos).is_none(),
            Some(p) => s.popup_hit(pos) == Some((p.surface, p.buffer_origin)),
        },
{
}

/// A press outside of all menus closes them; a release, a press inside, and
/// what belongs to a drag or a screenshot do not.
pub proof fn presses_elsewhere_close_menus(
    m: LayoutModel,
    drag: Option<DragState>,
    button: u32,
    pressed: bool,
    cursor: Point,
    c: PointerContext,
)
    ensures
        buttoned(m, drag, button, pressed, cursor, c).2.dismiss_popups <==> pressed && !c.in_popup
            && !c.screenshot && drag.is_none(),
{
}

} // verus!
