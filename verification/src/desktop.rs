//! What the layout of the desktop is, and what each operation makes of it.
//!
//! A desktop is a row of outputs. Each has a list of workspaces of which one is
//! active, and each workspace has a tree of tiles and a stack of floating
//! windows. At most one window is in transit: lifted out by a move drag and
//! following the cursor.

use vstd::prelude::*;

use crate::geometry::{clip, clipped, half, larger, max32, min32, smaller, Point, Rect, Size};
use crate::tree::{
    in_tree, inserted, inside_gap, leaf_of, leaf_under, leaves, placed, position_of, pruned,
    refilled, resized, Node, ResizeEdges,
};
use crate::window::{
    deco_for_fill, floating_configure, tile_configure, Configure, Deco, FillMode, LayoutMode,
    OutputArea, SurfaceId, Window, WindowSurface,
};

verus! {

/// The distances between tiles and to the edges of the output.
#[derive(Debug, Clone, Copy, PartialEq, Eq, Structural)]
pub struct Gaps {
    pub outer: i32,
    pub inner: i32,
}

/// Where a dragged window came from, and so where it returns to.
#[derive(Debug, Clone, Copy, PartialEq, Eq, Structural)]
pub enum DragSource {
    Tiled,
    Floating,
}

/// The window that a move drag has lifted out.
#[derive(Debug, Clone, Copy, PartialEq, Eq, Structural)]
pub struct InTransit {
    pub window: Window,
    pub source: DragSource,
    /// The output it was lifted from.
    pub source_output: usize,
}

/// How one window is drawn in a frame.
#[derive(Debug, Clone, Copy, PartialEq, Eq, Structural)]
pub struct Placement {
    pub surface: SurfaceId,
    pub cell_rect: Rect,
    pub focused: bool,
    pub fill: FillMode,
    pub floating: bool,
    pub deco: Deco,
    /// How far a workspace slide has displaced it.
    pub slide: Point,
}

/// The displacement of the leaving and of the arriving workspace of an output
/// whose slide is running.
#[derive(Debug, Clone, Copy, PartialEq, Eq, Structural)]
pub struct SlideOffsets {
    pub from: Point,
    pub to: Point,
}

/// The clock of a workspace slide, in milliseconds: the present moment, and
/// how long the slide that runs on the switched output takes in all. There is
/// no duration where slides are switched off.
#[derive(Debug, Clone, Copy, PartialEq, Eq, Structural)]
pub struct SlideTiming {
    pub now: u64,
    pub duration: Option<u64>,
}

/// What a workspace holds.
#[verifier::ext_equal]
pub struct WorkspaceModel {
    pub tree: Option<Node>,
    pub floating: Seq<Window>,
}

/// A workspace slide that is running.
#[verifier::ext_equal]
pub struct SlideModel {
    /// How the leaving workspace looked.
    pub from: Seq<Placement>,
    pub dir: i32,
    pub started: u64,
    /// How many workspaces away the slide ends.
    pub steps: i32,
}

/// One output with its workspaces.
#[verifier::ext_equal]
pub struct PaneModel {
    pub name: Seq<char>,
    pub full: Rect,
    pub bounds: Rect,
    pub workspaces: Seq<WorkspaceModel>,
    pub active: int,
    pub transition: Option<SlideModel>,
}

/// The whole desktop, with the configures that have not been sent yet.
#[verifier::ext_equal]
pub struct LayoutModel {
    pub outputs: Seq<PaneModel>,
    pub in_transit: Option<InTransit>,
    pub gaps: Gaps,
    pub deco: Deco,
    pub mode: LayoutMode,
    pub outbox: Seq<Configure>,
}

/// A property by which an output is looked up.
pub enum Probe {
    /// The point lies on it.
    At(Point),
    /// It has the name.
    Named(Seq<char>),
    /// Its active workspace has a tile of the surface.
    Tiled(SurfaceId),
    /// Its active workspace has a tile of the surface that fills nothing.
    PlainTile(SurfaceId),
    /// Its active workspace has a floating window of the surface.
    Floating(SurfaceId),
    /// Its active workspace has a window of the surface.
    Shown(SurfaceId),
    /// One of its workspaces has a window of the surface.
    Held(SurfaceId),
}

/// The windows of a tree that may be missing.
pub open spec fn tree_windows(tree: Option<Node>) -> Seq<Window> {
    match tree {
        Some(t) => leaves(t),
        None => Seq::empty(),
    }
}

/// The windows that are not of `surface`, in order.
pub open spec fn without(ws: Seq<Window>, surface: SurfaceId) -> Seq<Window>
    decreases ws.len(),
{
    if ws.len() == 0 {
        ws
    } else if ws.last().id() == surface {
        without(ws.drop_last(), surface)
    } else {
        without(ws.drop_last(), surface).push(ws.last())
    }
}

/// The last of the first `n` windows with the given fill mode.
pub open spec fn last_filled(ws: Seq<Window>, fill: FillMode, n: int) -> Option<Window>
    decreases n,
{
    if n <= 0 {
        None
    } else if ws[n - 1].fill == fill {
        Some(ws[n - 1])
    } else {
        last_filled(ws, fill, n - 1)
    }
}

/// The last of the first `n` windows whose rectangle holds `pos`.
pub open spec fn topmost_at(ws: Seq<Window>, pos: Point, n: int) -> Option<Window>
    decreases n,
{
    if n <= 0 {
        None
    } else if ws[n - 1].rect.holds(pos) {
        Some(ws[n - 1])
    } else {
        topmost_at(ws, pos, n - 1)
    }
}

/// The first fullscreen window at or after `from`.
pub open spec fn first_fullscreen(ws: Seq<Window>, from: int) -> Option<Window>
    decreases ws.len() - from,
{
    if from < 0 || from >= ws.len() {
        None
    } else if ws[from].fill == FillMode::Fullscreen {
        Some(ws[from])
    } else {
        first_fullscreen(ws, from + 1)
    }
}

/// How a window is drawn in an output at rest.
pub open spec fn placement_of(
    w: Window,
    floating: bool,
    focused: Option<SurfaceId>,
    area: OutputArea,
    deco: Deco,
    mode: LayoutMode,
) -> Placement {
    Placement {
        surface: w.id(),
        cell_rect: area.cell_of(w),
        focused: focused == Some(w.id()),
        fill: w.fill,
        floating,
        deco: deco.under(mode, w.fill),
        slide: Point::zero(),
    }
}

/// How a window is drawn in an output at rest.
pub fn as_placement(
    w: Window,
    floating: bool,
    focused: Option<SurfaceId>,
    area: OutputArea,
    deco: Deco,
    mode: LayoutMode,
) -> (r: Placement)
    ensures
        r == placement_of(w, floating, focused, area, deco, mode),
{
    let surface: SurfaceId = w.toplevel.wl_surface();
    Placement {
        surface,
        cell_rect: area.cell(&w),
        focused: match focused {
            None => false,
            Some(f) => f == surface,
        },
        fill: w.fill,
        floating,
        deco: deco_for_fill(deco, mode, w.fill),
        slide: Point { x: 0, y: 0 },
    }
}

impl WorkspaceModel {
    /// A workspace without windows.
    pub open spec fn blank() -> WorkspaceModel {
        WorkspaceModel { tree: None, floating: Seq::empty() }
    }

    pub open spec fn is_empty(self) -> bool {
        self.tree.is_none() && self.floating.len() == 0
    }

    /// The tiles, then the floating windows from the bottom up.
    pub open spec fn windows(self) -> Seq<Window> {
        tree_windows(self.tree) + self.floating
    }

    pub open spec fn tiles(self, surface: SurfaceId) -> bool {
        self.tree.is_some() && in_tree(self.tree.unwrap(), surface)
    }

    pub open spec fn floats(self, surface: SurfaceId) -> bool {
        position_of(self.floating, surface).is_some()
    }

    pub open spec fn shows(self, surface: SurfaceId) -> bool {
        self.tiles(surface) || self.floats(surface)
    }

    /// The tile of a surface.
    pub open spec fn tile(self, surface: SurfaceId) -> Window {
        leaf_of(self.tree.unwrap(), surface).unwrap()
    }

    /// The lowest floating window of a surface.
    pub open spec fn float(self, surface: SurfaceId) -> Window {
        self.floating[position_of(self.floating, surface).unwrap()]
    }

    /// The workspace with one more tile.
    pub open spec fn tiling(
        self,
        w: Window,
        bounds: Rect,
        cursor: Option<Point>,
        inner: int,
    ) -> WorkspaceModel {
        WorkspaceModel {
            tree: Some(
                match self.tree {
                    None => Node::Leaf(w),
                    Some(root) => inserted(root, w, bounds, cursor, inner),
                },
            ),
            ..self
        }
    }

    /// The workspace without the tile of a surface.
    pub open spec fn untiling(self, surface: SurfaceId) -> WorkspaceModel {
        WorkspaceModel { tree: pruned(self.tree.unwrap(), surface), ..self }
    }

    /// The workspace with one more floating window on top.
    pub open spec fn floating_on_top(self, w: Window) -> WorkspaceModel {
        WorkspaceModel { floating: self.floating.push(w), ..self }
    }

    /// The workspace without the lowest floating window of a surface.
    pub open spec fn unfloating(self, surface: SurfaceId) -> WorkspaceModel {
        WorkspaceModel {
            floating: self.floating.remove(position_of(self.floating, surface).unwrap()),
            ..self
        }
    }

    /// The workspace in which the lowest floating window of a surface is `w`.
    pub open spec fn refloating(self, surface: SurfaceId, w: Window) -> WorkspaceModel {
        WorkspaceModel {
            floating: self.floating.update(position_of(self.floating, surface).unwrap(), w),
            ..self
        }
    }

    /// The workspace without a surface: without its tile if it has one, else
    /// without any floating window of it.
    pub open spec fn dropping(self, surface: SurfaceId) -> WorkspaceModel {
        if self.tiles(surface) {
            self.untiling(surface)
        } else {
            WorkspaceModel { floating: without(self.floating, surface), ..self }
        }
    }

    /// The workspace in which a surface has another fill mode, its floating
    /// window before its tile.
    pub open spec fn refilling(self, surface: SurfaceId, fill: FillMode) -> WorkspaceModel {
        if self.floats(surface) {
            self.refloating(surface, Window { fill, ..self.float(surface) })
        } else {
            WorkspaceModel { tree: Some(refilled(self.tree.unwrap(), surface, fill)), ..self }
        }
    }

    /// The workspace after a drag of edges of a tile towards `target`.
    pub open spec fn resizing(
        self,
        surface: SurfaceId,
        target: Rect,
        edges: ResizeEdges,
        bounds: Rect,
        inner: int,
    ) -> WorkspaceModel {
        let tree = resized(
            self.tree.unwrap(),
            bounds,
            inner,
            surface,
            target,
            edges,
            false,
            false,
        ).node;
        WorkspaceModel { tree: Some(placed(tree, bounds, inner)), ..self }
    }

    /// The workspace with its tiles laid out in `bounds`.
    pub open spec fn laid_out(self, bounds: Rect, inner: int) -> WorkspaceModel {
        WorkspaceModel {
            tree: match self.tree {
                None => None,
                Some(t) => Some(placed(t, bounds, inner)),
            },
            ..self
        }
    }

    /// What the clients of the workspace are told.
    pub open spec fn configures(self, area: OutputArea, deco: Deco, mode: LayoutMode) -> Seq<
        Configure,
    > {
        tile_configures(tree_windows(self.tree), area, deco, mode) + Seq::new(
            self.floating.len(),
            |i: int|
                floating_configure(
                    self.floating[i],
                    deco.under(mode, self.floating[i].fill),
                    area,
                ),
        )
    }

    /// How the workspace is drawn at rest: tiles first, floating windows above.
    pub open spec fn placements(
        self,
        focused: Option<SurfaceId>,
        area: OutputArea,
        deco: Deco,
        mode: LayoutMode,
    ) -> Seq<Placement> {
        let tiles = tree_windows(self.tree);
        Seq::new(
            self.windows().len(),
            |i: int|
                placement_of(self.windows()[i], i >= tiles.len(), focused, area, deco, mode),
        )
    }

    /// The fullscreen window of the workspace, floating ones first.
    pub open spec fn fullscreen(self) -> Option<Window> {
        match first_fullscreen(self.floating, 0) {
            Some(w) => Some(w),
            None => first_fullscreen(tree_windows(self.tree), 0),
        }
    }

    /// The window at a point of the workspace and the rectangle it covers: the
    /// topmost fullscreen window, else the topmost maximized one, else the
    /// topmost floating window there, else the tile there.
    pub open spec fn window_at(self, pos: Point, area: OutputArea) -> Option<(Window, Rect)> {
        let ws = self.windows();
        let full = last_filled(ws, FillMode::Fullscreen, ws.len() as int);
        let wide = last_filled(ws, FillMode::Maximized, ws.len() as int);
        let top = topmost_at(self.floating, pos, self.floating.len() as int);
        if full.is_some() {
            Some((full.unwrap(), area.full))
        } else if wide.is_some() {
            Some((wide.unwrap(), area.work))
        } else if top.is_some() {
            Some((top.unwrap(), top.unwrap().rect))
        } else {
            match self.tree {
                None => None,
                Some(t) => match leaf_under(t, pos) {
                    None => None,
                    Some(w) => Some((w, w.rect)),
                },
            }
        }
    }
}

/// What the clients of a row of tiles are told.
pub open spec fn tile_configures(
    ws: Seq<Window>,
    area: OutputArea,
    deco: Deco,
    mode: LayoutMode,
) -> Seq<Configure> {
    Seq::new(ws.len(), |i: int| tile_configure(ws[i], deco.under(mode, ws[i].fill), area))
}

/// The first workspace at or after `from` that shows a surface.
pub open spec fn workspace_from(
    ws: Seq<WorkspaceModel>,
    surface: SurfaceId,
    from: int,
) -> Option<int>
    decreases ws.len() - from,
{
    if from < 0 || from >= ws.len() {
        None
    } else if ws[from].shows(surface) {
        Some(from)
    } else {
        workspace_from(ws, surface, from + 1)
    }
}

/// The workspaces among the first `n` that a tidied output keeps: the active
/// one, and those with windows.
pub open spec fn kept(ws: Seq<WorkspaceModel>, active: int, n: int) -> Seq<WorkspaceModel>
    decreases n,
{
    if n <= 0 {
        Seq::empty()
    } else if n - 1 == active || !ws[n - 1].is_empty() {
        kept(ws, active, n - 1).push(ws[n - 1])
    } else {
        kept(ws, active, n - 1)
    }
}

/// What the clients of the first `n` workspaces are told.
pub open spec fn workspaces_configures(
    ws: Seq<WorkspaceModel>,
    area: OutputArea,
    deco: Deco,
    mode: LayoutMode,
    n: int,
) -> Seq<Configure>
    decreases n,
{
    if n <= 0 {
        Seq::empty()
    } else {
        workspaces_configures(ws, area, deco, mode, n - 1) + ws[n - 1].configures(area, deco, mode)
    }
}

/// The windows of the first `n` workspaces.
pub open spec fn workspaces_windows(ws: Seq<WorkspaceModel>, n: int) -> Seq<Window>
    decreases n,
{
    if n <= 0 {
        Seq::empty()
    } else {
        workspaces_windows(ws, n - 1) + ws[n - 1].windows()
    }
}

/// The workspace with the first `n` of some windows tiled into it one after
/// another, each filling nothing.
pub open spec fn tiling_all(
    ws: WorkspaceModel,
    windows: Seq<Window>,
    bounds: Rect,
    inner: int,
    n: int,
) -> WorkspaceModel
    decreases n,
{
    if n <= 0 {
        ws
    } else {
        tiling_all(ws, windows, bounds, inner, n - 1).tiling(
            Window { fill: FillMode::Normal, ..windows[n - 1] },
            bounds,
            None,
            inner,
        )
    }
}

impl PaneModel {
    pub open spec fn valid(self) -> bool {
        0 <= self.active < self.workspaces.len()
    }

    /// An output with one blank workspace.
    pub open spec fn fresh(name: Seq<char>, bounds: Rect) -> PaneModel {
        PaneModel {
            name,
            full: bounds,
            bounds,
            workspaces: seq![WorkspaceModel::blank()],
            active: 0,
            transition: None,
        }
    }

    pub open spec fn area(self) -> OutputArea {
        OutputArea { full: self.full, work: self.bounds }
    }

    pub open spec fn current(self) -> WorkspaceModel {
        self.workspaces[self.active]
    }

    pub open spec fn with_workspace(self, i: int, ws: WorkspaceModel) -> PaneModel {
        PaneModel { workspaces: self.workspaces.update(i, ws), ..self }
    }

    pub open spec fn with_current(self, ws: WorkspaceModel) -> PaneModel {
        self.with_workspace(self.active, ws)
    }

    /// Whether the output has the property.
    pub open spec fn meets(self, q: Probe) -> bool {
        match q {
            Probe::At(p) => self.full.holds(p),
            Probe::Named(n) => self.name == n,
            Probe::Tiled(s) => self.current().tiles(s),
            Probe::PlainTile(s) => self.current().tiles(s) && self.current().tile(s).fill
                == FillMode::Normal,
            Probe::Floating(s) => self.current().floats(s),
            Probe::Shown(s) => self.current().shows(s),
            Probe::Held(s) => workspace_from(self.workspaces, s, 0).is_some(),
        }
    }

    /// The first workspace that shows a surface.
    pub open spec fn home(self, surface: SurfaceId) -> int {
        workspace_from(self.workspaces, surface, 0).unwrap()
    }

    /// The output with its workspaces tidied: empty ones go, the active one
    /// stays, and one empty workspace ends the list.
    pub open spec fn tidied(self) -> PaneModel {
        let k = kept(self.workspaces, self.active, self.workspaces.len() as int);
        PaneModel {
            workspaces: if k.len() > 0 && k.last().is_empty() {
                k
            } else {
                k.push(WorkspaceModel::blank())
            },
            active: kept(self.workspaces, self.active, self.active).len() as int,
            ..self
        }
    }

    /// The output with the tiles of every workspace laid out.
    pub open spec fn laid_out(self, gaps: Gaps) -> PaneModel {
        PaneModel {
            workspaces: Seq::new(
                self.workspaces.len(),
                |i: int|
                    self.workspaces[i].laid_out(
                        inside_gap(self.bounds, gaps.outer as int),
                        gaps.inner as int,
                    ),
            ),
            ..self
        }
    }

    /// What the clients of the output are told.
    pub open spec fn configures(self, deco: Deco, mode: LayoutMode) -> Seq<Configure> {
        workspaces_configures(
            self.workspaces,
            self.area(),
            deco,
            mode,
            self.workspaces.len() as int,
        )
    }

    /// How the output is drawn: its active workspace, and during a slide the
    /// leaving one before it, each displaced.
    pub open spec fn placements(
        self,
        focused: Option<SurfaceId>,
        slide: Option<SlideOffsets>,
        deco: Deco,
        mode: LayoutMode,
    ) -> Seq<Placement> {
        let here = self.current().placements(focused, self.area(), deco, mode);
        match (self.transition, slide) {
            (Some(t), Some(o)) => Seq::new(
                t.from.len(),
                |i: int| Placement { slide: o.from, focused: false, ..t.from[i] },
            ) + Seq::new(here.len(), |i: int| Placement { slide: o.to, ..here[i] }),
            _ => here,
        }
    }

    /// The output after the window of a surface has moved from the active
    /// workspace to another, which is active from then on. A floating window
    /// lands on top, a tile is split off the last tile there.
    pub open spec fn carrying_over(self, surface: SurfaceId, dst: int, gaps: Gaps) -> PaneModel {
        let ws = self.current();
        let moved = if ws.floats(surface) {
            let left = self.with_current(ws.unfloating(surface));
            left.with_workspace(dst, left.workspaces[dst].floating_on_top(ws.float(surface)))
        } else {
            let left = self.with_current(ws.untiling(surface));
            left.with_workspace(
                dst,
                left.workspaces[dst].tiling(
                    ws.tile(surface),
                    inside_gap(self.bounds, gaps.outer as int),
                    None,
                    gaps.inner as int,
                ),
            )
        };
        PaneModel { active: dst, ..moved }
    }

    /// The furthest workspace that can be shown: a blank one past the end of
    /// the list, unless a blank one at its end is on show already.
    pub open spec fn furthest(self) -> int {
        if self.active == self.workspaces.len() - 1 && self.current().is_empty() {
            self.active
        } else {
            self.workspaces.len() as int
        }
    }

    /// The output with a workspace at index `dst`, which may be one past the
    /// end of the list.
    pub open spec fn reaching(self, dst: int) -> PaneModel {
        if dst >= self.workspaces.len() {
            PaneModel { workspaces: self.workspaces.push(WorkspaceModel::blank()), ..self }
        } else {
            self
        }
    }
}

/// The first output at or after `from` with the property.
pub open spec fn pane_from(panes: Seq<PaneModel>, q: Probe, from: int) -> Option<int>
    decreases panes.len() - from,
{
    if from < 0 || from >= panes.len() {
        None
    } else if panes[from].meets(q) {
        Some(from)
    } else {
        pane_from(panes, q, from + 1)
    }
}

/// A search for an output finds the first match, and finds one whenever there
/// is one.
pub proof fn pane_search_is_exact(panes: Seq<PaneModel>, q: Probe, from: int)
    requires
        0 <= from <= panes.len(),
    ensures
        match pane_from(panes, q, from) {
            Some(i) => from <= i < panes.len() && panes[i].meets(q) && forall|j: int|
                from <= j < i ==> !(#[trigger] panes[j]).meets(q),
            None => forall|j: int| from <= j < panes.len() ==> !(#[trigger] panes[j]).meets(q),
        },
    decreases panes.len() - from,
{
    if from < panes.len() && !panes[from].meets(q) {
        pane_search_is_exact(panes, q, from + 1);
    }
}

/// A search for a workspace finds the first match, and finds one whenever
/// there is one.
pub proof fn workspace_search_is_exact(ws: Seq<WorkspaceModel>, surface: SurfaceId, from: int)
    requires
        0 <= from <= ws.len(),
    ensures
        match workspace_from(ws, surface, from) {
            Some(i) => from <= i < ws.len() && ws[i].shows(surface) && forall|j: int|
                from <= j < i ==> !(#[trigger] ws[j]).shows(surface),
            None => forall|j: int| from <= j < ws.len() ==> !(#[trigger] ws[j]).shows(surface),
        },
    decreases ws.len() - from,
{
    if from < ws.len() && !ws[from].shows(surface) {
        workspace_search_is_exact(ws, surface, from + 1);
    }
}

/// What the clients of the first `n` outputs are told.
pub open spec fn panes_configures(
    panes: Seq<PaneModel>,
    deco: Deco,
    mode: LayoutMode,
    n: int,
) -> Seq<Configure>
    decreases n,
{
    if n <= 0 {
        Seq::empty()
    } else {
        panes_configures(panes, deco, mode, n - 1) + panes[n - 1].configures(deco, mode)
    }
}

/// How the first `n` outputs are drawn; an output without an entry in `slides`
/// is drawn at rest.
pub open spec fn panes_placements(
    panes: Seq<PaneModel>,
    focused: Option<SurfaceId>,
    slides: Seq<Option<SlideOffsets>>,
    deco: Deco,
    mode: LayoutMode,
    n: int,
) -> Seq<Placement>
    decreases n,
{
    if n <= 0 {
        Seq::empty()
    } else {
        panes_placements(panes, focused, slides, deco, mode, n - 1) + panes[n - 1].placements(
            focused,
            slide_at(slides, n - 1),
            deco,
            mode,
        )
    }
}

/// The slide of an output, where there is one.
pub open spec fn slide_at(slides: Seq<Option<SlideOffsets>>, i: int) -> Option<SlideOffsets> {
    if 0 <= i < slides.len() {
        slides[i]
    } else {
        None
    }
}

/// The answer to a workspace switch while another may still be sliding.
#[derive(Debug, Clone, Copy, PartialEq, Eq, Structural)]
pub enum SlideAction {
    /// Let the running slide end this many workspaces from its origin.
    Aim(i32),
    /// End the running slide; the switch returns to its origin.
    Drop,
    /// Start over from where the desktop is now.
    Fresh,
}

/// What a switch by `delta` does to a slide that runs `steps` away from its
/// origin. Only a young slide is redirected, and only while it keeps its
/// direction.
pub open spec fn slide_answer(running: Option<(i32, bool)>, delta: int) -> SlideAction {
    match running {
        Some((steps, true)) => {
            let aimed = clipped(steps + delta);
            if aimed == 0 {
                SlideAction::Drop
            } else if (aimed > 0 && steps > 0) || (aimed < 0 && steps < 0) {
                SlideAction::Aim(aimed)
            } else {
                SlideAction::Fresh
            }
        },
        _ => SlideAction::Fresh,
    }
}

/// What a switch by `delta` does to a slide that is running, given with its
/// steps and whether it is young enough to be redirected.
pub fn slide_action(running: Option<(i32, bool)>, delta: i32) -> (r: SlideAction)
    ensures
        r == slide_answer(running, delta as int),
{
    match running {
        Some((steps, true)) => {
            let aimed: i32 = clip(steps as i64 + delta as i64);
            if aimed == 0 {
                SlideAction::Drop
            } else if (aimed > 0 && steps > 0) || (aimed < 0 && steps < 0) {
                SlideAction::Aim(aimed)
            } else {
                SlideAction::Fresh
            }
        },
        _ => SlideAction::Fresh,
    }
}

/// No switch leaves a slide aimed at its own origin, or aimed the other way.
pub proof fn slides_never_aim_at_their_origin(running: Option<(i32, bool)>, delta: int)
    ensures
        slide_answer(running, delta) matches SlideAction::Aim(aimed) ==> aimed != 0 && (aimed > 0)
            == (running.unwrap().0 > 0),
{
}

/// Whether a slide is before its half way, where it can still be redirected.
pub open spec fn slide_is_young(started: u64, timing: SlideTiming) -> bool {
    match timing.duration {
        None => false,
        Some(d) => 2 * larger(timing.now - started, 0) < d,
    }
}

/// Whether a slide has run its time.
pub open spec fn slide_is_over(started: u64, now: u64, duration: u64) -> bool {
    duration == 0 || now - started >= duration
}

/// What a client has declared of its window, as far as the layout asks.
#[derive(Debug, Clone, Copy, PartialEq, Eq, Structural)]
pub enum ClientFacts {
    Xdg {
        has_parent: bool,
        /// Whether the client has named the window a dialog, modal or not.
        declared_dialog: bool,
        min: Size,
        max: Size,
        geometry: Option<Size>,
    },
    X11 {
        transient: bool,
        /// Whether its type is dialog, utility, splash or toolbar.
        dialog_type: bool,
        modal: bool,
        least: Option<Size>,
        greatest: Option<Size>,
        configured: Size,
    },
}

/// A size, or zero by zero where there is none.
pub open spec fn size_or_zero(s: Option<Size>) -> Size {
    match s {
        Some(s) => s,
        None => Size { w: 0, h: 0 },
    }
}

impl ClientFacts {
    /// The least and the greatest content size, zero where not limited.
    pub open spec fn hints(self) -> (Size, Size) {
        match self {
            ClientFacts::Xdg { has_parent: _, declared_dialog: _, min, max, geometry: _ } => (
                min,
                max,
            ),
            ClientFacts::X11 {
                transient: _,
                dialog_type: _,
                modal: _,
                least,
                greatest,
                configured: _,
            } => (size_or_zero(least), size_or_zero(greatest)),
        }
    }

    /// Whether the client's window has one size only.
    pub open spec fn fixed(self) -> bool {
        match self {
            ClientFacts::Xdg { has_parent: _, declared_dialog: _, min, max, geometry: _ } =>
                min.is_positive() && min == max,
            ClientFacts::X11 {
                transient: _,
                dialog_type: _,
                modal: _,
                least,
                greatest,
                configured: _,
            } => least.is_some() && least == greatest,
        }
    }

    /// Whether the window is a dialog: it says so, belongs to another window,
    /// or cannot be resized.
    pub open spec fn is_dialog(self) -> bool {
        self.fixed() || match self {
            ClientFacts::Xdg { has_parent, declared_dialog, min: _, max: _, geometry: _ } =>
                declared_dialog || has_parent,
            ClientFacts::X11 {
                transient,
                dialog_type,
                modal,
                least: _,
                greatest: _,
                configured: _,
            } =>
                transient || dialog_type || modal,
        }
    }

    /// The content size that a dialog has chosen, zero by zero if it has none.
    pub open spec fn dialog_size(self) -> Option<Size> {
        if !self.is_dialog() {
            None
        } else {
            let (min, _) = self.hints();
            let own = match self {
                ClientFacts::Xdg { has_parent: _, declared_dialog: _, min: _, max: _, geometry } =>
                    geometry,
                ClientFacts::X11 {
                    transient: _,
                    dialog_type: _,
                    modal: _,
                    least: _,
                    greatest: _,
                    configured,
                } => Some(configured),
            };
            if own.is_some() && own.unwrap().is_positive() {
                own
            } else if self.fixed() {
                Some(min)
            } else {
                Some(Size { w: 0, h: 0 })
            }
        }
    }
}

/// The least and the greatest cell of a window whose client has declared the
/// given content sizes. A limit that is not positive does not bind.
pub open spec fn cell_limits(deco: Deco, min: Size, max: Size) -> (Size, Size) {
    let lo = deco.outer(min);
    let hi = deco.outer(max);
    (
        Size {
            w: if min.w > 0 {
                lo.w
            } else {
                0
            },
            h: if min.h > 0 {
                lo.h
            } else {
                0
            },
        },
        Size {
            w: if max.w > 0 {
                hi.w
            } else {
                i32::MAX
            },
            h: if max.h > 0 {
                hi.h
            } else {
                i32::MAX
            },
        },
    )
}

/// Seven tenths of a length, rounded towards zero.
pub open spec fn seven_tenths(v: int) -> int {
    if v >= 0 {
        v * 7 / 10
    } else {
        -((-v) * 7 / 10)
    }
}

/// A third of a length, rounded towards zero.
pub open spec fn third(v: int) -> int {
    if v >= 0 {
        v / 3
    } else {
        -((-v) / 3)
    }
}

/// The length of a side of a tile that is made to float.
pub open spec fn float_side(tile: int, least: int, greatest: int, work: int) -> int {
    smaller(larger(smaller(seven_tenths(tile), greatest), least), work)
}

/// The rectangle a tile gets when it is made to float: seven tenths of it,
/// within the client's limits and the work area, around the same middle.
pub open spec fn float_rect(tile: Rect, limits: (Size, Size), work: Rect) -> Rect {
    let w = float_side(
        tile.size.w as int,
        limits.0.w as int,
        limits.1.w as int,
        work.size.w as int,
    );
    let h = float_side(
        tile.size.h as int,
        limits.0.h as int,
        limits.1.h as int,
        work.size.h as int,
    );
    Rect {
        loc: Point {
            x: larger(
                clipped(tile.loc.x + half(tile.size.w - w)) as int,
                work.loc.x as int,
            ) as i32,
            y: larger(
                clipped(tile.loc.y + half(tile.size.h - h)) as int,
                work.loc.y as int,
            ) as i32,
        },
        size: Size { w: w as i32, h: h as i32 },
    }
}

/// The length of a side of a dialog: what it wants, at most the work area, or
/// a third of that where it wants nothing; the client's limits come last.
pub open spec fn dialog_side(wish: int, cell: int, least: int, greatest: int, work: int) -> int {
    larger(
        smaller(
            if wish > 0 {
                smaller(cell, work)
            } else {
                third(work)
            },
            greatest,
        ),
        least,
    )
}

/// The rectangle a dialog gets, in the middle of the work area.
pub open spec fn dialog_rect(wish: Size, deco: Deco, limits: (Size, Size), work: Rect) -> Rect {
    let cell = deco.outer(wish);
    let w = dialog_side(
        wish.w as int,
        cell.w as int,
        limits.0.w as int,
        limits.1.w as int,
        work.size.w as int,
    );
    let h = dialog_side(
        wish.h as int,
        cell.h as int,
        limits.0.h as int,
        limits.1.h as int,
        work.size.h as int,
    );
    Rect {
        loc: Point {
            x: clipped(work.loc.x + half(work.size.w - w)),
            y: clipped(work.loc.y + half(work.size.h - h)),
        },
        size: Size { w: w as i32, h: h as i32 },
    }
}

/// Whether one of the outputs has exactly this size.
pub open spec fn some_output_measures(panes: Seq<PaneModel>, size: Size) -> bool {
    exists|i: int| 0 <= i < panes.len() && (#[trigger] panes[i]).full.size == size
}

/// The size at which a surface is floated as a dialog, if it is one. A dialog
/// of exactly an output's size is a game that wants that output, and tiles.
pub open spec fn dialog_wish(panes: Seq<PaneModel>, facts: ClientFacts) -> Option<Size> {
    match facts.dialog_size() {
        None => None,
        Some(s) => if s.w > 0 && some_output_measures(panes, s) {
            None
        } else {
            Some(s)
        },
    }
}

/// The slide of an output after a switch by `delta` away from its
/// active workspace.
pub open spec fn slide_after(
    p: PaneModel,
    delta: int,
    timing: SlideTiming,
    deco: Deco,
    mode: LayoutMode,
) -> Option<SlideModel> {
    let running = match p.transition {
        None => None,
        Some(t) => Some((t.steps, slide_is_young(t.started, timing))),
    };
    match slide_answer(running, clipped(delta) as int) {
        SlideAction::Aim(steps) => Some(SlideModel { steps, ..p.transition.unwrap() }),
        SlideAction::Drop => None,
        SlideAction::Fresh => Some(
            SlideModel {
                from: p.current().placements(None, p.area(), deco, mode),
                dir: if delta > 0 {
                    -1i32
                } else {
                    1i32
                },
                started: timing.now,
                steps: clipped(delta),
            },
        ),
    }
}

impl LayoutModel {
    pub open spec fn valid(self) -> bool {
        forall|i: int| 0 <= i < self.outputs.len() ==> (#[trigger] self.outputs[i]).valid()
    }

    pub open spec fn pane(self, q: Probe) -> Option<int> {
        pane_from(self.outputs, q, 0)
    }

    pub open spec fn with_pane(self, i: int, p: PaneModel) -> LayoutModel {
        LayoutModel { outputs: self.outputs.update(i, p), ..self }
    }

    pub open spec fn with_current(self, i: int, ws: WorkspaceModel) -> LayoutModel {
        self.with_pane(i, self.outputs[i].with_current(ws))
    }

    /// The cell that the tiles of an output share.
    pub open spec fn tile_bounds(self, i: int) -> Rect {
        inside_gap(self.outputs[i].bounds, self.gaps.outer as int)
    }

    pub open spec fn deco_of(self, w: Window) -> Deco {
        self.deco.under(self.mode, w.fill)
    }

    /// What a floating window of an output is told.
    pub open spec fn float_message(self, w: Window, area: OutputArea) -> Configure {
        floating_configure(w, self.deco_of(w), area)
    }

    pub open spec fn telling(self, c: Configure) -> LayoutModel {
        LayoutModel { outbox: self.outbox.push(c), ..self }
    }

    pub open spec fn tidying(self, i: int) -> LayoutModel {
        self.with_pane(i, self.outputs[i].tidied())
    }

    /// All tiles laid out, and every client told.
    pub open spec fn reflowed(self) -> LayoutModel {
        let panes = Seq::new(self.outputs.len(), |i: int| self.outputs[i].laid_out(self.gaps));
        LayoutModel {
            outputs: panes,
            outbox: self.outbox + panes_configures(
                panes,
                self.deco,
                self.mode,
                panes.len() as int,
            ),
            ..self
        }
    }

    /// One more tile in the active workspace of an output.
    pub open spec fn tiling(self, i: int, w: Window, cursor: Option<Point>) -> LayoutModel {
        self.with_current(
            i,
            self.outputs[i].current().tiling(
                w,
                self.tile_bounds(i),
                cursor,
                self.gaps.inner as int,
            ),
        )
    }

    /// The output for a new window: the one under the cursor, else the first.
    pub open spec fn landing(self, cursor: Option<Point>) -> Option<int> {
        let under = match cursor {
            Some(c) => self.pane(Probe::At(c)),
            None => None,
        };
        if under.is_some() {
            under
        } else if self.outputs.len() > 0 {
            Some(0)
        } else {
            None
        }
    }

    /// A new window opens as a tile.
    pub open spec fn inserting(
        self,
        toplevel: WindowSurface,
        cursor: Option<Point>,
    ) -> LayoutModel {
        match self.landing(cursor) {
            None => self,
            Some(i) => self.tiling(
                i,
                Window { toplevel, rect: self.tile_bounds(i), fill: FillMode::Normal },
                cursor,
            ).reflowed(),
        }
    }

    /// A window closes.
    pub open spec fn removing(self, surface: SurfaceId) -> LayoutModel {
        match self.pane(Probe::Held(surface)) {
            Some(i) => {
                let p = self.outputs[i];
                let k = p.home(surface);
                self.with_pane(i, p.with_workspace(k, p.workspaces[k].dropping(surface))).tidying(
                    i,
                ).reflowed()
            },
            None => if self.in_transit.is_some() && self.in_transit.unwrap().window.id()
                == surface {
                LayoutModel { in_transit: None, ..self }
            } else {
                self
            },
        }
    }

    /// The window of a surface: the one in transit, else the first one held.
    pub open spec fn window_of(self, surface: SurfaceId) -> Option<Window> {
        if self.in_transit.is_some() && self.in_transit.unwrap().window.id() == surface {
            Some(self.in_transit.unwrap().window)
        } else {
            match self.pane(Probe::Held(surface)) {
                None => None,
                Some(i) => {
                    let ws = self.outputs[i].workspaces[self.outputs[i].home(surface)];
                    Some(
                        if ws.floats(surface) {
                            ws.float(surface)
                        } else {
                            ws.tile(surface)
                        },
                    )
                },
            }
        }
    }

    pub open spec fn is_filled(self, surface: SurfaceId) -> bool {
        self.window_of(surface).is_some() && self.window_of(surface).unwrap().fill
            != FillMode::Normal
    }

    /// The least and the greatest cell of a window.
    pub open spec fn limits_of(self, w: Window, facts: ClientFacts) -> (Size, Size) {
        cell_limits(self.deco_of(w), facts.hints().0, facts.hints().1)
    }

    /// A tile is made to float, or a floating window to tile.
    pub open spec fn toggling_floating(self, surface: SurfaceId, facts: ClientFacts) -> (
        LayoutModel,
        bool,
    ) {
        match self.pane(Probe::Tiled(surface)) {
            Some(i) => {
                let p = self.outputs[i];
                let old = p.current().tile(surface);
                let w = Window {
                    rect: float_rect(old.rect, self.limits_of(old, facts), p.bounds),
                    ..old
                };
                (
                    self.with_current(
                        i,
                        p.current().untiling(surface).floating_on_top(w),
                    ).telling(self.float_message(w, p.area())).reflowed(),
                    true,
                )
            },
            None => match self.pane(Probe::Floating(surface)) {
                Some(i) => {
                    let ws = self.outputs[i].current();
                    let w = ws.float(surface);
                    (
                        self.with_current(i, ws.unfloating(surface)).tiling(
                            i,
                            w,
                            Some(w.rect.middle()),
                        ).reflowed(),
                        true,
                    )
                },
                None => (self, false),
            },
        }
    }

    /// A tile that turns out to be a dialog is made to float.
    pub open spec fn floating_dialog(self, surface: SurfaceId, facts: ClientFacts) -> (
        LayoutModel,
        bool,
    ) {
        let wish = dialog_wish(self.outputs, facts);
        match self.pane(Probe::PlainTile(surface)) {
            Some(i) if wish.is_some() => {
                let p = self.outputs[i];
                let old = p.current().tile(surface);
                let w = Window {
                    rect: dialog_rect(
                        wish.unwrap(),
                        self.deco_of(old),
                        self.limits_of(old, facts),
                        p.bounds,
                    ),
                    ..old
                };
                (
                    self.with_current(
                        i,
                        p.current().untiling(surface).floating_on_top(w),
                    ).telling(self.float_message(w, p.area())).reflowed(),
                    true,
                )
            },
            _ => (self, false),
        }
    }

    /// A move drag lifts a window out; the second part is its rectangle.
    pub open spec fn lifting(self, surface: SurfaceId) -> (LayoutModel, Option<Rect>) {
        match self.pane(Probe::Shown(surface)) {
            Some(i) if self.in_transit.is_none() && !self.is_filled(surface) => {
                let ws = self.outputs[i].current();
                if ws.tiles(surface) {
                    let w = ws.tile(surface);
                    (
                        LayoutModel {
                            in_transit: Some(
                                InTransit {
                                    window: w,
                                    source: DragSource::Tiled,
                                    source_output: i as usize,
                                },
                            ),
                            ..self.with_current(i, ws.untiling(surface))
                        }.reflowed(),
                        Some(w.rect),
                    )
                } else {
                    let w = ws.float(surface);
                    (
                        LayoutModel {
                            in_transit: Some(
                                InTransit {
                                    window: w,
                                    source: DragSource::Floating,
                                    source_output: i as usize,
                                },
                            ),
                            ..self.with_current(i, ws.unfloating(surface))
                        },
                        Some(w.rect),
                    )
                }
            },
            _ => (self, None),
        }
    }

    /// The rectangle from which a resize drag starts.
    pub open spec fn resize_start(self, surface: SurfaceId) -> Option<Rect> {
        match self.pane(Probe::Shown(surface)) {
            Some(i) if !self.is_filled(surface) => {
                let ws = self.outputs[i].current();
                Some(
                    if ws.floats(surface) {
                        ws.float(surface).rect
                    } else {
                        ws.tile(surface).rect
                    },
                )
            },
            _ => None,
        }
    }

    /// A floating window gets another rectangle.
    pub open spec fn moving_float(self, surface: SurfaceId, rect: Rect) -> LayoutModel {
        match self.pane(Probe::Floating(surface)) {
            None => self,
            Some(i) => {
                let p = self.outputs[i];
                let w = Window { rect, ..p.current().float(surface) };
                self.with_current(i, p.current().refloating(surface, w)).telling(
                    self.float_message(w, p.area()),
                )
            },
        }
    }

    /// A resize drag moves a window's edges.
    pub open spec fn resizing(
        self,
        surface: SurfaceId,
        target: Rect,
        edges: ResizeEdges,
    ) -> LayoutModel {
        if self.pane(Probe::Floating(surface)).is_some() {
            self.moving_float(surface, target)
        } else {
            match self.pane(Probe::Tiled(surface)) {
                None => self,
                Some(i) => {
                    let p = self.outputs[i];
                    let ws = p.current().resizing(
                        surface,
                        target,
                        edges,
                        self.tile_bounds(i),
                        self.gaps.inner as int,
                    );
                    let next = self.with_current(i, ws);
                    LayoutModel {
                        outbox: self.outbox + tile_configures(
                            tree_windows(ws.tree),
                            p.area(),
                            self.deco,
                            self.mode,
                        ),
                        ..next
                    }
                },
            }
        }
    }

    /// The area of an output, or an empty one where there is no such output.
    pub open spec fn area_or_nowhere(self, i: int) -> OutputArea {
        if 0 <= i < self.outputs.len() {
            self.outputs[i].area()
        } else {
            OutputArea { full: Rect::zero(), work: Rect::zero() }
        }
    }

    /// The window in transit follows the cursor.
    pub open spec fn carrying(self, rect: Rect) -> LayoutModel {
        match self.in_transit {
            None => self,
            Some(t) => {
                let w = Window { rect, ..t.window };
                LayoutModel { in_transit: Some(InTransit { window: w, ..t }), ..self }.telling(
                    self.float_message(w, self.area_or_nowhere(t.source_output as int)),
                )
            },
        }
    }

    /// The output a dragged window is dropped on: under the cursor, else under
    /// the window's middle, else the first.
    pub open spec fn drop_target(self, cursor: Point, middle: Point) -> Option<int> {
        let a = self.pane(Probe::At(cursor));
        let b = self.pane(Probe::At(middle));
        if a.is_some() {
            a
        } else if b.is_some() {
            b
        } else if self.outputs.len() > 0 {
            Some(0)
        } else {
            None
        }
    }

    /// A move drag ends.
    pub open spec fn landing_drag(self, cursor: Point) -> LayoutModel {
        match self.in_transit {
            None => self,
            Some(t) => {
                let free = LayoutModel { in_transit: None, ..self };
                match free.drop_target(cursor, t.window.rect.middle()) {
                    None => free.telling(
                        self.float_message(
                            t.window,
                            OutputArea { full: Rect::zero(), work: Rect::zero() },
                        ),
                    ),
                    Some(i) => {
                        let put = match t.source {
                            DragSource::Tiled => free.tiling(i, t.window, Some(cursor)),
                            DragSource::Floating => free.with_current(
                                i,
                                free.outputs[i].current().floating_on_top(t.window),
                            ).telling(self.float_message(t.window, free.outputs[i].area())),
                        };
                        let here = put.tidying(i);
                        let source = t.source_output as int;
                        (if source != i && source < here.outputs.len() {
                            here.tidying(source)
                        } else {
                            here
                        }).reflowed()
                    },
                }
            },
        }
    }

    /// How the desktop is drawn, bottom first.
    pub open spec fn placements(
        self,
        focused: Option<SurfaceId>,
        slides: Seq<Option<SlideOffsets>>,
    ) -> Seq<Placement> {
        panes_placements(
            self.outputs,
            focused,
            slides,
            self.deco,
            self.mode,
            self.outputs.len() as int,
        ) + match self.in_transit {
            None => Seq::empty(),
            Some(t) => seq![
                Placement {
                    surface: t.window.id(),
                    cell_rect: t.window.rect,
                    focused: focused == Some(t.window.id()),
                    fill: t.window.fill,
                    floating: true,
                    deco: self.deco_of(t.window),
                    slide: Point::zero(),
                },
            ],
        }
    }

    /// The window at a point and the rectangle it covers.
    pub open spec fn window_at(self, pos: Point) -> Option<(Window, Rect)> {
        match self.pane(Probe::At(pos)) {
            None => None,
            Some(i) => self.outputs[i].current().window_at(pos, self.outputs[i].area()),
        }
    }

    /// An output and its work area change.
    pub open spec fn bounding(self, name: Seq<char>, full: Rect, work: Rect) -> LayoutModel {
        match self.pane(Probe::Named(name)) {
            None => self,
            Some(i) => {
                let p = self.outputs[i];
                if p.full == full && p.bounds == work {
                    self
                } else {
                    self.with_pane(i, PaneModel { full, bounds: work, ..p }).reflowed()
                }
            },
        }
    }

    /// An output is plugged in.
    pub open spec fn plugging(self, name: Seq<char>, bounds: Rect) -> LayoutModel {
        if self.pane(Probe::Named(name)).is_some() {
            self
        } else {
            LayoutModel { outputs: self.outputs.push(PaneModel::fresh(name, bounds)), ..self }
        }
    }

    /// Whether an output can be unplugged: one that is its own heir leaves its
    /// windows to the output after it, so it cannot be the last.
    pub open spec fn can_unplug(self, name: Seq<char>, fallback: Option<Seq<char>>) -> bool {
        fallback == Some(name) ==> match self.pane(Probe::Named(name)) {
            Some(i) => i + 1 < self.outputs.len(),
            None => true,
        }
    }

    /// An output is unplugged: its windows become tiles of another one. With
    /// no other output it is kept for its return.
    pub open spec fn unplugging(
        self,
        name: Seq<char>,
        fallback: Option<Seq<char>>,
    ) -> LayoutModel {
        let gone = self.pane(Probe::Named(name));
        let dest = match fallback {
            None => None,
            Some(n) => self.pane(Probe::Named(n)),
        };
        if gone.is_none() || dest.is_none() {
            self
        } else {
            let i = gone.unwrap();
            let lost = self.outputs[i];
            let rest = LayoutModel { outputs: self.outputs.remove(i), ..self };
            let d = if dest.unwrap() > i {
                dest.unwrap() - 1
            } else {
                dest.unwrap()
            };
            let windows = workspaces_windows(lost.workspaces, lost.workspaces.len() as int);
            rest.with_current(
                d,
                tiling_all(
                    rest.outputs[d].current(),
                    windows,
                    rest.tile_bounds(d),
                    self.gaps.inner as int,
                    windows.len() as int,
                ),
            ).tidying(d).reflowed()
        }
    }

    /// A window gets another fill mode.
    pub open spec fn refilling(self, surface: SurfaceId, fill: FillMode) -> LayoutModel {
        if self.in_transit.is_some() && self.in_transit.unwrap().window.id() == surface {
            let t = self.in_transit.unwrap();
            LayoutModel {
                in_transit: Some(InTransit { window: Window { fill, ..t.window }, ..t }),
                ..self
            }.reflowed()
        } else {
            match self.pane(Probe::Held(surface)) {
                None => self,
                Some(i) => {
                    let p = self.outputs[i];
                    let k = p.home(surface);
                    self.with_pane(
                        i,
                        p.with_workspace(k, p.workspaces[k].refilling(surface, fill)),
                    ).reflowed()
                },
            }
        }
    }

    /// A window takes a fill mode, or gives it up if it has it.
    pub open spec fn toggling_fill(self, surface: SurfaceId, fill: FillMode) -> LayoutModel {
        match self.window_of(surface) {
            None => self,
            Some(w) => self.refilling(
                surface,
                if w.fill == fill {
                    FillMode::Normal
                } else {
                    fill
                },
            ),
        }
    }

    /// The fullscreen window on show on an output.
    pub open spec fn fullscreen_on(self, name: Seq<char>) -> Option<Window> {
        match self.pane(Probe::Named(name)) {
            None => None,
            Some(i) => self.outputs[i].current().fullscreen(),
        }
    }

    /// An output shows another of its workspaces; the second part says whether
    /// it does. The list grows by one at most.
    pub open spec fn switching(self, i: int, to: int, timing: SlideTiming) -> (
        LayoutModel,
        bool,
    ) {
        let dst = smaller(to, self.outputs[i].furthest());
        if dst == self.outputs[i].active {
            (self, false)
        } else {
            let p = self.outputs[i].reaching(dst);
            (
                self.with_pane(
                    i,
                    PaneModel {
                        active: dst,
                        transition: slide_after(
                            p,
                            dst - p.active,
                            timing,
                            self.deco,
                            self.mode,
                        ),
                        ..p
                    },
                ).tidying(i).reflowed(),
                true,
            )
        }
    }

    /// A window on show moves to another workspace of its output, which
    /// becomes the active one.
    pub open spec fn relocating(self, surface: SurfaceId, i: int, to: int) -> (LayoutModel, bool) {
        let dst = smaller(to, self.outputs[i].workspaces.len() as int);
        let p = self.outputs[i].reaching(dst);
        if dst == p.active {
            (self.with_pane(i, p), false)
        } else {
            (
                self.with_pane(i, p.carrying_over(surface, dst, self.gaps)).tidying(i).reflowed(),
                true,
            )
        }
    }

    /// The window of a surface that is on show moves to another workspace.
    pub open spec fn sending(self, surface: SurfaceId, to: int) -> (LayoutModel, bool) {
        match self.pane(Probe::Shown(surface)) {
            None => (self, false),
            Some(i) => self.relocating(surface, i, to),
        }
    }
}

impl LayoutModel {
    /// A client drew a floating window in another size than its cell has; the
    /// cell follows, up to the output's size. The second part says whether it
    /// changed.
    pub open spec fn reconciling(self, surface: SurfaceId, content: Size) -> (LayoutModel, bool) {
        match self.pane(Probe::Floating(surface)) {
            Some(i) if content.is_positive() => {
                let p = self.outputs[i];
                let w = p.current().float(surface);
                let grown = self.deco_of(w).outer(content);
                let cell = Size {
                    w: smaller(grown.w as int, larger(p.full.size.w as int, 1)) as i32,
                    h: smaller(grown.h as int, larger(p.full.size.h as int, 1)) as i32,
                };
                if w.fill != FillMode::Normal || !(w.toplevel is Xdg) || w.rect.size == cell {
                    (self, false)
                } else {
                    (
                        self.with_current(
                            i,
                            p.current().refloating(
                                surface,
                                Window { rect: Rect { loc: w.rect.loc, size: cell }, ..w },
                            ),
                        ),
                        true,
                    )
                }
            },
            _ => (self, false),
        }
    }

    /// The role of a window that is not in transit.
    pub open spec fn role_of(self, surface: SurfaceId) -> Option<WindowSurface> {
        match self.pane(Probe::Held(surface)) {
            None => None,
            Some(i) => {
                let ws = self.outputs[i].workspaces[self.outputs[i].home(surface)];
                Some(
                    if ws.tiles(surface) {
                        ws.tile(surface).toplevel
                    } else {
                        ws.float(surface).toplevel
                    },
                )
            },
        }
    }

    /// A client is told its size once more.
    pub open spec fn reminding(self, surface: SurfaceId) -> (LayoutModel, bool) {
        match self.pane(Probe::Held(surface)) {
            None => (self, false),
            Some(i) => {
                let p = self.outputs[i];
                let ws = p.workspaces[p.home(surface)];
                (
                    self.telling(
                        if ws.tiles(surface) {
                            tile_configure(
                                ws.tile(surface),
                                self.deco_of(ws.tile(surface)),
                                p.area(),
                            )
                        } else {
                            self.float_message(ws.float(surface), p.area())
                        },
                    ),
                    true,
                )
            },
        }
    }

    /// Whether a workspace that is not on show has a window of the surface.
    pub open spec fn hides(self, surface: SurfaceId) -> bool {
        exists|i: int, k: int|
            0 <= i < self.outputs.len() && 0 <= k < self.outputs[i].workspaces.len() && k
                != self.outputs[i].active && (#[trigger] self.outputs[i].workspaces[k]).shows(
                surface,
            )
    }

    /// Slides that have run their time end. Without durations slides are
    /// switched off, and all of them end.
    pub open spec fn ticking(self, now: u64, durations: Option<Seq<u64>>) -> LayoutModel {
        LayoutModel {
            outputs: Seq::new(
                self.outputs.len(),
                |i: int| ticked(self.outputs[i], now, duration_at(durations, i)),
            ),
            ..self
        }
    }

    /// An output shows a workspace further along its list.
    pub open spec fn switching_by(self, i: int, delta: int, timing: SlideTiming) -> (
        LayoutModel,
        bool,
    ) {
        if self.outputs[i].active + delta < 0 {
            (self, false)
        } else {
            self.switching(i, self.outputs[i].active + delta, timing)
        }
    }
}

/// How long the slide of an output takes; nothing where slides are off.
pub open spec fn duration_at(durations: Option<Seq<u64>>, i: int) -> u64 {
    match durations {
        None => 0,
        Some(d) => if 0 <= i < d.len() {
            d[i]
        } else {
            0
        },
    }
}

/// An output whose slide has ended if it has run its time.
pub open spec fn ticked(p: PaneModel, now: u64, duration: u64) -> PaneModel {
    match p.transition {
        Some(t) if slide_is_over(t.started, now, duration) => PaneModel { transition: None, ..p },
        _ => p,
    }
}

/// A line of the workspace list.
#[verifier::ext_equal]
pub struct WorkspaceLine {
    pub output: Seq<char>,
    pub index: int,
    pub active: bool,
    pub windows: int,
}

/// A line of the window list.
#[verifier::ext_equal]
pub struct WindowLine {
    pub surface: SurfaceId,
    pub rect: Rect,
    pub fill: FillMode,
    pub floating: bool,
    pub output: Seq<char>,
    pub workspace: int,
}

/// The workspaces of the first `n` outputs.
pub open spec fn workspace_lines(panes: Seq<PaneModel>, n: int) -> Seq<WorkspaceLine>
    decreases n,
{
    if n <= 0 {
        Seq::empty()
    } else {
        let p = panes[n - 1];
        workspace_lines(panes, n - 1) + Seq::new(
            p.workspaces.len(),
            |k: int|
                WorkspaceLine {
                    output: p.name,
                    index: k,
                    active: k == p.active,
                    windows: p.workspaces[k].windows().len() as int,
                },
        )
    }
}

/// The windows of one workspace.
pub open spec fn lines_of(p: PaneModel, k: int) -> Seq<WindowLine> {
    let ws = p.workspaces[k];
    Seq::new(
        ws.windows().len(),
        |i: int|
            WindowLine {
                surface: ws.windows()[i].id(),
                rect: ws.windows()[i].rect,
                fill: ws.windows()[i].fill,
                floating: i >= tree_windows(ws.tree).len(),
                output: p.name,
                workspace: k,
            },
    )
}

/// The windows of the first `n` workspaces of an output.
pub open spec fn pane_lines(p: PaneModel, n: int) -> Seq<WindowLine>
    decreases n,
{
    if n <= 0 {
        Seq::empty()
    } else {
        pane_lines(p, n - 1) + lines_of(p, n - 1)
    }
}

/// The windows of the first `n` outputs.
pub open spec fn window_lines(panes: Seq<PaneModel>, n: int) -> Seq<WindowLine>
    decreases n,
{
    if n <= 0 {
        Seq::empty()
    } else {
        window_lines(panes, n - 1) + pane_lines(
            panes[n - 1],
            panes[n - 1].workspaces.len() as int,
        )
    }
}

impl ClientFacts {
    /// The least and the greatest content size, zero where not limited.
    pub fn size_hints(&self) -> (r: (Size, Size))
        ensures
            r == self.hints(),
    {
        match *self {
            ClientFacts::Xdg { has_parent: _, declared_dialog: _, min, max, geometry: _ } => (
                min,
                max,
            ),
            ClientFacts::X11 {
                transient: _,
                dialog_type: _,
                modal: _,
                least,
                greatest,
                configured: _,
            } => (
                match least {
                    Some(s) => s,
                    None => Size { w: 0, h: 0 },
                },
                match greatest {
                    Some(s) => s,
                    None => Size { w: 0, h: 0 },
                },
            ),
        }
    }

    fn is_fixed(&self) -> (r: bool)
        ensures
            r == self.fixed(),
    {
        match *self {
            ClientFacts::Xdg { has_parent: _, declared_dialog: _, min, max, geometry: _ } => min.w
                > 0 && min.h > 0 && min == max,
            ClientFacts::X11 {
                transient: _,
                dialog_type: _,
                modal: _,
                least,
                greatest,
                configured: _,
            } => match (least, greatest) {
                (Some(a), Some(b)) => a == b,
                _ => false,
            },
        }
    }
}

/// The content size that a dialog has chosen, zero by zero if it has none;
/// `None` for a window that is no dialog.
pub fn dialog_size(facts: &ClientFacts) -> (r: Option<Size>)
    ensures
        r == facts.dialog_size(),
{
    let fixed = facts.is_fixed();
    let (min, _) = facts.size_hints();
    let (declared, own) = match *facts {
        ClientFacts::Xdg { has_parent, declared_dialog, min: _, max: _, geometry } => (
            declared_dialog || has_parent,
            geometry,
        ),
        ClientFacts::X11 {
            transient,
            dialog_type,
            modal,
            least: _,
            greatest: _,
            configured,
        } => (transient || dialog_type || modal, Some(configured)),
    };
    if !declared && !fixed {
        return None;
    }
    if let Some(s) = own {
        if s.w > 0 && s.h > 0 {
            return Some(s);
        }
    }
    if fixed {
        Some(min)
    } else {
        Some(Size { w: 0, h: 0 })
    }
}

/// The least and the greatest cell of a window whose client has declared the
/// given content sizes.
pub fn window_limits(deco: Deco, facts: &ClientFacts) -> (r: (Size, Size))
    ensures
        r == cell_limits(deco, facts.hints().0, facts.hints().1),
{
    let (min, max) = facts.size_hints();
    let lo = deco.cell_size_for(min);
    let hi = deco.cell_size_for(max);
    (
        Size {
            w: if min.w > 0 {
                lo.w
            } else {
                0
            },
            h: if min.h > 0 {
                lo.h
            } else {
                0
            },
        },
        Size {
            w: if max.w > 0 {
                hi.w
            } else {
                2147483647
            },
            h: if max.h > 0 {
                hi.h
            } else {
                2147483647
            },
        },
    )
}

fn side_to_float(tile: i32, least: i32, greatest: i32, work: i32) -> (r: i32)
    ensures
        r == float_side(tile as int, least as int, greatest as int, work as int),
{
    let wide: i64 = tile as i64;
    let shrunk: i32 = if wide >= 0 {
        (wide * 7 / 10) as i32
    } else {
        (-((-wide) * 7 / 10)) as i32
    };
    min32(max32(min32(shrunk, greatest), least), work)
}

fn centred(at: i32, outer: i32, inner: i32) -> (r: i32)
    ensures
        r == clipped(at + half(outer - inner)),
{
    let d: i64 = outer as i64 - inner as i64;
    let h: i64 = if d >= 0 {
        d / 2
    } else {
        -((-d) / 2)
    };
    clip(at as i64 + h)
}

/// The rectangle a tile gets when it is made to float.
pub fn rect_to_float(tile: Rect, limits: (Size, Size), work: Rect) -> (r: Rect)
    ensures
        r == float_rect(tile, limits, work),
{
    let w: i32 = side_to_float(tile.size.w, limits.0.w, limits.1.w, work.size.w);
    let h: i32 = side_to_float(tile.size.h, limits.0.h, limits.1.h, work.size.h);
    Rect {
        loc: Point {
            x: max32(centred(tile.loc.x, tile.size.w, w), work.loc.x),
            y: max32(centred(tile.loc.y, tile.size.h, h), work.loc.y),
        },
        size: Size { w, h },
    }
}

fn side_of_dialog(wish: i32, cell: i32, least: i32, greatest: i32, work: i32) -> (r: i32)
    ensures
        r == dialog_side(wish as int, cell as int, least as int, greatest as int, work as int),
{
    let wide: i64 = work as i64;
    let base: i32 = if wish > 0 {
        min32(cell, work)
    } else if wide >= 0 {
        (wide / 3) as i32
    } else {
        (-((-wide) / 3)) as i32
    };
    max32(min32(base, greatest), least)
}

/// The rectangle a dialog gets, in the middle of the work area.
pub fn rect_for_dialog(wish: Size, deco: Deco, limits: (Size, Size), work: Rect) -> (r: Rect)
    ensures
        r == dialog_rect(wish, deco, limits, work),
{
    let cell = deco.cell_size_for(wish);
    let w: i32 = side_of_dialog(wish.w, cell.w, limits.0.w, limits.1.w, work.size.w);
    let h: i32 = side_of_dialog(wish.h, cell.h, limits.0.h, limits.1.h, work.size.h);
    Rect {
        loc: Point {
            x: centred(work.loc.x, work.size.w, w),
            y: centred(work.loc.y, work.size.h, h),
        },
        size: Size { w, h },
    }
}

/// A floated tile never covers more than the work area, and never starts left
/// of it or above it.
pub proof fn floated_tiles_fit_the_work_area(tile: Rect, limits: (Size, Size), work: Rect)
    ensures
        float_rect(tile, limits, work).size.w <= work.size.w,
        float_rect(tile, limits, work).size.h <= work.size.h,
        float_rect(tile, limits, work).loc.x >= work.loc.x,
        float_rect(tile, limits, work).loc.y >= work.loc.y,
{
}

/// A dialog is never smaller than its client allows, and never larger either
/// where the two limits agree with each other.
pub proof fn dialogs_respect_their_limits(
    wish: Size,
    deco: Deco,
    limits: (Size, Size),
    work: Rect,
)
    requires
        limits.0.w <= limits.1.w,
        limits.0.h <= limits.1.h,
    ensures
        limits.0.w <= dialog_rect(wish, deco, limits, work).size.w <= limits.1.w,
        limits.0.h <= dialog_rect(wish, deco, limits, work).size.h <= limits.1.h,
{
}

} // verus!
