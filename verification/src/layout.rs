//! The layout of the desktop: outputs, workspaces, tiles and floating windows.
//!
//! Each operation that changes what clients should look like puts the
//! configures they are owed in an outbox, which the event loop empties with
//! [`Layout::take_configures`].

use vstd::prelude::*;

use crate::desktop::{
    as_placement, duration_at, first_fullscreen, kept, last_filled, lines_of, pane_from,
    pane_lines, panes_configures, panes_placements, rect_for_dialog, rect_to_float,
    slide_action, slide_is_young, some_output_measures, ticked, tile_configures, tiling_all,
    topmost_at, tree_windows, window_limits, window_lines, without, workspace_from,
    workspace_lines, workspaces_configures, workspaces_windows, ClientFacts, DragSource, Gaps,
    InTransit, LayoutModel, PaneModel, Placement, Probe, SlideAction, SlideModel, SlideOffsets,
    SlideTiming, WindowLine, WorkspaceLine, WorkspaceModel,
};
use crate::geometry::{max32, min32, Point, Rect, Size};
use crate::tree::{
    assign_rects, collect_windows, find_from, insert_at_cursor, leaf_at, leaf_ref, leaves,
    position_of, refill_leaf, remove_from_tree, resize_leaf, shrink_for_outer, tree_contains,
    tree_search_agrees_with_leaves, Node, ResizeEdges,
};
use crate::window::{
    deco_for_fill, push_configure_for_floating, push_configure_for_tile, Configure, Deco,
    FillMode, LayoutMode, OutputArea, SurfaceId, Window, WindowSurface,
};

verus! {

/// An index as a mathematical integer.
pub open spec fn as_int(i: Option<usize>) -> Option<int> {
    match i {
        None => None,
        Some(i) => Some(i as int),
    }
}

fn same_surface(focused: Option<SurfaceId>, surface: SurfaceId) -> (r: bool)
    ensures
        r == (focused == Some(surface)),
{
    match focused {
        None => false,
        Some(f) => f == surface,
    }
}

fn position(ws: &Vec<Window>, surface: SurfaceId) -> (r: Option<usize>)
    ensures
        as_int(r) == position_of(ws@, surface),
        r.is_some() ==> r.unwrap() < ws@.len(),
{
    let mut i: usize = 0;
    while i < ws.len()
        invariant
            i <= ws@.len(),
            position_of(ws@, surface) == find_from(ws@, surface, i as int),
        decreases ws@.len() - i,
    {
        if ws[i].toplevel.wl_surface() == surface {
            return Some(i);
        }
        i += 1;
    }
    None
}

fn find_fullscreen(ws: &Vec<Window>) -> (r: Option<Window>)
    ensures
        r == first_fullscreen(ws@, 0),
{
    let mut i: usize = 0;
    while i < ws.len()
        invariant
            i <= ws@.len(),
            first_fullscreen(ws@, 0) == first_fullscreen(ws@, i as int),
        decreases ws@.len() - i,
    {
        if ws[i].fill == FillMode::Fullscreen {
            return Some(ws[i]);
        }
        i += 1;
    }
    None
}

fn find_last_filled(ws: &Vec<Window>, fill: FillMode) -> (r: Option<Window>)
    ensures
        r == last_filled(ws@, fill, ws@.len() as int),
{
    let mut n: usize = ws.len();
    while n > 0
        invariant
            n <= ws@.len(),
            last_filled(ws@, fill, ws@.len() as int) == last_filled(ws@, fill, n as int),
        decreases n,
    {
        if ws[n - 1].fill == fill {
            return Some(ws[n - 1]);
        }
        n -= 1;
    }
    None
}

fn find_topmost(ws: &Vec<Window>, pos: Point) -> (r: Option<Window>)
    ensures
        r == topmost_at(ws@, pos, ws@.len() as int),
{
    let mut n: usize = ws.len();
    while n > 0
        invariant
            n <= ws@.len(),
            topmost_at(ws@, pos, ws@.len() as int) == topmost_at(ws@, pos, n as int),
        decreases n,
    {
        if ws[n - 1].rect.contains(pos) {
            return Some(ws[n - 1]);
        }
        n -= 1;
    }
    None
}

fn push_tiles(
    ws: &Vec<Window>,
    area: OutputArea,
    deco: Deco,
    mode: LayoutMode,
    out: &mut Vec<Configure>,
)
    ensures
        final(out)@ == old(out)@ + tile_configures(ws@, area, deco, mode),
{
    let mut i: usize = 0;
    while i < ws.len()
        invariant
            i <= ws@.len(),
            out@ =~= old(out)@ + tile_configures(ws@, area, deco, mode).take(i as int),
        decreases ws@.len() - i,
    {
        let w = ws[i];
        out.push(push_configure_for_tile(&w, deco_for_fill(deco, mode, w.fill), area));
        i += 1;
    }
}

/// A workspace: its tiles and its floating windows, lowest first.
struct Workspace {
    tree: Option<Node>,
    floating: Vec<Window>,
}

impl View for Workspace {
    type V = WorkspaceModel;

    closed spec fn view(&self) -> WorkspaceModel {
        WorkspaceModel { tree: self.tree, floating: self.floating@ }
    }
}

impl Workspace {
    fn blank() -> (r: Workspace)
        ensures
            r@ == WorkspaceModel::blank(),
    {
        Workspace { tree: None, floating: Vec::new() }
    }

    fn is_empty(&self) -> (r: bool)
        ensures
            r == self@.is_empty(),
    {
        self.tree.is_none() && self.floating.len() == 0
    }

    fn tiles(&self, surface: SurfaceId) -> (r: bool)
        ensures
            r == self@.tiles(surface),
    {
        match &self.tree {
            None => false,
            Some(t) => tree_contains(t, surface),
        }
    }

    fn floats(&self, surface: SurfaceId) -> (r: bool)
        ensures
            r == self@.floats(surface),
    {
        position(&self.floating, surface).is_some()
    }

    fn shows(&self, surface: SurfaceId) -> (r: bool)
        ensures
            r == self@.shows(surface),
    {
        self.tiles(surface) || self.floats(surface)
    }

    fn tile(&self, surface: SurfaceId) -> (r: Window)
        requires
            self@.tiles(surface),
        ensures
            r == self@.tile(surface),
    {
        proof {
            tree_search_agrees_with_leaves(self.tree.unwrap(), surface);
        }
        leaf_ref(self.tree.as_ref().unwrap(), surface).unwrap()
    }

    fn float(&self, surface: SurfaceId) -> (r: Window)
        requires
            self@.floats(surface),
        ensures
            r == self@.float(surface),
    {
        let i: usize = position(&self.floating, surface).unwrap();
        self.floating[i]
    }

    fn tiled_windows(&self) -> (r: Vec<Window>)
        ensures
            r@ == tree_windows(self@.tree),
    {
        let mut out: Vec<Window> = Vec::new();
        if let Some(t) = &self.tree {
            collect_windows(t, &mut out);
            assert(out@ =~= leaves(*t));
        }
        out
    }

    fn windows(&self) -> (r: Vec<Window>)
        ensures
            r@ == self@.windows(),
    {
        let mut out = self.tiled_windows();
        let mut i: usize = 0;
        while i < self.floating.len()
            invariant
                i <= self.floating@.len(),
                out@ =~= tree_windows(self@.tree) + self@.floating.take(i as int),
            decreases self.floating@.len() - i,
        {
            out.push(self.floating[i]);
            i += 1;
        }
        assert(out@ =~= self@.windows());
        out
    }

    fn add_tile(&mut self, w: Window, bounds: Rect, cursor: Option<Point>, inner: i32)
        ensures
            final(self)@ == old(self)@.tiling(w, bounds, cursor, inner as int),
    {
        let tree = self.tree.take();
        self.tree = Some(
            match tree {
                None => Node::Leaf(w),
                Some(root) => insert_at_cursor(root, w, bounds, cursor, inner),
            },
        );
    }

    fn take_tile(&mut self, surface: SurfaceId) -> (r: Window)
        requires
            old(self)@.tiles(surface),
        ensures
            r == old(self)@.tile(surface),
            final(self)@ == old(self)@.untiling(surface),
    {
        let tree = self.tree.take().unwrap();
        let (rest, w) = remove_from_tree(tree, surface);
        self.tree = rest;
        w.unwrap()
    }

    fn add_float(&mut self, w: Window)
        ensures
            final(self)@ == old(self)@.floating_on_top(w),
    {
        self.floating.push(w);
    }

    fn take_float(&mut self, surface: SurfaceId) -> (r: Window)
        requires
            old(self)@.floats(surface),
        ensures
            r == old(self)@.float(surface),
            final(self)@ == old(self)@.unfloating(surface),
    {
        let i: usize = position(&self.floating, surface).unwrap();
        self.floating.remove(i)
    }

    fn set_float(&mut self, surface: SurfaceId, w: Window)
        requires
            old(self)@.floats(surface),
        ensures
            final(self)@ == old(self)@.refloating(surface, w),
    {
        let i: usize = position(&self.floating, surface).unwrap();
        self.floating.set(i, w);
    }

    fn drop_surface(&mut self, surface: SurfaceId)
        requires
            old(self)@.shows(surface),
        ensures
            final(self)@ == old(self)@.dropping(surface),
    {
        if self.tiles(surface) {
            self.take_tile(surface);
            return;
        }
        let mut left: Vec<Window> = Vec::new();
        let mut i: usize = 0;
        while i < self.floating.len()
            invariant
                *self == *old(self),
                i <= self.floating@.len(),
                left@ == without(self.floating@.take(i as int), surface),
            decreases self.floating@.len() - i,
        {
            assert(self.floating@.take(i + 1).drop_last() =~= self.floating@.take(i as int));
            if self.floating[i].toplevel.wl_surface() != surface {
                left.push(self.floating[i]);
            }
            i += 1;
        }
        assert(self.floating@.take(i as int) =~= self.floating@);
        self.floating = left;
    }

    fn refill(&mut self, surface: SurfaceId, fill: FillMode)
        requires
            old(self)@.shows(surface),
        ensures
            final(self)@ == old(self)@.refilling(surface, fill),
    {
        if self.floats(surface) {
            let w = self.float(surface);
            self.set_float(surface, Window { toplevel: w.toplevel, rect: w.rect, fill });
        } else {
            let tree = self.tree.take().unwrap();
            self.tree = Some(refill_leaf(tree, surface, fill));
        }
    }

    fn resize(
        &mut self,
        surface: SurfaceId,
        target: Rect,
        edges: ResizeEdges,
        bounds: Rect,
        inner: i32,
    )
        requires
            old(self)@.tiles(surface),
        ensures
            final(self)@ == old(self)@.resizing(surface, target, edges, bounds, inner as int),
    {
        let tree = self.tree.take().unwrap();
        let done = resize_leaf(tree, bounds, inner, surface, target, edges, false, false);
        self.tree = Some(assign_rects(done.node, bounds, inner));
    }

    fn lay_out(&mut self, bounds: Rect, inner: i32)
        ensures
            final(self)@ == old(self)@.laid_out(bounds, inner as int),
    {
        let tree = self.tree.take();
        self.tree = match tree {
            None => None,
            Some(t) => Some(assign_rects(t, bounds, inner)),
        };
    }

    fn push_configures(
        &self,
        area: OutputArea,
        deco: Deco,
        mode: LayoutMode,
        out: &mut Vec<Configure>,
    )
        ensures
            final(out)@ == old(out)@ + self@.configures(area, deco, mode),
    {
        let tiles = self.tiled_windows();
        push_tiles(&tiles, area, deco, mode, out);
        let ghost all = self@.configures(area, deco, mode);
        let ghost n = tiles@.len() as int;
        assert(out@ =~= old(out)@ + all.take(n));
        let mut i: usize = 0;
        while i < self.floating.len()
            invariant
                i <= self.floating@.len(),
                all == self@.configures(area, deco, mode),
                n == tree_windows(self@.tree).len(),
                out@ =~= old(out)@ + all.take(n + i),
            decreases self.floating@.len() - i,
        {
            let w = self.floating[i];
            out.push(push_configure_for_floating(&w, deco_for_fill(deco, mode, w.fill), area));
            i += 1;
        }
        assert(all.take(n + i) =~= all);
    }

    fn collect(
        &self,
        focused: Option<SurfaceId>,
        area: OutputArea,
        deco: Deco,
        mode: LayoutMode,
    ) -> (r: Vec<Placement>)
        ensures
            r@ == self@.placements(focused, area, deco, mode),
    {
        let tiles: usize = self.tiled_windows().len();
        let ws = self.windows();
        let mut out: Vec<Placement> = Vec::new();
        let ghost all = self@.placements(focused, area, deco, mode);
        let mut i: usize = 0;
        while i < ws.len()
            invariant
                i <= ws@.len(),
                ws@ == self@.windows(),
                tiles == tree_windows(self@.tree).len(),
                all == self@.placements(focused, area, deco, mode),
                out@ =~= all.take(i as int),
            decreases ws@.len() - i,
        {
            let w = ws[i];
            out.push(as_placement(w, i >= tiles, focused, area, deco, mode));
            i += 1;
        }
        assert(out@ =~= all);
        out
    }

    fn fullscreen(&self) -> (r: Option<Window>)
        ensures
            r == self@.fullscreen(),
    {
        match find_fullscreen(&self.floating) {
            Some(w) => Some(w),
            None => find_fullscreen(&self.tiled_windows()),
        }
    }

    fn window_at(&self, pos: Point, area: OutputArea) -> (r: Option<(Window, Rect)>)
        ensures
            r == self@.window_at(pos, area),
    {
        let ws = self.windows();
        if let Some(w) = find_last_filled(&ws, FillMode::Fullscreen) {
            return Some((w, area.full));
        }
        if let Some(w) = find_last_filled(&ws, FillMode::Maximized) {
            return Some((w, area.work));
        }
        if let Some(w) = find_topmost(&self.floating, pos) {
            return Some((w, w.rect));
        }
        match &self.tree {
            None => None,
            Some(t) => match leaf_at(t, pos) {
                None => None,
                Some(w) => Some((w, w.rect)),
            },
        }
    }
}

/// A workspace slide that is running.
struct WsTransition {
    from: Vec<Placement>,
    dir: i32,
    started: u64,
    steps: i32,
}

impl View for WsTransition {
    type V = SlideModel;

    closed spec fn view(&self) -> SlideModel {
        SlideModel { from: self.from@, dir: self.dir, started: self.started, steps: self.steps }
    }
}

spec fn slide_model(t: Option<WsTransition>) -> Option<SlideModel> {
    match t {
        None => None,
        Some(t) => Some(t@),
    }
}

fn is_young(started: u64, timing: SlideTiming) -> (r: bool)
    ensures
        r == slide_is_young(started, timing),
{
    match timing.duration {
        None => false,
        Some(d) => {
            let elapsed: u64 = if timing.now >= started {
                timing.now - started
            } else {
                0
            };
            2 * (elapsed as u128) < d as u128
        },
    }
}

/// One output: its two rectangles, its workspaces and its slide.
struct Outpane {
    name: String,
    full: Rect,
    bounds: Rect,
    workspaces: Vec<Workspace>,
    active: usize,
    transition: Option<WsTransition>,
}

spec fn models(ws: Seq<Workspace>) -> Seq<WorkspaceModel> {
    Seq::new(ws.len(), |i: int| ws[i]@)
}

broadcast proof fn models_update(ws: Seq<Workspace>, i: int, w: Workspace)
    requires
        0 <= i < ws.len(),
    ensures
        #[trigger] models(ws.update(i, w)) == models(ws).update(i, w@),
{
    assert(models(ws.update(i, w)) =~= models(ws).update(i, w@));
}

broadcast proof fn models_push(ws: Seq<Workspace>, w: Workspace)
    ensures
        #[trigger] models(ws.push(w)) == models(ws).push(w@),
{
    assert(models(ws.push(w)) =~= models(ws).push(w@));
}

impl View for Outpane {
    type V = PaneModel;

    closed spec fn view(&self) -> PaneModel {
        PaneModel {
            name: self.name@,
            full: self.full,
            bounds: self.bounds,
            workspaces: models(self.workspaces@),
            active: self.active as int,
            transition: slide_model(self.transition),
        }
    }
}

/// A property by which an output is looked up.
enum Query {
    At(Point),
    Named(String),
    Tiled(SurfaceId),
    PlainTile(SurfaceId),
    Floating(SurfaceId),
    Shown(SurfaceId),
    Held(SurfaceId),
}

impl View for Query {
    type V = Probe;

    closed spec fn view(&self) -> Probe {
        match *self {
            Query::At(p) => Probe::At(p),
            Query::Named(n) => Probe::Named(n@),
            Query::Tiled(s) => Probe::Tiled(s),
            Query::PlainTile(s) => Probe::PlainTile(s),
            Query::Floating(s) => Probe::Floating(s),
            Query::Shown(s) => Probe::Shown(s),
            Query::Held(s) => Probe::Held(s),
        }
    }
}

impl Outpane {
    fn new(name: String, bounds: Rect) -> (r: Outpane)
        ensures
            r@ == PaneModel::fresh(name@, bounds),
    {
        let mut workspaces: Vec<Workspace> = Vec::new();
        workspaces.push(Workspace::blank());
        assert(models(workspaces@) =~= seq![WorkspaceModel::blank()]);
        Outpane { name, full: bounds, bounds, workspaces, active: 0, transition: None }
    }

    fn area(&self) -> (r: OutputArea)
        ensures
            r == self@.area(),
    {
        OutputArea { full: self.full, work: self.bounds }
    }

    fn current(&self) -> (r: &Workspace)
        requires
            self@.valid(),
        ensures
            r@ == self@.current(),
    {
        &self.workspaces[self.active]
    }

    fn home(&self, surface: SurfaceId) -> (r: Option<usize>)
        ensures
            as_int(r) == workspace_from(self@.workspaces, surface, 0),
            r.is_some() ==> r.unwrap() < self@.workspaces.len() && self@.workspaces[r.unwrap()
                as int].shows(surface),
    {
        let mut i: usize = 0;
        while i < self.workspaces.len()
            invariant
                i <= self.workspaces@.len(),
                workspace_from(self@.workspaces, surface, 0) == workspace_from(
                    self@.workspaces,
                    surface,
                    i as int,
                ),
            decreases self.workspaces@.len() - i,
        {
            if self.workspaces[i].shows(surface) {
                return Some(i);
            }
            i += 1;
        }
        None
    }

    fn meets(&self, q: &Query) -> (r: bool)
        requires
            self@.valid(),
        ensures
            r == self@.meets(q@),
    {
        match q {
            Query::At(p) => self.full.contains(*p),
            Query::Named(n) => self.name == *n,
            Query::Tiled(s) => self.current().tiles(*s),
            Query::PlainTile(s) => self.current().tiles(*s) && self.current().tile(*s).fill
                == FillMode::Normal,
            Query::Floating(s) => self.current().floats(*s),
            Query::Shown(s) => self.current().shows(*s),
            Query::Held(s) => self.home(*s).is_some(),
        }
    }

    fn normalize(&mut self)
        requires
            old(self)@.valid(),
        ensures
            final(self)@ == old(self)@.tidied(),
            final(self)@.valid(),
    {
        let ghost all = self@.workspaces;
        let ghost start = self.workspaces@;
        let active: usize = self.active;
        let count: usize = self.workspaces.len();
        let mut rest: Vec<Workspace> = Vec::new();
        std::mem::swap(&mut rest, &mut self.workspaces);
        let mut left: Vec<Workspace> = Vec::new();
        let mut new_active: usize = 0;
        let mut i: usize = 0;
        while i < count
            invariant
                i <= count,
                active < count,
                all == models(start),
                all.len() == count,
                rest@ =~= start.subrange(i as int, count as int),
                models(left@) =~= kept(all, active as int, i as int),
                i > active ==> new_active == kept(all, active as int, active as int).len()
                    && new_active < left@.len(),
            decreases count - i,
        {
            let ws = rest.remove(0);
            assert(ws@ == all[i as int]);
            if i == active {
                new_active = left.len();
                left.push(ws);
            } else if !ws.is_empty() {
                left.push(ws);
            }
            i += 1;
        }
        let n: usize = left.len();
        let ends_empty = left[n - 1].is_empty();
        if !ends_empty {
            left.push(Workspace::blank());
        }
        self.workspaces = left;
        self.active = new_active;
    }

    fn lay_out(&mut self, gaps: Gaps)
        ensures
            final(self)@ == old(self)@.laid_out(gaps),
    {
        let bounds = shrink_for_outer(self.bounds, gaps.outer);
        let ghost want = self@.laid_out(gaps).workspaces;
        let mut i: usize = 0;
        while i < self.workspaces.len()
            invariant
                i <= self.workspaces@.len(),
                bounds == crate::tree::inside_gap(old(self)@.bounds, gaps.outer as int),
                want == old(self)@.laid_out(gaps).workspaces,
                self@ =~= (PaneModel { workspaces: self@.workspaces, ..old(self)@ }),
                self@.workspaces.len() == old(self)@.workspaces.len(),
                forall|k: int| 0 <= k < i ==> (#[trigger] self@.workspaces[k]) == want[k],
                forall|k: int|
                    i <= k < self@.workspaces.len() ==> (#[trigger] self@.workspaces[k])
                        == old(self)@.workspaces[k],
            decreases self.workspaces@.len() - i,
        {
            broadcast use models_update;

            assert(want[i as int] == old(self)@.workspaces[i as int].laid_out(
                bounds,
                gaps.inner as int,
            ));
            let ghost before = self.workspaces@;
            assert(models(before)[i as int] == old(self)@.workspaces[i as int]);
            self.workspaces[i].lay_out(bounds, gaps.inner);
            assert(self.workspaces@ =~= before.update(i as int, self.workspaces@[i as int]));
            assert(self.workspaces@[i as int]@ == want[i as int]);
            i += 1;
        }
        assert(self@.workspaces =~= want);
    }

    fn push_configures(&self, deco: Deco, mode: LayoutMode, out: &mut Vec<Configure>)
        ensures
            final(out)@ == old(out)@ + self@.configures(deco, mode),
    {
        let area = self.area();
        let mut i: usize = 0;
        while i < self.workspaces.len()
            invariant
                i <= self.workspaces@.len(),
                area == self@.area(),
                out@ =~= old(out)@ + workspaces_configures(
                    self@.workspaces,
                    area,
                    deco,
                    mode,
                    i as int,
                ),
            decreases self.workspaces@.len() - i,
        {
            self.workspaces[i].push_configures(area, deco, mode, out);
            i += 1;
        }
    }

    fn collect(
        &self,
        focused: Option<SurfaceId>,
        slide: Option<SlideOffsets>,
        deco: Deco,
        mode: LayoutMode,
        out: &mut Vec<Placement>,
    )
        requires
            self@.valid(),
        ensures
            final(out)@ == old(out)@ + self@.placements(focused, slide, deco, mode),
    {
        let here = self.current().collect(focused, self.area(), deco, mode);
        let ghost all = self@.placements(focused, slide, deco, mode);
        let mut shown: Option<Point> = None;
        if let Some(o) = slide {
            if let Some(t) = &self.transition {
                shown = Some(o.to);
                let mut i: usize = 0;
                while i < t.from.len()
                    invariant
                        i <= t.from@.len(),
                        all.len() >= t.from@.len(),
                        forall|k: int|
                            0 <= k < t.from@.len() ==> (#[trigger] all[k]) == (Placement {
                                slide: o.from,
                                focused: false,
                                ..t.from@[k]
                            }),
                        out@ =~= old(out)@ + all.take(i as int),
                    decreases t.from@.len() - i,
                {
                    let f = t.from[i];
                    out.push(
                        Placement {
                            surface: f.surface,
                            cell_rect: f.cell_rect,
                            focused: false,
                            fill: f.fill,
                            floating: f.floating,
                            deco: f.deco,
                            slide: o.from,
                        },
                    );
                    i += 1;
                }
            }
        }
        let ghost base = all.len() - here@.len();
        assert(out@ =~= old(out)@ + all.take(base));
        let mut j: usize = 0;
        while j < here.len()
            invariant
                j <= here@.len(),
                base + here@.len() == all.len(),
                0 <= base,
                forall|k: int|
                    0 <= k < here@.len() ==> (#[trigger] all[base + k]) == (match shown {
                        None => here@[k],
                        Some(to) => Placement { slide: to, ..here@[k] },
                    }),
                out@ =~= old(out)@ + all.take(base + j),
            decreases here@.len() - j,
        {
            let h = here[j];
            assert(all[base + j] == (match shown {
                None => h,
                Some(to) => Placement { slide: to, ..h },
            }));
            out.push(
                match shown {
                    None => h,
                    Some(to) => Placement {
                        surface: h.surface,
                        cell_rect: h.cell_rect,
                        focused: h.focused,
                        fill: h.fill,
                        floating: h.floating,
                        deco: h.deco,
                        slide: to,
                    },
                },
            );
            j += 1;
        }
        assert(all.take(base + j) =~= all);
    }

    fn furthest(&self) -> (r: usize)
        requires
            self@.valid(),
        ensures
            r == self@.furthest(),
    {
        if self.active == self.workspaces.len() - 1 && self.current().is_empty() {
            self.active
        } else {
            self.workspaces.len()
        }
    }

    fn reach(&mut self, dst: usize)
        ensures
            final(self)@ == old(self)@.reaching(dst as int),
    {
        broadcast use models_push;

        if dst >= self.workspaces.len() {
            self.workspaces.push(Workspace::blank());
        }
    }

    fn tick(&mut self, now: u64, duration: u64)
        ensures
            final(self)@ == ticked(old(self)@, now, duration),
    {
        let done = match &self.transition {
            None => false,
            Some(t) => duration == 0 || (now >= t.started && now - t.started >= duration),
        };
        if done {
            self.transition = None;
        }
    }
}

impl Outpane {
    fn tile_in(&mut self, k: usize, w: Window, cursor: Option<Point>, gaps: Gaps)
        requires
            k < old(self)@.workspaces.len(),
        ensures
            final(self)@ == old(self)@.with_workspace(
                k as int,
                old(self)@.workspaces[k as int].tiling(
                    w,
                    crate::tree::inside_gap(old(self)@.bounds, gaps.outer as int),
                    cursor,
                    gaps.inner as int,
                ),
            ),
    {
        broadcast use models_update;

        let bounds = shrink_for_outer(self.bounds, gaps.outer);
        let ghost before = self.workspaces@;
        self.workspaces[k].add_tile(w, bounds, cursor, gaps.inner);
        assert(self.workspaces@ =~= before.update(k as int, self.workspaces@[k as int]));
    }

    fn take_tile(&mut self, surface: SurfaceId) -> (r: Window)
        requires
            old(self)@.valid(),
            old(self)@.current().tiles(surface),
        ensures
            r == old(self)@.current().tile(surface),
            final(self)@ == old(self)@.with_current(old(self)@.current().untiling(surface)),
    {
        broadcast use models_update;

        let k: usize = self.active;
        let ghost before = self.workspaces@;
        let w = self.workspaces[k].take_tile(surface);
        assert(self.workspaces@ =~= before.update(k as int, self.workspaces@[k as int]));
        w
    }

    fn take_float(&mut self, surface: SurfaceId) -> (r: Window)
        requires
            old(self)@.valid(),
            old(self)@.current().floats(surface),
        ensures
            r == old(self)@.current().float(surface),
            final(self)@ == old(self)@.with_current(old(self)@.current().unfloating(surface)),
    {
        broadcast use models_update;

        let k: usize = self.active;
        let ghost before = self.workspaces@;
        let w = self.workspaces[k].take_float(surface);
        assert(self.workspaces@ =~= before.update(k as int, self.workspaces@[k as int]));
        w
    }

    fn float_in(&mut self, k: usize, w: Window)
        requires
            k < old(self)@.workspaces.len(),
        ensures
            final(self)@ == old(self)@.with_workspace(
                k as int,
                old(self)@.workspaces[k as int].floating_on_top(w),
            ),
    {
        broadcast use models_update;

        let ghost before = self.workspaces@;
        self.workspaces[k].add_float(w);
        assert(self.workspaces@ =~= before.update(k as int, self.workspaces@[k as int]));
    }

    fn set_float(&mut self, surface: SurfaceId, w: Window)
        requires
            old(self)@.valid(),
            old(self)@.current().floats(surface),
        ensures
            final(self)@ == old(self)@.with_current(old(self)@.current().refloating(surface, w)),
    {
        broadcast use models_update;

        let k: usize = self.active;
        let ghost before = self.workspaces@;
        self.workspaces[k].set_float(surface, w);
        assert(self.workspaces@ =~= before.update(k as int, self.workspaces@[k as int]));
    }

    fn drop_surface(&mut self, k: usize, surface: SurfaceId)
        requires
            k < old(self)@.workspaces.len(),
            old(self)@.workspaces[k as int].shows(surface),
        ensures
            final(self)@ == old(self)@.with_workspace(
                k as int,
                old(self)@.workspaces[k as int].dropping(surface),
            ),
    {
        broadcast use models_update;

        let ghost before = self.workspaces@;
        self.workspaces[k].drop_surface(surface);
        assert(self.workspaces@ =~= before.update(k as int, self.workspaces@[k as int]));
    }

    fn refill(&mut self, k: usize, surface: SurfaceId, fill: FillMode)
        requires
            k < old(self)@.workspaces.len(),
            old(self)@.workspaces[k as int].shows(surface),
        ensures
            final(self)@ == old(self)@.with_workspace(
                k as int,
                old(self)@.workspaces[k as int].refilling(surface, fill),
            ),
    {
        broadcast use models_update;

        let ghost before = self.workspaces@;
        self.workspaces[k].refill(surface, fill);
        assert(self.workspaces@ =~= before.update(k as int, self.workspaces@[k as int]));
    }

    fn resize(&mut self, surface: SurfaceId, target: Rect, edges: ResizeEdges, gaps: Gaps)
        requires
            old(self)@.valid(),
            old(self)@.current().tiles(surface),
        ensures
            final(self)@ == old(self)@.with_current(
                old(self)@.current().resizing(
                    surface,
                    target,
                    edges,
                    crate::tree::inside_gap(old(self)@.bounds, gaps.outer as int),
                    gaps.inner as int,
                ),
            ),
    {
        broadcast use models_update;

        let k: usize = self.active;
        let bounds = shrink_for_outer(self.bounds, gaps.outer);
        let ghost before = self.workspaces@;
        self.workspaces[k].resize(surface, target, edges, bounds, gaps.inner);
        assert(self.workspaces@ =~= before.update(k as int, self.workspaces@[k as int]));
    }

    fn windows(&self) -> (r: Vec<Window>)
        ensures
            r@ == workspaces_windows(self@.workspaces, self@.workspaces.len() as int),
    {
        let mut out: Vec<Window> = Vec::new();
        let mut i: usize = 0;
        while i < self.workspaces.len()
            invariant
                i <= self.workspaces@.len(),
                out@ =~= workspaces_windows(self@.workspaces, i as int),
            decreases self.workspaces@.len() - i,
        {
            let mut more = self.workspaces[i].windows();
            out.append(&mut more);
            i += 1;
        }
        out
    }
}

/// The layout of the desktop.
pub struct Layout {
    outputs: Vec<Outpane>,
    in_transit: Option<InTransit>,
    gaps: Gaps,
    deco: Deco,
    mode: LayoutMode,
    outbox: Vec<Configure>,
}

spec fn panes(os: Seq<Outpane>) -> Seq<PaneModel> {
    Seq::new(os.len(), |i: int| os[i]@)
}

broadcast proof fn panes_update(os: Seq<Outpane>, i: int, o: Outpane)
    requires
        0 <= i < os.len(),
    ensures
        #[trigger] panes(os.update(i, o)) == panes(os).update(i, o@),
{
    assert(panes(os.update(i, o)) =~= panes(os).update(i, o@));
}

broadcast proof fn panes_push(os: Seq<Outpane>, o: Outpane)
    ensures
        #[trigger] panes(os.push(o)) == panes(os).push(o@),
{
    assert(panes(os.push(o)) =~= panes(os).push(o@));
}

broadcast proof fn panes_remove(os: Seq<Outpane>, i: int)
    requires
        0 <= i < os.len(),
    ensures
        #[trigger] panes(os.remove(i)) == panes(os).remove(i),
{
    assert(panes(os.remove(i)) =~= panes(os).remove(i));
}

impl View for Layout {
    type V = LayoutModel;

    closed spec fn view(&self) -> LayoutModel {
        LayoutModel {
            outputs: panes(self.outputs@),
            in_transit: self.in_transit,
            gaps: self.gaps,
            deco: self.deco,
            mode: self.mode,
            outbox: self.outbox@,
        }
    }
}

/// A line of the window list.
#[derive(Debug)]
pub struct WindowEntry {
    pub surface: SurfaceId,
    pub rect: Rect,
    pub fill: FillMode,
    pub floating: bool,
    pub output: String,
    pub workspace: usize,
}

impl View for WindowEntry {
    type V = WindowLine;

    open spec fn view(&self) -> WindowLine {
        WindowLine {
            surface: self.surface,
            rect: self.rect,
            fill: self.fill,
            floating: self.floating,
            output: self.output@,
            workspace: self.workspace as int,
        }
    }
}

/// A line of the workspace list.
#[derive(Debug)]
pub struct WorkspaceEntry {
    pub output: String,
    pub index: usize,
    pub active: bool,
    pub windows: usize,
}

impl View for WorkspaceEntry {
    type V = WorkspaceLine;

    open spec fn view(&self) -> WorkspaceLine {
        WorkspaceLine {
            output: self.output@,
            index: self.index as int,
            active: self.active,
            windows: self.windows as int,
        }
    }
}

/// A list of lines as it reads.
pub open spec fn window_views(es: Seq<WindowEntry>) -> Seq<WindowLine> {
    Seq::new(es.len(), |i: int| es[i]@)
}

/// A list of lines as it reads.
pub open spec fn workspace_views(es: Seq<WorkspaceEntry>) -> Seq<WorkspaceLine> {
    Seq::new(es.len(), |i: int| es[i]@)
}

/// The name of an output that may be missing, as it reads.
pub open spec fn name_view(n: Option<&str>) -> Option<Seq<char>> {
    match n {
        None => None,
        Some(n) => Some(n@),
    }
}

impl Layout {
    /// A desktop of the given outputs, each with one blank workspace.
    pub fn new(outputs: Vec<(String, Rect)>, gaps: Gaps, deco: Deco, mode: LayoutMode) -> (r:
        Layout)
        ensures
            r@.valid(),
            r@ == (LayoutModel {
                outputs: Seq::new(
                    outputs@.len(),
                    |i: int| PaneModel::fresh(outputs@[i].0@, outputs@[i].1),
                ),
                in_transit: None,
                gaps,
                deco,
                mode,
                outbox: Seq::empty(),
            }),
    {
        let mut list: Vec<Outpane> = Vec::new();
        let mut i: usize = 0;
        while i < outputs.len()
            invariant
                i <= outputs@.len(),
                panes(list@) =~= Seq::new(
                    i as nat,
                    |k: int| PaneModel::fresh(outputs@[k].0@, outputs@[k].1),
                ),
            decreases outputs@.len() - i,
        {
            broadcast use panes_push;

            list.push(Outpane::new(outputs[i].0.clone(), outputs[i].1));
            i += 1;
        }
        Layout { outputs: list, in_transit: None, gaps, deco, mode, outbox: Vec::new() }
    }

    /// Takes the configures that clients are owed, oldest first.
    pub fn take_configures(&mut self) -> (r: Vec<Configure>)
        ensures
            r@ == old(self)@.outbox,
            final(self)@ == (LayoutModel { outbox: Seq::empty(), ..old(self)@ }),
    {
        let mut out: Vec<Configure> = Vec::new();
        std::mem::swap(&mut out, &mut self.outbox);
        out
    }

    fn find(&self, q: &Query) -> (r: Option<usize>)
        requires
            self@.valid(),
        ensures
            as_int(r) == self@.pane(q@),
            r.is_some() ==> r.unwrap() < self@.outputs.len() && self@.outputs[r.unwrap()
                as int].meets(q@),
    {
        let mut i: usize = 0;
        while i < self.outputs.len()
            invariant
                i <= self.outputs@.len(),
                self@.valid(),
                pane_from(self@.outputs, q@, 0) == pane_from(self@.outputs, q@, i as int),
            decreases self.outputs@.len() - i,
        {
            assert(self@.outputs[i as int].valid());
            if self.outputs[i].meets(q) {
                return Some(i);
            }
            i += 1;
        }
        None
    }

    fn recompute_and_push(&mut self)
        ensures
            final(self)@ == old(self)@.reflowed(),
            old(self)@.valid() ==> final(self)@.valid(),
    {
        let ghost want = old(self)@.reflowed().outputs;
        let gaps = self.gaps;
        let mut i: usize = 0;
        while i < self.outputs.len()
            invariant
                i <= self.outputs@.len(),
                gaps == old(self)@.gaps,
                want == old(self)@.reflowed().outputs,
                self@ =~= (LayoutModel { outputs: self@.outputs, ..old(self)@ }),
                self@.outputs.len() == old(self)@.outputs.len(),
                forall|k: int| 0 <= k < i ==> (#[trigger] self@.outputs[k]) == want[k],
                forall|k: int|
                    i <= k < self@.outputs.len() ==> (#[trigger] self@.outputs[k])
                        == old(self)@.outputs[k],
            decreases self.outputs@.len() - i,
        {
            broadcast use panes_update;

            let ghost before = self.outputs@;
            assert(panes(before)[i as int] == old(self)@.outputs[i as int]);
            self.outputs[i].lay_out(gaps);
            assert(self.outputs@ =~= before.update(i as int, self.outputs@[i as int]));
            assert(self.outputs@[i as int]@ == want[i as int]);
            i += 1;
        }
        assert(self@.outputs =~= want);
        let (deco, mode) = (self.deco, self.mode);
        let mut j: usize = 0;
        while j < self.outputs.len()
            invariant
                j <= self.outputs@.len(),
                deco == old(self)@.deco,
                mode == old(self)@.mode,
                want == old(self)@.reflowed().outputs,
                self@ =~= (LayoutModel { outputs: want, outbox: self@.outbox, ..old(self)@ }),
                self@.outbox =~= old(self)@.outbox + panes_configures(want, deco, mode, j as int),
            decreases self.outputs@.len() - j,
        {
            self.outputs[j].push_configures(deco, mode, &mut self.outbox);
            j += 1;
        }
        proof {
            if old(self)@.valid() {
                assert forall|k: int| 0 <= k < self@.outputs.len() implies (
                #[trigger] self@.outputs[k]).valid() by {
                    assert(old(self)@.outputs[k].valid());
                }
            }
        }
    }

    fn landing(&self, cursor: Option<Point>) -> (r: Option<usize>)
        requires
            self@.valid(),
        ensures
            as_int(r) == self@.landing(cursor),
            r.is_some() ==> r.unwrap() < self@.outputs.len(),
    {
        if let Some(c) = cursor {
            if let Some(i) = self.find(&Query::At(c)) {
                return Some(i);
            }
        }
        if self.outputs.len() > 0 {
            Some(0)
        } else {
            None
        }
    }

    fn add_tile(&mut self, i: usize, w: Window, cursor: Option<Point>)
        requires
            old(self)@.valid(),
            i < old(self)@.outputs.len(),
        ensures
            final(self)@ == old(self)@.tiling(i as int, w, cursor),
            final(self)@.valid(),
    {
        broadcast use panes_update;

        let gaps = self.gaps;
        assert(self@.outputs[i as int].valid());
        let ghost before = self.outputs@;
        let k: usize = self.outputs[i].active;
        self.outputs[i].tile_in(k, w, cursor, gaps);
        assert(self.outputs@ =~= before.update(i as int, self.outputs@[i as int]));
        proof {
            update_keeps_valid(*old(self), *self, i as int);
        }
    }

    fn tidy(&mut self, i: usize)
        requires
            old(self)@.valid(),
            i < old(self)@.outputs.len(),
        ensures
            final(self)@ == old(self)@.tidying(i as int),
            final(self)@.valid(),
    {
        broadcast use panes_update;

        assert(self@.outputs[i as int].valid());
        let ghost before = self.outputs@;
        self.outputs[i].normalize();
        assert(self.outputs@ =~= before.update(i as int, self.outputs@[i as int]));
        proof {
            update_keeps_valid(*old(self), *self, i as int);
        }
    }

    /// Opens a window as a tile of the output under the cursor.
    pub fn insert(&mut self, toplevel: WindowSurface, cursor: Option<Point>)
        requires
            old(self)@.valid(),
        ensures
            final(self)@ == old(self)@.inserting(toplevel, cursor),
            final(self)@.valid(),
    {
        let i: usize = match self.landing(cursor) {
            None => {
                return ;
            },
            Some(i) => i,
        };
        let rect = shrink_for_outer(self.outputs[i].bounds, self.gaps.outer);
        self.add_tile(i, Window { toplevel, rect, fill: FillMode::Normal }, cursor);
        self.recompute_and_push();
    }

    /// Forgets a window that was closed.
    pub fn remove(&mut self, surface: SurfaceId)
        requires
            old(self)@.valid(),
        ensures
            final(self)@ == old(self)@.removing(surface),
            final(self)@.valid(),
    {
        broadcast use panes_update;

        match self.find(&Query::Held(surface)) {
            Some(i) => {
                assert(self@.outputs[i as int].valid());
                let k: usize = self.outputs[i].home(surface).unwrap();
                let ghost before = self.outputs@;
                self.outputs[i].drop_surface(k, surface);
                assert(self.outputs@ =~= before.update(i as int, self.outputs@[i as int]));
                proof {
                    update_keeps_valid(*old(self), *self, i as int);
                }
                self.tidy(i);
                self.recompute_and_push();
            },
            None => {
                let carried = match self.in_transit {
                    None => false,
                    Some(t) => t.window.toplevel.wl_surface() == surface,
                };
                if carried {
                    self.in_transit = None;
                }
            },
        }
    }
}

proof fn update_keeps_valid(before: Layout, after: Layout, i: int)
    requires
        before@.valid(),
        0 <= i < before@.outputs.len(),
        after@.outputs.len() == before@.outputs.len(),
        after@.outputs[i].valid(),
        forall|k: int|
            0 <= k < before@.outputs.len() && k != i ==> (#[trigger] after@.outputs[k])
                == before@.outputs[k],
    ensures
        after@.valid(),
{
    assert forall|k: int| 0 <= k < after@.outputs.len() implies (
    #[trigger] after@.outputs[k]).valid() by {
        assert(before@.outputs[k].valid());
    }
}

impl Layout {
    fn carried(&self, surface: SurfaceId) -> (r: bool)
        ensures
            r == (self@.in_transit.is_some() && self@.in_transit.unwrap().window.id() == surface),
    {
        match self.in_transit {
            None => false,
            Some(t) => t.window.toplevel.wl_surface() == surface,
        }
    }

    fn window_ref(&self, surface: SurfaceId) -> (r: Option<Window>)
        requires
            self@.valid(),
        ensures
            r == self@.window_of(surface),
    {
        if self.carried(surface) {
            return Some(self.in_transit.unwrap().window);
        }
        match self.find(&Query::Held(surface)) {
            None => None,
            Some(i) => {
                let k: usize = self.outputs[i].home(surface).unwrap();
                let ws = &self.outputs[i].workspaces[k];
                if ws.floats(surface) {
                    Some(ws.float(surface))
                } else {
                    Some(ws.tile(surface))
                }
            },
        }
    }

    fn is_filled(&self, surface: SurfaceId) -> (r: bool)
        requires
            self@.valid(),
        ensures
            r == self@.is_filled(surface),
    {
        match self.window_ref(surface) {
            None => false,
            Some(w) => w.fill != FillMode::Normal,
        }
    }

    fn deco_for(&self, w: &Window) -> (r: Deco)
        ensures
            r == self@.deco_of(*w),
    {
        deco_for_fill(self.deco, self.mode, w.fill)
    }

    /// The least and the greatest cell of a window; no limits for a surface
    /// that has none.
    pub fn client_size_limits(&self, surface: SurfaceId, facts: &ClientFacts) -> (r: (Size, Size))
        requires
            self@.valid(),
        ensures
            r == (match self@.window_of(surface) {
                None => (
                    Size { w: 0i32, h: 0i32 },
                    Size { w: i32::MAX, h: i32::MAX },
                ),
                Some(w) => self@.limits_of(w, *facts),
            }),
    {
        match self.window_ref(surface) {
            None => (Size { w: 0, h: 0 }, Size { w: 2147483647, h: 2147483647 }),
            Some(w) => window_limits(self.deco_for(&w), facts),
        }
    }

    /// Lets the cell of a floating window follow the size its client drew.
    pub fn reconcile_floating_size(&mut self, surface: SurfaceId, content: Size) -> (r: bool)
        requires
            old(self)@.valid(),
        ensures
            (final(self)@, r) == old(self)@.reconciling(surface, content),
            final(self)@.valid(),
    {
        broadcast use panes_update;

        if content.w <= 0 || content.h <= 0 {
            return false;
        }
        let i: usize = match self.find(&Query::Floating(surface)) {
            None => {
                return false;
            },
            Some(i) => i,
        };
        assert(self@.outputs[i as int].valid());
        let full = self.outputs[i].full.size;
        let w = self.outputs[i].current().float(surface);
        let native = match w.toplevel {
            WindowSurface::Xdg(_) => true,
            _ => false,
        };
        if w.fill != FillMode::Normal || !native {
            return false;
        }
        let grown = self.deco_for(&w).cell_size_for(content);
        let cell = Size {
            w: min32(grown.w, max32(full.w, 1)),
            h: min32(grown.h, max32(full.h, 1)),
        };
        if w.rect.size == cell {
            return false;
        }
        let ghost before = self.outputs@;
        self.outputs[i].set_float(
            surface,
            Window {
                toplevel: w.toplevel,
                rect: Rect { loc: w.rect.loc, size: cell },
                fill: w.fill,
            },
        );
        assert(self.outputs@ =~= before.update(i as int, self.outputs@[i as int]));
        proof {
            update_keeps_valid(*old(self), *self, i as int);
        }
        true
    }

    fn refloat(&mut self, i: usize, surface: SurfaceId, w: Window)
        requires
            old(self)@.valid(),
            i < old(self)@.outputs.len(),
            old(self)@.outputs[i as int].current().tiles(surface),
        ensures
            final(self)@ == old(self)@.with_current(
                i as int,
                old(self)@.outputs[i as int].current().untiling(surface).floating_on_top(w),
            ).telling(old(self)@.float_message(w, old(self)@.outputs[i as int].area())).reflowed(),
            final(self)@.valid(),
    {
        broadcast use panes_update;

        assert(self@.outputs[i as int].valid());
        let area = self.outputs[i].area();
        let ghost before = self.outputs@;
        let k: usize = self.outputs[i].active;
        self.outputs[i].take_tile(surface);
        assert(self.outputs@ =~= before.update(i as int, self.outputs@[i as int]));
        let ghost middle = self.outputs@;
        self.outputs[i].float_in(k, w);
        assert(self.outputs@ =~= middle.update(i as int, self.outputs@[i as int]));
        assert(self@.outputs =~= old(self)@.with_current(
            i as int,
            old(self)@.outputs[i as int].current().untiling(surface).floating_on_top(w),
        ).outputs) by {
            assert(self.outputs@[i as int]@ =~= old(self)@.outputs[i as int].with_current(
                old(self)@.outputs[i as int].current().untiling(surface).floating_on_top(w),
            ));
        }
        proof {
            update_keeps_valid(*old(self), *self, i as int);
        }
        let c = push_configure_for_floating(&w, self.deco_for(&w), area);
        self.outbox.push(c);
        self.recompute_and_push();
    }

    /// Makes a tile float, or a floating window tile.
    pub fn toggle_floating(&mut self, surface: SurfaceId, facts: &ClientFacts) -> (r: bool)
        requires
            old(self)@.valid(),
        ensures
            (final(self)@, r) == old(self)@.toggling_floating(surface, *facts),
            final(self)@.valid(),
    {
        broadcast use panes_update;

        if let Some(i) = self.find(&Query::Tiled(surface)) {
            assert(self@.outputs[i as int].valid());
            let old_tile = self.outputs[i].current().tile(surface);
            let limits = window_limits(self.deco_for(&old_tile), facts);
            let rect = rect_to_float(old_tile.rect, limits, self.outputs[i].bounds);
            self.refloat(
                i,
                surface,
                Window { toplevel: old_tile.toplevel, rect, fill: old_tile.fill },
            );
            return true;
        }
        if let Some(i) = self.find(&Query::Floating(surface)) {
            assert(self@.outputs[i as int].valid());
            let ghost before = self.outputs@;
            let w = self.outputs[i].take_float(surface);
            assert(self.outputs@ =~= before.update(i as int, self.outputs@[i as int]));
            proof {
                update_keeps_valid(*old(self), *self, i as int);
            }
            self.add_tile(i, w, Some(w.rect.center()));
            self.recompute_and_push();
            return true;
        }
        false
    }

    /// Whether one of the outputs measures exactly this.
    pub fn any_output_full_size(&self, w: i32, h: i32) -> (r: bool)
        ensures
            r == some_output_measures(self@.outputs, Size { w, h }),
    {
        let size = Size { w, h };
        let mut i: usize = 0;
        while i < self.outputs.len()
            invariant
                i <= self.outputs@.len(),
                size == (Size { w, h }),
                forall|k: int| 0 <= k < i ==> (#[trigger] self@.outputs[k]).full.size != size,
            decreases self.outputs@.len() - i,
        {
            if self.outputs[i].full.size == size {
                assert(self@.outputs[i as int].full.size == size);
                return true;
            }
            i += 1;
        }
        false
    }

    /// Floats a tile that turns out to be a dialog.
    pub fn float_if_dialog(&mut self, surface: SurfaceId, facts: &ClientFacts) -> (r: bool)
        requires
            old(self)@.valid(),
        ensures
            (final(self)@, r) == old(self)@.floating_dialog(surface, *facts),
            final(self)@.valid(),
    {
        let wish = match crate::desktop::dialog_size(facts) {
            None => {
                return false;
            },
            Some(s) => s,
        };
        if wish.w > 0 && self.any_output_full_size(wish.w, wish.h) {
            return false;
        }
        let i: usize = match self.find(&Query::PlainTile(surface)) {
            None => {
                return false;
            },
            Some(i) => i,
        };
        assert(self@.outputs[i as int].valid());
        let tile = self.outputs[i].current().tile(surface);
        let deco = self.deco_for(&tile);
        let limits = window_limits(deco, facts);
        let rect = rect_for_dialog(wish, deco, limits, self.outputs[i].bounds);
        self.refloat(i, surface, Window { toplevel: tile.toplevel, rect, fill: tile.fill });
        true
    }

    /// Lifts a window out for a move drag and gives its rectangle.
    pub fn start_move_drag(&mut self, surface: SurfaceId) -> (r: Option<Rect>)
        requires
            old(self)@.valid(),
        ensures
            (final(self)@, r) == old(self)@.lifting(surface),
            final(self)@.valid(),
    {
        broadcast use panes_update;

        if self.in_transit.is_some() || self.is_filled(surface) {
            return None;
        }
        let i: usize = match self.find(&Query::Shown(surface)) {
            None => {
                return None;
            },
            Some(i) => i,
        };
        assert(self@.outputs[i as int].valid());
        let ghost before = self.outputs@;
        if self.outputs[i].current().tiles(surface) {
            let window = self.outputs[i].take_tile(surface);
            assert(self.outputs@ =~= before.update(i as int, self.outputs@[i as int]));
            proof {
                update_keeps_valid(*old(self), *self, i as int);
            }
            self.in_transit = Some(
                InTransit { window, source: DragSource::Tiled, source_output: i },
            );
            self.recompute_and_push();
            Some(window.rect)
        } else {
            let window = self.outputs[i].take_float(surface);
            assert(self.outputs@ =~= before.update(i as int, self.outputs@[i as int]));
            proof {
                update_keeps_valid(*old(self), *self, i as int);
            }
            self.in_transit = Some(
                InTransit { window, source: DragSource::Floating, source_output: i },
            );
            Some(window.rect)
        }
    }

    /// The rectangle from which a resize drag starts.
    pub fn start_resize_drag(&self, surface: SurfaceId) -> (r: Option<Rect>)
        requires
            self@.valid(),
        ensures
            r == self@.resize_start(surface),
    {
        if self.is_filled(surface) {
            return None;
        }
        match self.find(&Query::Shown(surface)) {
            None => None,
            Some(i) => {
                assert(self@.outputs[i as int].valid());
                let ws = self.outputs[i].current();
                if ws.floats(surface) {
                    Some(ws.float(surface).rect)
                } else {
                    Some(ws.tile(surface).rect)
                }
            },
        }
    }

    /// Gives a floating window another rectangle.
    pub fn set_floating_rect(&mut self, surface: SurfaceId, rect: Rect)
        requires
            old(self)@.valid(),
        ensures
            final(self)@ == old(self)@.moving_float(surface, rect),
            final(self)@.valid(),
    {
        broadcast use panes_update;

        let i: usize = match self.find(&Query::Floating(surface)) {
            None => {
                return ;
            },
            Some(i) => i,
        };
        assert(self@.outputs[i as int].valid());
        let area = self.outputs[i].area();
        let was = self.outputs[i].current().float(surface);
        let w = Window { toplevel: was.toplevel, rect, fill: was.fill };
        let ghost before = self.outputs@;
        self.outputs[i].set_float(surface, w);
        assert(self.outputs@ =~= before.update(i as int, self.outputs@[i as int]));
        proof {
            update_keeps_valid(*old(self), *self, i as int);
        }
        let c = push_configure_for_floating(&w, self.deco_for(&w), area);
        self.outbox.push(c);
    }

    /// Moves edges of a window in a resize drag: of a floating window its
    /// rectangle, of a tile the dividers next to it.
    pub fn apply_resize(&mut self, surface: SurfaceId, target: Rect, edges: ResizeEdges)
        requires
            old(self)@.valid(),
        ensures
            final(self)@ == old(self)@.resizing(surface, target, edges),
            final(self)@.valid(),
    {
        broadcast use panes_update;

        if self.find(&Query::Floating(surface)).is_some() {
            self.set_floating_rect(surface, target);
            return ;
        }
        let i: usize = match self.find(&Query::Tiled(surface)) {
            None => {
                return ;
            },
            Some(i) => i,
        };
        assert(self@.outputs[i as int].valid());
        let area = self.outputs[i].area();
        let gaps = self.gaps;
        let ghost before = self.outputs@;
        self.outputs[i].resize(surface, target, edges, gaps);
        assert(self.outputs@ =~= before.update(i as int, self.outputs@[i as int]));
        proof {
            update_keeps_valid(*old(self), *self, i as int);
        }
        let (deco, mode) = (self.deco, self.mode);
        let tiles = self.outputs[i].current().tiled_windows();
        push_tiles(&tiles, area, deco, mode, &mut self.outbox);
    }

    fn area_or_nowhere(&self, i: usize) -> (r: OutputArea)
        ensures
            r == self@.area_or_nowhere(i as int),
    {
        if i < self.outputs.len() {
            self.outputs[i].area()
        } else {
            OutputArea { full: Rect::nowhere(), work: Rect::nowhere() }
        }
    }

    /// Lets the window in transit follow the cursor.
    pub fn update_in_transit_rect(&mut self, rect: Rect)
        ensures
            final(self)@ == old(self)@.carrying(rect),
            old(self)@.valid() ==> final(self)@.valid(),
    {
        if let Some(t) = self.in_transit {
            let window = Window { toplevel: t.window.toplevel, rect, fill: t.window.fill };
            let area = self.area_or_nowhere(t.source_output);
            let c = push_configure_for_floating(&window, self.deco_for(&window), area);
            self.in_transit = Some(
                InTransit { window, source: t.source, source_output: t.source_output },
            );
            self.outbox.push(c);
        }
    }

    fn drop_target(&self, cursor: Point, middle: Point) -> (r: Option<usize>)
        requires
            self@.valid(),
        ensures
            as_int(r) == self@.drop_target(cursor, middle),
            r.is_some() ==> r.unwrap() < self@.outputs.len(),
    {
        if let Some(i) = self.find(&Query::At(cursor)) {
            return Some(i);
        }
        if let Some(i) = self.find(&Query::At(middle)) {
            return Some(i);
        }
        if self.outputs.len() > 0 {
            Some(0)
        } else {
            None
        }
    }

    /// Ends a move drag: the window tiles where it is dropped if it came from
    /// a tile, and floats there otherwise.
    pub fn finish_move_drag(&mut self, cursor: Point)
        requires
            old(self)@.valid(),
        ensures
            final(self)@ == old(self)@.landing_drag(cursor),
            final(self)@.valid(),
    {
        broadcast use panes_update;

        let t = match self.in_transit {
            None => {
                return ;
            },
            Some(t) => t,
        };
        self.in_transit = None;
        let ghost free = self@;
        let i: usize = match self.drop_target(cursor, t.window.rect.center()) {
            None => {
                let area = OutputArea { full: Rect::nowhere(), work: Rect::nowhere() };
                let c = push_configure_for_floating(&t.window, self.deco_for(&t.window), area);
                self.outbox.push(c);
                return ;
            },
            Some(i) => i,
        };
        assert(self@.outputs[i as int].valid());
        match t.source {
            DragSource::Tiled => {
                self.add_tile(i, t.window, Some(cursor));
            },
            DragSource::Floating => {
                let area = self.outputs[i].area();
                let c = push_configure_for_floating(&t.window, self.deco_for(&t.window), area);
                let ghost start = *self;
                let ghost before = self.outputs@;
                let k: usize = self.outputs[i].active;
                self.outputs[i].float_in(k, t.window);
                assert(self.outputs@ =~= before.update(i as int, self.outputs@[i as int]));
                proof {
                    update_keeps_valid(start, *self, i as int);
                }
                self.outbox.push(c);
                assert(self@.valid());
            },
        }
        self.tidy(i);
        if t.source_output != i && t.source_output < self.outputs.len() {
            self.tidy(t.source_output);
        }
        self.recompute_and_push();
    }

    /// How the desktop is drawn, bottom first. `slides` gives the displacement
    /// of each output whose slide is running.
    pub fn placements(&self, focused: Option<SurfaceId>, slides: &Vec<Option<SlideOffsets>>) -> (r:
        Vec<Placement>)
        requires
            self@.valid(),
        ensures
            r@ == self@.placements(focused, slides@),
    {
        let mut out: Vec<Placement> = Vec::new();
        let mut i: usize = 0;
        while i < self.outputs.len()
            invariant
                i <= self.outputs@.len(),
                self@.valid(),
                out@ =~= panes_placements(
                    self@.outputs,
                    focused,
                    slides@,
                    self@.deco,
                    self@.mode,
                    i as int,
                ),
            decreases self.outputs@.len() - i,
        {
            assert(self@.outputs[i as int].valid());
            let slide = if i < slides.len() {
                slides[i]
            } else {
                None
            };
            self.outputs[i].collect(focused, slide, self.deco, self.mode, &mut out);
            i += 1;
        }
        if let Some(t) = self.in_transit {
            let surface: SurfaceId = t.window.toplevel.wl_surface();
            out.push(
                Placement {
                    surface,
                    cell_rect: t.window.rect,
                    focused: same_surface(focused, surface),
                    fill: t.window.fill,
                    floating: true,
                    deco: self.deco_for(&t.window),
                    slide: Point { x: 0, y: 0 },
                },
            );
        }
        assert(out@ =~= self@.placements(focused, slides@));
        out
    }

    /// Ends the slides that have run their time.
    pub fn tick_transitions(&mut self, now: u64, durations: Option<&Vec<u64>>)
        ensures
            final(self)@ == old(self)@.ticking(
                now,
                match durations {
                    None => None,
                    Some(d) => Some(d@),
                },
            ),
            old(self)@.valid() ==> final(self)@.valid(),
    {
        let ghost ds: Option<Seq<u64>> = match durations {
            None => None,
            Some(d) => Some(d@),
        };
        let ghost want = old(self)@.ticking(now, ds).outputs;
        let mut i: usize = 0;
        while i < self.outputs.len()
            invariant
                i <= self.outputs@.len(),
                ds == (match durations {
                    None => None,
                    Some(d) => Some(d@),
                }),
                want == old(self)@.ticking(now, ds).outputs,
                self@ =~= (LayoutModel { outputs: self@.outputs, ..old(self)@ }),
                self@.outputs.len() == old(self)@.outputs.len(),
                forall|k: int| 0 <= k < i ==> (#[trigger] self@.outputs[k]) == want[k],
                forall|k: int|
                    i <= k < self@.outputs.len() ==> (#[trigger] self@.outputs[k])
                        == old(self)@.outputs[k],
            decreases self.outputs@.len() - i,
        {
            broadcast use panes_update;

            let duration: u64 = match durations {
                None => 0,
                Some(d) => if i < d.len() {
                    d[i]
                } else {
                    0
                },
            };
            let ghost before = self.outputs@;
            assert(panes(before)[i as int] == old(self)@.outputs[i as int]);
            assert(duration == duration_at(ds, i as int));
            self.outputs[i].tick(now, duration);
            assert(self.outputs@ =~= before.update(i as int, self.outputs@[i as int]));
            assert(self.outputs@[i as int]@ == want[i as int]);
            i += 1;
        }
        assert(self@.outputs =~= want);
        proof {
            if old(self)@.valid() {
                assert forall|k: int| 0 <= k < self@.outputs.len() implies (
                #[trigger] self@.outputs[k]).valid() by {
                    assert(old(self)@.outputs[k].valid());
                }
            }
        }
    }

    /// The window at a point and the rectangle it covers.
    pub fn window_at(&self, pos: Point) -> (r: Option<(Window, Rect)>)
        requires
            self@.valid(),
        ensures
            r == self@.window_at(pos),
    {
        match self.find(&Query::At(pos)) {
            None => None,
            Some(i) => {
                assert(self@.outputs[i as int].valid());
                self.outputs[i].current().window_at(pos, self.outputs[i].area())
            },
        }
    }
}

impl Layout {
    fn find_named(&self, name: &str) -> (r: Option<usize>)
        requires
            self@.valid(),
        ensures
            as_int(r) == self@.pane(Probe::Named(name@)),
            r.is_some() ==> r.unwrap() < self@.outputs.len() && self@.outputs[r.unwrap()
                as int].name == name@,
    {
        self.find(&Query::Named(name.to_owned()))
    }

    /// Takes note of the rectangles of an output: all of it, and what the
    /// panels leave.
    pub fn set_output_bounds(&mut self, name: &str, full: Rect, work_area: Rect)
        requires
            old(self)@.valid(),
        ensures
            final(self)@ == old(self)@.bounding(name@, full, work_area),
            final(self)@.valid(),
    {
        broadcast use panes_update;

        let i: usize = match self.find_named(name) {
            None => {
                return ;
            },
            Some(i) => i,
        };
        assert(self@.outputs[i as int].valid());
        if self.outputs[i].full == full && self.outputs[i].bounds == work_area {
            return ;
        }
        let ghost before = self.outputs@;
        self.outputs[i].set_rects(full, work_area);
        assert(self.outputs@ =~= before.update(i as int, self.outputs@[i as int]));
        proof {
            update_keeps_valid(*old(self), *self, i as int);
        }
        self.recompute_and_push();
    }

    /// Adds an output with one blank workspace; a known one is left alone.
    pub fn add_output(&mut self, name: String, bounds: Rect)
        requires
            old(self)@.valid(),
        ensures
            final(self)@ == old(self)@.plugging(name@, bounds),
            final(self)@.valid(),
    {
        broadcast use panes_push;

        if self.find_named(name.as_str()).is_some() {
            return ;
        }
        self.outputs.push(Outpane::new(name, bounds));
        assert forall|k: int| 0 <= k < self@.outputs.len() implies (
        #[trigger] self@.outputs[k]).valid() by {
            if k < old(self)@.outputs.len() {
                assert(old(self)@.outputs[k].valid());
            }
        }
    }

    /// Removes an output; its windows become tiles of the fallback output.
    /// Without a known fallback the output is kept for its return.
    pub fn remove_output(&mut self, name: &str, fallback: Option<&str>)
        requires
            old(self)@.valid(),
            old(self)@.can_unplug(name@, name_view(fallback)),
        ensures
            final(self)@ == old(self)@.unplugging(name@, name_view(fallback)),
            final(self)@.valid(),
    {
        broadcast use {panes_update, panes_remove};

        let i: usize = match self.find_named(name) {
            None => {
                return ;
            },
            Some(i) => i,
        };
        let dest: usize = match fallback {
            None => {
                return ;
            },
            Some(n) => match self.find_named(n) {
                None => {
                    return ;
                },
                Some(d) => d,
            },
        };
        let lost = self.outputs.remove(i);
        let ghost rest = *self;
        assert forall|k: int| 0 <= k < self@.outputs.len() implies (
        #[trigger] self@.outputs[k]).valid() by {
            if k < i {
                assert(old(self)@.outputs[k].valid());
            } else {
                assert(old(self)@.outputs[k + 1].valid());
            }
        }
        let d: usize = if dest > i {
            dest - 1
        } else {
            dest
        };
        let windows = lost.windows();
        let gaps = self.gaps;
        let ghost before = self.outputs@;
        assert(self@.outputs[d as int].valid());
        self.outputs[d].tile_all(&windows, gaps);
        assert(self.outputs@ =~= before.update(d as int, self.outputs@[d as int]));
        proof {
            update_keeps_valid(rest, *self, d as int);
        }
        self.tidy(d);
        self.recompute_and_push();
    }

    /// Changes gaps and frames.
    pub fn set_appearance(&mut self, gaps: Gaps, deco: Deco)
        requires
            old(self)@.valid(),
        ensures
            final(self)@ == (LayoutModel { gaps, deco, ..old(self)@ }).reflowed(),
            final(self)@.valid(),
    {
        self.gaps = gaps;
        self.deco = deco;
        assert(self@.valid());
        self.recompute_and_push();
    }

    /// The frame of windows that fill nothing.
    pub fn deco(&self) -> (r: Deco)
        ensures
            r == self@.deco,
    {
        self.deco
    }

    /// The workspaces of every output.
    pub fn workspace_entries(&self) -> (r: Vec<WorkspaceEntry>)
        ensures
            workspace_views(r@) == workspace_lines(self@.outputs, self@.outputs.len() as int),
    {
        let mut out: Vec<WorkspaceEntry> = Vec::new();
        let mut i: usize = 0;
        while i < self.outputs.len()
            invariant
                i <= self.outputs@.len(),
                workspace_views(out@) =~= workspace_lines(self@.outputs, i as int),
            decreases self.outputs@.len() - i,
        {
            self.outputs[i].list_workspaces(&mut out);
            i += 1;
        }
        out
    }

    /// The windows of every output, but for the one in transit.
    pub fn window_entries(&self) -> (r: Vec<WindowEntry>)
        ensures
            window_views(r@) == window_lines(self@.outputs, self@.outputs.len() as int),
    {
        let mut out: Vec<WindowEntry> = Vec::new();
        let mut i: usize = 0;
        while i < self.outputs.len()
            invariant
                i <= self.outputs@.len(),
                window_views(out@) =~= window_lines(self@.outputs, i as int),
            decreases self.outputs@.len() - i,
        {
            self.outputs[i].list_windows(&mut out);
            i += 1;
        }
        out
    }

    /// The workspace on show on an output.
    pub fn active_workspace(&self, output: &str) -> (r: Option<usize>)
        requires
            self@.valid(),
        ensures
            r.is_some() == self@.pane(Probe::Named(output@)).is_some(),
            r.is_some() ==> r.unwrap() == self@.outputs[self@.pane(
                Probe::Named(output@),
            ).unwrap()].active,
    {
        match self.find_named(output) {
            None => None,
            Some(i) => Some(self.outputs[i].active),
        }
    }

    /// Gives a window another fill mode; says whether there is such a window.
    pub fn set_fill(&mut self, surface: SurfaceId, fill: FillMode) -> (r: bool)
        requires
            old(self)@.valid(),
        ensures
            r == old(self)@.window_of(surface).is_some(),
            final(self)@ == old(self)@.refilling(surface, fill),
            final(self)@.valid(),
    {
        broadcast use panes_update;

        if self.carried(surface) {
            let t = self.in_transit.unwrap();
            let window = Window { toplevel: t.window.toplevel, rect: t.window.rect, fill };
            self.in_transit = Some(
                InTransit { window, source: t.source, source_output: t.source_output },
            );
            self.recompute_and_push();
            return true;
        }
        match self.find(&Query::Held(surface)) {
            None => false,
            Some(i) => {
                assert(self@.outputs[i as int].valid());
                let k: usize = self.outputs[i].home(surface).unwrap();
                let ghost before = self.outputs@;
                self.outputs[i].refill(k, surface, fill);
                assert(self.outputs@ =~= before.update(i as int, self.outputs@[i as int]));
                proof {
                    update_keeps_valid(*old(self), *self, i as int);
                }
                self.recompute_and_push();
                true
            },
        }
    }

    /// Makes a window fullscreen, or a fullscreen window normal.
    pub fn toggle_fullscreen(&mut self, surface: SurfaceId) -> (r: bool)
        requires
            old(self)@.valid(),
        ensures
            r == old(self)@.window_of(surface).is_some(),
            final(self)@ == old(self)@.toggling_fill(surface, FillMode::Fullscreen),
            final(self)@.valid(),
    {
        match self.window_ref(surface) {
            None => false,
            Some(w) => {
                let fill = if w.fill == FillMode::Fullscreen {
                    FillMode::Normal
                } else {
                    FillMode::Fullscreen
                };
                self.set_fill(surface, fill)
            },
        }
    }

    /// Makes a window maximized, or a maximized window normal.
    pub fn toggle_maximized(&mut self, surface: SurfaceId) -> (r: bool)
        requires
            old(self)@.valid(),
        ensures
            r == old(self)@.window_of(surface).is_some(),
            final(self)@ == old(self)@.toggling_fill(surface, FillMode::Maximized),
            final(self)@.valid(),
    {
        match self.window_ref(surface) {
            None => false,
            Some(w) => {
                let fill = if w.fill == FillMode::Maximized {
                    FillMode::Normal
                } else {
                    FillMode::Maximized
                };
                self.set_fill(surface, fill)
            },
        }
    }

    /// Whether a workspace that is not on show has a window of the surface.
    pub fn on_inactive_workspace(&self, surface: SurfaceId) -> (r: bool)
        ensures
            r == self@.hides(surface),
    {
        let mut i: usize = 0;
        while i < self.outputs.len()
            invariant
                i <= self.outputs@.len(),
                forall|a: int, k: int|
                    0 <= a < i && 0 <= k < self@.outputs[a].workspaces.len() && k
                        != self@.outputs[a].active ==> !(
                    #[trigger] self@.outputs[a].workspaces[k]).shows(surface),
            decreases self.outputs@.len() - i,
        {
            let mut j: usize = 0;
            while j < self.outputs[i].workspaces.len()
                invariant
                    i < self.outputs@.len(),
                    j <= self@.outputs[i as int].workspaces.len(),
                    forall|k: int|
                        0 <= k < j && k != self@.outputs[i as int].active ==> !(
                        #[trigger] self@.outputs[i as int].workspaces[k]).shows(surface),
                decreases self@.outputs[i as int].workspaces.len() - j,
            {
                if j != self.outputs[i].active && self.outputs[i].workspaces[j].shows(surface) {
                    assert(self@.outputs[i as int].workspaces[j as int].shows(surface));
                    return true;
                }
                j += 1;
            }
            i += 1;
        }
        false
    }

    /// The role of a window that is not in transit.
    pub fn window_surface(&self, surface: SurfaceId) -> (r: Option<WindowSurface>)
        requires
            self@.valid(),
        ensures
            r == self@.role_of(surface),
    {
        match self.find(&Query::Held(surface)) {
            None => None,
            Some(i) => {
                let k: usize = self.outputs[i].home(surface).unwrap();
                let ws = &self.outputs[i].workspaces[k];
                if ws.tiles(surface) {
                    Some(ws.tile(surface).toplevel)
                } else {
                    Some(ws.float(surface).toplevel)
                }
            },
        }
    }

    /// Tells a client its size once more.
    pub fn reconfigure(&mut self, surface: SurfaceId) -> (r: bool)
        requires
            old(self)@.valid(),
        ensures
            (final(self)@, r) == old(self)@.reminding(surface),
            final(self)@.valid(),
    {
        match self.find(&Query::Held(surface)) {
            None => false,
            Some(i) => {
                let k: usize = self.outputs[i].home(surface).unwrap();
                let area = self.outputs[i].area();
                let ws = &self.outputs[i].workspaces[k];
                let c = if ws.tiles(surface) {
                    let w = ws.tile(surface);
                    push_configure_for_tile(&w, self.deco_for(&w), area)
                } else {
                    let w = ws.float(surface);
                    push_configure_for_floating(&w, self.deco_for(&w), area)
                };
                self.outbox.push(c);
                true
            },
        }
    }

    /// The output on which a surface is on show.
    pub fn output_of(&self, surface: SurfaceId) -> (r: Option<String>)
        requires
            self@.valid(),
        ensures
            r.is_some() == self@.pane(Probe::Shown(surface)).is_some(),
            r.is_some() ==> r.unwrap()@ == self@.outputs[self@.pane(
                Probe::Shown(surface),
            ).unwrap()].name,
    {
        match self.find(&Query::Shown(surface)) {
            None => None,
            Some(i) => Some(self.outputs[i].name.clone()),
        }
    }

    fn fullscreen_surface(&self, name: &str) -> (r: Option<SurfaceId>)
        requires
            self@.valid(),
        ensures
            r == (match self@.fullscreen_on(name@) {
                None => None,
                Some(w) => Some(w.id()),
            }),
    {
        match self.find_named(name) {
            None => None,
            Some(i) => {
                assert(self@.outputs[i as int].valid());
                match self.outputs[i].current().fullscreen() {
                    None => None,
                    Some(w) => Some(w.toplevel.wl_surface()),
                }
            },
        }
    }

    /// Whether another surface than the given one is fullscreen on an output.
    pub fn output_fullscreen_other_than(&self, name: &str, surface: SurfaceId) -> (r: bool)
        requires
            self@.valid(),
        ensures
            r == (self@.fullscreen_on(name@).is_some() && self@.fullscreen_on(name@).unwrap().id()
                != surface),
    {
        match self.fullscreen_surface(name) {
            None => false,
            Some(s) => s != surface,
        }
    }

    /// Whether an output shows a fullscreen window.
    pub fn output_has_fullscreen(&self, name: &str) -> (r: bool)
        requires
            self@.valid(),
        ensures
            r == self@.fullscreen_on(name@).is_some(),
    {
        self.fullscreen_surface(name).is_some()
    }

    /// Whether a workspace slide is running on some output.
    pub fn is_animating(&self) -> (r: bool)
        ensures
            r == exists|i: int|
                0 <= i < self@.outputs.len() && (
                #[trigger] self@.outputs[i]).transition.is_some(),
    {
        let mut i: usize = 0;
        while i < self.outputs.len()
            invariant
                i <= self.outputs@.len(),
                forall|k: int|
                    0 <= k < i ==> (#[trigger] self@.outputs[k]).transition.is_none(),
            decreases self.outputs@.len() - i,
        {
            if self.outputs[i].transition.is_some() {
                assert(self@.outputs[i as int].transition.is_some());
                return true;
            }
            i += 1;
        }
        false
    }

    /// The name of the output at a point.
    #[must_use]
    pub fn output_name_at(&self, cursor: Point) -> (r: Option<String>)
        requires
            self@.valid(),
        ensures
            r.is_some() == self@.pane(Probe::At(cursor)).is_some(),
            r.is_some() ==> r.unwrap()@ == self@.outputs[self@.pane(
                Probe::At(cursor),
            ).unwrap()].name,
    {
        match self.find(&Query::At(cursor)) {
            None => None,
            Some(i) => Some(self.outputs[i].name.clone()),
        }
    }

    /// The steps and the start of the slide that runs on an output.
    pub fn slide_of(&self, output: &str) -> (r: Option<(i32, u64)>)
        requires
            self@.valid(),
        ensures
            r == (match self@.pane(Probe::Named(output@)) {
                None => None,
                Some(i) => match self@.outputs[i].transition {
                    None => None,
                    Some(t) => Some((t.steps, t.started)),
                },
            }),
    {
        match self.find_named(output) {
            None => None,
            Some(i) => match &self.outputs[i].transition {
                None => None,
                Some(t) => Some((t.steps, t.started)),
            },
        }
    }

    /// Shows a workspace `delta` further on the output under the cursor.
    pub fn switch_at(&mut self, cursor: Point, delta: i32, slide: SlideTiming) -> (r: bool)
        requires
            old(self)@.valid(),
        ensures
            (final(self)@, r) == (match old(self)@.pane(Probe::At(cursor)) {
                None => (old(self)@, false),
                Some(i) => old(self)@.switching_by(i, delta as int, slide),
            }),
            final(self)@.valid(),
    {
        match self.find(&Query::At(cursor)) {
            None => false,
            Some(i) => {
                let active: usize = self.outputs[i].active;
                match further(active, delta, self.outputs[i].workspaces.len()) {
                    None => false,
                    Some(target) => self.switch_to_index(i, target, slide),
                }
            },
        }
    }

    fn switch_to_index(&mut self, oi: usize, target: usize, slide: SlideTiming) -> (r: bool)
        requires
            old(self)@.valid(),
            oi < old(self)@.outputs.len(),
        ensures
            (final(self)@, r) == old(self)@.switching(oi as int, target as int, slide),
            final(self)@.valid(),
    {
        broadcast use panes_update;

        assert(self@.outputs[oi as int].valid());
        let limit: usize = self.outputs[oi].furthest();
        let dst: usize = if target < limit {
            target
        } else {
            limit
        };
        if dst == self.outputs[oi].active {
            return false;
        }
        let (deco, mode) = (self.deco, self.mode);
        let ghost before = self.outputs@;
        self.outputs[oi].reach(dst);
        assert(self.outputs@ =~= before.update(oi as int, self.outputs@[oi as int]));
        proof {
            update_keeps_valid(*old(self), *self, oi as int);
        }
        let ghost middle = *self;
        let ghost reached = self.outputs@;
        assert(self@.outputs[oi as int].valid());
        self.outputs[oi].turn_to(dst, slide, deco, mode);
        assert(self.outputs@ =~= reached.update(oi as int, self.outputs@[oi as int]));
        assert(self@.outputs =~= old(self)@.outputs.update(
            oi as int,
            self.outputs@[oi as int]@,
        ));
        proof {
            update_keeps_valid(middle, *self, oi as int);
        }
        self.tidy(oi);
        self.recompute_and_push();
        true
    }

    /// Shows the workspace at an index of an output.
    pub fn switch_workspace_to(
        &mut self,
        output: &str,
        index: usize,
        slide: SlideTiming,
    ) -> (r: bool)
        requires
            old(self)@.valid(),
        ensures
            (final(self)@, r) == (match old(self)@.pane(Probe::Named(output@)) {
                None => (old(self)@, false),
                Some(i) => old(self)@.switching(i, index as int, slide),
            }),
            final(self)@.valid(),
    {
        match self.find_named(output) {
            None => false,
            Some(i) => self.switch_to_index(i, index, slide),
        }
    }

    /// Moves a window on show to a workspace `delta` further on its output.
    pub fn move_focused_window(&mut self, surface: SurfaceId, delta: i32) -> (r: bool)
        requires
            old(self)@.valid(),
        ensures
            (final(self)@, r) == (match old(self)@.pane(Probe::Shown(surface)) {
                Some(i) if old(self)@.outputs[i].active + delta >= 0 => old(self)@.relocating(
                    surface,
                    i,
                    old(self)@.outputs[i].active + delta,
                ),
                _ => (old(self)@, false),
            }),
            final(self)@.valid(),
    {
        match self.find(&Query::Shown(surface)) {
            None => false,
            Some(i) => {
                let active: usize = self.outputs[i].active;
                match further(active, delta, self.outputs[i].workspaces.len()) {
                    None => false,
                    Some(dst) => self.relocate(surface, i, dst),
                }
            },
        }
    }

    /// Moves a window on show to the workspace at an index of its output.
    pub fn move_window_to_workspace(&mut self, surface: SurfaceId, index: usize) -> (r: bool)
        requires
            old(self)@.valid(),
        ensures
            (final(self)@, r) == old(self)@.sending(surface, index as int),
            final(self)@.valid(),
    {
        match self.find(&Query::Shown(surface)) {
            None => false,
            Some(i) => self.relocate(surface, i, index),
        }
    }

    fn relocate(&mut self, surface: SurfaceId, oi: usize, to: usize) -> (r: bool)
        requires
            old(self)@.valid(),
            oi < old(self)@.outputs.len(),
            old(self)@.outputs[oi as int].current().shows(surface),
        ensures
            (final(self)@, r) == old(self)@.relocating(surface, oi as int, to as int),
            final(self)@.valid(),
    {
        broadcast use panes_update;

        assert(self@.outputs[oi as int].valid());
        let len: usize = self.outputs[oi].workspaces.len();
        let dst: usize = if to < len {
            to
        } else {
            len
        };
        let gaps = self.gaps;
        let ghost before = self.outputs@;
        self.outputs[oi].reach(dst);
        assert(self.outputs@ =~= before.update(oi as int, self.outputs@[oi as int]));
        proof {
            update_keeps_valid(*old(self), *self, oi as int);
        }
        if dst == self.outputs[oi].active {
            return false;
        }
        let ghost middle = *self;
        let ghost reached = self.outputs@;
        assert(self@.outputs[oi as int].valid());
        self.outputs[oi].carry_over(surface, dst, gaps);
        assert(self.outputs@ =~= reached.update(oi as int, self.outputs@[oi as int]));
        assert(self@.outputs =~= old(self)@.outputs.update(
            oi as int,
            self.outputs@[oi as int]@,
        ));
        proof {
            update_keeps_valid(middle, *self, oi as int);
        }
        self.tidy(oi);
        self.recompute_and_push();
        true
    }
}

/// The index `delta` after `active`, at most `len`; none before the first.
fn further(active: usize, delta: i32, len: usize) -> (r: Option<usize>)
    ensures
        r.is_some() == (active + delta >= 0),
        r.is_some() ==> r.unwrap() == crate::geometry::smaller(active + delta, len as int),
{
    let to: i128 = active as i128 + delta as i128;
    if to < 0 {
        None
    } else if to >= len as i128 {
        Some(len)
    } else {
        Some(to as usize)
    }
}

impl Outpane {
    fn set_rects(&mut self, full: Rect, bounds: Rect)
        ensures
            final(self)@ == (PaneModel { full, bounds, ..old(self)@ }),
    {
        self.full = full;
        self.bounds = bounds;
    }

    fn tile_all(&mut self, windows: &Vec<Window>, gaps: Gaps)
        requires
            old(self)@.valid(),
        ensures
            final(self)@ == old(self)@.with_current(
                tiling_all(
                    old(self)@.current(),
                    windows@,
                    crate::tree::inside_gap(old(self)@.bounds, gaps.outer as int),
                    gaps.inner as int,
                    windows@.len() as int,
                ),
            ),
    {
        let k: usize = self.active;
        let ghost bounds = crate::tree::inside_gap(self@.bounds, gaps.outer as int);
        let mut i: usize = 0;
        assert(self@ =~= old(self)@.with_current(old(self)@.current()));
        while i < windows.len()
            invariant
                i <= windows@.len(),
                old(self)@.valid(),
                k == old(self)@.active,
                bounds == crate::tree::inside_gap(old(self)@.bounds, gaps.outer as int),
                self@ =~= old(self)@.with_current(
                    tiling_all(
                        old(self)@.current(),
                        windows@,
                        bounds,
                        gaps.inner as int,
                        i as int,
                    ),
                ),
            decreases windows@.len() - i,
        {
            let w = windows[i];
            self.tile_in(
                k,
                Window { toplevel: w.toplevel, rect: w.rect, fill: FillMode::Normal },
                None,
                gaps,
            );
            i += 1;
        }
    }

    fn list_workspaces(&self, out: &mut Vec<WorkspaceEntry>)
        ensures
            workspace_views(final(out)@) == workspace_views(old(out)@) + Seq::new(
                self@.workspaces.len(),
                |k: int|
                    WorkspaceLine {
                        output: self@.name,
                        index: k,
                        active: k == self@.active,
                        windows: self@.workspaces[k].windows().len() as int,
                    },
            ),
    {
        let ghost all = Seq::new(
            self@.workspaces.len(),
            |k: int|
                WorkspaceLine {
                    output: self@.name,
                    index: k,
                    active: k == self@.active,
                    windows: self@.workspaces[k].windows().len() as int,
                },
        );
        let mut k: usize = 0;
        while k < self.workspaces.len()
            invariant
                k <= self.workspaces@.len(),
                all == Seq::new(
                    self@.workspaces.len(),
                    |k: int|
                        WorkspaceLine {
                            output: self@.name,
                            index: k,
                            active: k == self@.active,
                            windows: self@.workspaces[k].windows().len() as int,
                        },
                ),
                workspace_views(out@) =~= workspace_views(old(out)@) + all.take(k as int),
            decreases self.workspaces@.len() - k,
        {
            let windows: usize = self.workspaces[k].windows().len();
            let ghost before = workspace_views(out@);
            let e = WorkspaceEntry {
                output: self.name.clone(),
                index: k,
                active: k == self.active,
                windows,
            };
            assert(e@ == all[k as int]);
            out.push(e);
            assert(workspace_views(out@) =~= before.push(all[k as int]));
            k += 1;
        }
        assert(all.take(k as int) =~= all);
    }

    fn list_windows(&self, out: &mut Vec<WindowEntry>)
        ensures
            window_views(final(out)@) == window_views(old(out)@) + pane_lines(
                self@,
                self@.workspaces.len() as int,
            ),
    {
        let mut k: usize = 0;
        while k < self.workspaces.len()
            invariant
                k <= self.workspaces@.len(),
                window_views(out@) =~= window_views(old(out)@) + pane_lines(self@, k as int),
            decreases self.workspaces@.len() - k,
        {
            let tiles: usize = self.workspaces[k].tiled_windows().len();
            let ws = self.workspaces[k].windows();
            let ghost all = lines_of(self@, k as int);
            let ghost base = window_views(out@);
            let mut i: usize = 0;
            while i < ws.len()
                invariant
                    k < self.workspaces@.len(),
                    i <= ws@.len(),
                    ws@ == self@.workspaces[k as int].windows(),
                    tiles == tree_windows(self@.workspaces[k as int].tree).len(),
                    all == lines_of(self@, k as int),
                    window_views(out@) =~= base + all.take(i as int),
                decreases ws@.len() - i,
            {
                let ghost before = window_views(out@);
                let w = ws[i];
                let e = WindowEntry {
                    surface: w.toplevel.wl_surface(),
                    rect: w.rect,
                    fill: w.fill,
                    floating: i >= tiles,
                    output: self.name.clone(),
                    workspace: k,
                };
                assert(e@ == all[i as int]);
                out.push(e);
                assert(window_views(out@) =~= before.push(all[i as int]));
                i += 1;
            }
            assert(all.take(i as int) =~= all);
            k += 1;
        }
    }

    fn turn_to(
        &mut self,
        dst: usize,
        timing: SlideTiming,
        deco: Deco,
        mode: LayoutMode,
    )
        requires
            old(self)@.valid(),
            dst < old(self)@.workspaces.len(),
        ensures
            final(self)@ == (PaneModel {
                active: dst as int,
                transition: crate::desktop::slide_after(
                    old(self)@,
                    dst - old(self)@.active,
                    timing,
                    deco,
                    mode,
                ),
                ..old(self)@
            }),
    {
        let wide: i128 = dst as i128 - self.active as i128;
        let delta: i32 = if wide < -2147483648 {
            -2147483648
        } else if wide > 2147483647 {
            2147483647
        } else {
            wide as i32
        };
        let running = match &self.transition {
            None => None,
            Some(t) => Some((t.steps, is_young(t.started, timing))),
        };
        match slide_action(running, delta) {
            SlideAction::Aim(steps) => {
                let mut t = self.transition.take().unwrap();
                t.steps = steps;
                self.transition = Some(t);
            },
            SlideAction::Drop => {
                self.transition = None;
            },
            SlideAction::Fresh => {
                let from = self.current().collect(None, self.area(), deco, mode);
                self.transition = Some(
                    WsTransition {
                        from,
                        dir: if wide > 0 {
                            -1
                        } else {
                            1
                        },
                        started: timing.now,
                        steps: delta,
                    },
                );
            },
        }
        self.active = dst;
    }

    fn carry_over(&mut self, surface: SurfaceId, dst: usize, gaps: Gaps)
        requires
            old(self)@.valid(),
            dst < old(self)@.workspaces.len(),
            dst != old(self)@.active,
            old(self)@.current().shows(surface),
        ensures
            final(self)@ == old(self)@.carrying_over(surface, dst as int, gaps),
    {
        if self.current().floats(surface) {
            let w = self.take_float(surface);
            self.float_in(dst, w);
        } else {
            let w = self.take_tile(surface);
            self.tile_in(dst, w, None, gaps);
        }
        self.active = dst;
    }
}

} // verus!
