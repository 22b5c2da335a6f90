//! Laws on what clients are told when the desktop is laid out, on finding
//! windows, on slides that are steered, and on which windows are dialogs.

use vstd::prelude::*;

use crate::desktop::{
    dialog_wish, first_fullscreen, pane_search_is_exact, panes_configures, slide_answer,
    tile_configures, tree_windows, workspace_search_is_exact, workspaces_configures, ClientFacts,
    DragSource, LayoutModel, PaneModel, Probe, SlideAction, SlideTiming, WorkspaceModel,
};
use crate::geometry::{Point, Rect, Size};
use crate::laws::tidied_outputs_end_with_an_empty_workspace;
use crate::tree::{search_is_exact, tree_search_agrees_with_leaves, ResizeEdges};
use crate::window::{
    floating_configure, tile_configure, Configure, Deco, FillMode, LayoutMode, OutputArea,
    SurfaceId, Window, WindowSurface,
};

verus! {

// ---- What clients are told

proof fn part_is_kept<A>(a: Seq<A>, b: Seq<A>, x: A)
    requires
        a.contains(x) || b.contains(x),
    ensures
        (a + b).contains(x),
{
    if a.contains(x) {
        let i = choose|i: int| 0 <= i < a.len() && a[i] == x;
        assert((a + b)[i] == x);
    } else {
        let i = choose|i: int| 0 <= i < b.len() && b[i] == x;
        assert((a + b)[a.len() + i] == x);
    }
}

proof fn a_workspace_is_told(
    ws: Seq<WorkspaceModel>,
    area: OutputArea,
    deco: Deco,
    mode: LayoutMode,
    n: int,
    k: int,
    c: Configure,
)
    requires
        0 <= k < n <= ws.len(),
        ws[k].configures(area, deco, mode).contains(c),
    ensures
        workspaces_configures(ws, area, deco, mode, n).contains(c),
    decreases n,
{
    if k < n - 1 {
        a_workspace_is_told(ws, area, deco, mode, n - 1, k, c);
    }
    part_is_kept(
        workspaces_configures(ws, area, deco, mode, n - 1),
        ws[n - 1].configures(area, deco, mode),
        c,
    );
}

proof fn an_output_is_told(
    panes: Seq<PaneModel>,
    deco: Deco,
    mode: LayoutMode,
    n: int,
    j: int,
    c: Configure,
)
    requires
        0 <= j < n <= panes.len(),
        panes[j].configures(deco, mode).contains(c),
    ensures
        panes_configures(panes, deco, mode, n).contains(c),
    decreases n,
{
    if j < n - 1 {
        an_output_is_told(panes, deco, mode, n - 1, j, c);
    }
    part_is_kept(
        panes_configures(panes, deco, mode, n - 1),
        panes[n - 1].configures(deco, mode),
        c,
    );
}

/// The area of an output: all of it, and what the panels leave.
pub open spec fn area_of(p: PaneModel) -> OutputArea {
    OutputArea { full: p.full, work: p.bounds }
}

/// When the desktop is laid out, the client of every tile on every workspace
/// is told of the cell that the tile then has.
pub proof fn every_tile_is_told_of_its_cell(m: LayoutModel, j: int, k: int, i: int)
    requires
        0 <= j < m.outputs.len(),
        0 <= k < m.outputs[j].workspaces.len(),
        0 <= i < tree_windows(m.reflowed().outputs[j].workspaces[k].tree).len(),
    ensures
        ({
            let after = m.reflowed();
            let w = tree_windows(after.outputs[j].workspaces[k].tree)[i];
            after.outbox.contains(
                tile_configure(w, m.deco.under(m.mode, w.fill), area_of(m.outputs[j])),
            )
        }),
{
    let after = m.reflowed();
    let p = after.outputs[j];
    let ws = p.workspaces[k];
    let w = tree_windows(ws.tree)[i];
    let c = tile_configure(w, m.deco.under(m.mode, w.fill), area_of(m.outputs[j]));
    let tiles = tile_configures(tree_windows(ws.tree), p.area(), m.deco, m.mode);
    assert(tiles[i] == c);
    let all = ws.configures(p.area(), m.deco, m.mode);
    assert(all[i] == c);
    a_workspace_is_told(
        p.workspaces,
        p.area(),
        m.deco,
        m.mode,
        p.workspaces.len() as int,
        k,
        c,
    );
    an_output_is_told(after.outputs, m.deco, m.mode, after.outputs.len() as int, j, c);
    part_is_kept(
        m.outbox,
        panes_configures(after.outputs, m.deco, m.mode, after.outputs.len() as int),
        c,
    );
}

/// When the desktop is laid out, the client of every floating window on every
/// workspace is told of its cell, which stays as it is.
pub proof fn every_float_is_told_of_its_cell(m: LayoutModel, j: int, k: int, i: int)
    requires
        0 <= j < m.outputs.len(),
        0 <= k < m.outputs[j].workspaces.len(),
        0 <= i < m.outputs[j].workspaces[k].floating.len(),
    ensures
        ({
            let w = m.outputs[j].workspaces[k].floating[i];
            &&& m.reflowed().outputs[j].workspaces[k].floating[i] == w
            &&& m.reflowed().outbox.contains(
                floating_configure(w, m.deco.under(m.mode, w.fill), area_of(m.outputs[j])),
            )
        }),
{
    let after = m.reflowed();
    let p = after.outputs[j];
    let ws = p.workspaces[k];
    let w = m.outputs[j].workspaces[k].floating[i];
    assert(ws.floating[i] == w);
    let c = floating_configure(w, m.deco.under(m.mode, w.fill), area_of(m.outputs[j]));
    let all = ws.configures(p.area(), m.deco, m.mode);
    assert(all[tree_windows(ws.tree).len() + i] == c);
    a_workspace_is_told(
        p.workspaces,
        p.area(),
        m.deco,
        m.mode,
        p.workspaces.len() as int,
        k,
        c,
    );
    an_output_is_told(after.outputs, m.deco, m.mode, after.outputs.len() as int, j, c);
    part_is_kept(
        m.outbox,
        panes_configures(after.outputs, m.deco, m.mode, after.outputs.len() as int),
        c,
    );
}

/// What was to be told before is still told, and first.
pub proof fn nothing_to_be_told_is_lost(m: LayoutModel)
    ensures
        m.outbox.len() <= m.reflowed().outbox.len(),
        m.reflowed().outbox.take(m.outbox.len() as int) == m.outbox,
{
    assert(m.reflowed().outbox.take(m.outbox.len() as int) =~= m.outbox);
}

/// A client that is reminded is told of its cell once more, and nothing else
/// changes. A surface without a window is told nothing.
pub proof fn reminded_clients_are_told_again(m: LayoutModel, s: SurfaceId, j: int, k: int, i: int)
    requires
        0 <= j < m.outputs.len(),
        0 <= k < m.outputs[j].workspaces.len(),
        0 <= i < m.outputs[j].workspaces[k].floating.len(),
        m.outputs[j].workspaces[k].floating[i].id() == s,
        m.pane(Probe::Held(s)) == Some(j),
        m.outputs[j].home(s) == k,
        !m.outputs[j].workspaces[k].tiles(s),
        forall|x: int|
            0 <= x < i ==> (#[trigger] m.outputs[j].workspaces[k].floating[x]).id() != s,
    ensures
        ({
            let w = m.outputs[j].workspaces[k].floating[i];
            let (after, told) = m.reminding(s);
            &&& told
            &&& after.outputs == m.outputs
            &&& after.outbox == m.outbox.push(
                floating_configure(w, m.deco.under(m.mode, w.fill), area_of(m.outputs[j])),
            )
        }),
{
    search_is_exact(m.outputs[j].workspaces[k].floating, s, 0);
}

// ---- Who is told when

/// What the client of a tile is told of its cell.
pub open spec fn tile_message(m: LayoutModel, j: int, k: int, i: int) -> Configure {
    let w = tree_windows(m.outputs[j].workspaces[k].tree)[i];
    tile_configure(w, m.deco.under(m.mode, w.fill), area_of(m.outputs[j]))
}

/// What the client of a floating window is told of its cell.
pub open spec fn float_message(m: LayoutModel, j: int, k: int, i: int) -> Configure {
    let w = m.outputs[j].workspaces[k].floating[i];
    floating_configure(w, m.deco.under(m.mode, w.fill), area_of(m.outputs[j]))
}

/// Whether, behind the first `n` messages, every client is told of the cell
/// that its window has.
pub open spec fn everyone_is_told(m: LayoutModel, n: int) -> bool {
    let new = m.outbox.skip(n);
    &&& forall|j: int, k: int, i: int|
        0 <= j < m.outputs.len() && 0 <= k < m.outputs[j].workspaces.len() && 0 <= i
            < tree_windows(m.outputs[j].workspaces[k].tree).len() ==> new.contains(
            #[trigger] tile_message(m, j, k, i),
        )
    &&& forall|j: int, k: int, i: int|
        0 <= j < m.outputs.len() && 0 <= k < m.outputs[j].workspaces.len() && 0 <= i
            < m.outputs[j].workspaces[k].floating.len() ==> new.contains(
            #[trigger] float_message(m, j, k, i),
        )
}

proof fn laying_out_tells_everyone(m: LayoutModel, n: int)
    requires
        0 <= n <= m.outbox.len(),
    ensures
        everyone_is_told(m.reflowed(), n),
{
    let after = m.reflowed();
    let bare = LayoutModel { outbox: Seq::empty(), ..m };
    let told = bare.reflowed();
    assert(told.outputs =~= after.outputs);
    let new = after.outbox.skip(n);
    let before = m.outbox.skip(n);
    assert(new =~= before + told.outbox);
    assert forall|j: int, k: int, i: int|
        0 <= j < after.outputs.len() && 0 <= k < after.outputs[j].workspaces.len() && 0 <= i
            < tree_windows(after.outputs[j].workspaces[k].tree).len() implies new.contains(
        #[trigger] tile_message(after, j, k, i),
    ) by {
        every_tile_is_told_of_its_cell(bare, j, k, i);
        part_is_kept(before, told.outbox, tile_message(after, j, k, i));
    }
    assert forall|j: int, k: int, i: int|
        0 <= j < after.outputs.len() && 0 <= k < after.outputs[j].workspaces.len() && 0 <= i
            < after.outputs[j].workspaces[k].floating.len() implies new.contains(
        #[trigger] float_message(after, j, k, i),
    ) by {
        every_float_is_told_of_its_cell(bare, j, k, i);
        part_is_kept(before, told.outbox, float_message(after, j, k, i));
    }
}

/// When a window opens, every client is told of its cell.
pub proof fn everyone_is_told_of_an_opening(
    m: LayoutModel,
    toplevel: WindowSurface,
    cursor: Option<Point>,
)
    requires
        m.outputs.len() > 0,
    ensures
        everyone_is_told(m.inserting(toplevel, cursor), m.outbox.len() as int),
{
    let i = m.landing(cursor).unwrap();
    let w = Window { toplevel, rect: m.tile_bounds(i), fill: FillMode::Normal };
    laying_out_tells_everyone(m.tiling(i, w, cursor), m.outbox.len() as int);
}

/// When a window closes that was on a workspace, every client is told of its
/// cell, and the list of workspaces still ends with an empty one.
pub proof fn everyone_is_told_of_a_closing(m: LayoutModel, s: SurfaceId, i: int)
    requires
        m.valid(),
        m.pane(Probe::Held(s)) == Some(i),
    ensures
        everyone_is_told(m.removing(s), m.outbox.len() as int),
        m.removing(s).outputs[i].workspaces.last().is_empty(),
{
    pane_search_is_exact(m.outputs, Probe::Held(s), 0);
    let p = m.outputs[i];
    assert(p.valid());
    workspace_search_is_exact(p.workspaces, s, 0);
    let k = p.home(s);
    let q = p.with_workspace(k, p.workspaces[k].dropping(s));
    laying_out_tells_everyone(m.with_pane(i, q).tidying(i), m.outbox.len() as int);
    tidied_outputs_end_with_an_empty_workspace(q);
}

/// When a window takes or gives up a fill mode, every client is told.
pub proof fn everyone_is_told_of_a_fill(m: LayoutModel, s: SurfaceId, fill: FillMode)
    requires
        m.window_of(s).is_some(),
    ensures
        everyone_is_told(m.refilling(s, fill), m.outbox.len() as int),
        everyone_is_told(m.toggling_fill(s, fill), m.outbox.len() as int),
{
    a_fill_is_told(m, s, fill);
    a_fill_is_told(m, s, FillMode::Normal);
}

proof fn a_fill_is_told(m: LayoutModel, s: SurfaceId, fill: FillMode)
    requires
        m.window_of(s).is_some(),
    ensures
        everyone_is_told(m.refilling(s, fill), m.outbox.len() as int),
{
    let n = m.outbox.len() as int;
    if m.in_transit.is_some() && m.in_transit.unwrap().window.id() == s {
        let t = m.in_transit.unwrap();
        laying_out_tells_everyone(
            LayoutModel {
                in_transit: Some(
                    crate::desktop::InTransit { window: Window { fill, ..t.window }, ..t },
                ),
                ..m
            },
            n,
        );
    } else {
        let i = m.pane(Probe::Held(s)).unwrap();
        let p = m.outputs[i];
        let k = p.home(s);
        laying_out_tells_everyone(
            m.with_pane(i, p.with_workspace(k, p.workspaces[k].refilling(s, fill))),
            n,
        );
    }
}

/// When a window begins or ceases to float, every client is told.
pub proof fn everyone_is_told_of_a_float(m: LayoutModel, s: SurfaceId, facts: ClientFacts)
    ensures
        m.toggling_floating(s, facts).1 ==> everyone_is_told(
            m.toggling_floating(s, facts).0,
            m.outbox.len() as int,
        ),
        m.floating_dialog(s, facts).1 ==> everyone_is_told(
            m.floating_dialog(s, facts).0,
            m.outbox.len() as int,
        ),
{
    let n = m.outbox.len() as int;
    match m.pane(Probe::Tiled(s)) {
        Some(i) => {
            let p = m.outputs[i];
            let old = p.current().tile(s);
            let w = Window {
                rect: crate::desktop::float_rect(old.rect, m.limits_of(old, facts), p.bounds),
                ..old
            };
            laying_out_tells_everyone(
                m.with_current(i, p.current().untiling(s).floating_on_top(w)).telling(
                    m.float_message(w, p.area()),
                ),
                n,
            );
        },
        None => match m.pane(Probe::Floating(s)) {
            Some(i) => {
                let ws = m.outputs[i].current();
                let w = ws.float(s);
                laying_out_tells_everyone(
                    m.with_current(i, ws.unfloating(s)).tiling(i, w, Some(w.rect.middle())),
                    n,
                );
            },
            None => {},
        },
    }
    let wish = dialog_wish(m.outputs, facts);
    match m.pane(Probe::PlainTile(s)) {
        Some(i) if wish.is_some() => {
            let p = m.outputs[i];
            let old = p.current().tile(s);
            let w = Window {
                rect: crate::desktop::dialog_rect(
                    wish.unwrap(),
                    m.deco_of(old),
                    m.limits_of(old, facts),
                    p.bounds,
                ),
                ..old
            };
            laying_out_tells_everyone(
                m.with_current(i, p.current().untiling(s).floating_on_top(w)).telling(
                    m.float_message(w, p.area()),
                ),
                n,
            );
        },
        _ => {},
    }
}

/// When an output shows another workspace, or a window moves to one, every
/// client is told.
pub proof fn everyone_is_told_of_a_switch(
    m: LayoutModel,
    i: int,
    s: SurfaceId,
    to: int,
    timing: SlideTiming,
)
    ensures
        m.switching(i, to, timing).1 ==> everyone_is_told(
            m.switching(i, to, timing).0,
            m.outbox.len() as int,
        ),
        m.sending(s, to).1 ==> everyone_is_told(m.sending(s, to).0, m.outbox.len() as int),
{
    let n = m.outbox.len() as int;
    let dst = crate::geometry::smaller(to, m.outputs[i].furthest());
    let p = m.outputs[i].reaching(dst);
    laying_out_tells_everyone(
        m.with_pane(
            i,
            PaneModel {
                active: dst,
                transition: crate::desktop::slide_after(
                    p,
                    dst - p.active,
                    timing,
                    m.deco,
                    m.mode,
                ),
                ..p
            },
        ).tidying(i),
        n,
    );
    match m.pane(Probe::Shown(s)) {
        None => {},
        Some(j) => {
            let there = crate::geometry::smaller(to, m.outputs[j].workspaces.len() as int);
            let q = m.outputs[j].reaching(there);
            laying_out_tells_everyone(
                m.with_pane(j, q.carrying_over(s, there, m.gaps)).tidying(j),
                n,
            );
        },
    }
}

/// When a dragged window is dropped on an output, every client is told.
pub proof fn everyone_is_told_of_a_drop(m: LayoutModel, cursor: Point)
    requires
        m.in_transit.is_some(),
        m.outputs.len() > 0,
    ensures
        everyone_is_told(m.landing_drag(cursor), m.outbox.len() as int),
{
    let t = m.in_transit.unwrap();
    let free = LayoutModel { in_transit: None, ..m };
    let i = free.drop_target(cursor, t.window.rect.middle()).unwrap();
    let put = match t.source {
        DragSource::Tiled => free.tiling(i, t.window, Some(cursor)),
        DragSource::Floating => free.with_current(
            i,
            free.outputs[i].current().floating_on_top(t.window),
        ).telling(m.float_message(t.window, free.outputs[i].area())),
    };
    let here = put.tidying(i);
    let source = t.source_output as int;
    let tidy = if source != i && source < here.outputs.len() {
        here.tidying(source)
    } else {
        here
    };
    laying_out_tells_everyone(tidy, m.outbox.len() as int);
}

/// When the area of an output changes, every client is told.
pub proof fn everyone_is_told_of_an_area(
    m: LayoutModel,
    name: Seq<char>,
    full: Rect,
    work: Rect,
    i: int,
)
    requires
        m.pane(Probe::Named(name)) == Some(i),
        m.outputs[i].full != full || m.outputs[i].bounds != work,
    ensures
        everyone_is_told(m.bounding(name, full, work), m.outbox.len() as int),
{
    laying_out_tells_everyone(
        m.with_pane(i, PaneModel { full, bounds: work, ..m.outputs[i] }),
        m.outbox.len() as int,
    );
}

/// A floating window that is moved or resized is told of its new rectangle,
/// and nobody else is told anything.
pub proof fn moved_floats_are_told(m: LayoutModel, s: SurfaceId, rect: Rect, i: int)
    requires
        m.pane(Probe::Floating(s)) == Some(i),
    ensures
        ({
            let w = Window { rect, ..m.outputs[i].current().float(s) };
            m.moving_float(s, rect).outbox == m.outbox.push(
                floating_configure(w, m.deco.under(m.mode, w.fill), area_of(m.outputs[i])),
            )
        }),
{
}

/// A window that is carried along is told of its new rectangle.
pub proof fn carried_windows_are_told(m: LayoutModel, rect: Rect)
    requires
        m.in_transit matches Some(t) && t.source_output < m.outputs.len(),
    ensures
        ({
            let t = m.in_transit.unwrap();
            let w = Window { rect, ..t.window };
            m.carrying(rect).outbox == m.outbox.push(
                floating_configure(
                    w,
                    m.deco.under(m.mode, w.fill),
                    area_of(m.outputs[t.source_output as int]),
                ),
            )
        }),
{
}

/// While a tile is resized, every tile beside it is told of its new cell.
pub proof fn tiles_are_told_while_one_is_resized(
    m: LayoutModel,
    s: SurfaceId,
    target: Rect,
    edges: ResizeEdges,
    i: int,
    x: int,
)
    requires
        m.valid(),
        m.pane(Probe::Floating(s)).is_none(),
        m.pane(Probe::Tiled(s)) == Some(i),
        0 <= x < tree_windows(m.resizing(s, target, edges).outputs[i].current().tree).len(),
    ensures
        ({
            let after = m.resizing(s, target, edges);
            let w = tree_windows(after.outputs[i].current().tree)[x];
            after.outbox.skip(m.outbox.len() as int).contains(
                tile_configure(w, m.deco.under(m.mode, w.fill), area_of(m.outputs[i])),
            )
        }),
{
    pane_search_is_exact(m.outputs, Probe::Tiled(s), 0);
    let p = m.outputs[i];
    assert(p.valid());
    let after = m.resizing(s, target, edges);
    let ws = p.current().resizing(s, target, edges, m.tile_bounds(i), m.gaps.inner as int);
    assert(after.outputs[i].current() == ws);
    let told = tile_configures(tree_windows(ws.tree), p.area(), m.deco, m.mode);
    assert(after.outbox.skip(m.outbox.len() as int) =~= told);
    let w = tree_windows(ws.tree)[x];
    assert(told[x] == tile_configure(w, m.deco.under(m.mode, w.fill), area_of(m.outputs[i])));
}

/// The output that a dragged window came from is tidied when the window is
/// dropped on another one: its list of workspaces ends with an empty one.
pub proof fn drops_leave_tidy_outputs(m: LayoutModel, cursor: Point, i: int, j: int)
    requires
        m.valid(),
        m.in_transit matches Some(t) && t.source_output as int == j,
        0 <= j < m.outputs.len(),
        m.pane(Probe::At(cursor)) == Some(i),
    ensures
        m.landing_drag(cursor).outputs[j].workspaces.last().is_empty(),
        m.landing_drag(cursor).outputs[i].workspaces.last().is_empty(),
{
    pane_search_is_exact(m.outputs, Probe::At(cursor), 0);
    let t = m.in_transit.unwrap();
    let free = LayoutModel { in_transit: None, ..m };
    let put = match t.source {
        DragSource::Tiled => free.tiling(i, t.window, Some(cursor)),
        DragSource::Floating => free.with_current(
            i,
            free.outputs[i].current().floating_on_top(t.window),
        ).telling(m.float_message(t.window, free.outputs[i].area())),
    };
    assert(m.outputs[i].valid());
    assert(m.outputs[j].valid());
    assert(put.outputs[i].valid());
    tidied_outputs_end_with_an_empty_workspace(put.outputs[i]);
    if j != i {
        assert(put.outputs[j] == m.outputs[j]);
        tidied_outputs_end_with_an_empty_workspace(put.outputs[j]);
    }
}

// ---- Finding windows

proof fn fullscreen_search(ws: Seq<Window>, from: int)
    requires
        0 <= from,
    ensures
        match first_fullscreen(ws, from) {
            None => forall|i: int| from <= i < ws.len() ==> (#[trigger] ws[i]).fill != FillMode::Fullscreen,
            Some(w) => w.fill == FillMode::Fullscreen && exists|i: int|
                from <= i < ws.len() && #[trigger] ws[i] == w && forall|x: int|
                    from <= x < i ==> (#[trigger] ws[x]).fill != FillMode::Fullscreen,
        },
    decreases ws.len() - from,
{
    if from < ws.len() {
        if ws[from].fill == FillMode::Fullscreen {
            assert(ws[from] == ws[from]);
        } else {
            fullscreen_search(ws, from + 1);
        }
    }
}

/// A workspace has a fullscreen window exactly where one of its windows is; a
/// floating one before a tile.
pub proof fn fullscreen_windows_are_found(ws: WorkspaceModel)
    ensures
        match ws.fullscreen() {
            None => (forall|i: int|
                0 <= i < ws.floating.len() ==> (#[trigger] ws.floating[i]).fill
                    != FillMode::Fullscreen) && (forall|i: int|
                0 <= i < tree_windows(ws.tree).len() ==> (#[trigger] tree_windows(ws.tree)[i]).fill
                    != FillMode::Fullscreen),
            Some(w) => {
                &&& w.fill == FillMode::Fullscreen
                &&& {
                    ||| exists|i: int| 0 <= i < ws.floating.len() && #[trigger] ws.floating[i] == w
                    ||| {
                        &&& forall|i: int|
                            0 <= i < ws.floating.len() ==> (#[trigger] ws.floating[i]).fill
                                != FillMode::Fullscreen
                        &&& exists|i: int|
                            0 <= i < tree_windows(ws.tree).len() && #[trigger] tree_windows(
                                ws.tree,
                            )[i] == w
                    }
                }
            },
        },
{
    fullscreen_search(ws.floating, 0);
    fullscreen_search(tree_windows(ws.tree), 0);
}

/// The window that is found of a surface is one of it.
pub proof fn found_windows_are_of_the_surface(m: LayoutModel, s: SurfaceId)
    ensures
        m.window_of(s) matches Some(w) ==> w.id() == s,
        m.role_of(s) matches Some(r) ==> r.id() == s,
{
    if m.pane(Probe::Held(s)).is_some() {
        pane_search_is_exact(m.outputs, Probe::Held(s), 0);
        let p = m.outputs[m.pane(Probe::Held(s)).unwrap()];
        workspace_search_is_exact(p.workspaces, s, 0);
        let ws = p.workspaces[p.home(s)];
        search_is_exact(ws.floating, s, 0);
        if ws.tree.is_some() {
            tree_search_agrees_with_leaves(ws.tree.unwrap(), s);
            search_is_exact(tree_windows(ws.tree), s, 0);
        }
    }
}

/// A window is found wherever it is: floating or as a tile, on any workspace
/// of any output, or in transit.
pub proof fn windows_are_found_wherever_they_are(m: LayoutModel, s: SurfaceId, j: int, k: int, i: int)
    ensures
        m.in_transit matches Some(t) && t.window.id() == s ==> m.window_of(s).is_some(),
        0 <= j < m.outputs.len() && 0 <= k < m.outputs[j].workspaces.len() && 0 <= i
            < m.outputs[j].workspaces[k].windows().len()
            && m.outputs[j].workspaces[k].windows()[i].id() == s ==> m.window_of(s).is_some()
            && m.role_of(s).is_some(),
{
    if 0 <= j < m.outputs.len() && 0 <= k < m.outputs[j].workspaces.len() && 0 <= i
        < m.outputs[j].workspaces[k].windows().len()
        && m.outputs[j].workspaces[k].windows()[i].id() == s {
        let p = m.outputs[j];
        let ws = p.workspaces[k];
        let tiles = tree_windows(ws.tree);
        search_is_exact(ws.floating, s, 0);
        if i < tiles.len() {
            assert(ws.windows()[i] == tiles[i]);
            tree_search_agrees_with_leaves(ws.tree.unwrap(), s);
            assert(tiles[i].id() == s);
        } else {
            assert(ws.windows()[i] == ws.floating[i - tiles.len()]);
            assert(ws.floating[i - tiles.len()].id() == s);
        }
        assert(ws.shows(s));
        workspace_search_is_exact(p.workspaces, s, 0);
        assert(p.meets(Probe::Held(s)));
        pane_search_is_exact(m.outputs, Probe::Held(s), 0);
    }
}

/// A surface without a window has none to be found, and closing it changes
/// nothing.
pub proof fn nothing_is_found_of_others(m: LayoutModel, s: SurfaceId)
    requires
        m.in_transit matches Some(t) ==> t.window.id() != s,
        forall|j: int, k: int|
            0 <= j < m.outputs.len() && 0 <= k < m.outputs[j].workspaces.len() ==> !(
            #[trigger] m.outputs[j].workspaces[k]).shows(s),
    ensures
        m.window_of(s).is_none(),
        m.role_of(s).is_none(),
        m.removing(s) == m,
{
    pane_search_is_exact(m.outputs, Probe::Held(s), 0);
    match m.pane(Probe::Held(s)) {
        None => {},
        Some(j) => {
            workspace_search_is_exact(m.outputs[j].workspaces, s, 0);
            let k = m.outputs[j].home(s);
            assert(m.outputs[j].workspaces[k].shows(s));
        },
    }
}

/// A window in transit that closes is gone, and the others stay as they are.
pub proof fn windows_can_close_in_transit(m: LayoutModel, s: SurfaceId)
    requires
        m.in_transit matches Some(t) && t.window.id() == s,
        m.pane(Probe::Held(s)).is_none(),
    ensures
        m.removing(s).in_transit.is_none(),
        m.removing(s).outputs == m.outputs,
{
}

/// A window is hidden where it is on a workspace that its output does not
/// show; one that is only on workspaces on show is not.
pub proof fn windows_on_other_workspaces_are_hidden(m: LayoutModel, s: SurfaceId, j: int, k: int)
    ensures
        0 <= j < m.outputs.len() && 0 <= k < m.outputs[j].workspaces.len() && k
            != m.outputs[j].active && m.outputs[j].workspaces[k].shows(s) ==> m.hides(s),
        (forall|x: int, y: int|
            0 <= x < m.outputs.len() && 0 <= y < m.outputs[x].workspaces.len() && (
            #[trigger] m.outputs[x].workspaces[y]).shows(s) ==> y == m.outputs[x].active)
            ==> !m.hides(s),
{
}

/// A young slide that is steered on keeps its direction and goes further or
/// less far; one that is steered back to where it began ends, and one that is
/// steered past it starts over. So does one that is not young.
pub proof fn slides_are_steered_by_the_switch(steps: i32, delta: int)
    requires
        i32::MIN <= steps + delta <= i32::MAX,
    ensures
        steps > 0 && steps + delta > 0 ==> slide_answer(Some((steps, true)), delta)
            == SlideAction::Aim((steps + delta) as i32),
        steps < 0 && steps + delta < 0 ==> slide_answer(Some((steps, true)), delta)
            == SlideAction::Aim((steps + delta) as i32),
        steps + delta == 0 ==> slide_answer(Some((steps, true)), delta) == SlideAction::Drop,
        steps >= 0 && steps + delta < 0 ==> slide_answer(Some((steps, true)), delta)
            == SlideAction::Fresh,
        steps <= 0 && steps + delta > 0 ==> slide_answer(Some((steps, true)), delta)
            == SlideAction::Fresh,
        slide_answer(Some((steps, false)), delta) == SlideAction::Fresh,
        slide_answer(None, delta) == SlideAction::Fresh,
{
}

// ---- Outputs that change

/// An output that gets another size or work area has it, and no other changes
/// its own. The name and the workspace on show stay.
pub proof fn outputs_get_the_area_they_are_given(
    m: LayoutModel,
    name: Seq<char>,
    full: Rect,
    work: Rect,
    i: int,
    j: int,
)
    requires
        m.pane(Probe::Named(name)) == Some(i),
        0 <= j < m.outputs.len(),
        j != i,
    ensures
        ({
            let after = m.bounding(name, full, work);
            &&& after.outputs.len() == m.outputs.len()
            &&& after.outputs[i].full == full
            &&& after.outputs[i].bounds == work
            &&& after.outputs[i].name == m.outputs[i].name
            &&& after.outputs[i].active == m.outputs[i].active
            &&& after.outputs[j].full == m.outputs[j].full
            &&& after.outputs[j].bounds == m.outputs[j].bounds
            &&& after.outputs[j].name == m.outputs[j].name
        }),
{
    pane_search_is_exact(m.outputs, Probe::Named(name), 0);
}

// ---- Dialogs

/// A window is a dialog where it says so, where it belongs to another window,
/// or where it has one size only; any other is none.
pub proof fn dialogs_are_known_by_what_they_say(
    parent: bool,
    declared: bool,
    modal: bool,
    min: Size,
    max: Size,
    geometry: Option<Size>,
    least: Option<Size>,
    greatest: Option<Size>,
    configured: Size,
)
    ensures
        (ClientFacts::Xdg {
            has_parent: parent,
            declared_dialog: declared,
            min,
            max,
            geometry,
        }).is_dialog() <==> parent || declared || (min.w > 0 && min.h > 0 && min.w == max.w && min.h
            == max.h),
        (ClientFacts::X11 {
            transient: parent,
            dialog_type: declared,
            modal,
            least,
            greatest,
            configured,
        }).is_dialog() <==> parent || declared || modal || (least.is_some() && greatest == least),
{
}

/// A dialog is as large as it has drawn itself or asked to be; one that has
/// not is as large as it can only be, and one that can be anything has no size
/// yet.
pub proof fn dialogs_have_the_size_they_chose(facts: ClientFacts, drawn: Size)
    requires
        facts.is_dialog(),
        facts matches ClientFacts::Xdg {
            has_parent: _,
            declared_dialog: _,
            min: _,
            max: _,
            geometry,
        } ==> (geometry matches Some(g) ==> g == drawn) && (geometry.is_none() ==> drawn.w == 0),
        facts matches ClientFacts::X11 {
            transient: _,
            dialog_type: _,
            modal: _,
            least: _,
            greatest: _,
            configured,
        } ==> configured == drawn,
    ensures
        drawn.w > 0 && drawn.h > 0 ==> facts.dialog_size() == Some(drawn),
        !(drawn.w > 0 && drawn.h > 0) && facts.fixed() ==> facts.dialog_size() == Some(
            facts.hints().0,
        ),
        !(drawn.w > 0 && drawn.h > 0) && !facts.fixed() ==> (facts.dialog_size() matches Some(s)
            && s.w == 0 && s.h == 0),
{
}

/// A dialog floats unless it has exactly the size of an output; a window that
/// is no dialog does not.
pub proof fn dialogs_of_an_outputs_size_tile(panes: Seq<PaneModel>, facts: ClientFacts, j: int)
    ensures
        !facts.is_dialog() ==> dialog_wish(panes, facts).is_none(),
        facts.dialog_size() matches Some(s) ==> {
            &&& s.w > 0 && 0 <= j < panes.len() && panes[j].full.size == s ==> dialog_wish(
                panes,
                facts,
            ).is_none()
            &&& (forall|x: int| 0 <= x < panes.len() ==> (#[trigger] panes[x]).full.size != s)
                ==> dialog_wish(panes, facts) == Some(s)
            &&& s.w <= 0 ==> dialog_wish(panes, facts) == Some(s)
        },
{
}

} // verus!
