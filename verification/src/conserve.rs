//! Windows are neither lost nor doubled: how many windows of a role the
//! desktop has, and that only opening and closing change it.

use vstd::prelude::*;

use crate::desktop::{
    kept, pane_search_is_exact, tiling_all, tree_windows, without, workspace_search_is_exact,
    workspaces_windows, ClientFacts, Gaps, LayoutModel, PaneModel, Probe, SlideTiming,
    WorkspaceModel,
};
use crate::geometry::{Point, Rect};
use crate::tree::{
    insertion_adds_one_leaf, leaves, placed, placing_keeps_the_windows, position_of, pruned,
    refilled, removal_takes_one_leaf, resized, resizing_keeps_the_leaves, search_is_exact,
    tree_search_agrees_with_leaves, Node, ResizeEdges,
};
use crate::window::{FillMode, SurfaceId, Window, WindowSurface};

verus! {

/// One for a window of the role, zero for another.
pub open spec fn one_if(w: Window, role: WindowSurface) -> int {
    if w.toplevel == role {
        1
    } else {
        0
    }
}

/// How many of the windows have the role.
pub open spec fn times(ws: Seq<Window>, role: WindowSurface) -> int
    decreases ws.len(),
{
    if ws.len() == 0 {
        0
    } else {
        times(ws.drop_last(), role) + one_if(ws.last(), role)
    }
}

/// How many windows of the role the first `n` workspaces have.
pub open spec fn times_in(ws: Seq<WorkspaceModel>, role: WindowSurface, n: int) -> int
    decreases n,
{
    if n <= 0 {
        0
    } else {
        times_in(ws, role, n - 1) + times(ws[n - 1].windows(), role)
    }
}

/// How many windows of the role the first `n` outputs have.
pub open spec fn times_on(ps: Seq<PaneModel>, role: WindowSurface, n: int) -> int
    decreases n,
{
    if n <= 0 {
        0
    } else {
        times_on(ps, role, n - 1) + pane_times(ps[n - 1], role)
    }
}

/// How many windows of the role an output has.
pub open spec fn pane_times(p: PaneModel, role: WindowSurface) -> int {
    times_in(p.workspaces, role, p.workspaces.len() as int)
}

/// How many windows of the role the desktop has.
pub open spec fn total(m: LayoutModel, role: WindowSurface) -> int {
    times_on(m.outputs, role, m.outputs.len() as int) + match m.in_transit {
        None => 0,
        Some(t) => one_if(t.window, role),
    }
}

proof fn times_concat(a: Seq<Window>, b: Seq<Window>, role: WindowSurface)
    ensures
        times(a + b, role) == times(a, role) + times(b, role),
    decreases b.len(),
{
    if b.len() == 0 {
        assert(a + b =~= a);
    } else {
        assert((a + b).drop_last() =~= a + b.drop_last());
        times_concat(a, b.drop_last(), role);
    }
}

proof fn times_single(w: Window, role: WindowSurface)
    ensures
        times(seq![w], role) == one_if(w, role),
{
    assert(seq![w].drop_last() =~= Seq::<Window>::empty());
    reveal_with_fuel(times, 2);
}

proof fn times_insert(ws: Seq<Window>, at: int, w: Window, role: WindowSurface)
    requires
        0 <= at <= ws.len(),
    ensures
        times(ws.insert(at, w), role) == times(ws, role) + one_if(w, role),
{
    let (a, b) = (ws.subrange(0, at), ws.subrange(at, ws.len() as int));
    assert(ws =~= a + b);
    assert(ws.insert(at, w) =~= a + (seq![w] + b));
    times_concat(a, b, role);
    times_concat(a, seq![w] + b, role);
    times_concat(seq![w], b, role);
    times_single(w, role);
}

proof fn times_remove(ws: Seq<Window>, at: int, role: WindowSurface)
    requires
        0 <= at < ws.len(),
    ensures
        times(ws.remove(at), role) == times(ws, role) - one_if(ws[at], role),
{
    assert(ws.remove(at).insert(at, ws[at]) =~= ws);
    times_insert(ws.remove(at), at, ws[at], role);
}

proof fn times_same_roles(a: Seq<Window>, b: Seq<Window>, role: WindowSurface)
    requires
        a.len() == b.len(),
        forall|i: int| 0 <= i < a.len() ==> (#[trigger] a[i]).toplevel == b[i].toplevel,
    ensures
        times(a, role) == times(b, role),
    decreases a.len(),
{
    if a.len() > 0 {
        assert(a.last().toplevel == b.last().toplevel);
        assert forall|i: int| 0 <= i < a.drop_last().len() implies (
        #[trigger] a.drop_last()[i]).toplevel == b.drop_last()[i].toplevel by {
            assert(a[i].toplevel == b[i].toplevel);
        }
        times_same_roles(a.drop_last(), b.drop_last(), role);
    }
}

proof fn times_push(ws: Seq<Window>, w: Window, role: WindowSurface)
    ensures
        times(ws.push(w), role) == times(ws, role) + one_if(w, role),
{
    assert(ws.push(w).drop_last() =~= ws);
}

proof fn times_without(ws: Seq<Window>, surface: SurfaceId, role: WindowSurface)
    requires
        role.id() != surface,
    ensures
        times(without(ws, surface), role) == times(ws, role),
    decreases ws.len(),
{
    if ws.len() > 0 {
        times_without(ws.drop_last(), surface, role);
        if ws.last().id() != surface {
            times_push(without(ws.drop_last(), surface), ws.last(), role);
        }
    }
}

proof fn count_split(ws: WorkspaceModel, role: WindowSurface)
    ensures
        times(ws.windows(), role) == times(tree_windows(ws.tree), role) + times(
            ws.floating,
            role,
        ),
{
    times_concat(tree_windows(ws.tree), ws.floating, role);
}

proof fn count_tiling(
    ws: WorkspaceModel,
    w: Window,
    bounds: Rect,
    cursor: Option<Point>,
    inner: int,
    role: WindowSurface,
)
    ensures
        times(ws.tiling(w, bounds, cursor, inner).windows(), role) == times(ws.windows(), role)
            + one_if(w, role),
{
    count_split(ws, role);
    count_split(ws.tiling(w, bounds, cursor, inner), role);
    match ws.tree {
        None => {
            times_single(w, role);
            assert(leaves(Node::Leaf(w)) =~= seq![w]);
        },
        Some(root) => {
            let at = insertion_adds_one_leaf(root, w, bounds, cursor, inner);
            times_insert(leaves(root), at, w, role);
        },
    }
}

proof fn count_untiling(ws: WorkspaceModel, surface: SurfaceId, role: WindowSurface)
    requires
        ws.tiles(surface),
    ensures
        times(ws.untiling(surface).windows(), role) == times(ws.windows(), role) - one_if(
            ws.tile(surface),
            role,
        ),
        ws.tile(surface).id() == surface,
{
    count_split(ws, role);
    count_split(ws.untiling(surface), role);
    let t = ws.tree.unwrap();
    removal_takes_one_leaf(t, surface);
    tree_search_agrees_with_leaves(t, surface);
    search_is_exact(leaves(t), surface, 0);
    let i = position_of(leaves(t), surface).unwrap();
    times_remove(leaves(t), i, role);
    match pruned(t, surface) {
        Some(_) => {},
        None => {
            assert(leaves(t).remove(i) =~= Seq::<Window>::empty());
        },
    }
}

proof fn count_floating(ws: WorkspaceModel, w: Window, role: WindowSurface)
    ensures
        times(ws.floating_on_top(w).windows(), role) == times(ws.windows(), role) + one_if(w, role),
{
    count_split(ws, role);
    count_split(ws.floating_on_top(w), role);
    times_push(ws.floating, w, role);
}

proof fn count_unfloating(ws: WorkspaceModel, surface: SurfaceId, role: WindowSurface)
    requires
        ws.floats(surface),
    ensures
        times(ws.unfloating(surface).windows(), role) == times(ws.windows(), role) - one_if(
            ws.float(surface),
            role,
        ),
{
    count_split(ws, role);
    count_split(ws.unfloating(surface), role);
    search_is_exact(ws.floating, surface, 0);
    times_remove(ws.floating, position_of(ws.floating, surface).unwrap(), role);
}

proof fn count_refloating(ws: WorkspaceModel, surface: SurfaceId, w: Window, role: WindowSurface)
    requires
        ws.floats(surface),
        w.toplevel == ws.float(surface).toplevel,
    ensures
        times(ws.refloating(surface, w).windows(), role) == times(ws.windows(), role),
{
    count_split(ws, role);
    count_split(ws.refloating(surface, w), role);
    search_is_exact(ws.floating, surface, 0);
    times_same_roles(ws.refloating(surface, w).floating, ws.floating, role);
}

proof fn refilled_keeps_roles(node: Node, surface: SurfaceId, fill: FillMode)
    ensures
        leaves(refilled(node, surface, fill)).len() == leaves(node).len(),
        forall|i: int|
            0 <= i < leaves(node).len() ==> (#[trigger] leaves(
                refilled(node, surface, fill),
            )[i]).toplevel == leaves(node)[i].toplevel,
    decreases node,
{
    match node {
        Node::Leaf(_) => {},
        Node::Split { axis: _, ratio: _, first, second } => {
            refilled_keeps_roles(*first, surface, fill);
            refilled_keeps_roles(*second, surface, fill);
        },
    }
}

proof fn count_refilling(ws: WorkspaceModel, surface: SurfaceId, fill: FillMode, role: WindowSurface)
    requires
        ws.shows(surface),
    ensures
        times(ws.refilling(surface, fill).windows(), role) == times(ws.windows(), role),
{
    if ws.floats(surface) {
        count_refloating(ws, surface, Window { fill, ..ws.float(surface) }, role);
    } else {
        count_split(ws, role);
        count_split(ws.refilling(surface, fill), role);
        let t = ws.tree.unwrap();
        refilled_keeps_roles(t, surface, fill);
        times_same_roles(leaves(refilled(t, surface, fill)), leaves(t), role);
    }
}

proof fn count_dropping(ws: WorkspaceModel, surface: SurfaceId, role: WindowSurface)
    requires
        role.id() != surface,
    ensures
        times(ws.dropping(surface).windows(), role) == times(ws.windows(), role),
{
    if ws.tiles(surface) {
        count_untiling(ws, surface, role);
    } else {
        count_split(ws, role);
        count_split(ws.dropping(surface), role);
        times_without(ws.floating, surface, role);
    }
}

proof fn count_laid_out(ws: WorkspaceModel, bounds: Rect, inner: int, role: WindowSurface)
    ensures
        times(ws.laid_out(bounds, inner).windows(), role) == times(ws.windows(), role),
        ws.laid_out(bounds, inner).is_empty() == ws.is_empty(),
{
    count_split(ws, role);
    count_split(ws.laid_out(bounds, inner), role);
    if let Some(t) = ws.tree {
        placing_keeps_the_windows(t, bounds, inner);
        times_same_roles(leaves(placed(t, bounds, inner)), leaves(t), role);
    }
}

proof fn count_resizing(
    ws: WorkspaceModel,
    surface: SurfaceId,
    target: Rect,
    edges: ResizeEdges,
    bounds: Rect,
    inner: int,
    role: WindowSurface,
)
    requires
        ws.tiles(surface),
    ensures
        times(ws.resizing(surface, target, edges, bounds, inner).windows(), role) == times(
            ws.windows(),
            role,
        ),
{
    count_split(ws, role);
    count_split(ws.resizing(surface, target, edges, bounds, inner), role);
    let t = ws.tree.unwrap();
    resizing_keeps_the_leaves(t, bounds, inner, surface, target, edges, false, false);
    let n = resized(t, bounds, inner, surface, target, edges, false, false).node;
    placing_keeps_the_windows(n, bounds, inner);
    times_same_roles(leaves(placed(n, bounds, inner)), leaves(t), role);
}

proof fn count_tiling_all(
    ws: WorkspaceModel,
    windows: Seq<Window>,
    bounds: Rect,
    inner: int,
    n: int,
    role: WindowSurface,
)
    requires
        0 <= n <= windows.len(),
    ensures
        times(tiling_all(ws, windows, bounds, inner, n).windows(), role) == times(
            ws.windows(),
            role,
        ) + times(windows.take(n), role),
    decreases n,
{
    if n > 0 {
        count_tiling_all(ws, windows, bounds, inner, n - 1, role);
        let w = Window { fill: FillMode::Normal, ..windows[n - 1] };
        count_tiling(
            tiling_all(ws, windows, bounds, inner, n - 1),
            w,
            bounds,
            None,
            inner,
            role,
        );
        assert(windows.take(n).drop_last() =~= windows.take(n - 1));
    } else {
        assert(windows.take(n) =~= Seq::<Window>::empty());
    }
}

proof fn times_in_update(
    ws: Seq<WorkspaceModel>,
    k: int,
    w: WorkspaceModel,
    role: WindowSurface,
    n: int,
)
    requires
        0 <= k < ws.len(),
        0 <= n <= ws.len(),
    ensures
        times_in(ws.update(k, w), role, n) == times_in(ws, role, n) + (if k < n {
            times(w.windows(), role) - times(ws[k].windows(), role)
        } else {
            0
        }),
    decreases n,
{
    if n > 0 {
        times_in_update(ws, k, w, role, n - 1);
    }
}

proof fn times_in_prefix(
    a: Seq<WorkspaceModel>,
    b: Seq<WorkspaceModel>,
    role: WindowSurface,
    n: int,
)
    requires
        0 <= n <= a.len(),
        n <= b.len(),
        forall|i: int|
            0 <= i < n ==> times((#[trigger] a[i]).windows(), role) == times(b[i].windows(), role),
    ensures
        times_in(a, role, n) == times_in(b, role, n),
    decreases n,
{
    if n > 0 {
        times_in_prefix(a, b, role, n - 1);
        assert(times(a[n - 1].windows(), role) == times(b[n - 1].windows(), role));
    }
}

proof fn times_in_push(ws: Seq<WorkspaceModel>, w: WorkspaceModel, role: WindowSurface)
    ensures
        times_in(ws.push(w), role, (ws.len() + 1) as int) == times_in(ws, role, ws.len() as int) + times(
            w.windows(),
            role,
        ),
{
    times_in_prefix(ws.push(w), ws, role, ws.len() as int);
}

proof fn empty_counts_nothing(ws: WorkspaceModel, role: WindowSurface)
    requires
        ws.is_empty(),
    ensures
        times(ws.windows(), role) == 0,
{
    assert(ws.windows() =~= Seq::<Window>::empty());
}

proof fn kept_counts_the_same(ws: Seq<WorkspaceModel>, active: int, role: WindowSurface, n: int)
    requires
        0 <= n <= ws.len(),
    ensures
        times_in(kept(ws, active, n), role, kept(ws, active, n).len() as int) == times_in(
            ws,
            role,
            n,
        ),
    decreases n,
{
    if n > 0 {
        kept_counts_the_same(ws, active, role, n - 1);
        if n - 1 == active || !ws[n - 1].is_empty() {
            times_in_push(kept(ws, active, n - 1), ws[n - 1], role);
        } else {
            empty_counts_nothing(ws[n - 1], role);
        }
    }
}

proof fn pane_update(p: PaneModel, k: int, w: WorkspaceModel, role: WindowSurface)
    requires
        0 <= k < p.workspaces.len(),
    ensures
        pane_times(p.with_workspace(k, w), role) == pane_times(p, role) + times(w.windows(), role)
            - times(p.workspaces[k].windows(), role),
{
    times_in_update(p.workspaces, k, w, role, p.workspaces.len() as int);
}

/// Tidying the workspaces of an output loses no window.
pub proof fn tidying_loses_no_window(p: PaneModel, role: WindowSurface)
    ensures
        pane_times(p.tidied(), role) == pane_times(p, role),
{
    let n = p.workspaces.len() as int;
    kept_counts_the_same(p.workspaces, p.active, role, n);
    let k = kept(p.workspaces, p.active, n);
    if !(k.len() > 0 && k.last().is_empty()) {
        times_in_push(k, WorkspaceModel::blank(), role);
        empty_counts_nothing(WorkspaceModel::blank(), role);
    }
}

proof fn pane_laid_out(p: PaneModel, gaps: Gaps, role: WindowSurface)
    ensures
        pane_times(p.laid_out(gaps), role) == pane_times(p, role),
{
    let n = p.workspaces.len() as int;
    let b = crate::tree::inside_gap(p.bounds, gaps.outer as int);
    let q = p.laid_out(gaps).workspaces;
    assert forall|i: int| 0 <= i < n implies times((#[trigger] q[i]).windows(), role) == times(
        p.workspaces[i].windows(),
        role,
    ) by {
        count_laid_out(p.workspaces[i], b, gaps.inner as int, role);
    }
    times_in_prefix(q, p.workspaces, role, n);
}

proof fn pane_reaching(p: PaneModel, dst: int, role: WindowSurface)
    ensures
        pane_times(p.reaching(dst), role) == pane_times(p, role),
{
    times_in_push(p.workspaces, WorkspaceModel::blank(), role);
    empty_counts_nothing(WorkspaceModel::blank(), role);
}

proof fn pane_windows_count(ws: Seq<WorkspaceModel>, role: WindowSurface, n: int)
    requires
        0 <= n <= ws.len(),
    ensures
        times(workspaces_windows(ws, n), role) == times_in(ws, role, n),
    decreases n,
{
    if n > 0 {
        pane_windows_count(ws, role, n - 1);
        times_concat(workspaces_windows(ws, n - 1), ws[n - 1].windows(), role);
    }
}

proof fn times_on_update(ps: Seq<PaneModel>, k: int, p: PaneModel, role: WindowSurface, n: int)
    requires
        0 <= k < ps.len(),
        0 <= n <= ps.len(),
    ensures
        times_on(ps.update(k, p), role, n) == times_on(ps, role, n) + (if k < n {
            pane_times(p, role) - pane_times(ps[k], role)
        } else {
            0
        }),
    decreases n,
{
    if n > 0 {
        times_on_update(ps, k, p, role, n - 1);
    }
}

proof fn times_on_prefix(a: Seq<PaneModel>, b: Seq<PaneModel>, role: WindowSurface, n: int)
    requires
        0 <= n <= a.len(),
        n <= b.len(),
        forall|i: int| 0 <= i < n ==> pane_times(#[trigger] a[i], role) == pane_times(b[i], role),
    ensures
        times_on(a, role, n) == times_on(b, role, n),
    decreases n,
{
    if n > 0 {
        times_on_prefix(a, b, role, n - 1);
        assert(pane_times(a[n - 1], role) == pane_times(b[n - 1], role));
    }
}

proof fn times_on_remove(ps: Seq<PaneModel>, k: int, role: WindowSurface, n: int)
    requires
        0 <= k < n <= ps.len(),
    ensures
        times_on(ps.remove(k), role, n - 1) == times_on(ps, role, n) - pane_times(ps[k], role),
    decreases n,
{
    if n - 1 == k {
        times_on_prefix(ps.remove(k), ps, role, k);
    } else {
        times_on_remove(ps, k, role, n - 1);
    }
}

proof fn total_with_pane(m: LayoutModel, i: int, p: PaneModel, role: WindowSurface)
    requires
        0 <= i < m.outputs.len(),
    ensures
        total(m.with_pane(i, p), role) == total(m, role) + pane_times(p, role) - pane_times(
            m.outputs[i],
            role,
        ),
{
    times_on_update(m.outputs, i, p, role, m.outputs.len() as int);
}

proof fn total_with_current(m: LayoutModel, i: int, w: WorkspaceModel, role: WindowSurface)
    requires
        m.valid(),
        0 <= i < m.outputs.len(),
    ensures
        total(m.with_current(i, w), role) == total(m, role) + times(w.windows(), role) - times(
            m.outputs[i].current().windows(),
            role,
        ),
        m.with_current(i, w).valid(),
{
    assert(m.outputs[i].valid());
    total_with_pane(m, i, m.outputs[i].with_current(w), role);
    pane_update(m.outputs[i], m.outputs[i].active, w, role);
    let n = m.with_current(i, w);
    assert forall|k: int| 0 <= k < n.outputs.len() implies (#[trigger] n.outputs[k]).valid() by {
        assert(m.outputs[k].valid());
    }
}

/// Laying everything out loses no window.
pub proof fn reflow_loses_no_window(m: LayoutModel, role: WindowSurface)
    ensures
        total(m.reflowed(), role) == total(m, role),
{
    let n = m.outputs.len() as int;
    let q = m.reflowed().outputs;
    assert forall|i: int| 0 <= i < n implies pane_times(#[trigger] q[i], role) == pane_times(
        m.outputs[i],
        role,
    ) by {
        pane_laid_out(m.outputs[i], m.gaps, role);
    }
    times_on_prefix(q, m.outputs, role, n);
}

proof fn tidy_total(m: LayoutModel, i: int, role: WindowSurface)
    requires
        0 <= i < m.outputs.len(),
    ensures
        total(m.tidying(i), role) == total(m, role),
{
    tidying_loses_no_window(m.outputs[i], role);
    total_with_pane(m, i, m.outputs[i].tidied(), role);
}

proof fn tiling_total(m: LayoutModel, i: int, w: Window, cursor: Option<Point>, role: WindowSurface)
    requires
        m.valid(),
        0 <= i < m.outputs.len(),
    ensures
        total(m.tiling(i, w, cursor), role) == total(m, role) + one_if(w, role),
{
    let ws = m.outputs[i].current();
    count_tiling(ws, w, m.tile_bounds(i), cursor, m.gaps.inner as int, role);
    total_with_current(
        m,
        i,
        ws.tiling(w, m.tile_bounds(i), cursor, m.gaps.inner as int),
        role,
    );
}

/// Opening a window adds it once and no other, where there is an output.
pub proof fn opening_adds_one_window(
    m: LayoutModel,
    toplevel: WindowSurface,
    cursor: Option<Point>,
    role: WindowSurface,
)
    requires
        m.valid(),
    ensures
        total(m.inserting(toplevel, cursor), role) == total(m, role) + (if m.outputs.len() > 0
            && role == toplevel {
            1int
        } else {
            0int
        }),
{
    if let Some(c) = cursor {
        pane_search_is_exact(m.outputs, Probe::At(c), 0);
    }
    if let Some(i) = m.landing(cursor) {
        let w = Window { toplevel, rect: m.tile_bounds(i), fill: FillMode::Normal };
        tiling_total(m, i, w, cursor, role);
        reflow_loses_no_window(m.tiling(i, w, cursor), role);
    }
}

/// Closing a window leaves the windows of every other surface.
pub proof fn closing_leaves_the_others(m: LayoutModel, surface: SurfaceId, role: WindowSurface)
    requires
        m.valid(),
        role.id() != surface,
    ensures
        total(m.removing(surface), role) == total(m, role),
{
    pane_search_is_exact(m.outputs, Probe::Held(surface), 0);
    if let Some(i) = m.pane(Probe::Held(surface)) {
        let p = m.outputs[i];
        workspace_search_is_exact(p.workspaces, surface, 0);
        let k = p.home(surface);
        let q = p.with_workspace(k, p.workspaces[k].dropping(surface));
        count_dropping(p.workspaces[k], surface, role);
        pane_update(p, k, p.workspaces[k].dropping(surface), role);
        total_with_pane(m, i, q, role);
        tidy_total(m.with_pane(i, q), i, role);
        reflow_loses_no_window(m.with_pane(i, q).tidying(i), role);
    }
}

/// Floating a tile or tiling a floating window keeps every window.
pub proof fn toggling_floating_loses_no_window(
    m: LayoutModel,
    surface: SurfaceId,
    facts: ClientFacts,
    role: WindowSurface,
)
    requires
        m.valid(),
    ensures
        total(m.toggling_floating(surface, facts).0, role) == total(m, role),
{
    pane_search_is_exact(m.outputs, Probe::Tiled(surface), 0);
    pane_search_is_exact(m.outputs, Probe::Floating(surface), 0);
    if let Some(i) = m.pane(Probe::Tiled(surface)) {
        let old = m.outputs[i].current().tile(surface);
        let w = Window {
            rect: crate::desktop::float_rect(
                old.rect,
                m.limits_of(old, facts),
                m.outputs[i].bounds,
            ),
            ..old
        };
        refloating_total(m, i, surface, w, role);
    } else if let Some(i) = m.pane(Probe::Floating(surface)) {
        let ws = m.outputs[i].current();
        let w = ws.float(surface);
        count_unfloating(ws, surface, role);
        total_with_current(m, i, ws.unfloating(surface), role);
        let left = m.with_current(i, ws.unfloating(surface));
        tiling_total(left, i, w, Some(w.rect.middle()), role);
        reflow_loses_no_window(left.tiling(i, w, Some(w.rect.middle())), role);
    }
}

proof fn refloating_total(m: LayoutModel, i: int, surface: SurfaceId, w: Window, role: WindowSurface)
    requires
        m.valid(),
        0 <= i < m.outputs.len(),
        m.outputs[i].current().tiles(surface),
        w.toplevel == m.outputs[i].current().tile(surface).toplevel,
    ensures
        total(
            m.with_current(
                i,
                m.outputs[i].current().untiling(surface).floating_on_top(w),
            ).telling(m.float_message(w, m.outputs[i].area())).reflowed(),
            role,
        ) == total(m, role),
{
    let ws = m.outputs[i].current();
    count_untiling(ws, surface, role);
    count_floating(ws.untiling(surface), w, role);
    let next = ws.untiling(surface).floating_on_top(w);
    total_with_current(m, i, next, role);
    reflow_loses_no_window(
        m.with_current(i, next).telling(m.float_message(w, m.outputs[i].area())),
        role,
    );
}

/// Floating a dialog keeps every window.
pub proof fn floating_a_dialog_loses_no_window(
    m: LayoutModel,
    surface: SurfaceId,
    facts: ClientFacts,
    role: WindowSurface,
)
    requires
        m.valid(),
    ensures
        total(m.floating_dialog(surface, facts).0, role) == total(m, role),
{
    pane_search_is_exact(m.outputs, Probe::PlainTile(surface), 0);
    let wish = crate::desktop::dialog_wish(m.outputs, facts);
    if let Some(i) = m.pane(Probe::PlainTile(surface)) {
        if wish.is_some() {
            let old = m.outputs[i].current().tile(surface);
            let w = Window {
                rect: crate::desktop::dialog_rect(
                    wish.unwrap(),
                    m.deco_of(old),
                    m.limits_of(old, facts),
                    m.outputs[i].bounds,
                ),
                ..old
            };
            refloating_total(m, i, surface, w, role);
        }
    }
}

/// Lifting a window out for a drag keeps every window.
pub proof fn lifting_loses_no_window(m: LayoutModel, surface: SurfaceId, role: WindowSurface)
    requires
        m.valid(),
    ensures
        total(m.lifting(surface).0, role) == total(m, role),
{
    pane_search_is_exact(m.outputs, Probe::Shown(surface), 0);
    if let Some(i) = m.pane(Probe::Shown(surface)) {
        if m.in_transit.is_none() && !m.is_filled(surface) {
            let ws = m.outputs[i].current();
            let next = if ws.tiles(surface) {
                count_untiling(ws, surface, role);
                ws.untiling(surface)
            } else {
                count_unfloating(ws, surface, role);
                ws.unfloating(surface)
            };
            total_with_current(m, i, next, role);
            if ws.tiles(surface) {
                reflow_loses_no_window(
                    LayoutModel {
                        in_transit: Some(
                            crate::desktop::InTransit {
                                window: ws.tile(surface),
                                source: crate::desktop::DragSource::Tiled,
                                source_output: i as usize,
                            },
                        ),
                        ..m.with_current(i, next)
                    },
                    role,
                );
            }
        }
    }
}

/// Dropping a dragged window keeps every window, where there is an output to
/// drop it on.
pub proof fn dropping_loses_no_window(m: LayoutModel, cursor: Point, role: WindowSurface)
    requires
        m.valid(),
        m.outputs.len() > 0,
    ensures
        total(m.landing_drag(cursor), role) == total(m, role),
{
    if let Some(t) = m.in_transit {
        let free = LayoutModel { in_transit: None, ..m };
        pane_search_is_exact(free.outputs, Probe::At(cursor), 0);
        pane_search_is_exact(free.outputs, Probe::At(t.window.rect.middle()), 0);
        let i = free.drop_target(cursor, t.window.rect.middle()).unwrap();
        let put = match t.source {
            crate::desktop::DragSource::Tiled => {
                tiling_total(free, i, t.window, Some(cursor), role);
                free.tiling(i, t.window, Some(cursor))
            },
            crate::desktop::DragSource::Floating => {
                let ws = free.outputs[i].current();
                count_floating(ws, t.window, role);
                total_with_current(free, i, ws.floating_on_top(t.window), role);
                free.with_current(i, ws.floating_on_top(t.window)).telling(
                    m.float_message(t.window, free.outputs[i].area()),
                )
            },
        };
        assert(total(put, role) == total(m, role));
        tidy_total(put, i, role);
        let here = put.tidying(i);
        let source = t.source_output as int;
        if source != i && source < here.outputs.len() {
            tidy_total(here, source, role);
            reflow_loses_no_window(here.tidying(source), role);
        } else {
            reflow_loses_no_window(here, role);
        }
    }
}

/// Changing a fill mode keeps every window.
pub proof fn refilling_loses_no_window(
    m: LayoutModel,
    surface: SurfaceId,
    fill: FillMode,
    role: WindowSurface,
)
    requires
        m.valid(),
    ensures
        total(m.refilling(surface, fill), role) == total(m, role),
{
    if m.in_transit.is_some() && m.in_transit.unwrap().window.id() == surface {
        let t = m.in_transit.unwrap();
        let n = LayoutModel {
            in_transit: Some(
                crate::desktop::InTransit { window: Window { fill, ..t.window }, ..t },
            ),
            ..m
        };
        reflow_loses_no_window(n, role);
    } else {
        pane_search_is_exact(m.outputs, Probe::Held(surface), 0);
        if let Some(i) = m.pane(Probe::Held(surface)) {
            let p = m.outputs[i];
            workspace_search_is_exact(p.workspaces, surface, 0);
            let k = p.home(surface);
            let w = p.workspaces[k].refilling(surface, fill);
            count_refilling(p.workspaces[k], surface, fill, role);
            pane_update(p, k, w, role);
            total_with_pane(m, i, p.with_workspace(k, w), role);
            reflow_loses_no_window(m.with_pane(i, p.with_workspace(k, w)), role);
        }
    }
}

/// A resize drag keeps every window.
pub proof fn resizing_loses_no_window(
    m: LayoutModel,
    surface: SurfaceId,
    target: Rect,
    edges: ResizeEdges,
    role: WindowSurface,
)
    requires
        m.valid(),
    ensures
        total(m.resizing(surface, target, edges), role) == total(m, role),
{
    pane_search_is_exact(m.outputs, Probe::Floating(surface), 0);
    pane_search_is_exact(m.outputs, Probe::Tiled(surface), 0);
    if let Some(i) = m.pane(Probe::Floating(surface)) {
        let ws = m.outputs[i].current();
        let w = Window { rect: target, ..ws.float(surface) };
        count_refloating(ws, surface, w, role);
        total_with_current(m, i, ws.refloating(surface, w), role);
    } else if let Some(i) = m.pane(Probe::Tiled(surface)) {
        let ws = m.outputs[i].current();
        let (b, g) = (m.tile_bounds(i), m.gaps.inner as int);
        count_resizing(ws, surface, target, edges, b, g, role);
        total_with_current(m, i, ws.resizing(surface, target, edges, b, g), role);
    }
}

/// Switching workspaces keeps every window.
pub proof fn switching_loses_no_window(
    m: LayoutModel,
    i: int,
    to: int,
    timing: SlideTiming,
    role: WindowSurface,
)
    requires
        m.valid(),
        0 <= i < m.outputs.len(),
        0 <= to,
    ensures
        total(m.switching(i, to, timing).0, role) == total(m, role),
{
    let dst = crate::geometry::smaller(to, m.outputs[i].furthest());
    let p = m.outputs[i].reaching(dst);
    pane_reaching(m.outputs[i], dst, role);
    total_with_pane(m, i, p, role);
    if dst != p.active {
        let q = PaneModel {
            active: dst,
            transition: crate::desktop::slide_after(
                p,
                dst - p.active,
                timing,
                m.deco,
                m.mode,
            ),
            ..p
        };
        total_with_pane(m, i, q, role);
        tidy_total(m.with_pane(i, q), i, role);
        reflow_loses_no_window(m.with_pane(i, q).tidying(i), role);
    }
}

/// Sending a window to another workspace keeps every window.
pub proof fn sending_loses_no_window(
    m: LayoutModel,
    surface: SurfaceId,
    to: int,
    role: WindowSurface,
)
    requires
        m.valid(),
        0 <= to,
    ensures
        total(m.sending(surface, to).0, role) == total(m, role),
{
    pane_search_is_exact(m.outputs, Probe::Shown(surface), 0);
    if let Some(i) = m.pane(Probe::Shown(surface)) {
        assert(m.outputs[i].valid());
        let dst = crate::geometry::smaller(to, m.outputs[i].workspaces.len() as int);
        let p = m.outputs[i].reaching(dst);
        pane_reaching(m.outputs[i], dst, role);
        total_with_pane(m, i, p, role);
        if dst != p.active {
            let ws = p.current();
            assert(ws == m.outputs[i].current());
            let q = p.carrying_over(surface, dst, m.gaps);
            if ws.floats(surface) {
                let left = p.with_current(ws.unfloating(surface));
                count_unfloating(ws, surface, role);
                pane_update(p, p.active, ws.unfloating(surface), role);
                count_floating(left.workspaces[dst], ws.float(surface), role);
                pane_update(
                    left,
                    dst,
                    left.workspaces[dst].floating_on_top(ws.float(surface)),
                    role,
                );
            } else {
                let left = p.with_current(ws.untiling(surface));
                let b = crate::tree::inside_gap(p.bounds, m.gaps.outer as int);
                let g = m.gaps.inner as int;
                count_untiling(ws, surface, role);
                pane_update(p, p.active, ws.untiling(surface), role);
                count_tiling(left.workspaces[dst], ws.tile(surface), b, None, g, role);
                pane_update(
                    left,
                    dst,
                    left.workspaces[dst].tiling(ws.tile(surface), b, None, g),
                    role,
                );
            }
            total_with_pane(m, i, q, role);
            tidy_total(m.with_pane(i, q), i, role);
            reflow_loses_no_window(m.with_pane(i, q).tidying(i), role);
        }
    }
}

/// Plugging an output in keeps every window, and unplugging one keeps them
/// too: they move to the fallback, or stay where there is none.
pub proof fn hotplug_loses_no_window(
    m: LayoutModel,
    name: Seq<char>,
    bounds: Rect,
    fallback: Option<Seq<char>>,
    role: WindowSurface,
)
    requires
        m.valid(),
        m.can_unplug(name, fallback),
    ensures
        total(m.plugging(name, bounds), role) == total(m, role),
        total(m.unplugging(name, fallback), role) == total(m, role),
{
    pane_search_is_exact(m.outputs, Probe::Named(name), 0);
    if m.pane(Probe::Named(name)).is_none() {
        let fresh = PaneModel::fresh(name, bounds);
        times_on_prefix(m.outputs.push(fresh), m.outputs, role, m.outputs.len() as int);
        empty_counts_nothing(WorkspaceModel::blank(), role);
        reveal_with_fuel(times_in, 2);
        assert(pane_times(fresh, role) == 0);
    }
    if let Some(n) = fallback {
        pane_search_is_exact(m.outputs, Probe::Named(n), 0);
        let gone = m.pane(Probe::Named(name));
        let dest = m.pane(Probe::Named(n));
        if gone.is_some() && dest.is_some() {
            let i = gone.unwrap();
            let lost = m.outputs[i];
            let rest = LayoutModel { outputs: m.outputs.remove(i), ..m };
            let d = if dest.unwrap() > i {
                dest.unwrap() - 1
            } else {
                dest.unwrap()
            };
            assert forall|k: int| 0 <= k < rest.outputs.len() implies (
            #[trigger] rest.outputs[k]).valid() by {
                if k < i {
                    assert(m.outputs[k].valid());
                } else {
                    assert(m.outputs[k + 1].valid());
                }
            }
            let windows = workspaces_windows(lost.workspaces, lost.workspaces.len() as int);
            let ws = rest.outputs[d].current();
            let (b, g) = (rest.tile_bounds(d), m.gaps.inner as int);
            let next = tiling_all(ws, windows, b, g, windows.len() as int);
            times_on_remove(m.outputs, i, role, m.outputs.len() as int);
            count_tiling_all(ws, windows, b, g, windows.len() as int, role);
            assert(windows.take(windows.len() as int) =~= windows);
            pane_windows_count(lost.workspaces, role, lost.workspaces.len() as int);
            total_with_current(rest, d, next, role);
            tidy_total(rest.with_current(d, next), d, role);
            reflow_loses_no_window(rest.with_current(d, next).tidying(d), role);
        }
    }
}

} // verus!
