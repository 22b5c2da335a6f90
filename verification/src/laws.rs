//! What holds of the desktop as a whole, whatever is done to it: how its
//! workspaces are kept tidy, what closing, switching and filling lead to, and
//! that the pointer finds what is drawn.

use vstd::prelude::*;

use crate::desktop::{
    kept, last_filled, pane_from, pane_search_is_exact, topmost_at, tree_windows,
    workspace_from, workspace_search_is_exact, ClientFacts, Gaps, LayoutModel, PaneModel, Probe,
    SlideTiming, WorkspaceModel,
};
use crate::geometry::{smaller, Point, Rect, Size};
use crate::tree::{
    in_tree, inside_gap, leaf_of, leaf_under, leaves, placed, placing_is_idempotent,
    position_of, pruned, refilled, removal_undoes_insertion, resized, search_is_exact,
    split_cells, tree_search_agrees_with_leaves, Node, ResizeEdges,
};
use crate::window::{FillMode, SurfaceId, Window, WindowSurface};

verus! {

// ---- Tidy workspaces

/// The workspaces among the first `n` that have windows.
pub open spec fn busy(ws: Seq<WorkspaceModel>, n: int) -> Seq<WorkspaceModel>
    decreases n,
{
    if n <= 0 {
        Seq::empty()
    } else if ws[n - 1].is_empty() {
        busy(ws, n - 1)
    } else {
        busy(ws, n - 1).push(ws[n - 1])
    }
}

pub(crate) proof fn kept_is_in_order(ws: Seq<WorkspaceModel>, active: int, n: int)
    requires
        0 <= active < ws.len(),
        0 <= n <= ws.len(),
    ensures
        kept(ws, active, n).len() <= n,
        n > active ==> {
            &&& kept(ws, active, active).len() < kept(ws, active, n).len()
            &&& kept(ws, active, n)[kept(ws, active, active).len() as int] == ws[active]
        },
        n <= active ==> kept(ws, active, n).len() <= kept(ws, active, active).len(),
        forall|j: int|
            0 <= j < kept(ws, active, n).len() && (#[trigger] kept(ws, active, n)[j]).is_empty()
                ==> n > active && j == kept(ws, active, active).len(),
        busy(kept(ws, active, n), kept(ws, active, n).len() as int) == busy(ws, n),
    decreases n,
{
    if n > 0 {
        kept_is_in_order(ws, active, n - 1);
        let (a, b) = (kept(ws, active, n - 1), kept(ws, active, n));
        if n - 1 == active || !ws[n - 1].is_empty() {
            assert(b == a.push(ws[n - 1]));
            busy_of_longer(a, ws[n - 1]);
        }
        if n < active {
            kept_grows(ws, active, n, active);
        }
    } else if active > 0 {
        kept_grows(ws, active, 0, active);
    }
}

proof fn kept_grows(ws: Seq<WorkspaceModel>, active: int, a: int, b: int)
    requires
        0 <= a <= b <= ws.len(),
    ensures
        kept(ws, active, a).len() <= kept(ws, active, b).len(),
    decreases b,
{
    if a < b {
        kept_grows(ws, active, a, b - 1);
    }
}

proof fn busy_prefix(a: Seq<WorkspaceModel>, b: Seq<WorkspaceModel>, n: int)
    requires
        0 <= n <= a.len(),
        n <= b.len(),
        forall|i: int| 0 <= i < n ==> a[i] == b[i],
    ensures
        busy(a, n) == busy(b, n),
    decreases n,
{
    if n > 0 {
        busy_prefix(a, b, n - 1);
    }
}

proof fn busy_of_longer(a: Seq<WorkspaceModel>, w: WorkspaceModel)
    ensures
        busy(a.push(w), a.len() as int + 1) == (if w.is_empty() {
            busy(a, a.len() as int)
        } else {
            busy(a, a.len() as int).push(w)
        }),
{
    busy_prefix(a, a.push(w), a.len() as int);
}

/// A tidied output has an empty workspace at its end, and no other but the
/// active one.
pub proof fn tidied_outputs_end_with_an_empty_workspace(p: PaneModel)
    requires
        p.valid(),
    ensures
        p.tidied().workspaces.len() > 0,
        p.tidied().workspaces.last().is_empty(),
        forall|i: int|
            0 <= i < p.tidied().workspaces.len() - 1 && i != p.tidied().active
                ==> !(#[trigger] p.tidied().workspaces[i]).is_empty(),
{
    kept_is_in_order(p.workspaces, p.active, p.workspaces.len() as int);
}

/// Tidying an output leaves the same workspace on show.
pub proof fn tidying_keeps_the_active_workspace(p: PaneModel)
    requires
        p.valid(),
    ensures
        p.tidied().valid(),
        p.tidied().current() == p.current(),
{
    kept_is_in_order(p.workspaces, p.active, p.workspaces.len() as int);
}

/// Tidying an output neither loses, adds nor reorders workspaces with windows.
pub proof fn tidying_keeps_busy_workspaces_in_order(p: PaneModel)
    requires
        p.valid(),
    ensures
        busy(p.tidied().workspaces, p.tidied().workspaces.len() as int) == busy(
            p.workspaces,
            p.workspaces.len() as int,
        ),
{
    kept_is_in_order(p.workspaces, p.active, p.workspaces.len() as int);
    let k = kept(p.workspaces, p.active, p.workspaces.len() as int);
    busy_of_longer(k, WorkspaceModel::blank());
}

/// Whether an output's workspaces are tidy.
pub open spec fn is_tidy(p: PaneModel) -> bool {
    let n = p.workspaces.len();
    &&& p.valid()
    &&& p.workspaces[n - 1].is_empty()
    &&& forall|i: int|
        0 <= i < n - 1 && i != p.active ==> !(#[trigger] p.workspaces[i]).is_empty()
    &&& p.active == n - 2 ==> !p.current().is_empty()
}

proof fn kept_of_tidy(p: PaneModel, n: int)
    requires
        is_tidy(p),
        0 <= n <= p.workspaces.len(),
    ensures
        n < p.workspaces.len() || p.active == n - 1 ==> kept(p.workspaces, p.active, n)
            =~= p.workspaces.take(n),
    decreases n,
{
    if n > 0 {
        kept_of_tidy(p, n - 1);
        assert(p.workspaces.take(n) =~= p.workspaces.take(n - 1).push(p.workspaces[n - 1]));
    }
}

/// Tidying a tidy output changes nothing, and a tidied output is tidy.
pub proof fn tidying_is_idempotent(p: PaneModel)
    requires
        p.valid(),
    ensures
        is_tidy(p.tidied()),
        p.tidied().tidied() == p.tidied(),
        is_tidy(p) ==> p.tidied() == p,
{
    tidied_is_tidy(p);
    tidy_stays(p.tidied());
    if is_tidy(p) {
        tidy_stays(p);
    }
}

proof fn tidied_is_tidy(p: PaneModel)
    requires
        p.valid(),
    ensures
        is_tidy(p.tidied()),
{
    let n = p.workspaces.len() as int;
    kept_is_in_order(p.workspaces, p.active, n);
    kept_is_in_order(p.workspaces, p.active, p.active);
    let t = p.tidied();
    let k = kept(p.workspaces, p.active, n);
    assert(t.current() == p.current());
    if t.active == t.workspaces.len() - 2 && t.current().is_empty() {
        if k.len() == t.workspaces.len() {
            assert(k.last().is_empty());
        } else {
            assert(k.last() == k[t.active]);
        }
    }
}

proof fn tidy_stays(p: PaneModel)
    requires
        is_tidy(p),
    ensures
        p.tidied() == p,
{
    let n = p.workspaces.len() as int;
    kept_of_tidy(p, n);
    kept_of_tidy(p, n - 1);
    kept_of_tidy(p, p.active);
    assert(p.workspaces.take(n) =~= p.workspaces);
    let k = kept(p.workspaces, p.active, n);
    if p.active != n - 1 {
        assert(k =~= p.workspaces.take(n - 1));
        let last = p.workspaces[n - 1];
        assert(last =~= WorkspaceModel::blank());
        assert(k.push(last) =~= p.workspaces);
    }
    assert(p.tidied().workspaces =~= p.workspaces);
    assert(p.tidied() =~= p);
}

// ---- Layout

/// Whether two trees differ in nothing but where their leaves are.
pub open spec fn alike(a: Node, b: Node) -> bool
    decreases a,
{
    match (a, b) {
        (Node::Leaf(x), Node::Leaf(y)) => x.toplevel == y.toplevel && x.fill == y.fill,
        (
            Node::Split { axis: a1, ratio: r1, first: f1, second: s1 },
            Node::Split { axis: a2, ratio: r2, first: f2, second: s2 },
        ) => a1 == a2 && r1 == r2 && alike(*f1, *f2) && alike(*s1, *s2),
        _ => false,
    }
}

pub(crate) proof fn placing_makes_alike(t: Node, bounds: Rect, inner: int)
    ensures
        alike(t, placed(t, bounds, inner)),
        alike(placed(t, bounds, inner), t),
    decreases t,
{
    if let Node::Split { axis, ratio, first, second } = t {
        let (b1, b2) = split_cells(bounds, axis, ratio, inner);
        placing_makes_alike(*first, b1, inner);
        placing_makes_alike(*second, b2, inner);
    }
}

proof fn alike_trees_are_placed_alike(a: Node, b: Node, bounds: Rect, inner: int)
    requires
        alike(a, b),
    ensures
        placed(a, bounds, inner) == placed(b, bounds, inner),
    decreases a,
{
    if let Node::Split { axis, ratio, first, second } = a {
        if let Node::Split { axis: _, ratio: _, first: f2, second: s2 } = b {
            let (b1, b2) = split_cells(bounds, axis, ratio, inner);
            alike_trees_are_placed_alike(*first, *f2, b1, inner);
            alike_trees_are_placed_alike(*second, *s2, b2, inner);
        }
    }
}

pub(crate) proof fn alike_trees_have_the_same_surfaces(a: Node, b: Node, s: SurfaceId)
    requires
        alike(a, b),
    ensures
        in_tree(a, s) == in_tree(b, s),
        match (leaf_of(a, s), leaf_of(b, s)) {
            (None, None) => true,
            (Some(x), Some(y)) => x.toplevel == y.toplevel && x.fill == y.fill,
            _ => false,
        },
    decreases a,
{
    if let Node::Split { axis: _, ratio: _, first, second } = a {
        if let Node::Split { axis: _, ratio: _, first: f2, second: s2 } = b {
            alike_trees_have_the_same_surfaces(*first, *f2, s);
            alike_trees_have_the_same_surfaces(*second, *s2, s);
        }
    }
}

proof fn alike_trees_are_pruned_alike(a: Node, b: Node, s: SurfaceId)
    requires
        alike(a, b),
    ensures
        match (pruned(a, s), pruned(b, s)) {
            (None, None) => true,
            (Some(x), Some(y)) => alike(x, y),
            _ => false,
        },
    decreases a,
{
    if let Node::Split { axis: _, ratio: _, first, second } = a {
        if let Node::Split { axis: _, ratio: _, first: f2, second: s2 } = b {
            alike_trees_have_the_same_surfaces(*first, *f2, s);
            alike_trees_are_pruned_alike(*first, *f2, s);
            alike_trees_are_pruned_alike(*second, *s2, s);
        }
    }
}

pub(crate) proof fn laying_out_keeps_surfaces(ws: WorkspaceModel, bounds: Rect, inner: int, s: SurfaceId)
    ensures
        ws.laid_out(bounds, inner).shows(s) == ws.shows(s),
        ws.laid_out(bounds, inner).tiles(s) == ws.tiles(s),
        ws.laid_out(bounds, inner).floats(s) == ws.floats(s),
        ws.laid_out(bounds, inner).is_empty() == ws.is_empty(),
{
    if let Some(t) = ws.tree {
        placing_makes_alike(t, bounds, inner);
        alike_trees_have_the_same_surfaces(t, placed(t, bounds, inner), s);
    }
}

/// Laying out what is laid out changes nothing.
pub proof fn laying_out_is_idempotent(p: PaneModel, gaps: Gaps)
    ensures
        p.laid_out(gaps).laid_out(gaps) == p.laid_out(gaps),
{
    let b = inside_gap(p.bounds, gaps.outer as int);
    assert forall|i: int| 0 <= i < p.workspaces.len() implies #[trigger] p.laid_out(gaps).laid_out(
        gaps,
    ).workspaces[i] == p.laid_out(gaps).workspaces[i] by {
        if let Some(t) = p.workspaces[i].tree {
            placing_is_idempotent(t, b, gaps.inner as int);
        }
    }
    assert(p.laid_out(gaps).laid_out(gaps).workspaces =~= p.laid_out(gaps).workspaces);
}

/// Whether the tiles of every output are where they belong.
pub open spec fn is_laid_out(m: LayoutModel) -> bool {
    forall|i: int|
        0 <= i < m.outputs.len() ==> (#[trigger] m.outputs[i]).laid_out(m.gaps) == m.outputs[i]
}

/// After a reflow the tiles of every output are where they belong, and another
/// one moves none.
pub proof fn reflowing_is_idempotent(m: LayoutModel)
    ensures
        is_laid_out(m.reflowed()),
        m.reflowed().reflowed().outputs == m.reflowed().outputs,
{
    assert forall|i: int| 0 <= i < m.outputs.len() implies (#[trigger] m.reflowed().outputs[i]).laid_out(
        m.gaps,
    ) == m.reflowed().outputs[i] by {
        laying_out_is_idempotent(m.outputs[i], m.gaps);
    }
    assert(m.reflowed().reflowed().outputs =~= m.reflowed().outputs);
}

proof fn keeping_commutes_with_laying_out(p: PaneModel, gaps: Gaps, n: int)
    requires
        0 <= n <= p.workspaces.len(),
    ensures
        ({
            let b = inside_gap(p.bounds, gaps.outer as int);
            let k = kept(p.workspaces, p.active, n);
            kept(p.laid_out(gaps).workspaces, p.active, n) =~= Seq::new(
                k.len(),
                |i: int| k[i].laid_out(b, gaps.inner as int),
            )
        }),
    decreases n,
{
    if n > 0 {
        keeping_commutes_with_laying_out(p, gaps, n - 1);
        laying_out_keeps_surfaces(
            p.workspaces[n - 1],
            inside_gap(p.bounds, gaps.outer as int),
            gaps.inner as int,
            0,
        );
    }
}

proof fn tidying_commutes_with_laying_out(p: PaneModel, gaps: Gaps)
    requires
        p.valid(),
    ensures
        p.tidied().laid_out(gaps) == p.laid_out(gaps).tidied(),
{
    let n = p.workspaces.len() as int;
    let b = inside_gap(p.bounds, gaps.outer as int);
    keeping_commutes_with_laying_out(p, gaps, n);
    keeping_commutes_with_laying_out(p, gaps, p.active);
    let k = kept(p.workspaces, p.active, n);
    if k.len() > 0 {
        laying_out_keeps_surfaces(k.last(), b, gaps.inner as int, 0);
    }
    assert(WorkspaceModel::blank().laid_out(b, gaps.inner as int) =~= WorkspaceModel::blank());
    assert(p.tidied().laid_out(gaps).workspaces =~= p.laid_out(gaps).tidied().workspaces);
    assert(p.tidied().laid_out(gaps) =~= p.laid_out(gaps).tidied());
}

// ---- What every operation keeps

proof fn changing_a_workspace_keeps_the_layout(m: LayoutModel, i: int, ws: WorkspaceModel)
    requires
        is_laid_out(m),
        m.valid(),
        0 <= i < m.outputs.len(),
        ws.laid_out(m.tile_bounds(i), m.gaps.inner as int) == ws,
    ensures
        is_laid_out(m.with_current(i, ws)),
{
    let after = m.with_current(i, ws);
    assert forall|j: int| 0 <= j < after.outputs.len() implies (#[trigger] after.outputs[j]).laid_out(
        after.gaps,
    ) == after.outputs[j] by {
        assert(m.outputs[j].laid_out(m.gaps) == m.outputs[j]);
        let (p, q) = (m.outputs[j], after.outputs[j]);
        if j == i {
            assert(p.valid());
            assert forall|k: int| 0 <= k < q.workspaces.len() implies #[trigger] q.laid_out(
                m.gaps,
            ).workspaces[k] == q.workspaces[k] by {
                assert(p.laid_out(m.gaps).workspaces[k] == p.workspaces[k]);
            }
            assert(q.laid_out(m.gaps).workspaces =~= q.workspaces);
            assert(q.laid_out(m.gaps) =~= q);
        }
    }
}

pub(crate) proof fn changing_floats_keeps_the_layout(m: LayoutModel, i: int, ws: WorkspaceModel)
    requires
        is_laid_out(m),
        m.valid(),
        0 <= i < m.outputs.len(),
        ws.tree == m.outputs[i].current().tree,
    ensures
        is_laid_out(m.with_current(i, ws)),
{
    let p = m.outputs[i];
    assert(p.valid());
    assert(p.laid_out(m.gaps) == p);
    assert(p.laid_out(m.gaps).workspaces[p.active] == p.workspaces[p.active]);
    assert(ws.laid_out(m.tile_bounds(i), m.gaps.inner as int) =~= ws);
    changing_a_workspace_keeps_the_layout(m, i, ws);
}

pub(crate) proof fn same_outputs_same_layout(a: LayoutModel, b: LayoutModel)
    requires
        is_laid_out(a),
        a.outputs == b.outputs,
        a.gaps == b.gaps,
    ensures
        is_laid_out(b),
{
    assert forall|i: int| 0 <= i < b.outputs.len() implies (#[trigger] b.outputs[i]).laid_out(
        b.gaps,
    ) == b.outputs[i] by {
        assert(a.outputs[i].laid_out(a.gaps) == a.outputs[i]);
    }
}

/// Opening, closing, floating and filling windows leave every tile where it
/// belongs.
pub proof fn window_changes_leave_tiles_in_place(
    m: LayoutModel,
    toplevel: WindowSurface,
    s: SurfaceId,
    cursor: Option<Point>,
    facts: ClientFacts,
    fill: FillMode,
)
    requires
        m.valid(),
        is_laid_out(m),
    ensures
        is_laid_out(m.inserting(toplevel, cursor)),
        is_laid_out(m.removing(s)),
        is_laid_out(m.toggling_floating(s, facts).0),
        is_laid_out(m.floating_dialog(s, facts).0),
        is_laid_out(m.refilling(s, fill)),
{
    reflowed_is_laid_out();
    same_outputs_same_layout(m, LayoutModel { in_transit: None, ..m });
}

pub(crate) proof fn reflowed_is_laid_out()
    ensures
        forall|m: LayoutModel| is_laid_out(#[trigger] m.reflowed()),
{
    assert forall|m: LayoutModel| is_laid_out(#[trigger] m.reflowed()) by {
        reflowing_is_idempotent(m);
    }
}

/// A drag leaves every tile where it belongs: when a window is lifted, carried
/// and dropped, moved or resized.
pub proof fn drags_leave_tiles_in_place(
    m: LayoutModel,
    s: SurfaceId,
    rect: Rect,
    edges: ResizeEdges,
    cursor: Point,
    content: Size,
)
    requires
        m.valid(),
        is_laid_out(m),
    ensures
        is_laid_out(m.lifting(s).0),
        is_laid_out(m.carrying(rect)),
        is_laid_out(m.landing_drag(cursor)),
        is_laid_out(m.moving_float(s, rect)),
        is_laid_out(m.resizing(s, rect, edges)),
        is_laid_out(m.reconciling(s, content).0),
{
    reflowed_is_laid_out();
    pane_search_is_exact(m.outputs, Probe::Shown(s), 0);
    pane_search_is_exact(m.outputs, Probe::Floating(s), 0);
    pane_search_is_exact(m.outputs, Probe::Tiled(s), 0);
    // Lifting.
    if let Some(i) = m.pane(Probe::Shown(s)) {
        let ws = m.outputs[i].current();
        if !ws.tiles(s) {
            changing_floats_keeps_the_layout(m, i, ws.unfloating(s));
            let lifted = m.lifting(s).0;
            if m.in_transit.is_none() && !m.is_filled(s) {
                same_outputs_same_layout(m.with_current(i, ws.unfloating(s)), lifted);
            }
        }
    }
    same_outputs_same_layout(m, m.carrying(rect));
    // Dropping where there is no output.
    if let Some(t) = m.in_transit {
        let free = LayoutModel { in_transit: None, ..m };
        if free.drop_target(cursor, t.window.rect.middle()).is_none() {
            same_outputs_same_layout(m, m.landing_drag(cursor));
        }
    }
    // Moving and resizing.
    if let Some(i) = m.pane(Probe::Floating(s)) {
        let ws = m.outputs[i].current();
        let moved = ws.refloating(s, Window { rect, ..ws.float(s) });
        changing_floats_keeps_the_layout(m, i, moved);
        same_outputs_same_layout(m.with_current(i, moved), m.moving_float(s, rect));
        let w = ws.float(s);
        let (after, changed) = m.reconciling(s, content);
        if changed {
            let size = after.outputs[i].current().floating[position_of(
                ws.floating,
                s,
            ).unwrap()].rect.size;
            search_is_exact(ws.floating, s, 0);
            assert(m.outputs[i].valid());
            let sized = ws.refloating(s, Window { rect: Rect { loc: w.rect.loc, size }, ..w });
            changing_floats_keeps_the_layout(m, i, sized);
            assert(after.outputs =~= m.with_current(i, sized).outputs);
            same_outputs_same_layout(m.with_current(i, sized), after);
        }
    } else if let Some(i) = m.pane(Probe::Tiled(s)) {
        let ws = m.outputs[i].current();
        let b = m.tile_bounds(i);
        let inner = m.gaps.inner as int;
        let next = ws.resizing(s, rect, edges, b, inner);
        let tree = resized(
            ws.tree.unwrap(),
            b,
            inner,
            s,
            rect,
            edges,
            false,
            false,
        ).node;
        placing_is_idempotent(tree, b, inner);
        assert(next.laid_out(b, inner) =~= next);
        changing_a_workspace_keeps_the_layout(m, i, next);
        same_outputs_same_layout(m.with_current(i, next), m.resizing(s, rect, edges));
    }
}

/// Switching workspaces, moving windows between them and the coming and going
/// of outputs leave every tile where it belongs.
pub proof fn desktop_changes_leave_tiles_in_place(
    m: LayoutModel,
    i: int,
    to: int,
    timing: SlideTiming,
    s: SurfaceId,
    name: Seq<char>,
    other: Option<Seq<char>>,
    full: Rect,
    work: Rect,
)
    requires
        m.valid(),
        is_laid_out(m),
        0 <= i < m.outputs.len(),
        0 <= to,
    ensures
        is_laid_out(m.switching(i, to, timing).0),
        is_laid_out(m.relocating(s, i, to).0),
        is_laid_out(m.sending(s, to).0),
        is_laid_out(m.bounding(name, full, work)),
        is_laid_out(m.plugging(name, full)),
        is_laid_out(m.unplugging(name, other)),
{
    reflowed_is_laid_out();
    let dst = smaller(to, m.outputs[i].workspaces.len() as int);
    reaching_keeps_the_layout(m, i, dst);
    reaching_keeps_the_layout(m, i, smaller(to, m.outputs[i].furthest()));
    pane_search_is_exact(m.outputs, Probe::Shown(s), 0);
    if let Some(j) = m.pane(Probe::Shown(s)) {
        let there = smaller(to, m.outputs[j].workspaces.len() as int);
        reaching_keeps_the_layout(m, j, there);
    }
    let after = m.plugging(name, full);
    let fresh = PaneModel::fresh(name, full);
    let b = inside_gap(full, m.gaps.outer as int);
    assert(WorkspaceModel::blank().laid_out(b, m.gaps.inner as int) =~= WorkspaceModel::blank());
    assert(fresh.laid_out(m.gaps).workspaces =~= fresh.workspaces);
    assert(fresh.laid_out(m.gaps) =~= fresh);
    assert forall|j: int| 0 <= j < after.outputs.len() implies (#[trigger] after.outputs[j]).laid_out(
        m.gaps,
    ) == after.outputs[j] by {
        if j < m.outputs.len() {
            assert(m.outputs[j].laid_out(m.gaps) == m.outputs[j]);
        }
    }
}

pub(crate) proof fn reaching_keeps_the_layout(m: LayoutModel, i: int, dst: int)
    requires
        m.valid(),
        is_laid_out(m),
        0 <= i < m.outputs.len(),
    ensures
        is_laid_out(m.with_pane(i, m.outputs[i].reaching(dst))),
{
    let p = m.outputs[i];
    let q = p.reaching(dst);
    let b = inside_gap(p.bounds, m.gaps.outer as int);
    assert(p.laid_out(m.gaps) == p);
    assert(WorkspaceModel::blank().laid_out(b, m.gaps.inner as int) =~= WorkspaceModel::blank());
    assert forall|k: int| 0 <= k < q.workspaces.len() implies #[trigger] q.laid_out(
        m.gaps,
    ).workspaces[k] == q.workspaces[k] by {
        if k < p.workspaces.len() {
            assert(p.laid_out(m.gaps).workspaces[k] == p.workspaces[k]);
        }
    }
    assert(q.laid_out(m.gaps).workspaces =~= q.workspaces);
    assert(q.laid_out(m.gaps) =~= q);
    let after = m.with_pane(i, q);
    assert forall|j: int| 0 <= j < after.outputs.len() implies (#[trigger] after.outputs[j]).laid_out(
        m.gaps,
    ) == after.outputs[j] by {
        assert(m.outputs[j].laid_out(m.gaps) == m.outputs[j]);
    }
}

// ---- Opening and closing

proof fn no_workspace_shows(ws: Seq<WorkspaceModel>, s: SurfaceId)
    requires
        workspace_from(ws, s, 0).is_none(),
    ensures
        forall|k: int| 0 <= k < ws.len() ==> !(#[trigger] ws[k]).shows(s),
{
    workspace_search_is_exact(ws, s, 0);
}

/// A pane with one more tile in its active workspace, laid out, and then
/// without it.
proof fn pane_takes_an_opening_back(p: PaneModel, gaps: Gaps, w: Window, cursor: Option<Point>)
    requires
        p.valid(),
        p.laid_out(gaps) == p,
        workspace_from(p.workspaces, w.id(), 0).is_none(),
    ensures
        ({
            let b = inside_gap(p.bounds, gaps.outer as int);
            let q = p.with_current(p.current().tiling(w, b, cursor, gaps.inner as int)).laid_out(
                gaps,
            );
            &&& q.valid()
            &&& workspace_from(q.workspaces, w.id(), 0) == Some(q.active)
            &&& q.with_workspace(
                q.active,
                q.workspaces[q.active].dropping(w.id()),
            ).tidied().laid_out(gaps) == p.tidied()
        }),
{
    let b = inside_gap(p.bounds, gaps.outer as int);
    let inner = gaps.inner as int;
    let s = w.id();
    let ws = p.current();
    let more = ws.tiling(w, b, cursor, inner);
    let q = p.with_current(more).laid_out(gaps);
    no_workspace_shows(p.workspaces, s);
    assert(!ws.shows(s));
    assert(p.laid_out(gaps).workspaces[p.active] == p.workspaces[p.active]);
    assert(ws.laid_out(b, inner) == ws);
    assert forall|k: int| 0 <= k < p.workspaces.len() && k != p.active implies #[trigger] q.workspaces[k]
        == p.workspaces[k] by {
        assert(p.laid_out(gaps).workspaces[k] == p.workspaces[k]);
    }
    let t = more.tree.unwrap();
    match ws.tree {
        None => {
            assert(in_tree(t, s));
        },
        Some(root) => {
            removal_undoes_insertion(root, w, b, cursor, inner);
        },
    }
    laying_out_keeps_surfaces(more, b, inner, s);
    assert(q.workspaces[q.active].tiles(s));
    workspace_search_is_exact(q.workspaces, s, 0);
    assert(workspace_from(q.workspaces, s, 0) == Some(q.active));
    // Without the tile the workspace is as it was, once laid out.
    let less = q.workspaces[q.active].dropping(s);
    placing_makes_alike(t, b, inner);
    alike_trees_are_pruned_alike(placed(t, b, inner), t, s);
    match ws.tree {
        None => {
            assert(less.tree.is_none());
        },
        Some(root) => {
            let x = pruned(placed(t, b, inner), s).unwrap();
            assert(alike(x, root));
            alike_trees_are_placed_alike(x, root, b, inner);
            assert(placed(root, b, inner) == root);
        },
    }
    assert(less.laid_out(b, inner) =~= ws);
    let r = q.with_workspace(q.active, less);
    assert(r.laid_out(gaps).workspaces =~= p.workspaces);
    assert(r.laid_out(gaps) =~= p);
    tidying_commutes_with_laying_out(r, gaps);
}

/// Closing a window that was just opened gives the desktop back as it was, but
/// for empty workspaces of the output it opened on, which are tidied.
pub proof fn closing_takes_back_an_opening(
    m: LayoutModel,
    toplevel: WindowSurface,
    cursor: Option<Point>,
)
    requires
        m.valid(),
        is_laid_out(m),
        m.window_of(toplevel.id()).is_none(),
    ensures
        ({
            let after = m.inserting(toplevel, cursor).removing(toplevel.id());
            &&& after.in_transit == m.in_transit
            &&& after.outputs == (match m.landing(cursor) {
                None => m.outputs,
                Some(i) => m.outputs.update(i, m.outputs[i].tidied()),
            })
        }),
{
    let s = toplevel.id();
    pane_search_is_exact(m.outputs, Probe::Held(s), 0);
    match m.landing(cursor) {
        None => {},
        Some(i) => {
            if let Some(c) = cursor {
                pane_search_is_exact(m.outputs, Probe::At(c), 0);
            }
            let p = m.outputs[i];
            let w = Window { toplevel, rect: m.tile_bounds(i), fill: FillMode::Normal };
            assert(!p.meets(Probe::Held(s)));
            assert(p.valid());
            assert(p.laid_out(m.gaps) == p);
            pane_takes_an_opening_back(p, m.gaps, w, cursor);
            let opened = m.inserting(toplevel, cursor);
            assert forall|j: int| 0 <= j < m.outputs.len() && j != i implies #[trigger] opened.outputs[j]
                == m.outputs[j] by {
                assert(m.outputs[j].laid_out(m.gaps) == m.outputs[j]);
            }
            assert forall|j: int| 0 <= j < i implies !(#[trigger] opened.outputs[j]).meets(
                Probe::Held(s),
            ) by {
                assert(!m.outputs[j].meets(Probe::Held(s)));
            }
            assert(opened.outputs[i].meets(Probe::Held(s)));
            pane_search_is_exact(opened.outputs, Probe::Held(s), 0);
            assert(opened.pane(Probe::Held(s)) == Some(i));
            let after = opened.removing(s);
            assert forall|j: int| 0 <= j < m.outputs.len() implies #[trigger] after.outputs[j]
                == m.outputs.update(i, p.tidied())[j] by {
                if j != i {
                    assert(opened.outputs[j] == m.outputs[j]);
                    assert(m.outputs[j].laid_out(m.gaps) == m.outputs[j]);
                }
            }
            assert(after.outputs =~= m.outputs.update(i, p.tidied()));
        },
    }
}

// ---- Switching

/// A switch that says it switched shows the workspace that was asked for, the
/// one past the end being a blank one, and leaves at most one workspace more.
/// One that says it did not leaves everything as it was.
pub proof fn switching_shows_the_workspace_asked_for(
    m: LayoutModel,
    i: int,
    to: int,
    timing: SlideTiming,
)
    requires
        m.valid(),
        0 <= i < m.outputs.len(),
        0 <= to,
    ensures
        ({
            let (after, switched) = m.switching(i, to, timing);
            let p = m.outputs[i];
            let dst = smaller(to, p.furthest());
            let wanted = if dst < p.workspaces.len() {
                p.workspaces[dst]
            } else {
                WorkspaceModel::blank()
            };
            &&& switched == (dst != p.active)
            &&& !switched ==> after == m
            &&& after.outputs[i].workspaces.len() <= p.workspaces.len() + 1
            &&& switched ==> after.outputs[i].current() == wanted.laid_out(
                inside_gap(p.bounds, m.gaps.outer as int),
                m.gaps.inner as int,
            )
        }),
{
    let p = m.outputs[i];
    assert(p.valid());
    let dst = smaller(to, p.furthest());
    let r = p.reaching(dst);
    if dst != r.active {
        let q = PaneModel {
            active: dst,
            transition: crate::desktop::slide_after(r, dst - r.active, timing, m.deco, m.mode),
            ..r
        };
        tidying_keeps_the_active_workspace(q);
        kept_is_in_order(q.workspaces, q.active, q.workspaces.len() as int);
        let after = m.switching(i, to, timing).0;
        assert(after.outputs[i] == q.tidied().laid_out(m.gaps));
        let k = kept(q.workspaces, q.active, q.workspaces.len() as int);
        if dst == p.workspaces.len() {
            assert(k.last() == q.workspaces[dst]);
        }
    }
}

/// Past a blank workspace at the end of the list there is nothing to switch to,
/// however far the switch reaches.
pub proof fn switching_stops_at_a_blank_end(
    m: LayoutModel,
    i: int,
    to: int,
    timing: SlideTiming,
)
    requires
        0 <= i < m.outputs.len(),
        m.outputs[i].current().is_empty(),
        m.outputs[i].active == m.outputs[i].workspaces.len() - 1,
        to > m.outputs[i].active,
    ensures
        m.switching(i, to, timing) == (m, false),
{
}

// ---- Fill modes

proof fn refilling_a_tree(t: Node, s: SurfaceId, fill: FillMode)
    ensures
        in_tree(refilled(t, s, fill), s) == in_tree(t, s),
        in_tree(t, s) ==> (leaf_of(refilled(t, s, fill), s) matches Some(w) && w.fill == fill),
    decreases t,
{
    if let Node::Split { axis: _, ratio: _, first, second } = t {
        refilling_a_tree(*first, s, fill);
        refilling_a_tree(*second, s, fill);
        tree_search_agrees_with_leaves(*first, s);
    }
}

pub(crate) proof fn same_search(a: Seq<WorkspaceModel>, b: Seq<WorkspaceModel>, s: SurfaceId, from: int)
    requires
        a.len() == b.len(),
        forall|k: int| 0 <= k < a.len() ==> (#[trigger] a[k]).shows(s) == b[k].shows(s),
    ensures
        workspace_from(a, s, from) == workspace_from(b, s, from),
    decreases a.len() - from,
{
    if 0 <= from < a.len() {
        assert(a[from].shows(s) == b[from].shows(s));
        same_search(a, b, s, from + 1);
    }
}

pub(crate) proof fn same_pane_search(a: Seq<PaneModel>, b: Seq<PaneModel>, q: Probe, from: int)
    requires
        a.len() == b.len(),
        forall|k: int| 0 <= k < a.len() ==> (#[trigger] a[k]).meets(q) == b[k].meets(q),
    ensures
        pane_from(a, q, from) == pane_from(b, q, from),
    decreases a.len() - from,
{
    if 0 <= from < a.len() {
        assert(a[from].meets(q) == b[from].meets(q));
        same_pane_search(a, b, q, from + 1);
    }
}

/// The fill mode that a window was given is the one it has.
pub proof fn windows_have_the_fill_they_were_given(m: LayoutModel, s: SurfaceId, fill: FillMode)
    requires
        m.window_of(s).is_some(),
    ensures
        m.refilling(s, fill).window_of(s) matches Some(w) && w.fill == fill,
{
    if m.in_transit.is_some() && m.in_transit.unwrap().window.id() == s {
        return ;
    }
    let i = m.pane(Probe::Held(s)).unwrap();
    pane_search_is_exact(m.outputs, Probe::Held(s), 0);
    let p = m.outputs[i];
    let k = p.home(s);
    workspace_search_is_exact(p.workspaces, s, 0);
    let ws = p.workspaces[k];
    let changed = ws.refilling(s, fill);
    if ws.floats(s) {
        let at = position_of(ws.floating, s).unwrap();
        search_is_exact(ws.floating, s, 0);
        search_is_exact(changed.floating, s, 0);
        let new = changed.floating;
        assert(new[at].id() == s);
        assert forall|j: int| 0 <= j < at implies (#[trigger] new[j]).id() != s by {
            assert(new[j] == ws.floating[j]);
        }
        assert(position_of(new, s) == Some(at));
    } else {
        refilling_a_tree(ws.tree.unwrap(), s, fill);
    }
    assert(changed.shows(s));
    let q = p.with_workspace(k, changed);
    let after = m.refilling(s, fill);
    let b = inside_gap(p.bounds, m.gaps.outer as int);
    let inner = m.gaps.inner as int;
    assert forall|j: int| 0 <= j < m.outputs.len() implies (#[trigger] after.outputs[j]).meets(
        Probe::Held(s),
    ) == m.outputs[j].meets(Probe::Held(s)) by {
        let before = m.outputs[j];
        let c = inside_gap(before.bounds, m.gaps.outer as int);
        assert forall|x: int| 0 <= x < before.workspaces.len() implies (
        #[trigger] after.outputs[j].workspaces[x]).shows(s) == before.workspaces[x].shows(s) by {
            let base = if j == i {
                q.workspaces[x]
            } else {
                before.workspaces[x]
            };
            laying_out_keeps_surfaces(base, c, inner, s);
        }
        same_search(after.outputs[j].workspaces, before.workspaces, s, 0);
    }
    same_pane_search(after.outputs, m.outputs, Probe::Held(s), 0);
    assert(after.pane(Probe::Held(s)) == Some(i));
    let pane = after.outputs[i];
    assert forall|x: int| 0 <= x < p.workspaces.len() implies (#[trigger] pane.workspaces[x]).shows(
        s,
    ) == p.workspaces[x].shows(s) by {
        laying_out_keeps_surfaces(q.workspaces[x], b, inner, s);
    }
    same_search(pane.workspaces, p.workspaces, s, 0);
    assert(pane.home(s) == k);
    laying_out_keeps_surfaces(changed, b, inner, s);
    assert(pane.workspaces[k] == changed.laid_out(b, inner));
    if !ws.floats(s) {
        let t = changed.tree.unwrap();
        placing_makes_alike(t, b, inner);
        alike_trees_have_the_same_surfaces(t, placed(t, b, inner), s);
    }
}

/// A fill mode that is toggled twice is gone again, and a window without any
/// is without any again.
pub proof fn toggling_a_fill_twice_takes_it_back(m: LayoutModel, s: SurfaceId, fill: FillMode)
    requires
        m.window_of(s).is_some(),
        fill != FillMode::Normal,
        m.window_of(s).unwrap().fill == fill || m.window_of(s).unwrap().fill == FillMode::Normal,
    ensures
        m.toggling_fill(s, fill).toggling_fill(s, fill).window_of(s) matches Some(w) && w.fill
            == m.window_of(s).unwrap().fill,
{
    let w = m.window_of(s).unwrap();
    let once = if w.fill == fill {
        FillMode::Normal
    } else {
        fill
    };
    windows_have_the_fill_they_were_given(m, s, once);
    windows_have_the_fill_they_were_given(m.toggling_fill(s, fill), s, w.fill);
}

// ---- The pointer

proof fn filled_window_is_there(ws: Seq<Window>, fill: FillMode, n: int)
    requires
        0 <= n <= ws.len(),
    ensures
        match last_filled(ws, fill, n) {
            Some(w) => w.fill == fill && exists|i: int| 0 <= i < n && ws[i] == w,
            None => forall|i: int| 0 <= i < n ==> (#[trigger] ws[i]).fill != fill,
        },
    decreases n,
{
    if n > 0 {
        filled_window_is_there(ws, fill, n - 1);
    }
}

proof fn topmost_window_is_there(ws: Seq<Window>, pos: Point, n: int)
    requires
        0 <= n <= ws.len(),
    ensures
        topmost_at(ws, pos, n) matches Some(w) ==> w.rect.holds(pos) && exists|i: int|
            0 <= i < n && ws[i] == w,
    decreases n,
{
    if n > 0 {
        topmost_window_is_there(ws, pos, n - 1);
    }
}

proof fn leaf_is_there(t: Node, pos: Point)
    ensures
        leaf_under(t, pos) matches Some(w) ==> w.rect.holds(pos) && exists|i: int|
            0 <= i < leaves(t).len() && leaves(t)[i] == w,
    decreases t,
{
    match t {
        Node::Leaf(w) => {
            assert(leaves(t)[0] == w);
        },
        Node::Split { axis: _, ratio: _, first, second } => {
            leaf_is_there(*first, pos);
            leaf_is_there(*second, pos);
            let (a, b) = (leaves(*first), leaves(*second));
            if let Some(w) = leaf_under(*first, pos) {
                let i = choose|i: int| 0 <= i < a.len() && a[i] == w;
                assert(leaves(t)[i] == w);
            } else if let Some(w) = leaf_under(*second, pos) {
                let i = choose|i: int| 0 <= i < b.len() && b[i] == w;
                assert(leaves(t)[a.len() + i] == w);
            }
        },
    }
}

/// The window that the pointer finds on an output is one that is drawn there,
/// in the rectangle it is drawn in, and that has the point unless a maximized
/// window reaches beyond the work area for it.
pub proof fn the_pointer_finds_what_is_drawn(m: LayoutModel, pos: Point, focused: Option<SurfaceId>)
    requires
        m.valid(),
        m.window_at(pos).is_some(),
    ensures
        ({
            let (w, rect) = m.window_at(pos).unwrap();
            let p = m.outputs[m.pane(Probe::At(pos)).unwrap()];
            let drawn = p.current().placements(focused, p.area(), m.deco, m.mode);
            &&& rect.holds(pos) || w.fill == FillMode::Maximized
            &&& exists|i: int|
                0 <= i < drawn.len() && (#[trigger] drawn[i]).surface == w.id()
                    && drawn[i].cell_rect == rect
        }),
{
    pane_search_is_exact(m.outputs, Probe::At(pos), 0);
    let p = m.outputs[m.pane(Probe::At(pos)).unwrap()];
    let ws = p.current();
    let all = ws.windows();
    let n = all.len() as int;
    let tiles = tree_windows(ws.tree);
    let (w, rect) = m.window_at(pos).unwrap();
    filled_window_is_there(all, FillMode::Fullscreen, n);
    filled_window_is_there(all, FillMode::Maximized, n);
    topmost_window_is_there(ws.floating, pos, ws.floating.len() as int);
    if let Some(t) = ws.tree {
        leaf_is_there(t, pos);
    }
    let drawn = ws.placements(focused, p.area(), m.deco, m.mode);
    if last_filled(all, FillMode::Fullscreen, n).is_some() || last_filled(
        all,
        FillMode::Maximized,
        n,
    ).is_some() {
        let i = choose|i: int| 0 <= i < n && all[i] == w;
        assert(drawn[i].surface == w.id());
    } else if topmost_at(ws.floating, pos, ws.floating.len() as int).is_some() {
        let i = choose|i: int| 0 <= i < ws.floating.len() && ws.floating[i] == w;
        assert(all[tiles.len() + i] == w);
        assert(drawn[tiles.len() + i].surface == w.id());
    } else {
        let i = choose|i: int| 0 <= i < tiles.len() && tiles[i] == w;
        assert(all[i] == w);
        assert(drawn[i].surface == w.id());
    }
}

// ---- Drags

/// A floating window that is lifted and dropped again on its output is as large
/// and at the same place as before, above all others.
pub proof fn a_float_dropped_at_once_stays(m: LayoutModel, s: SurfaceId, cursor: Point, i: int)
    requires
        m.valid(),
        m.in_transit.is_none(),
        m.pane(Probe::Shown(s)) == Some(i),
        i <= usize::MAX,
        !m.outputs[i].current().tiles(s),
        !m.is_filled(s),
        m.pane(Probe::At(cursor)) == Some(i),
    ensures
        ({
            let ws = m.outputs[i].current();
            let after = m.lifting(s).0.landing_drag(cursor);
            &&& after.in_transit.is_none()
            &&& after.outputs[i].current().floating == ws.unfloating(s).floating.push(ws.float(s))
            &&& after.outputs[i].current().tree == ws.laid_out(
                m.tile_bounds(i),
                m.gaps.inner as int,
            ).tree
        }),
{
    pane_search_is_exact(m.outputs, Probe::Shown(s), 0);
    let p = m.outputs[i];
    assert(p.valid());
    let ws = p.current();
    let w = ws.float(s);
    let lifted = m.lifting(s).0;
    let free = LayoutModel { in_transit: None, ..lifted };
    same_pane_search(free.outputs, m.outputs, Probe::At(cursor), 0);
    assert(free.drop_target(cursor, w.rect.middle()) == Some(i));
    let on_top = free.outputs[i].current().floating_on_top(w);
    let put = free.with_current(i, on_top).telling(lifted.float_message(w, free.outputs[i].area()));
    tidying_keeps_the_active_workspace(put.outputs[i]);
    assert(lifted.landing_drag(cursor) == put.tidying(i).reflowed());
    assert(put.outputs[i].current() == on_top);
}

} // verus!
