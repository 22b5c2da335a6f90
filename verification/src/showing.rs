//! What outputs show: how switching and sending between workspaces slides, what
//! an output that comes or goes leaves, and how windows are drawn and told.

use vstd::prelude::*;

use crate::desktop::{
    pane_search_is_exact, slide_after, ticked, tiling_all, tree_windows, workspaces_windows,
    LayoutModel, PaneModel, Probe, SlideTiming, WorkspaceModel,
};
use crate::geometry::{smaller, Point, Rect};
use crate::laws::{is_laid_out, tidying_keeps_the_active_workspace};
use crate::tree::{inserted, inside_gap, leaves, placing_keeps_the_windows, Node};
use crate::window::{
    configured_size, floating_configure, tile_configure, Configure, Deco, FillMode, LayoutMode,
    OutputArea, SurfaceId, Window, WindowSurface,
};

verus! {

// ---- Slides

/// A switch on an output at rest starts a slide at that moment: away from how
/// the workspace looked that is left, as far as the new one is from it, to the
/// left towards later workspaces and to the right towards earlier ones.
pub proof fn switches_slide_towards_the_new_workspace(
    m: LayoutModel,
    i: int,
    to: int,
    timing: SlideTiming,
)
    requires
        m.valid(),
        0 <= i < m.outputs.len(),
        0 <= to <= i32::MAX,
        m.outputs[i].active <= i32::MAX,
        m.outputs[i].transition.is_none(),
        m.switching(i, to, timing).1,
    ensures
        ({
            let p = m.outputs[i];
            let after = m.switching(i, to, timing).0.outputs[i];
            let dst = smaller(to, p.workspaces.len() as int);
            &&& after.transition matches Some(t)
            &&& t.started == timing.now
            &&& t.steps == dst - p.active
            &&& t.steps != 0
            &&& t.dir == (if dst > p.active {
                -1i32
            } else {
                1i32
            })
            &&& t.from.len() == p.current().windows().len()
            &&& forall|k: int|
                0 <= k < t.from.len() ==> (#[trigger] t.from[k]).surface
                    == p.current().windows()[k].id() && t.from[k].slide == Point::zero()
                    && !t.from[k].focused
        }),
{
    assert(m.outputs[i].valid());
}

/// A young slide that is sent back where it came from ends at once; one that is
/// sent further ends further along, and still counts from where it began.
pub proof fn young_slides_are_redirected(
    p: PaneModel,
    first: int,
    second: int,
    timing: SlideTiming,
    deco: Deco,
    mode: LayoutMode,
)
    requires
        p.transition matches Some(t) && t.steps == first,
        p.transition.unwrap().started <= timing.now,
        timing.duration matches Some(d) && 2 * (timing.now - p.transition.unwrap().started) < d,
        first != 0,
        -0x4000_0000 < first < 0x4000_0000,
        -0x4000_0000 < second < 0x4000_0000,
    ensures
        second == -first ==> slide_after(p, second, timing, deco, mode).is_none(),
        (first > 0 && first + second > 0) || (first < 0 && first + second < 0) ==> {
            &&& slide_after(p, second, timing, deco, mode) matches Some(t)
            &&& t.steps == first + second
            &&& t.started == p.transition.unwrap().started
            &&& t.from == p.transition.unwrap().from
            &&& t.dir == p.transition.unwrap().dir
        },
{
}

/// A slide that is past its half way is not redirected: the next switch starts
/// another one from what is on show.
pub proof fn old_slides_start_over(
    p: PaneModel,
    delta: int,
    timing: SlideTiming,
    deco: Deco,
    mode: LayoutMode,
)
    requires
        p.transition.is_some(),
        timing.duration matches Some(d) ==> 2 * (timing.now - p.transition.unwrap().started) >= d,
        i32::MIN <= delta <= i32::MAX,
    ensures
        slide_after(p, delta, timing, deco, mode) matches Some(t) && t.started == timing.now
            && t.steps == delta,
{
}

/// A slide ends once it has run as long as it takes, and not before.
pub proof fn slides_run_their_time(p: PaneModel, now: u64, duration: u64)
    requires
        p.transition.is_some(),
        p.transition.unwrap().started <= now,
    ensures
        ticked(p, now, duration).transition.is_none() <==> now >= p.transition.unwrap().started
            + duration,
        ticked(p, now, duration).transition.is_some() ==> ticked(p, now, duration) == p,
        ticked(p, now, duration).workspaces == p.workspaces,
        ticked(p, now, duration).active == p.active,
{
}

/// A switch by a number of workspaces shows the one that many further along,
/// and none before the first is switched to.
pub proof fn switches_count_from_the_workspace_on_show(
    m: LayoutModel,
    i: int,
    delta: int,
    timing: SlideTiming,
)
    requires
        m.valid(),
        0 <= i < m.outputs.len(),
    ensures
        m.outputs[i].active + delta < 0 ==> m.switching_by(i, delta, timing) == (m, false),
        delta == 0 ==> m.switching_by(i, delta, timing) == (m, false),
        0 <= m.outputs[i].active + delta < m.outputs[i].workspaces.len() && delta != 0 ==> {
            let (after, done) = m.switching_by(i, delta, timing);
            &&& done
            &&& after.outputs[i].current() == m.outputs[i].workspaces[m.outputs[i].active
                + delta].laid_out(
                inside_gap(m.outputs[i].bounds, m.gaps.outer as int),
                m.gaps.inner as int,
            )
        },
{
    assert(m.outputs[i].valid());
    if m.outputs[i].active + delta >= 0 {
        crate::laws::switching_shows_the_workspace_asked_for(
            m,
            i,
            m.outputs[i].active + delta,
            timing,
        );
    }
}

/// The other outputs show what they showed when one switches.
pub proof fn switching_leaves_other_outputs(
    m: LayoutModel,
    i: int,
    j: int,
    to: int,
    timing: SlideTiming,
)
    requires
        m.valid(),
        is_laid_out(m),
        0 <= i < m.outputs.len(),
        0 <= j < m.outputs.len(),
        i != j,
        0 <= to,
    ensures
        m.switching(i, to, timing).0.outputs[j] == m.outputs[j],
{
    assert(m.outputs[j].laid_out(m.gaps) == m.outputs[j]);
}

// ---- Moving between workspaces and outputs

/// The roles of windows, in order.
pub open spec fn roles(ws: Seq<Window>) -> Seq<WindowSurface> {
    Seq::new(ws.len(), |i: int| ws[i].toplevel)
}

proof fn windows_without_a_cursor_come_last(
    node: Node,
    new: Window,
    bounds: Rect,
    inner: int,
)
    ensures
        leaves(inserted(node, new, bounds, None, inner)) == leaves(node).push(new),
    decreases node,
{
    match node {
        Node::Leaf(existing) => {
            let t = inserted(node, new, bounds, None, inner);
            assert(leaves(*t->Split_first) =~= seq![existing]);
            assert(leaves(*t->Split_second) =~= seq![new]);
            assert(leaves(t) =~= leaves(node).push(new));
        },
        Node::Split { axis, ratio, first, second } => {
            let b2 = crate::tree::split_cells(bounds, axis, ratio, inner).1;
            windows_without_a_cursor_come_last(*second, new, b2, inner);
            assert(leaves(*first) + leaves(*second).push(new) =~= leaves(node).push(new));
        },
    }
}

proof fn one_more_tile(ws: WorkspaceModel, w: Window, bounds: Rect, inner: int)
    ensures
        tree_windows(ws.tiling(w, bounds, None, inner).tree) == tree_windows(ws.tree).push(w),
        ws.tiling(w, bounds, None, inner).floating == ws.floating,
{
    match ws.tree {
        None => {
            assert(tree_windows(ws.tiling(w, bounds, None, inner).tree) =~= tree_windows(
                ws.tree,
            ).push(w));
        },
        Some(t) => {
            windows_without_a_cursor_come_last(t, w, bounds, inner);
        },
    }
}

proof fn laid_out_tiles_have_the_same_roles(ws: WorkspaceModel, bounds: Rect, inner: int)
    ensures
        roles(tree_windows(ws.laid_out(bounds, inner).tree)) == roles(tree_windows(ws.tree)),
        forall|j: int|
            0 <= j < tree_windows(ws.tree).len() ==> (#[trigger] tree_windows(
                ws.laid_out(bounds, inner).tree,
            )[j]).fill == tree_windows(ws.tree)[j].fill,
{
    if let Some(t) = ws.tree {
        placing_keeps_the_windows(t, bounds, inner);
    }
    assert(roles(tree_windows(ws.laid_out(bounds, inner).tree)) =~= roles(tree_windows(ws.tree)));
}

/// A window that is sent to another workspace is on show there, with the
/// windows of that workspace: a floating one above them in the rectangle it
/// had, a tile after theirs.
pub proof fn sent_windows_are_on_show(m: LayoutModel, s: SurfaceId, i: int, to: int)
    requires
        m.valid(),
        m.pane(Probe::Shown(s)) == Some(i),
        0 <= to,
        m.sending(s, to).1,
    ensures
        ({
            let p = m.outputs[i];
            let ws = p.current();
            let there = if to < p.workspaces.len() {
                p.workspaces[to]
            } else {
                WorkspaceModel::blank()
            };
            let now = m.sending(s, to).0.outputs[i].current();
            if ws.floats(s) {
                &&& now.floating == there.floating.push(ws.float(s))
                &&& roles(tree_windows(now.tree)) == roles(tree_windows(there.tree))
            } else {
                &&& now.floating == there.floating
                &&& roles(tree_windows(now.tree)) == roles(tree_windows(there.tree)).push(
                    ws.tile(s).toplevel,
                )
            }
        }),
{
    pane_search_is_exact(m.outputs, Probe::Shown(s), 0);
    let p0 = m.outputs[i];
    assert(p0.valid());
    let dst = smaller(to, p0.workspaces.len() as int);
    let p = p0.reaching(dst);
    let q = p.carrying_over(s, dst, m.gaps);
    let b = inside_gap(p.bounds, m.gaps.outer as int);
    let inner = m.gaps.inner as int;
    tidying_keeps_the_active_workspace(q);
    let after = m.sending(s, to).0;
    assert(after.outputs[i].current() == q.current().laid_out(b, inner));
    let ws = p0.current();
    let there = p.workspaces[dst];
    laid_out_tiles_have_the_same_roles(q.current(), b, inner);
    if !ws.floats(s) {
        one_more_tile(there, ws.tile(s), b, inner);
        assert(roles(tree_windows(there.tree).push(ws.tile(s))) =~= roles(
            tree_windows(there.tree),
        ).push(ws.tile(s).toplevel));
    }
}

proof fn many_more_tiles(ws: WorkspaceModel, more: Seq<Window>, bounds: Rect, inner: int, n: int)
    requires
        0 <= n <= more.len(),
    ensures
        tiling_all(ws, more, bounds, inner, n).floating == ws.floating,
        ({
            let l = tree_windows(tiling_all(ws, more, bounds, inner, n).tree);
            let had = tree_windows(ws.tree);
            &&& l.len() == had.len() + n
            &&& forall|j: int| 0 <= j < had.len() ==> #[trigger] l[j] == had[j]
            &&& forall|j: int|
                had.len() <= j < l.len() ==> (#[trigger] l[j]).toplevel == more[j
                    - had.len()].toplevel && l[j].fill == FillMode::Normal
        }),
    decreases n,
{
    if n > 0 {
        many_more_tiles(ws, more, bounds, inner, n - 1);
        one_more_tile(
            tiling_all(ws, more, bounds, inner, n - 1),
            Window { fill: FillMode::Normal, ..more[n - 1] },
            bounds,
            inner,
        );
    }
}

/// Whether the tiles `now` are the tiles there were, followed by other windows,
/// each filling nothing.
pub open spec fn are_followed_by(now: Seq<Window>, had: Seq<Window>, more: Seq<Window>) -> bool {
    &&& now.len() == had.len() + more.len()
    &&& forall|j: int|
        0 <= j < had.len() ==> (#[trigger] now[j]).toplevel == had[j].toplevel && now[j].fill
            == had[j].fill
    &&& forall|j: int|
        had.len() <= j < now.len() ==> (#[trigger] now[j]).toplevel == more[j
            - had.len()].toplevel && now[j].fill == FillMode::Normal
}

proof fn tiles_come_after_those_there(ws: WorkspaceModel, more: Seq<Window>, bounds: Rect, inner: int)
    ensures
        are_followed_by(
            tree_windows(
                tiling_all(ws, more, bounds, inner, more.len() as int).laid_out(bounds, inner).tree,
            ),
            tree_windows(ws.tree),
            more,
        ),
{
    let full = tiling_all(ws, more, bounds, inner, more.len() as int);
    many_more_tiles(ws, more, bounds, inner, more.len() as int);
    laid_out_tiles_have_the_same_roles(full, bounds, inner);
    let now = tree_windows(full.laid_out(bounds, inner).tree);
    let l = tree_windows(full.tree);
    assert(roles(now).len() == roles(l).len());
    assert forall|j: int| 0 <= j < l.len() implies (#[trigger] now[j]).toplevel == l[j].toplevel
        && now[j].fill == l[j].fill by {
        assert(roles(now)[j] == roles(l)[j]);
    }
    let had = tree_windows(ws.tree);
    assert forall|j: int| 0 <= j < had.len() implies (#[trigger] now[j]).toplevel
        == had[j].toplevel && now[j].fill == had[j].fill by {
        assert(l[j] == had[j]);
    }
    assert forall|j: int| had.len() <= j < now.len() implies (#[trigger] now[j]).toplevel == more[j
        - had.len()].toplevel && now[j].fill == FillMode::Normal by {
        assert(l[j].fill == FillMode::Normal);
    }
}

/// The windows of an output that goes become tiles of the workspace that its
/// heir shows, after the tiles there, all workspaces in order and each window
/// filling nothing. The output itself is no longer there.
pub proof fn windows_of_a_lost_output_come_to_its_heir(
    m: LayoutModel,
    i: int,
    d: int,
)
    requires
        m.valid(),
        0 <= i < m.outputs.len(),
        0 <= d < m.outputs.len(),
        m.outputs[i].name != m.outputs[d].name,
        m.pane(Probe::Named(m.outputs[i].name)) == Some(i),
        m.pane(Probe::Named(m.outputs[d].name)) == Some(d),
    ensures
        ({
            let after = m.unplugging(m.outputs[i].name, Some(m.outputs[d].name));
            let lost = workspaces_windows(
                m.outputs[i].workspaces,
                m.outputs[i].workspaces.len() as int,
            );
            let heir = if d > i {
                d - 1
            } else {
                d
            };
            let had = tree_windows(m.outputs[d].current().tree);
            let now = tree_windows(after.outputs[heir].current().tree);
            &&& after.outputs.len() == m.outputs.len() - 1
            &&& after.outputs[heir].name == m.outputs[d].name
            &&& after.outputs[heir].current().floating == m.outputs[d].current().floating
            &&& are_followed_by(now, had, lost)
        }),
{
    let after = m.unplugging(m.outputs[i].name, Some(m.outputs[d].name));
    let lost = workspaces_windows(m.outputs[i].workspaces, m.outputs[i].workspaces.len() as int);
    let heir = if d > i {
        d - 1
    } else {
        d
    };
    let rest = LayoutModel { outputs: m.outputs.remove(i), ..m };
    assert(rest.outputs[heir] == m.outputs[d]);
    assert(m.outputs[d].valid());
    let ws = m.outputs[d].current();
    let b = rest.tile_bounds(heir);
    let inner = m.gaps.inner as int;
    let full = tiling_all(ws, lost, b, inner, lost.len() as int);
    many_more_tiles(ws, lost, b, inner, lost.len() as int);
    let q = rest.outputs[heir].with_current(full);
    tidying_keeps_the_active_workspace(q);
    tiles_come_after_those_there(ws, lost, b, inner);
    assert(after.outputs[heir].current() == full.laid_out(b, inner));
}

/// The last output stays when its display goes, with its windows, and so does
/// one without an heir.
pub proof fn outputs_without_an_heir_stay(m: LayoutModel, name: Seq<char>)
    ensures
        m.unplugging(name, None) == m,
{
}

/// An output that comes is the last one, shows a blank workspace and covers
/// what it was given; one of a name that is there already changes nothing.
pub proof fn new_outputs_come_last(m: LayoutModel, name: Seq<char>, rect: Rect)
    ensures
        ({
            let after = m.plugging(name, rect);
            let known = exists|i: int| 0 <= i < m.outputs.len() && #[trigger] m.outputs[i].name == name;
            &&& known ==> after == m
            &&& !known ==> {
                let p = after.outputs.last();
                &&& after.outputs.len() == m.outputs.len() + 1
                &&& forall|i: int|
                    0 <= i < m.outputs.len() ==> #[trigger] after.outputs[i] == m.outputs[i]
                &&& p.name == name
                &&& p.full == rect
                &&& p.bounds == rect
                &&& p.valid()
                &&& p.current().windows().len() == 0
            }
        }),
{
    pane_search_is_exact(m.outputs, Probe::Named(name), 0);
    let after = m.plugging(name, rect);
    match m.pane(Probe::Named(name)) {
        Some(i) => {
            assert(m.outputs[i].meets(Probe::Named(name)));
            assert(m.outputs[i].name == name);
        },
        None => {
            assert forall|i: int| 0 <= i < m.outputs.len() implies #[trigger] m.outputs[i].name
                != name by {
                assert(!m.outputs[i].meets(Probe::Named(name)));
            }
        },
    }
}

// ---- What is drawn and told

/// A window is drawn in its own rectangle while it fills nothing, over the
/// whole output when it is fullscreen, and over the work area when it is
/// maximized. Only the focused one is drawn as such, only floating ones as
/// floating, and none is displaced at rest. Fullscreen windows have no frame.
pub proof fn windows_are_drawn_where_they_belong(
    m: LayoutModel,
    i: int,
    focused: Option<SurfaceId>,
    k: int,
)
    requires
        0 <= i < m.outputs.len(),
        0 <= k < m.outputs[i].current().windows().len(),
    ensures
        ({
            let p = m.outputs[i];
            let w = p.current().windows()[k];
            let d = crate::pointing::drawn_on(m, i, focused);
            &&& d.len() == p.current().windows().len()
            &&& d[k].surface == w.toplevel.id()
            &&& d[k].fill == w.fill
            &&& w.fill == FillMode::Normal ==> d[k].cell_rect == w.rect && d[k].deco == m.deco
            &&& w.fill == FillMode::Fullscreen ==> d[k].cell_rect == p.full && d[k].deco.border
                == 0 && d[k].deco.titlebar == 0
            &&& w.fill == FillMode::Maximized ==> d[k].cell_rect == p.bounds
            &&& d[k].focused <==> focused == Some(w.toplevel.id())
            &&& d[k].floating <==> k >= tree_windows(p.current().tree).len()
            &&& d[k].slide == Point { x: 0, y: 0 }
        }),
{
}

/// A client is told the size that its frame leaves of the cell it is drawn in:
/// frame and content together make up the cell, wherever that has room for the
/// frame and a pixel.
pub proof fn clients_are_told_what_their_frame_leaves(
    w: Window,
    deco: Deco,
    mode: LayoutMode,
    area: OutputArea,
)
    requires
        deco.border >= 0,
        deco.titlebar >= 0,
        area.cell_of(w).size.w > 2 * deco.border,
        area.cell_of(w).size.h > deco.titlebar + 2 * deco.border,
    ensures
        ({
            let frame = deco.under(mode, w.fill);
            let cell = area.cell_of(w).size;
            let tile = configured_size(tile_configure(w, frame, area));
            let float = configured_size(floating_configure(w, frame, area));
            &&& w.fill == FillMode::Normal ==> {
                &&& tile.w + 2 * deco.border == cell.w
                &&& tile.h + deco.titlebar + 2 * deco.border == cell.h
                &&& float == tile
            }
            &&& w.fill == FillMode::Fullscreen ==> tile == area.full.size && float
                == area.full.size
            &&& w.fill == FillMode::Maximized ==> tile == area.work.size
            &&& w.fill == FillMode::Maximized && mode == LayoutMode::Tiling ==> float
                == area.work.size
            &&& w.fill == FillMode::Maximized && mode == LayoutMode::Floating && deco.border > 0
                ==> float.w + 2 * deco.border == area.work.size.w && float.h + deco.titlebar + 2
                * deco.border == area.work.size.h
        }),
{
}

/// Clients learn the state they are in: which fill mode, and whether they are
/// tiled.
pub proof fn clients_are_told_their_state(w: Window, deco: Deco, area: OutputArea, mode: LayoutMode)
    ensures
        ({
            let frame = deco.under(mode, w.fill);
            let full = w.fill == FillMode::Fullscreen;
            let wide = w.fill == FillMode::Maximized;
            &&& match tile_configure(w, frame, area) {
                Configure::Xdg { surface, size: _, tiled, maximized, fullscreen } => w.toplevel
                    == WindowSurface::Xdg(surface) && maximized == wide && fullscreen == full
                    && tiled == (w.fill == FillMode::Normal),
                Configure::X11 { window, rect: _, maximized, fullscreen } => w.toplevel is X11
                    && w.toplevel->window == window && maximized == wide && fullscreen == full,
            }
            &&& match floating_configure(w, frame, area) {
                Configure::Xdg { surface, size: _, tiled, maximized, fullscreen } => w.toplevel
                    == WindowSurface::Xdg(surface) && maximized == wide && fullscreen == full
                    && !tiled,
                Configure::X11 { window, rect: _, maximized, fullscreen } => w.toplevel is X11
                    && w.toplevel->window == window && maximized == wide && fullscreen == full,
            }
        }),
{
}

/// A window of the X server is told where its content is: inside its cell, past
/// the frame at the left and at the top.
pub proof fn x11_windows_are_told_their_place(w: Window, deco: Deco, area: OutputArea)
    requires
        w.fill == FillMode::Normal,
        w.toplevel is X11,
        deco.border >= 0,
        deco.titlebar >= 0,
        w.rect.loc.x + deco.border <= i32::MAX,
        w.rect.loc.y + deco.border + deco.titlebar <= i32::MAX,
        deco.border + deco.titlebar <= i32::MAX,
    ensures
        tile_configure(w, deco, area) matches Configure::X11 { window: _, rect, .. } && rect.loc.x
            == w.rect.loc.x + deco.border && rect.loc.y == w.rect.loc.y + deco.border
            + deco.titlebar,
        floating_configure(w, deco, area) == tile_configure(w, deco, area),
{
}

} // verus!
