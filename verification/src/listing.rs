//! Laws on the lists of windows and workspaces: every one is listed, with what
//! it is, and nothing else.

use vstd::prelude::*;

use crate::bindings::{line_from, line_of, showing};
use crate::desktop::{
    lines_of, pane_lines, tree_windows, window_lines, workspace_lines, LayoutModel, PaneModel,
    Probe, SlideTiming, WindowLine, WorkspaceLine,
};
use crate::laws::switching_shows_the_workspace_asked_for;
use crate::tree::inside_gap;
use crate::window::{SurfaceId, Window};

verus! {

/// Whether a line is of a window on a workspace of an output.
pub open spec fn is_line_of(
    l: WindowLine,
    w: Window,
    floating: bool,
    output: Seq<char>,
    workspace: int,
) -> bool {
    &&& l.surface == w.id()
    &&& l.rect == w.rect
    &&& l.fill == w.fill
    &&& l.floating == floating
    &&& l.output == output
    &&& l.workspace == workspace
}

proof fn workspace_lines_are_there(p: PaneModel, n: int, k: int, i: int)
    requires
        0 <= k < n <= p.workspaces.len(),
        0 <= i < lines_of(p, k).len(),
    ensures
        pane_lines(p, k).len() + i < pane_lines(p, n).len(),
        pane_lines(p, n)[pane_lines(p, k).len() + i] == lines_of(p, k)[i],
    decreases n,
{
    if k < n - 1 {
        workspace_lines_are_there(p, n - 1, k, i);
    }
}

proof fn output_lines_are_there(panes: Seq<PaneModel>, n: int, j: int, x: int)
    requires
        0 <= j < n <= panes.len(),
        0 <= x < pane_lines(panes[j], panes[j].workspaces.len() as int).len(),
    ensures
        window_lines(panes, j).len() + x < window_lines(panes, n).len(),
        window_lines(panes, n)[window_lines(panes, j).len() + x] == pane_lines(
            panes[j],
            panes[j].workspaces.len() as int,
        )[x],
    decreases n,
{
    if j < n - 1 {
        output_lines_are_there(panes, n - 1, j, x);
    }
}

proof fn a_line_is_there(panes: Seq<PaneModel>, j: int, k: int, i: int) -> (at: int)
    requires
        0 <= j < panes.len(),
        0 <= k < panes[j].workspaces.len(),
        0 <= i < panes[j].workspaces[k].windows().len(),
    ensures
        0 <= at < window_lines(panes, panes.len() as int).len(),
        window_lines(panes, panes.len() as int)[at] == lines_of(panes[j], k)[i],
{
    let p = panes[j];
    workspace_lines_are_there(p, p.workspaces.len() as int, k, i);
    let x = pane_lines(p, k).len() + i;
    output_lines_are_there(panes, panes.len() as int, j, x);
    window_lines(panes, j).len() + x
}

/// Every tile is listed, as one that does not float, with its rectangle, its
/// output and its workspace.
pub proof fn every_tile_is_listed(m: LayoutModel, j: int, k: int, i: int)
    requires
        0 <= j < m.outputs.len(),
        0 <= k < m.outputs[j].workspaces.len(),
        0 <= i < tree_windows(m.outputs[j].workspaces[k].tree).len(),
    ensures
        exists|n: int|
            0 <= n < window_lines(m.outputs, m.outputs.len() as int).len() && is_line_of(
                #[trigger] window_lines(m.outputs, m.outputs.len() as int)[n],
                tree_windows(m.outputs[j].workspaces[k].tree)[i],
                false,
                m.outputs[j].name,
                k,
            ),
{
    let at = a_line_is_there(m.outputs, j, k, i);
    let l = window_lines(m.outputs, m.outputs.len() as int)[at];
    assert(is_line_of(
        l,
        tree_windows(m.outputs[j].workspaces[k].tree)[i],
        false,
        m.outputs[j].name,
        k,
    ));
}

/// Every floating window is listed, as one that floats, with its rectangle,
/// its output and its workspace.
pub proof fn every_float_is_listed(m: LayoutModel, j: int, k: int, i: int)
    requires
        0 <= j < m.outputs.len(),
        0 <= k < m.outputs[j].workspaces.len(),
        0 <= i < m.outputs[j].workspaces[k].floating.len(),
    ensures
        exists|n: int|
            0 <= n < window_lines(m.outputs, m.outputs.len() as int).len() && is_line_of(
                #[trigger] window_lines(m.outputs, m.outputs.len() as int)[n],
                m.outputs[j].workspaces[k].floating[i],
                true,
                m.outputs[j].name,
                k,
            ),
{
    let ws = m.outputs[j].workspaces[k];
    let x = tree_windows(ws.tree).len() + i;
    let at = a_line_is_there(m.outputs, j, k, x);
    assert(ws.windows()[x] == ws.floating[i]);
    let l = window_lines(m.outputs, m.outputs.len() as int)[at];
    assert(is_line_of(l, ws.floating[i], true, m.outputs[j].name, k));
}

/// Whether a line is of a window that is on the given workspace.
pub open spec fn is_from(l: WindowLine, p: PaneModel, k: int) -> bool {
    &&& 0 <= k < p.workspaces.len()
    &&& {
        let ws = p.workspaces[k];
        ||| exists|i: int|
            0 <= i < tree_windows(ws.tree).len() && is_line_of(
                l,
                #[trigger] tree_windows(ws.tree)[i],
                false,
                p.name,
                k,
            )
        ||| exists|i: int|
            0 <= i < ws.floating.len() && is_line_of(
                l,
                #[trigger] ws.floating[i],
                true,
                p.name,
                k,
            )
    }
}

proof fn a_line_of_an_output(p: PaneModel, n: int, x: int) -> (k: int)
    requires
        0 <= n <= p.workspaces.len(),
        0 <= x < pane_lines(p, n).len(),
    ensures
        is_from(pane_lines(p, n)[x], p, k),
    decreases n,
{
    let before = pane_lines(p, n - 1).len() as int;
    if x < before {
        a_line_of_an_output(p, n - 1, x)
    } else {
        let i = x - before;
        let ws = p.workspaces[n - 1];
        let l = pane_lines(p, n)[x];
        assert(l == lines_of(p, n - 1)[i]);
        let tiles = tree_windows(ws.tree);
        if i < tiles.len() {
            assert(ws.windows()[i] == tiles[i]);
            assert(is_line_of(l, tiles[i], false, p.name, n - 1));
        } else {
            let f = i - tiles.len();
            assert(ws.windows()[i] == ws.floating[f]);
            assert(is_line_of(l, ws.floating[f], true, p.name, n - 1));
        }
        n - 1
    }
}

proof fn a_line_of_the_desktop(panes: Seq<PaneModel>, n: int, x: int) -> (r: (int, int))
    requires
        0 <= n <= panes.len(),
        0 <= x < window_lines(panes, n).len(),
    ensures
        0 <= r.0 < n,
        is_from(window_lines(panes, n)[x], panes[r.0], r.1),
    decreases n,
{
    let before = window_lines(panes, n - 1).len() as int;
    if x < before {
        a_line_of_the_desktop(panes, n - 1, x)
    } else {
        let p = panes[n - 1];
        let k = a_line_of_an_output(p, p.workspaces.len() as int, x - before);
        (n - 1, k)
    }
}

/// Nothing is listed but windows that are there.
pub proof fn only_windows_are_listed(m: LayoutModel, x: int)
    requires
        0 <= x < window_lines(m.outputs, m.outputs.len() as int).len(),
    ensures
        exists|j: int, k: int|
            0 <= j < m.outputs.len() && #[trigger] is_from(
                window_lines(m.outputs, m.outputs.len() as int)[x],
                m.outputs[j],
                k,
            ),
{
    let (j, k) = a_line_of_the_desktop(m.outputs, m.outputs.len() as int, x);
    assert(is_from(window_lines(m.outputs, m.outputs.len() as int)[x], m.outputs[j], k));
}

/// How many windows there are on the first `n` workspaces of an output.
pub open spec fn windows_on(p: PaneModel, n: int) -> int
    decreases n,
{
    if n <= 0 {
        0
    } else {
        windows_on(p, n - 1) + tree_windows(p.workspaces[n - 1].tree).len() + p.workspaces[n
            - 1].floating.len()
    }
}

/// How many windows there are on the first `n` outputs.
pub open spec fn windows_of(panes: Seq<PaneModel>, n: int) -> int
    decreases n,
{
    if n <= 0 {
        0
    } else {
        windows_of(panes, n - 1) + windows_on(panes[n - 1], panes[n - 1].workspaces.len() as int)
    }
}

proof fn output_lines_are_as_many(p: PaneModel, n: int)
    requires
        0 <= n <= p.workspaces.len(),
    ensures
        pane_lines(p, n).len() == windows_on(p, n),
    decreases n,
{
    if n > 0 {
        output_lines_are_as_many(p, n - 1);
    }
}

/// The list is as long as there are windows: each is listed once.
pub proof fn windows_are_listed_once(panes: Seq<PaneModel>, n: int)
    requires
        0 <= n <= panes.len(),
    ensures
        window_lines(panes, n).len() == windows_of(panes, n),
    decreases n,
{
    if n > 0 {
        windows_are_listed_once(panes, n - 1);
        let p = panes[n - 1];
        output_lines_are_as_many(p, p.workspaces.len() as int);
    }
}

/// Every workspace is listed, with its output, its place, how many windows are
/// on it, and whether it is the one on show.
pub proof fn every_workspace_is_listed(panes: Seq<PaneModel>, n: int, j: int, k: int)
    requires
        0 <= j < n <= panes.len(),
        0 <= k < panes[j].workspaces.len(),
    ensures
        exists|x: int|
            0 <= x < workspace_lines(panes, n).len() && #[trigger] workspace_lines(panes, n)[x] == (
            WorkspaceLine {
                output: panes[j].name,
                index: k,
                active: k == panes[j].active,
                windows: tree_windows(panes[j].workspaces[k].tree).len() as int
                    + panes[j].workspaces[k].floating.len(),
            }),
    decreases n,
{
    let all = workspace_lines(panes, n);
    let before = workspace_lines(panes, n - 1);
    let line = WorkspaceLine {
        output: panes[j].name,
        index: k,
        active: k == panes[j].active,
        windows: tree_windows(panes[j].workspaces[k].tree).len() as int
            + panes[j].workspaces[k].floating.len(),
    };
    if j == n - 1 {
        assert(all[before.len() + k] == line);
    } else {
        every_workspace_is_listed(panes, n - 1, j, k);
        let x = choose|x: int|
            0 <= x < workspace_lines(panes, n - 1).len() && #[trigger] workspace_lines(
                panes,
                n - 1,
            )[x] == line;
        assert(all[x] == line);
    }
}

/// How many workspaces the first `n` outputs have.
pub open spec fn workspaces_of(panes: Seq<PaneModel>, n: int) -> int
    decreases n,
{
    if n <= 0 {
        0
    } else {
        workspaces_of(panes, n - 1) + panes[n - 1].workspaces.len()
    }
}

/// The list is as long as there are workspaces: each is listed once.
pub proof fn workspaces_are_listed_once(panes: Seq<PaneModel>, n: int)
    requires
        0 <= n <= panes.len(),
    ensures
        workspace_lines(panes, n).len() == workspaces_of(panes, n),
    decreases n,
{
    if n > 0 {
        workspaces_are_listed_once(panes, n - 1);
    }
}

proof fn line_search(ls: Seq<WindowLine>, s: SurfaceId, from: int)
    requires
        0 <= from,
    ensures
        match line_from(ls, s, from) {
            None => forall|x: int| from <= x < ls.len() ==> (#[trigger] ls[x]).surface != s,
            Some(i) => from <= i < ls.len() && ls[i].surface == s,
        },
    decreases ls.len() - from,
{
    if from < ls.len() && ls[from].surface != s {
        line_search(ls, s, from + 1);
    }
}

/// The line that is found of a window is one of it, and one is found wherever
/// the window is listed.
pub proof fn listed_windows_are_found(m: LayoutModel, s: SurfaceId, x: int)
    requires
        0 <= x < window_lines(m.outputs, m.outputs.len() as int).len(),
    ensures
        line_of(m, s) matches Some(l) ==> l.surface == s && window_lines(
            m.outputs,
            m.outputs.len() as int,
        ).contains(l),
        window_lines(m.outputs, m.outputs.len() as int)[x].surface == s ==> line_of(m, s).is_some(),
{
    line_search(window_lines(m.outputs, m.outputs.len() as int), s, 0);
}

/// A window that is asked for comes on show: its output shows the workspace
/// that the window is listed on.
pub proof fn windows_asked_for_come_on_show(
    m: LayoutModel,
    s: SurfaceId,
    i: int,
    l: WindowLine,
    slide: SlideTiming,
)
    requires
        m.valid(),
        line_of(m, s) == Some(l),
        m.pane(Probe::Named(l.output)) == Some(i),
        0 <= i < m.outputs.len(),
        0 <= l.workspace <= m.outputs[i].furthest(),
        l.workspace < m.outputs[i].workspaces.len(),
    ensures
        l.workspace != m.outputs[i].active ==> showing(m, s, slide).outputs[i].current()
            == m.outputs[i].workspaces[l.workspace].laid_out(
            inside_gap(m.outputs[i].bounds, m.gaps.outer as int),
            m.gaps.inner as int,
        ),
        l.workspace == m.outputs[i].active ==> showing(m, s, slide) == m,
{
    switching_shows_the_workspace_asked_for(m, i, l.workspace, slide);
}

/// Asking for a window that is not listed changes nothing.
pub proof fn unlisted_windows_are_not_shown(m: LayoutModel, s: SurfaceId, slide: SlideTiming)
    requires
        line_of(m, s).is_none(),
    ensures
        showing(m, s, slide) == m,
{
}

} // verus!
