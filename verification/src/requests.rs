//! Laws on what programs are told of the desktop, and on what they can ask of
//! it.

use vstd::prelude::*;
use vstd::string::*;

use crate::bindings::{line_of, showing};
use crate::desktop::{LayoutModel, Probe, SlideTiming, WindowLine};
use crate::ipc::{
    opt_text, IpcModel, LayerInfo, OutputInfo, Request, Response, WorkspaceInfo, WorkspaceTarget,
};
use crate::laws::{
    switching_shows_the_workspace_asked_for, windows_have_the_fill_they_were_given,
};
use crate::server::{
    all_lines, answered, client_from, first_shown, infos_of, is_layer_of, is_listed_as,
    is_output_of, may_change, modifier_names, name_if, numbering, numbering_all, resolved,
    target_index, toggled, window_moved, window_on, workspace_focused, ClientInfo, LayerRecord,
    OutputDescriptor, ServerContext, Step, Toggle,
};
use crate::tree::inside_gap;
use crate::window::{FillMode, SurfaceId};

verus! {

// ---- What is told

/// The client of a surface is the first one that is said to be its.
pub proof fn the_first_client_of_a_surface_counts(
    cs: Seq<ClientInfo>,
    surface: SurfaceId,
    from: int,
)
    requires
        0 <= from,
    ensures
        match client_from(cs, surface, from) {
            None => forall|j: int| from <= j < cs.len() ==> (#[trigger] cs[j]).surface != surface,
            Some(i) => {
                &&& from <= i < cs.len()
                &&& cs[i].surface == surface
                &&& forall|j: int| from <= j < i ==> (#[trigger] cs[j]).surface != surface
            },
        },
    decreases cs.len() - from,
{
    if from < cs.len() && cs[from].surface != surface {
        the_first_client_of_a_surface_counts(cs, surface, from + 1);
    }
}

proof fn infos_are_in_order(
    m: IpcModel,
    ls: Seq<WindowLine>,
    cs: Seq<ClientInfo>,
    focus: Option<SurfaceId>,
    n: int,
    i: int,
)
    requires
        0 <= i < n <= ls.len(),
    ensures
        infos_of(m, ls, cs, focus, n).len() == n,
        infos_of(m, ls, cs, focus, n)[i] == crate::server::info_of(
            ls[i],
            numbering_all(m, ls, i + 1).ids[ls[i].surface],
            cs,
            focus,
        ),
    decreases n,
{
    if n > 1 {
        if i < n - 1 {
            infos_are_in_order(m, ls, cs, focus, n - 1, i);
        } else {
            infos_are_in_order(m, ls, cs, focus, n - 1, 0);
        }
    } else {
        assert(infos_of(m, ls, cs, focus, 0).len() == 0);
    }
}

/// Programs are told of every window in the list, in order: where it is, how
/// large, in which state, and whether it has the keyboard; what its client
/// says of it, if there is one.
pub proof fn windows_are_told_as_they_are(
    m: IpcModel,
    ls: Seq<WindowLine>,
    cs: Seq<ClientInfo>,
    focus: Option<SurfaceId>,
    i: int,
    c: int,
)
    requires
        0 <= i < ls.len(),
    ensures
        ({
            let all = infos_of(m, ls, cs, focus, ls.len() as int);
            let w = all[i];
            &&& all.len() == ls.len()
            &&& w.output == Some(ls[i].output)
            &&& w.workspace == Some(ls[i].workspace)
            &&& w.x == ls[i].rect.loc.x
            &&& w.y == ls[i].rect.loc.y
            &&& w.width == ls[i].rect.size.w
            &&& w.height == ls[i].rect.size.h
            &&& w.floating == ls[i].floating
            &&& w.fullscreen <==> ls[i].fill == FillMode::Fullscreen
            &&& w.maximized <==> ls[i].fill == FillMode::Maximized
            &&& w.focused <==> focus == Some(ls[i].surface)
            &&& 0 <= c < cs.len() && cs[c].surface == ls[i].surface && (forall|j: int|
                0 <= j < c ==> (#[trigger] cs[j]).surface != ls[i].surface) ==> {
                &&& w.app_id == opt_text(cs[c].app_id)
                &&& w.title == opt_text(cs[c].title)
                &&& w.pid == cs[c].pid
            }
            &&& (forall|j: int| 0 <= j < cs.len() ==> (#[trigger] cs[j]).surface != ls[i].surface)
                ==> w.app_id.is_none() && w.title.is_none() && w.pid.is_none()
        }),
{
    infos_are_in_order(m, ls, cs, focus, ls.len() as int, i);
    the_first_client_of_a_surface_counts(cs, ls[i].surface, 0);
}

proof fn numbers_stay(m: IpcModel, ls: Seq<WindowLine>, n: int, s: SurfaceId)
    requires
        0 <= n <= ls.len(),
    ensures
        m.ids.dom().contains(s) ==> numbering_all(m, ls, n).ids.dom().contains(s) && numbering_all(
            m,
            ls,
            n,
        ).ids[s] == m.ids[s],
    decreases n,
{
    if n > 0 {
        numbers_stay(m, ls, n - 1, s);
    }
}

/// A window that has a number keeps it: it is told under the same number each
/// time.
pub proof fn windows_are_told_under_their_number(
    m: IpcModel,
    ls: Seq<WindowLine>,
    cs: Seq<ClientInfo>,
    focus: Option<SurfaceId>,
    i: int,
)
    requires
        0 <= i < ls.len(),
        m.ids.dom().contains(ls[i].surface),
    ensures
        infos_of(m, ls, cs, focus, ls.len() as int)[i].id == m.ids[ls[i].surface],
{
    infos_are_in_order(m, ls, cs, focus, ls.len() as int, i);
    numbers_stay(m, ls, i + 1, ls[i].surface);
}

/// A window without a number gets the one after the last that was given, and
/// is found again by it.
pub proof fn new_windows_get_the_next_number(m: IpcModel, s: SurfaceId)
    requires
        !m.ids.dom().contains(s),
        m.last_id < u64::MAX,
    ensures
        ({
            let after = numbering(m, s);
            &&& after.last_id == m.last_id + 1
            &&& after.ids.dom().contains(s)
            &&& after.ids[s] == m.last_id + 1
            &&& after.owners.dom().contains(after.ids[s])
            &&& after.owners[after.ids[s]] == s
        }),
{
}

/// Outputs are told with their mode, their place on the desktop and the
/// workspace on show; a maker or a model that is empty is left out.
pub proof fn outputs_are_told_as_they_are(o: OutputInfo, d: OutputDescriptor, m: LayoutModel, i: int)
    requires
        is_output_of(o, d, m),
    ensures
        o.name@ == d.name@,
        (o.width, o.height) == (d.mode_size.w, d.mode_size.h),
        (o.logical_width, o.logical_height) == (d.size.w, d.size.h),
        (o.x, o.y) == (d.position.x, d.position.y),
        o.refresh_mhz == d.refresh_mhz,
        o.scale == d.scale,
        o.make matches Some(t) ==> t@.len() > 0 && (d.make matches Some(u) && u@ == t@),
        d.make matches Some(u) && u@.len() > 0 ==> o.make.is_some(),
        o.model matches Some(t) ==> t@.len() > 0 && (d.model matches Some(u) && u@ == t@),
        d.model matches Some(u) && u@.len() > 0 ==> o.model.is_some(),
        m.pane(Probe::Named(d.name@)) == Some(i) ==> (o.active_workspace matches Some(k) && k
            == m.outputs[i].active),
        m.pane(Probe::Named(d.name@)).is_none() ==> o.active_workspace.is_none(),
{
}

/// Layers are told as they are recorded, under an empty name where they have
/// none.
pub proof fn layers_are_told_as_they_are(i: LayerInfo, l: LayerRecord)
    requires
        is_layer_of(i, l),
    ensures
        l.namespace matches Some(n) ==> i.namespace@ == n@,
        l.namespace.is_none() ==> i.namespace@.len() == 0,
        i.output == l.output,
        (i.width, i.height) == (l.size.w, l.size.h),
        i.keyboard == l.keyboard,
        i.exclusive_zone == l.exclusive_zone,
{
}

/// The modifiers of a mask are named, and no others.
pub proof fn held_modifiers_are_named(mask: u32)
    ensures
        modifier_names(mask).contains("Super"@) <==> mask & 8 != 0,
        modifier_names(mask).contains("Ctrl"@) <==> mask & 2 != 0,
        modifier_names(mask).contains("Alt"@) <==> mask & 4 != 0,
        modifier_names(mask).contains("Shift"@) <==> mask & 1 != 0,
{
    reveal_strlit("Super");
    reveal_strlit("Ctrl");
    reveal_strlit("Alt");
    reveal_strlit("Shift");
    let a = name_if(mask, 8, "Super"@);
    let b = a + name_if(mask, 2, "Ctrl"@);
    let c = b + name_if(mask, 4, "Alt"@);
    let d = c + name_if(mask, 1, "Shift"@);
    assert(d == modifier_names(mask));
    assert("Super"@[1] != "Shift"@[1]);
    if mask & 8 != 0 {
        assert(d[0] == "Super"@);
    }
    if mask & 2 != 0 {
        assert(d[a.len() as int] == "Ctrl"@);
    }
    if mask & 4 != 0 {
        assert(d[b.len() as int] == "Alt"@);
    }
    if mask & 1 != 0 {
        assert(d[c.len() as int] == "Shift"@);
    }
    assert forall|i: int| 0 <= i < d.len() implies {
        ||| #[trigger] d[i] == "Super"@ && mask & 8 != 0
        ||| d[i] == "Ctrl"@ && mask & 2 != 0
        ||| d[i] == "Alt"@ && mask & 4 != 0
        ||| d[i] == "Shift"@ && mask & 1 != 0
    } by {
        if i < a.len() {
            assert(d[i] == a[i]);
        } else if i < b.len() {
            assert(d[i] == b[i]);
        } else if i < c.len() {
            assert(d[i] == c[i]);
        }
    }
}

// ---- What is asked for

/// A request without a number is of the window that has the keyboard; one with
/// a number is of the window of that number, if it lives, and of none else.
pub proof fn requests_are_of_the_window_they_name(
    m: IpcModel,
    n: u64,
    alive: bool,
    focus: Option<SurfaceId>,
)
    ensures
        resolved(m, None, alive, focus) == focus,
        alive && m.owners.dom().contains(n) ==> resolved(m, Some(n), alive, focus) == Some(
            m.owners[n],
        ),
        !alive || !m.owners.dom().contains(n) ==> resolved(m, Some(n), alive, focus).is_none(),
{
}

/// The next workspace is one further and the previous one is one back from it;
/// before the first there is none.
pub proof fn next_and_previous_are_neighbours(current: int, n: usize)
    requires
        0 <= current < usize::MAX,
    ensures
        target_index(WorkspaceTarget::Next, current) == current + 1,
        target_index(WorkspaceTarget::Prev, current + 1) == current,
        target_index(WorkspaceTarget::Prev, 0) == 0,
        target_index(WorkspaceTarget::Index(n), current) == n,
{
}

proof fn window_search(ls: Seq<WindowLine>, output: Seq<char>, workspace: int, from: int)
    requires
        0 <= from,
    ensures
        match window_on(ls, output, workspace, from) {
            None => forall|x: int|
                from <= x < ls.len() ==> !((#[trigger] ls[x]).output == output && ls[x].workspace
                    == workspace),
            Some(s) => exists|x: int|
                from <= x < ls.len() && (#[trigger] ls[x]).surface == s && ls[x].output == output
                    && ls[x].workspace == workspace && forall|y: int|
                    from <= y < x ==> !((#[trigger] ls[y]).output == output && ls[y].workspace
                        == workspace),
        },
    decreases ls.len() - from,
{
    if from < ls.len() {
        if ls[from].output == output && ls[from].workspace == workspace {
            assert(ls[from].surface == ls[from].surface);
        } else {
            window_search(ls, output, workspace, from + 1);
        }
    }
}

/// When an output shows another workspace, the keyboard goes to the first
/// window that is listed on it, and to none where there is none.
pub proof fn the_keyboard_follows_the_workspace(m: LayoutModel, output: Seq<char>, i: int)
    requires
        m.pane(Probe::Named(output)) == Some(i),
    ensures
        ({
            let ls = all_lines(m);
            let k = m.outputs[i].active;
            match first_shown(m, output) {
                None => forall|x: int|
                    0 <= x < ls.len() ==> !((#[trigger] ls[x]).output == output && ls[x].workspace
                        == k),
                Some(s) => exists|x: int|
                    0 <= x < ls.len() && (#[trigger] ls[x]).surface == s && ls[x].output == output
                        && ls[x].workspace == k && forall|y: int|
                        0 <= y < x ==> !((#[trigger] ls[y]).output == output && ls[y].workspace
                            == k),
            }
        }),
{
    window_search(all_lines(m), output, m.outputs[i].active, 0);
}

/// A workspace that is asked for by its place comes on show on the output that
/// is named, and the keyboard goes with it. An output that is not there is
/// refused; a workspace that is on show already changes nothing.
pub proof fn workspaces_asked_for_come_on_show(
    m: LayoutModel,
    output: Seq<char>,
    i: int,
    n: usize,
    slide: SlideTiming,
)
    requires
        m.valid(),
    ensures
        m.pane(Probe::Named(output)).is_none() ==> workspace_focused(
            m,
            output,
            WorkspaceTarget::Index(n),
            slide,
        ).is_none(),
        m.pane(Probe::Named(output)) == Some(i) && 0 <= i < m.outputs.len() && n
            < m.outputs[i].workspaces.len() ==> {
            let r = workspace_focused(m, output, WorkspaceTarget::Index(n), slide);
            let p = m.outputs[i];
            &&& r.is_some()
            &&& n == p.active ==> r.unwrap().0 == m && r.unwrap().1.is_none()
            &&& n != p.active ==> r.unwrap().0.outputs[i].current() == p.workspaces[n as int].laid_out(
                inside_gap(p.bounds, m.gaps.outer as int),
                m.gaps.inner as int,
            )
            &&& n != p.active ==> r.unwrap().1 == Some(first_shown(r.unwrap().0, output))
        },
{
    if m.pane(Probe::Named(output)) == Some(i) && 0 <= i < m.outputs.len() {
        switching_shows_the_workspace_asked_for(m, i, n as int, slide);
        assert(m.outputs[i].valid());
    }
}

/// A window is moved from the workspace it is listed on: by its place, one
/// further or one back. One that is not listed cannot be moved.
pub proof fn windows_are_moved_from_where_they_are(m: LayoutModel, s: SurfaceId, n: usize)
    ensures
        line_of(m, s).is_none() ==> window_moved(m, s, WorkspaceTarget::Index(n)).is_none(),
        line_of(m, s).is_some() ==> window_moved(m, s, WorkspaceTarget::Index(n)) == Some(
            m.sending(s, n as int),
        ),
        line_of(m, s) matches Some(l) ==> {
            &&& 0 <= l.workspace < usize::MAX ==> window_moved(m, s, WorkspaceTarget::Next) == Some(
                m.sending(s, l.workspace + 1),
            )
            &&& 0 < l.workspace ==> window_moved(m, s, WorkspaceTarget::Prev) == Some(
                m.sending(s, l.workspace - 1),
            )
        },
{
}

/// A window that is not fullscreen is after the request, and the other way
/// round; likewise maximized. A window that is not there is refused.
pub proof fn toggled_windows_change_their_fill(
    m: LayoutModel,
    s: SurfaceId,
    facts: crate::desktop::ClientFacts,
)
    ensures
        m.window_of(s).is_none() ==> !toggled(m, s, Toggle::Fullscreen, facts).1 && !toggled(
            m,
            s,
            Toggle::Maximized,
            facts,
        ).1,
        m.window_of(s) matches Some(w) ==> {
            let full = toggled(m, s, Toggle::Fullscreen, facts);
            let large = toggled(m, s, Toggle::Maximized, facts);
            &&& full.1 && large.1
            &&& (full.0.window_of(s) matches Some(v) && v.fill == (if w.fill
                == FillMode::Fullscreen {
                FillMode::Normal
            } else {
                FillMode::Fullscreen
            }))
            &&& (large.0.window_of(s) matches Some(v) && v.fill == (if w.fill
                == FillMode::Maximized {
                FillMode::Normal
            } else {
                FillMode::Maximized
            }))
        },
{
    if m.window_of(s).is_some() {
        windows_have_the_fill_they_were_given(m, s, FillMode::Fullscreen);
        windows_have_the_fill_they_were_given(m, s, FillMode::Maximized);
        windows_have_the_fill_they_were_given(m, s, FillMode::Normal);
    }
}

/// A request after which nothing is drawn anew has left the desktop as it was.
pub proof fn quiet_requests_leave_the_desktop(
    before: LayoutModel,
    after: LayoutModel,
    ipc: IpcModel,
    ipc_after: IpcModel,
    req: Request,
    cx: ServerContext,
    step: Step,
)
    requires
        answered(before, after, ipc, ipc_after, req, cx, step),
        !may_change(req),
    ensures
        after == before,
{
}

/// A window that is asked for by its number gets the keyboard, and its
/// workspace comes on show.
pub proof fn windows_asked_for_get_the_keyboard(
    before: LayoutModel,
    after: LayoutModel,
    ipc: IpcModel,
    ipc_after: IpcModel,
    id: u64,
    cx: ServerContext,
    step: Step,
)
    requires
        answered(before, after, ipc, ipc_after, (Request::FocusWindow { id }), cx, step),
        ipc.owners.dom().contains(id),
        cx.alive,
    ensures
        step == (Step::Focus { focus: Some(ipc.owners[id]) }),
        after == showing(before, ipc.owners[id], cx.slide),
        ipc_after == ipc,
{
}

/// A request to close a window asks that window, the focused one where no
/// number is given, and leaves the desktop as it is.
pub proof fn windows_are_asked_to_close(
    before: LayoutModel,
    after: LayoutModel,
    ipc: IpcModel,
    ipc_after: IpcModel,
    s: SurfaceId,
    cx: ServerContext,
    step: Step,
)
    requires
        answered(before, after, ipc, ipc_after, (Request::Close { id: None }), cx, step),
        cx.focus == Some(s),
        cx.closable,
    ensures
        step == (Step::Close { surface: s }),
        after == before,
        ipc_after == ipc,
{
}

/// The window that has the keyboard is told, under its number, which it gets
/// now if it has none; no window is told where none has it.
pub proof fn the_focused_window_is_told(
    before: LayoutModel,
    after: LayoutModel,
    ipc: IpcModel,
    ipc_after: IpcModel,
    cx: ServerContext,
    step: Step,
)
    requires
        answered(before, after, ipc, ipc_after, Request::FocusedWindow, cx, step),
    ensures
        after == before,
        step matches Step::Reply(Ok(Response::FocusedWindow(w))) && match cx.focus {
            None => w.is_none() && ipc_after == ipc,
            Some(s) => match line_of(before, s) {
                None => w.is_none() && ipc_after == ipc,
                Some(l) => {
                    &&& ipc_after == numbering(ipc, l.surface)
                    &&& w.is_some()
                    &&& w.unwrap().id == ipc_after.ids[l.surface]
                    &&& w.unwrap().focused == (l.surface == s)
                    &&& w.unwrap().x == l.rect.loc.x
                    &&& w.unwrap().y == l.rect.loc.y
                },
            },
        },
{
}

/// A window that is asked to another workspace goes there, from the one it is
/// listed on. What cannot be done is refused and changes nothing.
pub proof fn windows_asked_elsewhere_go_there(
    before: LayoutModel,
    after: LayoutModel,
    ipc: IpcModel,
    ipc_after: IpcModel,
    id: Option<u64>,
    target: WorkspaceTarget,
    cx: ServerContext,
    step: Step,
)
    requires
        answered(
            before,
            after,
            ipc,
            ipc_after,
            (Request::MoveToWorkspace { id, target }),
            cx,
            step,
        ),
    ensures
        ipc_after == ipc,
        match resolved(ipc, id, cx.alive, cx.focus) {
            None => after == before && step is Reply,
            Some(s) => match line_of(before, s) {
                None => after == before && (step matches Step::Reply(r) && r.is_err()),
                Some(l) => after == before.sending(s, target_index(target, l.workspace)).0 && (
                step matches Step::Reply(r) && r.is_ok() == before.sending(
                    s,
                    target_index(target, l.workspace),
                ).1),
            },
        },
{
}

/// A request to change the state of a window changes that window's, and is
/// refused where there is no such window.
pub proof fn windows_asked_to_change_do(
    before: LayoutModel,
    after: LayoutModel,
    ipc: IpcModel,
    ipc_after: IpcModel,
    s: SurfaceId,
    cx: ServerContext,
    step: Step,
)
    requires
        cx.focus == Some(s),
    ensures
        answered(before, after, ipc, ipc_after, (Request::ToggleFullscreen { id: None }), cx, step)
            ==> after == before.toggling_fill(s, FillMode::Fullscreen) && (step matches Step::Reply(
            r,
        ) && r.is_ok() == before.window_of(s).is_some()),
        answered(before, after, ipc, ipc_after, (Request::ToggleMaximized { id: None }), cx, step)
            ==> after == before.toggling_fill(s, FillMode::Maximized) && (step matches Step::Reply(
            r,
        ) && r.is_ok() == before.window_of(s).is_some()),
        answered(before, after, ipc, ipc_after, (Request::ToggleFloating { id: None }), cx, step)
            ==> after == before.toggling_floating(s, *cx.facts).0 && (step matches Step::Reply(r)
            && r.is_ok() == before.toggling_floating(s, *cx.facts).1),
{
}

/// Programs are told the name and the version, every output, every workspace,
/// every layer and every binding, and their questions change nothing.
pub proof fn questions_are_answered_in_full(
    before: LayoutModel,
    after: LayoutModel,
    ipc: IpcModel,
    ipc_after: IpcModel,
    cx: ServerContext,
    step: Step,
)
    ensures
        answered(before, after, ipc, ipc_after, Request::Version, cx, step) ==> after == before
            && ipc_after == ipc && (step matches Step::Reply(Ok(Response::Version(v))) && v.name@
            == "libreland"@ && v.version@ == cx.version@),
        answered(before, after, ipc, ipc_after, Request::Outputs, cx, step) ==> after == before
            && ipc_after == ipc && (step matches Step::Reply(Ok(Response::Outputs(os))) && os@.len()
            == cx.outputs@.len()),
        answered(before, after, ipc, ipc_after, Request::Layers, cx, step) ==> after == before
            && ipc_after == ipc && (step matches Step::Reply(Ok(Response::Layers(ls))) && ls@.len()
            == cx.layers@.len() && forall|i: int|
            0 <= i < ls@.len() ==> is_layer_of(#[trigger] ls@[i], cx.layers@[i])),
        answered(before, after, ipc, ipc_after, Request::Binds, cx, step) ==> after == before
            && ipc_after == ipc && (step matches Step::Reply(Ok(Response::Binds(bs))) && bs@.len()
            == cx.binds@.len()),
        answered(before, after, ipc, ipc_after, Request::Workspaces, cx, step) ==> after == before
            && ipc_after == ipc && (step matches Step::Reply(Ok(Response::Workspaces(ws)))
            && ws@.len() == crate::listing::workspaces_of(
            before.outputs,
            before.outputs.len() as int,
        )),
{
    crate::listing::workspaces_are_listed_once(before.outputs, before.outputs.len() as int);
}

/// Workspaces are told with their output, their place, whether they are on
/// show, and how many windows they have.
pub proof fn workspaces_are_told_as_they_are(
    w: WorkspaceInfo,
    l: crate::desktop::WorkspaceLine,
)
    requires
        is_listed_as(w, l),
    ensures
        w.output@ == l.output,
        w.index == l.index,
        w.active == l.active,
        w.window_count == l.windows,
{
}

} // verus!
