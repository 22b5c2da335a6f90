//! What the control socket answers: the lists it gives, and what the requests
//! make of the desktop.

use vstd::prelude::*;
use vstd::string::*;

use crate::bindings::{find_entry, line_of, showing};
use crate::config::{Action, KeyBinding};
use crate::desktop::{
    window_lines, workspace_lines, ClientFacts, LayoutModel, Probe, SlideTiming, WindowLine,
    WorkspaceLine,
};
use crate::geometry::{Point, Size};
use crate::icon::{join, joined as below};
use crate::ipc::{
    changes, events_view, informed, opt_text, workspace_infos, BindInfo, Event, EventModel,
    IpcModel, IpcState, LayerInfo, OutputInfo, Reply, Request, Response, VersionInfo,
    WindowInfo, WorkspaceInfo, WorkspaceTarget,
};
use crate::keyboard::{MOD_ALT, MOD_CTRL, MOD_SHIFT, MOD_SUPER};
use crate::layers::LayerBucket;
use crate::layout::{window_views, workspace_views, Layout, WindowEntry};
use crate::lists::reversed;
use crate::text::{decimal, joined, number_text, same, texts};
use crate::window::{FillMode, SurfaceId};

verus! {

/// What a window's client says of it, and the client's process.
#[derive(Debug)]
pub struct ClientInfo {
    pub surface: SurfaceId,
    pub app_id: Option<String>,
    pub title: Option<String>,
    pub pid: Option<i32>,
}

/// A window, as it reads.
#[verifier::ext_equal]
pub struct WindowInfoModel {
    pub id: u64,
    pub app_id: Option<Seq<char>>,
    pub title: Option<Seq<char>>,
    pub output: Option<Seq<char>>,
    pub workspace: Option<int>,
    pub x: i32,
    pub y: i32,
    pub width: i32,
    pub height: i32,
    pub floating: bool,
    pub fullscreen: bool,
    pub maximized: bool,
    pub focused: bool,
    pub pid: Option<i32>,
}

impl View for WindowInfo {
    type V = WindowInfoModel;

    open spec fn view(&self) -> WindowInfoModel {
        WindowInfoModel {
            id: self.id,
            app_id: opt_text(self.app_id),
            title: opt_text(self.title),
            output: opt_text(self.output),
            workspace: match self.workspace {
                None => None,
                Some(n) => Some(n as int),
            },
            x: self.x,
            y: self.y,
            width: self.width,
            height: self.height,
            floating: self.floating,
            fullscreen: self.fullscreen,
            maximized: self.maximized,
            focused: self.focused,
            pid: self.pid,
        }
    }
}

/// Windows, as they read.
pub open spec fn window_infos(ws: Seq<WindowInfo>) -> Seq<WindowInfoModel> {
    Seq::new(ws.len(), |i: int| ws[i]@)
}

/// The client of a surface at or after `from`.
pub open spec fn client_from(cs: Seq<ClientInfo>, surface: SurfaceId, from: int) -> Option<int>
    decreases cs.len() - from,
{
    if from < 0 || from >= cs.len() {
        None
    } else if cs[from].surface == surface {
        Some(from)
    } else {
        client_from(cs, surface, from + 1)
    }
}

/// A window with the given number, as it is listed.
pub open spec fn info_of(
    l: WindowLine,
    id: u64,
    cs: Seq<ClientInfo>,
    focus: Option<SurfaceId>,
) -> WindowInfoModel {
    let c = client_from(cs, l.surface, 0);
    WindowInfoModel {
        id,
        app_id: match c {
            None => None,
            Some(i) => opt_text(cs[i].app_id),
        },
        title: match c {
            None => None,
            Some(i) => opt_text(cs[i].title),
        },
        output: Some(l.output),
        workspace: Some(l.workspace),
        x: l.rect.loc.x,
        y: l.rect.loc.y,
        width: l.rect.size.w,
        height: l.rect.size.h,
        floating: l.floating,
        fullscreen: l.fill == FillMode::Fullscreen,
        maximized: l.fill == FillMode::Maximized,
        focused: focus == Some(l.surface),
        pid: match c {
            None => None,
            Some(i) => cs[i].pid,
        },
    }
}

/// The numbers once a window has one.
pub open spec fn numbering(m: IpcModel, s: SurfaceId) -> IpcModel {
    if m.ids.dom().contains(s) {
        m
    } else {
        let id = (m.last_id + 1) as u64;
        IpcModel {
            ids: m.ids.insert(s, id),
            owners: m.owners.insert(id, s),
            last_id: id,
            ..m
        }
    }
}

/// The numbers once the first `n` windows of a list have theirs.
pub open spec fn numbering_all(m: IpcModel, ls: Seq<WindowLine>, n: int) -> IpcModel
    decreases n,
{
    if n <= 0 {
        m
    } else {
        numbering(numbering_all(m, ls, n - 1), ls[n - 1].surface)
    }
}

/// The first `n` windows of a list.
pub open spec fn infos_of(
    m: IpcModel,
    ls: Seq<WindowLine>,
    cs: Seq<ClientInfo>,
    focus: Option<SurfaceId>,
    n: int,
) -> Seq<WindowInfoModel>
    decreases n,
{
    if n <= 0 {
        Seq::empty()
    } else {
        infos_of(m, ls, cs, focus, n - 1).push(
            info_of(
                ls[n - 1],
                numbering_all(m, ls, n).ids[ls[n - 1].surface],
                cs,
                focus,
            ),
        )
    }
}

fn copied(s: &Option<String>) -> (r: Option<String>)
    ensures
        r == *s,
{
    match s {
        None => None,
        Some(s) => Some(s.clone()),
    }
}

fn find_client(cs: &Vec<ClientInfo>, surface: SurfaceId) -> (r: Option<usize>)
    ensures
        match r {
            None => client_from(cs@, surface, 0).is_none(),
            Some(i) => i < cs@.len() && client_from(cs@, surface, 0) == Some(i as int),
        },
{
    let mut i: usize = 0;
    while i < cs.len()
        invariant
            i <= cs@.len(),
            client_from(cs@, surface, 0) == client_from(cs@, surface, i as int),
        decreases cs@.len() - i,
    {
        if cs[i].surface == surface {
            return Some(i);
        }
        i += 1;
    }
    None
}

/// A window as it is listed; it gets a number if it has none.
pub fn window_info(
    ipc: &mut IpcState,
    clients: &Vec<ClientInfo>,
    e: WindowEntry,
    focus: Option<SurfaceId>,
) -> (r: WindowInfo)
    requires
        old(ipc)@.valid(),
        old(ipc)@.last_id < u64::MAX,
    ensures
        final(ipc)@.valid(),
        final(ipc)@ == numbering(old(ipc)@, e.surface),
        r@ == info_of(e@, final(ipc)@.ids[e.surface], clients@, focus),
{
    let id: u64 = ipc.assign(e.surface);
    let (app_id, title, pid): (Option<String>, Option<String>, Option<i32>) = match find_client(
        clients,
        e.surface,
    ) {
        None => (None, None, None),
        Some(i) => (copied(&clients[i].app_id), copied(&clients[i].title), clients[i].pid),
    };
    let focused = match focus {
        None => false,
        Some(f) => f == e.surface,
    };
    WindowInfo {
        id,
        app_id,
        title,
        output: Some(e.output),
        workspace: Some(e.workspace),
        x: e.rect.loc.x,
        y: e.rect.loc.y,
        width: e.rect.size.w,
        height: e.rect.size.h,
        floating: e.floating,
        fullscreen: e.fill == FillMode::Fullscreen,
        maximized: e.fill == FillMode::Maximized,
        focused,
        pid,
    }
}

/// The lines of the window list.
pub open spec fn all_lines(m: LayoutModel) -> Seq<WindowLine> {
    window_lines(m.outputs, m.outputs.len() as int)
}

/// All windows but the one in transit.
pub fn windows(
    ipc: &mut IpcState,
    layout: &Layout,
    clients: &Vec<ClientInfo>,
    focus: Option<SurfaceId>,
) -> (r: Vec<WindowInfo>)
    requires
        old(ipc)@.valid(),
        old(ipc)@.last_id + all_lines(layout@).len() <= u64::MAX,
    ensures
        final(ipc)@.valid(),
        final(ipc)@ == numbering_all(
            old(ipc)@,
            all_lines(layout@),
            all_lines(layout@).len() as int,
        ),
        window_infos(r@) == infos_of(
            old(ipc)@,
            all_lines(layout@),
            clients@,
            focus,
            all_lines(layout@).len() as int,
        ),
{
    let entries = layout.window_entries();
    let ghost es = entries@;
    let ghost ls = all_lines(layout@);
    assert(window_views(es) == ls);
    let mut todo = reversed(entries);
    let ghost n = todo@.len() as int;
    let mut out: Vec<WindowInfo> = Vec::new();
    while todo.len() > 0
        invariant
            todo@.len() <= n,
            n == es.len(),
            n == ls.len(),
            window_views(es) == ls,
            forall|k: int| 0 <= k < todo@.len() ==> #[trigger] todo@[k] == es[n - 1 - k],
            ipc@.valid(),
            old(ipc)@.last_id + n <= u64::MAX,
            ipc@.last_id <= old(ipc)@.last_id + (n - todo@.len()),
            ipc@ == numbering_all(old(ipc)@, ls, n - todo@.len()),
            window_infos(out@) =~= infos_of(old(ipc)@, ls, clients@, focus, n - todo@.len()),
        decreases todo@.len(),
    {
        let ghost done = n - todo@.len();
        let ghost had = out@;
        let e = todo.pop().unwrap();
        assert(e == es[done]);
        assert(ls[done] == es[done]@);
        let ghost surface = e.surface;
        let w = window_info(ipc, clients, e, focus);
        assert(ipc@ == numbering_all(old(ipc)@, ls, done + 1));
        out.push(w);
        assert(window_infos(out@) =~= window_infos(had).push(w@));
        assert(n - todo@.len() == done + 1);
    }
    out
}

/// The window that has the keyboard, if it is a window.
pub fn focused_window(
    ipc: &mut IpcState,
    layout: &Layout,
    clients: &Vec<ClientInfo>,
    focus: Option<SurfaceId>,
) -> (r: Option<WindowInfo>)
    requires
        old(ipc)@.valid(),
        old(ipc)@.last_id < u64::MAX,
    ensures
        final(ipc)@.valid(),
        match focus {
            None => r.is_none() && final(ipc)@ == old(ipc)@,
            Some(s) => match line_of(layout@, s) {
                None => r.is_none() && final(ipc)@ == old(ipc)@,
                Some(l) => final(ipc)@ == numbering(old(ipc)@, l.surface) && r.is_some()
                    && r.unwrap()@ == info_of(l, final(ipc)@.ids[l.surface], clients@, focus),
            },
        },
{
    let s: SurfaceId = match focus {
        None => {
            return None;
        },
        Some(s) => s,
    };
    match find_entry(layout, s) {
        None => None,
        Some(e) => Some(window_info(ipc, clients, e, focus)),
    }
}

/// Whether a workspace is listed as a line.
pub open spec fn is_listed_as(w: WorkspaceInfo, l: WorkspaceLine) -> bool {
    &&& w.output@ == l.output
    &&& w.index == l.index
    &&& w.active == l.active
    &&& w.window_count == l.windows
}

/// All workspaces.
pub fn workspaces(layout: &Layout) -> (r: Vec<WorkspaceInfo>)
    ensures
        r@.len() == workspace_lines(layout@.outputs, layout@.outputs.len() as int).len(),
        forall|i: int|
            0 <= i < r@.len() ==> is_listed_as(
                #[trigger] r@[i],
                workspace_lines(layout@.outputs, layout@.outputs.len() as int)[i],
            ),
{
    let entries = layout.workspace_entries();
    let ghost es = entries@;
    let ghost ls = workspace_lines(layout@.outputs, layout@.outputs.len() as int);
    assert(workspace_views(es) == ls);
    let mut todo = reversed(entries);
    let ghost n = todo@.len() as int;
    let mut out: Vec<WorkspaceInfo> = Vec::new();
    while todo.len() > 0
        invariant
            todo@.len() <= n,
            n == es.len(),
            n == ls.len(),
            workspace_views(es) == ls,
            forall|k: int| 0 <= k < todo@.len() ==> #[trigger] todo@[k] == es[n - 1 - k],
            out@.len() == n - todo@.len(),
            forall|i: int| 0 <= i < out@.len() ==> is_listed_as(#[trigger] out@[i], ls[i]),
        decreases todo@.len(),
    {
        let ghost done = n - todo@.len();
        let e = todo.pop().unwrap();
        assert(e == es[done]);
        assert(workspace_views(es)[done] == es[done]@);
        assert(ls[done] == es[done]@);
        out.push(
            WorkspaceInfo {
                output: e.output,
                index: e.index,
                active: e.active,
                window_count: e.windows,
            },
        );
    }
    out
}

/// An output and what is known of it.
#[derive(Debug)]
pub struct OutputDescriptor {
    pub name: String,
    /// What its display says of itself, empty where it does not.
    pub make: Option<String>,
    pub model: Option<String>,
    pub mode_size: Size,
    pub refresh_mhz: i32,
    /// In 120ths.
    pub scale: u32,
    pub position: Point,
    pub size: Size,
}

/// A text, unless it is empty.
pub open spec fn unless_empty(s: Option<String>) -> Option<Seq<char>> {
    match s {
        None => None,
        Some(s) => if s@.len() == 0 {
            None
        } else {
            Some(s@)
        },
    }
}

fn nonempty(s: &Option<String>) -> (r: Option<String>)
    ensures
        opt_text(r) == unless_empty(*s),
{
    match s {
        None => None,
        Some(s) => {
            if s.as_str().unicode_len() == 0 {
                None
            } else {
                Some(s.clone())
            }
        },
    }
}

/// The maker and the model of an output, as far as they are known.
pub fn make_model(d: &OutputDescriptor) -> (r: (Option<String>, Option<String>))
    ensures
        opt_text(r.0) == unless_empty(d.make),
        opt_text(r.1) == unless_empty(d.model),
{
    (nonempty(&d.make), nonempty(&d.model))
}

/// The workspace on show on an output.
pub open spec fn shown_on(m: LayoutModel, name: Seq<char>) -> Option<int> {
    match m.pane(Probe::Named(name)) {
        None => None,
        Some(i) => Some(m.outputs[i].active),
    }
}

/// Whether an output is listed as it is described.
pub open spec fn is_output_of(o: OutputInfo, d: OutputDescriptor, m: LayoutModel) -> bool {
    &&& o.name@ == d.name@
    &&& opt_text(o.make) == unless_empty(d.make)
    &&& opt_text(o.model) == unless_empty(d.model)
    &&& o.width == d.mode_size.w
    &&& o.height == d.mode_size.h
    &&& o.refresh_mhz == d.refresh_mhz
    &&& o.scale == d.scale
    &&& o.x == d.position.x
    &&& o.y == d.position.y
    &&& o.logical_width == d.size.w
    &&& o.logical_height == d.size.h
    &&& match o.active_workspace {
        None => shown_on(m, d.name@).is_none(),
        Some(n) => shown_on(m, d.name@) == Some(n as int),
    }
}

/// All outputs.
pub fn outputs(layout: &Layout, descs: &Vec<OutputDescriptor>) -> (r: Vec<OutputInfo>)
    requires
        layout@.valid(),
    ensures
        r@.len() == descs@.len(),
        forall|i: int|
            0 <= i < r@.len() ==> is_output_of(#[trigger] r@[i], descs@[i], layout@),
{
    let mut out: Vec<OutputInfo> = Vec::new();
    let mut i: usize = 0;
    while i < descs.len()
        invariant
            i <= descs@.len(),
            layout@.valid(),
            out@.len() == i,
            forall|k: int| 0 <= k < i ==> is_output_of(#[trigger] out@[k], descs@[k], layout@),
        decreases descs@.len() - i,
    {
        let d = &descs[i];
        let (make, model) = make_model(d);
        out.push(
            OutputInfo {
                name: d.name.clone(),
                make,
                model,
                width: d.mode_size.w,
                height: d.mode_size.h,
                refresh_mhz: d.refresh_mhz,
                scale: d.scale,
                x: d.position.x,
                y: d.position.y,
                logical_width: d.size.w,
                logical_height: d.size.h,
                active_workspace: layout.active_workspace(d.name.as_str()),
            },
        );
        i += 1;
    }
    out
}

/// A layer surface and what it has asked for.
#[derive(Debug)]
pub struct LayerRecord {
    pub namespace: Option<String>,
    pub layer: LayerBucket,
    pub output: Option<String>,
    pub size: Size,
    /// Whether it wants the keyboard at all.
    pub keyboard: bool,
    pub exclusive_zone: i32,
}

/// The name of a layer.
pub open spec fn layer_name(l: LayerBucket) -> Seq<char> {
    match l {
        LayerBucket::Background => "background"@,
        LayerBucket::Bottom => "bottom"@,
        LayerBucket::Top => "top"@,
        LayerBucket::Overlay => "overlay"@,
    }
}

/// Whether a layer surface is listed as it is recorded.
pub open spec fn is_layer_of(i: LayerInfo, l: LayerRecord) -> bool {
    &&& i.namespace@ == (match l.namespace {
        None => Seq::empty(),
        Some(n) => n@,
    })
    &&& i.layer@ == layer_name(l.layer)
    &&& i.output == l.output
    &&& i.width == l.size.w
    &&& i.height == l.size.h
    &&& i.keyboard == l.keyboard
    &&& i.exclusive_zone == l.exclusive_zone
}

/// All layer surfaces.
pub fn layers(records: &Vec<LayerRecord>) -> (r: Vec<LayerInfo>)
    ensures
        r@.len() == records@.len(),
        forall|i: int| 0 <= i < r@.len() ==> is_layer_of(#[trigger] r@[i], records@[i]),
{
    let mut out: Vec<LayerInfo> = Vec::new();
    let mut i: usize = 0;
    while i < records.len()
        invariant
            i <= records@.len(),
            out@.len() == i,
            forall|k: int| 0 <= k < i ==> is_layer_of(#[trigger] out@[k], records@[k]),
        decreases records@.len() - i,
    {
        let l = &records[i];
        out.push(
            LayerInfo {
                namespace: match &l.namespace {
                    None => String::new(),
                    Some(n) => n.clone(),
                },
                layer: (match l.layer {
                    LayerBucket::Background => "background",
                    LayerBucket::Bottom => "bottom",
                    LayerBucket::Top => "top",
                    LayerBucket::Overlay => "overlay",
                }).to_owned(),
                output: copied(&l.output),
                width: l.size.w,
                height: l.size.h,
                keyboard: l.keyboard,
                exclusive_zone: l.exclusive_zone,
            },
        );
        assert(out@[i as int].namespace@ =~= (match l.namespace {
            None => Seq::empty(),
            Some(n) => n@,
        }));
        i += 1;
    }
    out
}

/// A name, if a bit is set.
pub open spec fn name_if(mask: u32, bit: u32, name: Seq<char>) -> Seq<Seq<char>> {
    if mask & bit != 0 {
        seq![name]
    } else {
        Seq::empty()
    }
}

/// The names of the modifiers in a mask.
pub open spec fn modifier_names(mask: u32) -> Seq<Seq<char>> {
    name_if(mask, MOD_SUPER, "Super"@) + name_if(mask, MOD_CTRL, "Ctrl"@) + name_if(
        mask,
        MOD_ALT,
        "Alt"@,
    ) + name_if(mask, MOD_SHIFT, "Shift"@)
}

/// The names of the modifiers in a mask.
pub fn mod_names(mask: u32) -> (r: Vec<String>)
    ensures
        texts(r@) == modifier_names(mask),
{
    let mut out: Vec<String> = Vec::new();
    assert(texts(out@) =~= Seq::empty());
    add_name(&mut out, mask, MOD_SUPER, "Super");
    add_name(&mut out, mask, MOD_CTRL, "Ctrl");
    add_name(&mut out, mask, MOD_ALT, "Alt");
    add_name(&mut out, mask, MOD_SHIFT, "Shift");
    assert(texts(out@) =~= modifier_names(mask));
    out
}

fn add_name(out: &mut Vec<String>, mask: u32, bit: u32, name: &str)
    ensures
        texts(final(out)@) == texts(old(out)@) + name_if(mask, bit, name@),
{
    if mask & bit != 0 {
        out.push(name.to_owned());
    }
    assert(texts(out@) =~= texts(old(out)@) + name_if(mask, bit, name@));
}

/// What an action is called.
pub open spec fn label_of(action: Action) -> Seq<char> {
    match action {
        Action::Exit => "exit"@,
        Action::ToggleFloating => "toggle-floating"@,
        Action::ToggleFullscreen => "toggle-fullscreen"@,
        Action::Close => "close"@,
        Action::Spawn(cmd) => "spawn "@ + cmd@,
        Action::Screenshot(_) => "screenshot"@,
    }
}

/// What an action is called.
pub fn action_label(action: &Action) -> (r: String)
    ensures
        r@ == label_of(*action),
{
    match action {
        Action::Exit => "exit".to_owned(),
        Action::ToggleFloating => "toggle-floating".to_owned(),
        Action::ToggleFullscreen => "toggle-fullscreen".to_owned(),
        Action::Close => "close".to_owned(),
        Action::Spawn(cmd) => joined("spawn ", cmd.as_str()),
        Action::Screenshot(_) => "screenshot".to_owned(),
    }
}

/// Whether a binding is listed as it is, with the name of its key.
pub open spec fn is_bind_of(i: BindInfo, b: KeyBinding, key: String) -> bool {
    &&& texts(i.mods@) == modifier_names(b.mods)
    &&& i.key@ == key@
    &&& i.action@ == label_of(b.action)
}

/// All key bindings. `keys` are the names of their keys.
pub fn binds(bindings: &Vec<KeyBinding>, keys: &Vec<String>) -> (r: Vec<BindInfo>)
    requires
        keys@.len() == bindings@.len(),
    ensures
        r@.len() == bindings@.len(),
        forall|i: int|
            0 <= i < r@.len() ==> is_bind_of(#[trigger] r@[i], bindings@[i], keys@[i]),
{
    let mut out: Vec<BindInfo> = Vec::new();
    let mut i: usize = 0;
    while i < bindings.len()
        invariant
            i <= bindings@.len(),
            keys@.len() == bindings@.len(),
            out@.len() == i,
            forall|k: int| 0 <= k < i ==> is_bind_of(#[trigger] out@[k], bindings@[k], keys@[k]),
        decreases bindings@.len() - i,
    {
        let b = &bindings[i];
        out.push(
            BindInfo {
                mods: mod_names(b.mods),
                key: keys[i].clone(),
                action: action_label(&b.action),
            },
        );
        i += 1;
    }
    out
}

/// The file that a window's picture is written to: in the runtime directory,
/// else among the temporary files.
pub fn capture_path(runtime: Option<&str>, id: u64) -> (r: String)
    ensures
        r@ == below(
            match runtime {
                None => "/tmp"@,
                Some(d) => d@,
            },
            "libreland-window-"@ + decimal(id as int) + ".png"@,
        ),
{
    let mut name = joined("libreland-window-", number_text(id).as_str());
    name.append(".png");
    let dir = match runtime {
        None => "/tmp",
        Some(d) => d,
    };
    join(dir, name.as_str())
}

/// The control socket of a display: in the runtime directory.
pub fn socket_path(runtime: Option<&str>, display: &str) -> (r: Option<String>)
    ensures
        r.is_some() == runtime.is_some(),
        r.is_some() ==> r.unwrap()@ == below(
            runtime.unwrap()@,
            "libreland-"@ + display@ + ".sock"@,
        ),
{
    match runtime {
        None => None,
        Some(dir) => {
            let mut name = joined("libreland-", display);
            name.append(".sock");
            Some(join(dir, name.as_str()))
        },
    }
}

/// The window that a request is of: that of the number, while it lives; else
/// the one that has the keyboard.
pub open spec fn resolved(
    m: IpcModel,
    id: Option<u64>,
    alive: bool,
    focus: Option<SurfaceId>,
) -> Option<SurfaceId> {
    match id {
        None => focus,
        Some(n) => if m.owners.dom().contains(n) && alive {
            Some(m.owners[n])
        } else {
            None
        },
    }
}

/// What is answered where there is no such window.
pub open spec fn unresolved(id: Option<u64>) -> Seq<char> {
    match id {
        None => "no focused window"@,
        Some(n) => "no window with id "@ + decimal(n as int),
    }
}

/// The window that a request is of. `alive` tells whether the surface of the
/// number lives.
pub fn resolve(
    ipc: &IpcState,
    id: Option<u64>,
    alive: bool,
    focus: Option<SurfaceId>,
) -> (r: Result<SurfaceId, String>)
    ensures
        match resolved(ipc@, id, alive, focus) {
            Some(s) => r == Ok::<SurfaceId, String>(s),
            None => r matches Err(e) && e@ == unresolved(id),
        },
{
    match id {
        None => match focus {
            None => Err("no focused window".to_owned()),
            Some(s) => Ok(s),
        },
        Some(n) => match ipc.surface_of(n) {
            Some(s) if alive => Ok(s),
            _ => Err(joined("no window with id ", number_text(n).as_str())),
        },
    }
}

/// The index of a workspace that is asked for.
pub open spec fn target_index(target: WorkspaceTarget, current: int) -> int {
    match target {
        WorkspaceTarget::Index(i) => i as int,
        WorkspaceTarget::Next => if current >= usize::MAX {
            current
        } else {
            current + 1
        },
        WorkspaceTarget::Prev => if current > 0 {
            current - 1
        } else {
            0
        },
    }
}

/// The index of a workspace that is asked for.
pub fn resolve_target(target: WorkspaceTarget, current: usize) -> (r: usize)
    ensures
        r == target_index(target, current as int),
{
    match target {
        WorkspaceTarget::Index(i) => i,
        WorkspaceTarget::Next => if current == usize::MAX {
            current
        } else {
            current + 1
        },
        WorkspaceTarget::Prev => if current > 0 {
            current - 1
        } else {
            0
        },
    }
}

/// The first window at or after `from` that is on a workspace.
pub open spec fn window_on(
    ls: Seq<WindowLine>,
    output: Seq<char>,
    workspace: int,
    from: int,
) -> Option<SurfaceId>
    decreases ls.len() - from,
{
    if from < 0 || from >= ls.len() {
        None
    } else if ls[from].output == output && ls[from].workspace == workspace {
        Some(ls[from].surface)
    } else {
        window_on(ls, output, workspace, from + 1)
    }
}

/// The window that gets the keyboard when an output shows another workspace:
/// the first on it.
pub open spec fn first_shown(m: LayoutModel, output: Seq<char>) -> Option<SurfaceId> {
    match shown_on(m, output) {
        None => None,
        Some(k) => window_on(all_lines(m), output, k, 0),
    }
}

fn refocus_active(layout: &Layout, output: &str) -> (r: Option<SurfaceId>)
    requires
        layout@.valid(),
    ensures
        r == first_shown(layout@, output@),
{
    let active: usize = match layout.active_workspace(output) {
        None => {
            return None;
        },
        Some(k) => k,
    };
    let entries = layout.window_entries();
    let ghost ls = all_lines(layout@);
    let mut i: usize = 0;
    while i < entries.len()
        invariant
            i <= entries@.len(),
            window_views(entries@) == ls,
            ls == all_lines(layout@),
            shown_on(layout@, output@) == Some(active as int),
            window_on(ls, output@, active as int, 0) == window_on(
                ls,
                output@,
                active as int,
                i as int,
            ),
        decreases entries@.len() - i,
    {
        assert(window_views(entries@)[i as int] == entries@[i as int]@);
        if entries[i].workspace == active && same(entries[i].output.as_str(), output) {
            return Some(entries[i].surface);
        }
        i += 1;
    }
    None
}

/// What a request to show a workspace leads to: the desktop, and the change of
/// focus if it shows another. None where there is no such output.
pub open spec fn workspace_focused(
    m: LayoutModel,
    output: Seq<char>,
    target: WorkspaceTarget,
    slide: SlideTiming,
) -> Option<(LayoutModel, Option<Option<SurfaceId>>)> {
    match m.pane(Probe::Named(output)) {
        None => None,
        Some(i) => {
            let (after, switched) = m.switching(
                i,
                target_index(target, m.outputs[i].active),
                slide,
            );
            Some(
                (
                    after,
                    if switched {
                        Some(first_shown(after, output))
                    } else {
                        None
                    },
                ),
            )
        },
    }
}

/// Shows a workspace of an output, the primary one if none is named. Says
/// where the keyboard goes if another workspace is shown.
pub fn focus_workspace(
    layout: &mut Layout,
    output: Option<&str>,
    primary: Option<&str>,
    target: WorkspaceTarget,
    slide: SlideTiming,
) -> (r: Result<Option<Option<SurfaceId>>, String>)
    requires
        old(layout)@.valid(),
    ensures
        final(layout)@.valid(),
        ({
            let name: Option<&str> = if output.is_some() {
                output
            } else {
                primary
            };
            match name {
                None => r matches Err(e) && e@ == "no output connected"@ && final(layout)@
                    == old(layout)@,
                Some(n) => match workspace_focused(old(layout)@, n@, target, slide) {
                    None => r matches Err(e) && e@ == "no output named "@ + n@ && final(layout)@
                        == old(layout)@,
                    Some((after, focus)) => r == Ok::<Option<Option<SurfaceId>>, String>(focus)
                        && final(layout)@ == after,
                },
            }
        }),
{
    let name = match output {
        Some(n) => n,
        None => match primary {
            Some(n) => n,
            None => {
                return Err("no output connected".to_owned());
            },
        },
    };
    let active: usize = match layout.active_workspace(name) {
        None => {
            return Err(joined("no output named ", name));
        },
        Some(k) => k,
    };
    let index: usize = resolve_target(target, active);
    if layout.switch_workspace_to(name, index, slide) {
        Ok(Some(refocus_active(layout, name)))
    } else {
        Ok(None)
    }
}

/// What a request to move a window to a workspace leads to, where the window
/// is on one: the desktop, and whether it moved.
pub open spec fn window_moved(m: LayoutModel, s: SurfaceId, target: WorkspaceTarget) -> Option<
    (LayoutModel, bool),
> {
    match line_of(m, s) {
        None => None,
        Some(l) => Some(m.sending(s, target_index(target, l.workspace))),
    }
}

/// Moves a window to another workspace of its output.
pub fn move_to_workspace(layout: &mut Layout, surface: SurfaceId, target: WorkspaceTarget) -> (r:
    Result<(), String>)
    requires
        old(layout)@.valid(),
    ensures
        final(layout)@.valid(),
        match window_moved(old(layout)@, surface, target) {
            None => r matches Err(e) && e@ == "window is not on a workspace"@ && final(layout)@
                == old(layout)@,
            Some((after, moved)) => {
                &&& final(layout)@ == after
                &&& moved ==> r.is_ok()
                &&& !moved ==> (r matches Err(e) && e@
                    == "could not move the window (is it on the active workspace?)"@)
            },
        },
{
    let entry = match find_entry(layout, surface) {
        None => {
            return Err("window is not on a workspace".to_owned());
        },
        Some(e) => e,
    };
    let index: usize = resolve_target(target, entry.workspace);
    if layout.move_window_to_workspace(surface, index) {
        Ok(())
    } else {
        Err("could not move the window (is it on the active workspace?)".to_owned())
    }
}

/// A state of a window that requests can change.
#[derive(Debug, Clone, Copy, PartialEq, Eq, Structural)]
pub enum Toggle {
    Floating,
    Fullscreen,
    Maximized,
}

/// The desktop after such a change, and whether there is such a window.
pub open spec fn toggled(m: LayoutModel, s: SurfaceId, which: Toggle, facts: ClientFacts) -> (
    LayoutModel,
    bool,
) {
    match which {
        Toggle::Floating => m.toggling_floating(s, facts),
        Toggle::Fullscreen => (
            m.toggling_fill(s, FillMode::Fullscreen),
            m.window_of(s).is_some(),
        ),
        Toggle::Maximized => (
            m.toggling_fill(s, FillMode::Maximized),
            m.window_of(s).is_some(),
        ),
    }
}

/// Changes a state of a window.
pub fn toggle(layout: &mut Layout, surface: SurfaceId, which: Toggle, facts: &ClientFacts) -> (r:
    Result<(), String>)
    requires
        old(layout)@.valid(),
    ensures
        final(layout)@.valid(),
        final(layout)@ == toggled(old(layout)@, surface, which, *facts).0,
        r.is_ok() == toggled(old(layout)@, surface, which, *facts).1,
        r matches Err(e) ==> e@ == "window is not managed by the tiler"@,
{
    let found = match which {
        Toggle::Floating => layout.toggle_floating(surface, facts),
        Toggle::Fullscreen => layout.toggle_fullscreen(surface),
        Toggle::Maximized => layout.toggle_maximized(surface),
    };
    if found {
        Ok(())
    } else {
        Err("window is not managed by the tiler".to_owned())
    }
}

/// What requests are answered from.
pub struct ServerContext<'a> {
    pub version: &'a str,
    pub outputs: &'a Vec<OutputDescriptor>,
    pub layers: &'a Vec<LayerRecord>,
    pub clients: &'a Vec<ClientInfo>,
    pub binds: &'a Vec<KeyBinding>,
    /// The names of the keys of the bindings.
    pub bind_keys: &'a Vec<String>,
    /// What has the keyboard.
    pub focus: Option<SurfaceId>,
    /// Whether the surface whose number the request has lives.
    pub alive: bool,
    /// Whether the window that the request is of can be asked to close.
    pub closable: bool,
    /// What the window that the request is of has declared.
    pub facts: &'a ClientFacts,
    pub primary: Option<&'a str>,
    pub slide: SlideTiming,
    /// Whether it is known where the configuration is.
    pub has_config: bool,
}

/// What is left to do to answer a request.
#[derive(Debug)]
pub enum Step {
    /// Nothing: this is the answer.
    Reply(Reply),
    /// Move the keyboard focus.
    Focus { focus: Option<SurfaceId> },
    /// Ask a window to close.
    Close { surface: SurfaceId },
    /// Take a picture of a window.
    Capture { of: SurfaceId, id: u64, max: i32 },
    /// Run a program with arguments.
    Spawn { command: Vec<String> },
    /// Read the configuration again.
    Reload,
    /// End the session.
    Exit,
}

impl Step {
    /// Whether the answer is this refusal.
    pub open spec fn refuses(self, why: Seq<char>) -> bool {
        self matches Step::Reply(r) && (r matches Err(e) && e@ == why)
    }

    /// Whether the answer is that the request is done.
    pub open spec fn is_handled(self) -> bool {
        self matches Step::Reply(r) && (r matches Ok(x) && x is Handled)
    }
}

/// Whether a request may change what is seen.
pub open spec fn may_change(req: Request) -> bool {
    match req {
        Request::FocusWindow { .. } => true,
        Request::Close { .. } => true,
        Request::ToggleFloating { .. } => true,
        Request::ToggleFullscreen { .. } => true,
        Request::ToggleMaximized { .. } => true,
        Request::FocusWorkspace { .. } => true,
        Request::MoveToWorkspace { .. } => true,
        _ => false,
    }
}

/// Whether a request may change what is seen, so that every output has to be
/// drawn anew.
pub fn is_mutating(req: &Request) -> (r: bool)
    ensures
        r == may_change(*req),
{
    match req {
        Request::FocusWindow { .. } => true,
        Request::Close { .. } => true,
        Request::ToggleFloating { .. } => true,
        Request::ToggleFullscreen { .. } => true,
        Request::ToggleMaximized { .. } => true,
        Request::FocusWorkspace { .. } => true,
        Request::MoveToWorkspace { .. } => true,
        _ => false,
    }
}

/// That a toggle request was answered as it should.
pub open spec fn toggle_answered(
    before: LayoutModel,
    after: LayoutModel,
    ipc: IpcModel,
    id: Option<u64>,
    which: Toggle,
    cx: ServerContext,
    step: Step,
) -> bool {
    match resolved(ipc, id, cx.alive, cx.focus) {
        None => step.refuses(unresolved(id)) && after == before,
        Some(s) => {
            let (m, found) = toggled(before, s, which, *cx.facts);
            &&& after == m
            &&& found ==> step.is_handled()
            &&& !found ==> step.refuses("window is not managed by the tiler"@)
        },
    }
}

/// That a request was answered as it should.
pub open spec fn answered(
    before: LayoutModel,
    after: LayoutModel,
    ipc: IpcModel,
    ipc_after: IpcModel,
    req: Request,
    cx: ServerContext,
    step: Step,
) -> bool {
    match req {
        Request::Version => after == before && ipc_after == ipc && (step matches Step::Reply(r) && (
        r matches Ok(Response::Version(v)) && v.name@ == "libreland"@ && v.version@
            == cx.version@)),
        Request::Outputs => after == before && ipc_after == ipc && (step matches Step::Reply(r) && (
        r matches Ok(Response::Outputs(os)) && os@.len() == cx.outputs@.len() && forall|i: int|
            0 <= i < os@.len() ==> is_output_of(#[trigger] os@[i], cx.outputs@[i], before))),
        Request::Workspaces => after == before && ipc_after == ipc && (step matches Step::Reply(r)
            && (r matches Ok(Response::Workspaces(ws)) && ws@.len() == workspace_lines(
            before.outputs,
            before.outputs.len() as int,
        ).len() && forall|i: int|
            0 <= i < ws@.len() ==> is_listed_as(
                #[trigger] ws@[i],
                workspace_lines(before.outputs, before.outputs.len() as int)[i],
            ))),
        Request::Layers => after == before && ipc_after == ipc && (step matches Step::Reply(r) && (
        r matches Ok(Response::Layers(ls)) && ls@.len() == cx.layers@.len() && forall|i: int|
            0 <= i < ls@.len() ==> is_layer_of(#[trigger] ls@[i], cx.layers@[i]))),
        Request::Windows => after == before && ipc_after == numbering_all(
            ipc,
            all_lines(before),
            all_lines(before).len() as int,
        ) && (step matches Step::Reply(r) && (r matches Ok(Response::Windows(ws)) && window_infos(
            ws@,
        ) == infos_of(
            ipc,
            all_lines(before),
            cx.clients@,
            cx.focus,
            all_lines(before).len() as int,
        ))),
        Request::FocusedWindow => after == before && (step matches Step::Reply(r) && (
        r matches Ok(Response::FocusedWindow(w)) && match cx.focus {
            None => w.is_none() && ipc_after == ipc,
            Some(s) => match line_of(before, s) {
                None => w.is_none() && ipc_after == ipc,
                Some(l) => ipc_after == numbering(ipc, l.surface) && w.is_some() && w.unwrap()@
                    == info_of(l, ipc_after.ids[l.surface], cx.clients@, cx.focus),
            },
        })),
        Request::Binds => after == before && ipc_after == ipc && (step matches Step::Reply(r) && (
        r matches Ok(Response::Binds(bs)) && bs@.len() == cx.binds@.len() && forall|i: int|
            0 <= i < bs@.len() ==> is_bind_of(#[trigger] bs@[i], cx.binds@[i], cx.bind_keys@[i]))),
        Request::CaptureWindow { id, max } => after == before && ipc_after == ipc && match resolved(
            ipc,
            Some(id),
            cx.alive,
            cx.focus,
        ) {
            None => step.refuses(unresolved(Some(id))),
            Some(s) => step == (Step::Capture {
                of: s,
                id,
                max: match max {
                    None => 512,
                    Some(m) => m,
                },
            }),
        },
        Request::FocusWindow { id } => ipc_after == ipc && match resolved(
            ipc,
            Some(id),
            cx.alive,
            cx.focus,
        ) {
            None => step.refuses(unresolved(Some(id))) && after == before,
            Some(s) => step == (Step::Focus { focus: Some(s) }) && after == showing(
                before,
                s,
                cx.slide,
            ),
        },
        Request::Close { id } => after == before && ipc_after == ipc && match resolved(
            ipc,
            id,
            cx.alive,
            cx.focus,
        ) {
            None => step.refuses(unresolved(id)),
            Some(s) => if cx.closable {
                step == (Step::Close { surface: s })
            } else {
                step.refuses("target is not a toplevel window"@)
            },
        },
        Request::ToggleFloating { id } => ipc_after == ipc && toggle_answered(
            before,
            after,
            ipc,
            id,
            Toggle::Floating,
            cx,
            step,
        ),
        Request::ToggleFullscreen { id } => ipc_after == ipc && toggle_answered(
            before,
            after,
            ipc,
            id,
            Toggle::Fullscreen,
            cx,
            step,
        ),
        Request::ToggleMaximized { id } => ipc_after == ipc && toggle_answered(
            before,
            after,
            ipc,
            id,
            Toggle::Maximized,
            cx,
            step,
        ),
        Request::FocusWorkspace { output, target } => {
            let name: Option<Seq<char>> = match output {
                Some(n) => Some(n@),
                None => match cx.primary {
                    Some(p) => Some(p@),
                    None => None,
                },
            };
            ipc_after == ipc && match name {
                None => step.refuses("no output connected"@) && after == before,
                Some(n) => match workspace_focused(before, n, target, cx.slide) {
                    None => step.refuses("no output named "@ + n) && after == before,
                    Some((m, focus)) => after == m && match focus {
                        None => step.is_handled(),
                        Some(f) => step == (Step::Focus { focus: f }),
                    },
                },
            }
        },
        Request::MoveToWorkspace { id, target } => ipc_after == ipc && match resolved(
            ipc,
            id,
            cx.alive,
            cx.focus,
        ) {
            None => step.refuses(unresolved(id)) && after == before,
            Some(s) => match window_moved(before, s, target) {
                None => step.refuses("window is not on a workspace"@) && after == before,
                Some((m, moved)) => {
                    &&& after == m
                    &&& moved ==> step.is_handled()
                    &&& !moved ==> step.refuses(
                        "could not move the window (is it on the active workspace?)"@,
                    )
                },
            },
        },
        Request::Spawn { command } => after == before && ipc_after == ipc && if command@.len()
            == 0 {
            step.refuses("empty command"@)
        } else {
            step == (Step::Spawn { command })
        },
        Request::Reload => after == before && ipc_after == ipc && if cx.has_config {
            step is Reload
        } else {
            step.refuses("no config path (XDG dirs unset)"@)
        },
        Request::Exit => after == before && ipc_after == ipc && step is Exit,
        Request::Subscribe { .. } => after == before && ipc_after == ipc && step.refuses(
            "subscribe must be used as a streaming connection"@,
        ),
    }
}

fn done(r: Result<(), String>) -> (step: Step)
    ensures
        match r {
            Ok(_) => step.is_handled(),
            Err(e) => step.refuses(e@),
        },
{
    match r {
        Ok(_) => Step::Reply(Ok(Response::Handled)),
        Err(e) => Step::Reply(Err(e)),
    }
}

/// Answers a request, as far as that can be done without the devices; says
/// what is left to do. Requests to subscribe are not for this.
#[verifier::spinoff_prover]
pub fn dispatch(
    layout: &mut Layout,
    ipc: &mut IpcState,
    req: Request,
    cx: &ServerContext,
) -> (r: Step)
    requires
        old(layout)@.valid(),
        old(ipc)@.valid(),
        old(ipc)@.last_id + all_lines(old(layout)@).len() < u64::MAX,
        cx.bind_keys@.len() == cx.binds@.len(),
    ensures
        final(layout)@.valid(),
        final(ipc)@.valid(),
        answered(old(layout)@, final(layout)@, old(ipc)@, final(ipc)@, req, *cx, r),
        !may_change(req) ==> final(layout)@ == old(layout)@,
{
    match req {
        Request::Version => Step::Reply(
            Ok(
                Response::Version(
                    VersionInfo { name: "libreland".to_owned(), version: cx.version.to_owned() },
                ),
            ),
        ),
        Request::Outputs => Step::Reply(Ok(Response::Outputs(outputs(layout, cx.outputs)))),
        Request::Workspaces => Step::Reply(Ok(Response::Workspaces(workspaces(layout)))),
        Request::Layers => Step::Reply(Ok(Response::Layers(layers(cx.layers)))),
        Request::Windows => Step::Reply(
            Ok(Response::Windows(windows(ipc, layout, cx.clients, cx.focus))),
        ),
        Request::FocusedWindow => Step::Reply(
            Ok(Response::FocusedWindow(focused_window(ipc, layout, cx.clients, cx.focus))),
        ),
        Request::Binds => Step::Reply(Ok(Response::Binds(binds(cx.binds, cx.bind_keys)))),
        Request::CaptureWindow { id, max } => match resolve(ipc, Some(id), cx.alive, cx.focus) {
            Err(e) => Step::Reply(Err(e)),
            Ok(s) => Step::Capture {
                of: s,
                id,
                max: match max {
                    None => 512,
                    Some(m) => m,
                },
            },
        },
        Request::FocusWindow { id } => match resolve(ipc, Some(id), cx.alive, cx.focus) {
            Err(e) => Step::Reply(Err(e)),
            Ok(s) => {
                if let Some(e) = find_entry(layout, s) {
                    layout.switch_workspace_to(e.output.as_str(), e.workspace, cx.slide);
                }
                Step::Focus { focus: Some(s) }
            },
        },
        Request::Close { id } => match resolve(ipc, id, cx.alive, cx.focus) {
            Err(e) => Step::Reply(Err(e)),
            Ok(s) => {
                if cx.closable {
                    Step::Close { surface: s }
                } else {
                    Step::Reply(Err("target is not a toplevel window".to_owned()))
                }
            },
        },
        Request::ToggleFloating { id } => match resolve(ipc, id, cx.alive, cx.focus) {
            Err(e) => Step::Reply(Err(e)),
            Ok(s) => done(toggle(layout, s, Toggle::Floating, cx.facts)),
        },
        Request::ToggleFullscreen { id } => match resolve(ipc, id, cx.alive, cx.focus) {
            Err(e) => Step::Reply(Err(e)),
            Ok(s) => done(toggle(layout, s, Toggle::Fullscreen, cx.facts)),
        },
        Request::ToggleMaximized { id } => match resolve(ipc, id, cx.alive, cx.focus) {
            Err(e) => Step::Reply(Err(e)),
            Ok(s) => done(toggle(layout, s, Toggle::Maximized, cx.facts)),
        },
        Request::FocusWorkspace { output, target } => {
            let name = match &output {
                None => None,
                Some(n) => Some(n.as_str()),
            };
            match focus_workspace(layout, name, cx.primary, target, cx.slide) {
                Err(e) => Step::Reply(Err(e)),
                Ok(None) => Step::Reply(Ok(Response::Handled)),
                Ok(Some(f)) => Step::Focus { focus: f },
            }
        },
        Request::MoveToWorkspace { id, target } => match resolve(ipc, id, cx.alive, cx.focus) {
            Err(e) => Step::Reply(Err(e)),
            Ok(s) => done(move_to_workspace(layout, s, target)),
        },
        Request::Spawn { command } => {
            if command.len() == 0 {
                Step::Reply(Err("empty command".to_owned()))
            } else {
                Step::Spawn { command }
            }
        },
        Request::Reload => {
            if cx.has_config {
                Step::Reload
            } else {
                Step::Reply(Err("no config path (XDG dirs unset)".to_owned()))
            }
        },
        Request::Exit => Step::Exit,
        Request::Subscribe { .. } => Step::Reply(
            Err("subscribe must be used as a streaming connection".to_owned()),
        ),
    }
}

/// Whether workspaces are listed as they are on the desktop.
pub open spec fn lists_workspaces(ws: Seq<WorkspaceInfo>, m: LayoutModel) -> bool {
    let ls = workspace_lines(m.outputs, m.outputs.len() as int);
    &&& ws.len() == ls.len()
    &&& forall|i: int| 0 <= i < ws.len() ==> is_listed_as(#[trigger] ws[i], ls[i])
}

/// Whether a window is the one that has the keyboard, as it is listed with the
/// numbers there are.
pub open spec fn lists_focus(
    w: Option<WindowInfo>,
    m: LayoutModel,
    ipc: IpcModel,
    cs: Seq<ClientInfo>,
    focus: Option<SurfaceId>,
) -> bool {
    match focus {
        None => w.is_none(),
        Some(s) => match line_of(m, s) {
            None => w.is_none(),
            Some(l) => w.is_some() && w.unwrap()@ == info_of(l, ipc.ids[l.surface], cs, focus),
        },
    }
}

/// The numbers once the focused window has one.
pub open spec fn numbering_focus(m: IpcModel, layout: LayoutModel, focus: Option<SurfaceId>) -> IpcModel {
    match focus {
        None => m,
        Some(s) => match line_of(layout, s) {
            None => m,
            Some(l) => numbering(m, l.surface),
        },
    }
}

/// What changed since subscribers were last told. Nothing is looked at while
/// there are none.
pub fn poll_events(
    ipc: &mut IpcState,
    layout: &Layout,
    clients: &Vec<ClientInfo>,
    focus: Option<SurfaceId>,
) -> (r: Vec<Event>)
    requires
        old(ipc)@.valid(),
        old(ipc)@.last_id + all_lines(layout@).len() < u64::MAX,
    ensures
        final(ipc)@.valid(),
        old(ipc)@.subscribers.len() == 0 ==> r@.len() == 0 && final(ipc)@ == old(ipc)@,
        old(ipc)@.subscribers.len() > 0 ==> ({
            let ls = all_lines(layout@);
            let n = ls.len() as int;
            let numbered = numbering_focus(
                numbering_all(old(ipc)@, ls, n),
                layout@,
                focus,
            );
            exists|ws: Seq<WindowInfo>, spaces: Seq<WorkspaceInfo>, w: Option<WindowInfo>|
                #![trigger informed(numbered, ws, workspace_infos(spaces), w)]
                {
                    &&& window_infos(ws) == infos_of(old(ipc)@, ls, clients@, focus, n)
                    &&& lists_workspaces(spaces, layout@)
                    &&& lists_focus(w, layout@, numbered, clients@, focus)
                    &&& events_view(r@) == changes(numbered, ws, workspace_infos(spaces), w)
                    &&& final(ipc)@ == informed(numbered, ws, workspace_infos(spaces), w)
                }
        }),
{
    if !ipc.has_subscribers() {
        return Vec::new();
    }
    let ghost ls = all_lines(layout@);
    proof {
        numbers_grow_with_windows(ipc@, ls, ls.len() as int);
    }
    let ws = windows(ipc, layout, clients, focus);
    let spaces = workspaces(layout);
    let w = focused_window(ipc, layout, clients, focus);
    let ghost numbered = ipc@;
    let ghost (gws, gspaces, gw) = (ws@, spaces@, w);
    let r = ipc.emit_changes(ws, spaces, w);
    assert(ipc@ == informed(numbered, gws, workspace_infos(gspaces), gw));
    r
}

proof fn numbers_grow_with_windows(m: IpcModel, ls: Seq<WindowLine>, n: int)
    requires
        0 <= n <= ls.len(),
        m.last_id + n <= u64::MAX,
    ensures
        m.last_id <= numbering_all(m, ls, n).last_id <= m.last_id + n,
    decreases n,
{
    if n > 0 {
        numbers_grow_with_windows(m, ls, n - 1);
    }
}

/// What a new subscriber is told at once: the window that has the keyboard,
/// and the workspaces. If nobody listened before, what there is becomes what
/// subscribers know.
pub fn on_subscribe(
    ipc: &mut IpcState,
    layout: &Layout,
    clients: &Vec<ClientInfo>,
    focus: Option<SurfaceId>,
    first: bool,
) -> (r: (Event, Event))
    requires
        old(ipc)@.valid(),
        old(ipc)@.last_id + all_lines(layout@).len() < u64::MAX,
    ensures
        final(ipc)@.valid(),
        ({
            let ls = all_lines(layout@);
            let n = ls.len() as int;
            let numbered = numbering_focus(old(ipc)@, layout@, focus);
            exists|ws: Seq<WindowInfo>, spaces: Seq<WorkspaceInfo>, w: Option<WindowInfo>|
                #![trigger window_infos(ws), lists_workspaces(spaces, layout@), lists_focus(w, layout@, numbered, clients@, focus)]
                {
                    &&& lists_focus(w, layout@, numbered, clients@, focus)
                    &&& lists_workspaces(spaces, layout@)
                    &&& r.0@ == EventModel::Focused(w)
                    &&& r.1@ == EventModel::Workspaces(workspace_infos(spaces))
                    &&& if first {
                        &&& window_infos(ws) == infos_of(numbered, ls, clients@, focus, n)
                        &&& final(ipc)@ == informed(
                            numbering_all(numbered, ls, n),
                            ws,
                            workspace_infos(spaces),
                            w,
                        )
                    } else {
                        final(ipc)@ == numbered
                    }
                }
        }),
{
    let w = focused_window(ipc, layout, clients, focus);
    let ghost numbered = ipc@;
    let spaces = workspaces(layout);
    let ghost gspaces = spaces@;
    let ghost mut gws: Seq<WindowInfo> = Seq::empty();
    if first {
        let ws = windows(ipc, layout, clients, focus);
        proof {
            gws = ws@;
        }
        ipc.set_baseline(&ws, &spaces, &w);
    }
    let ghost gw = w;
    let a = Event::WindowFocused { window: w };
    let b = Event::WorkspacesChanged { workspaces: spaces };
    proof {
        let infos = window_infos(gws);
        assert(lists_focus(gw, layout@, numbered, clients@, focus));
        assert(lists_workspaces(gspaces, layout@));
        assert(a@ == EventModel::Focused(gw));
        assert(b@ == EventModel::Workspaces(workspace_infos(gspaces)));
    }
    (a, b)
}

} // verus!
