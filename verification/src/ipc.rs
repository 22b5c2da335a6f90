//! The control socket: what programs can ask and are told, the numbers that
//! windows go by, and the changes that subscribers hear of.

use vstd::prelude::*;
use vstd::string::*;
use std::collections::HashMap;

use crate::lists::{pushing_adds_one_item, reversed};
use crate::text::same;
use crate::window::SurfaceId;

verus! {

/// What a program asks for.
#[derive(Debug, Clone)]
pub enum Request {
    Version,
    Outputs,
    Workspaces,
    Layers,
    Windows,
    FocusedWindow,
    Binds,
    /// A picture of a window, its longer side at most `max`.
    CaptureWindow { id: u64, max: Option<i32> },
    FocusWindow { id: u64 },
    /// These are of the focused window where there is no number.
    Close { id: Option<u64> },
    ToggleFloating { id: Option<u64> },
    ToggleFullscreen { id: Option<u64> },
    ToggleMaximized { id: Option<u64> },
    FocusWorkspace { output: Option<String>, target: WorkspaceTarget },
    MoveToWorkspace { id: Option<u64>, target: WorkspaceTarget },
    Spawn { command: Vec<String> },
    Reload,
    Exit,
    /// To hear of changes: of all, where no kinds are given.
    Subscribe { events: Vec<EventKind> },
}

/// A kind of change.
#[derive(Debug, Clone, Copy, PartialEq, Eq, Structural)]
pub enum EventKind {
    WindowOpened,
    WindowClosed,
    WindowFocused,
    WorkspacesChanged,
}

/// A change that subscribers hear of.
#[derive(Debug, Clone)]
pub enum Event {
    WindowOpened { window: WindowInfo },
    WindowClosed { id: u64 },
    WindowFocused { window: Option<WindowInfo> },
    WorkspacesChanged { workspaces: Vec<WorkspaceInfo> },
}

/// A change, as it reads.
pub enum EventModel {
    Opened(WindowInfo),
    Closed(u64),
    Focused(Option<WindowInfo>),
    Workspaces(Seq<WorkspaceInfoModel>),
}

impl View for Event {
    type V = EventModel;

    open spec fn view(&self) -> EventModel {
        match *self {
            Event::WindowOpened { window } => EventModel::Opened(window),
            Event::WindowClosed { id } => EventModel::Closed(id),
            Event::WindowFocused { window } => EventModel::Focused(window),
            Event::WorkspacesChanged { workspaces } => EventModel::Workspaces(
                workspace_infos(workspaces@),
            ),
        }
    }
}

/// Changes, as they read.
pub open spec fn events_view(es: Seq<Event>) -> Seq<EventModel> {
    Seq::new(es.len(), |i: int| es[i]@)
}

impl EventModel {
    /// The kind of a change.
    pub open spec fn kind(self) -> EventKind {
        match self {
            EventModel::Opened(_) => EventKind::WindowOpened,
            EventModel::Closed(_) => EventKind::WindowClosed,
            EventModel::Focused(_) => EventKind::WindowFocused,
            EventModel::Workspaces(_) => EventKind::WorkspacesChanged,
        }
    }
}

impl Event {
    /// The kind of the change.
    pub fn kind(&self) -> (r: EventKind)
        ensures
            r == self@.kind(),
    {
        match self {
            Event::WindowOpened { window: _ } => EventKind::WindowOpened,
            Event::WindowClosed { id: _ } => EventKind::WindowClosed,
            Event::WindowFocused { window: _ } => EventKind::WindowFocused,
            Event::WorkspacesChanged { workspaces: _ } => EventKind::WorkspacesChanged,
        }
    }
}

/// A workspace that is asked for.
#[derive(Debug, Clone, Copy, PartialEq, Eq, Structural)]
pub enum WorkspaceTarget {
    Index(usize),
    Next,
    Prev,
}

/// What a request is answered.
pub type Reply = Result<Response, String>;

/// An answer.
#[derive(Debug, Clone)]
pub enum Response {
    Version(VersionInfo),
    Outputs(Vec<OutputInfo>),
    Workspaces(Vec<WorkspaceInfo>),
    Layers(Vec<LayerInfo>),
    Windows(Vec<WindowInfo>),
    FocusedWindow(Option<WindowInfo>),
    Binds(Vec<BindInfo>),
    WindowCapture { path: String, width: i32, height: i32 },
    /// What was asked for is done.
    Handled,
}

/// The program that answers.
#[derive(Debug, Clone)]
pub struct VersionInfo {
    pub name: String,
    pub version: String,
}

/// An output.
#[derive(Debug, Clone)]
pub struct OutputInfo {
    pub name: String,
    pub make: Option<String>,
    pub model: Option<String>,
    pub width: i32,
    pub height: i32,
    pub refresh_mhz: i32,
    /// In 120ths.
    pub scale: u32,
    pub x: i32,
    pub y: i32,
    pub logical_width: i32,
    pub logical_height: i32,
    pub active_workspace: Option<usize>,
}

/// A layer surface.
#[derive(Debug, Clone)]
pub struct LayerInfo {
    pub namespace: String,
    pub layer: String,
    pub output: Option<String>,
    pub width: i32,
    pub height: i32,
    pub keyboard: bool,
    pub exclusive_zone: i32,
}

/// A workspace.
#[derive(Debug, Clone, PartialEq, Eq)]
pub struct WorkspaceInfo {
    pub output: String,
    pub index: usize,
    pub active: bool,
    pub window_count: usize,
}

/// A workspace, as it reads.
#[verifier::ext_equal]
pub struct WorkspaceInfoModel {
    pub output: Seq<char>,
    pub index: usize,
    pub active: bool,
    pub window_count: usize,
}

impl View for WorkspaceInfo {
    type V = WorkspaceInfoModel;

    open spec fn view(&self) -> WorkspaceInfoModel {
        WorkspaceInfoModel {
            output: self.output@,
            index: self.index,
            active: self.active,
            window_count: self.window_count,
        }
    }
}

/// Workspaces, as they read.
pub open spec fn workspace_infos(ws: Seq<WorkspaceInfo>) -> Seq<WorkspaceInfoModel> {
    Seq::new(ws.len(), |i: int| ws[i]@)
}

/// A window.
#[derive(Debug, Clone)]
pub struct WindowInfo {
    pub id: u64,
    pub app_id: Option<String>,
    pub title: Option<String>,
    pub output: Option<String>,
    pub workspace: Option<usize>,
    pub x: i32,
    pub y: i32,
    pub width: i32,
    pub height: i32,
    pub floating: bool,
    pub fullscreen: bool,
    pub maximized: bool,
    pub focused: bool,
    pub pid: Option<i32>,
}

/// A key binding.
#[derive(Debug, Clone)]
pub struct BindInfo {
    pub mods: Vec<String>,
    pub key: String,
    pub action: String,
}

/// A text that may be missing, as it reads.
pub open spec fn opt_text(s: Option<String>) -> Option<Seq<char>> {
    match s {
        None => None,
        Some(s) => Some(s@),
    }
}

/// By what a change of focus is told: the window and its title.
pub open spec fn focus_key(w: Option<WindowInfo>) -> Option<(u64, Option<Seq<char>>)> {
    match w {
        None => None,
        Some(w) => Some((w.id, opt_text(w.title))),
    }
}

/// A program that hears of changes; of all of them where no kinds are given.
pub struct SubscriberModel {
    pub id: u64,
    pub kinds: Option<Seq<EventKind>>,
}

impl SubscriberModel {
    /// Whether it hears of a kind.
    pub open spec fn hears(self, kind: EventKind) -> bool {
        match self.kinds {
            None => true,
            Some(ks) => ks.contains(kind),
        }
    }
}

#[derive(Debug)]
struct Subscriber {
    id: u64,
    kinds: Option<Vec<EventKind>>,
}

impl View for Subscriber {
    type V = SubscriberModel;

    closed spec fn view(&self) -> SubscriberModel {
        SubscriberModel {
            id: self.id,
            kinds: match self.kinds {
                None => None,
                Some(v) => Some(v@),
            },
        }
    }
}

spec fn subscriber_views(ss: Seq<Subscriber>) -> Seq<SubscriberModel> {
    Seq::new(ss.len(), |i: int| ss[i]@)
}

/// The state of the control socket.
#[verifier::ext_equal]
pub struct IpcModel {
    /// The numbers of the windows.
    pub ids: Map<SurfaceId, u64>,
    /// The windows of the numbers.
    pub owners: Map<u64, SurfaceId>,
    /// The last number given out.
    pub last_id: u64,
    pub subscribers: Seq<SubscriberModel>,
    /// The last subscriber's number.
    pub last_conn: u64,
    /// The windows that subscribers know of.
    pub known: Seq<u64>,
    /// The focus that subscribers know of.
    pub focus: Option<(u64, Option<Seq<char>>)>,
    /// The workspaces that subscribers know of.
    pub workspaces: Seq<WorkspaceInfoModel>,
}

impl IpcModel {
    /// Windows and numbers belong together one to one, and all numbers and
    /// subscribers were given out.
    pub open spec fn valid(self) -> bool {
        &&& forall|s: SurfaceId| #[trigger]
            self.ids.dom().contains(s) ==> self.owners.dom().contains(self.ids[s])
                && self.owners[self.ids[s]] == s && self.ids[s] <= self.last_id
        &&& forall|n: u64| #[trigger]
            self.owners.dom().contains(n) ==> self.ids.dom().contains(self.owners[n])
                && self.ids[self.owners[n]] == n
        &&& forall|i: int|
            0 <= i < self.subscribers.len() ==> #[trigger] self.subscribers[i].id
                <= self.last_conn
        &&& forall|i: int, j: int|
            0 <= i < j < self.subscribers.len() ==> #[trigger] self.subscribers[i].id
                != #[trigger] self.subscribers[j].id
        &&& self.known.no_duplicates()
    }
}

/// The state of the control socket.
pub struct IpcState {
    next_id: u64,
    by_surface: HashMap<u64, u64>,
    by_id: HashMap<u64, u64>,
    subscribers: Vec<Subscriber>,
    next_conn: u64,
    last_window_ids: Vec<u64>,
    last_focus: Option<(u64, Option<String>)>,
    last_workspaces: Vec<WorkspaceInfo>,
}

impl View for IpcState {
    type V = IpcModel;

    closed spec fn view(&self) -> IpcModel {
        IpcModel {
            ids: self.by_surface@,
            owners: self.by_id@,
            last_id: self.next_id,
            subscribers: subscriber_views(self.subscribers@),
            last_conn: self.next_conn,
            known: self.last_window_ids@,
            focus: match self.last_focus {
                None => None,
                Some((id, title)) => Some((id, opt_text(title))),
            },
            workspaces: workspace_infos(self.last_workspaces@),
        }
    }
}

/// Whether one of the windows has a number.
pub open spec fn has_id(ws: Seq<WindowInfo>, id: u64) -> bool {
    exists|i: int| 0 <= i < ws.len() && (#[trigger] ws[i]).id == id
}

/// The numbers of the first `n` windows, each once.
pub open spec fn ids_of(ws: Seq<WindowInfo>, n: int) -> Seq<u64>
    decreases n,
{
    if n <= 0 {
        Seq::empty()
    } else {
        let rest = ids_of(ws, n - 1);
        if rest.contains(ws[n - 1].id) {
            rest
        } else {
            rest.push(ws[n - 1].id)
        }
    }
}

/// The windows among the first `n` that were not known.
pub open spec fn opened_events(ws: Seq<WindowInfo>, known: Seq<u64>, n: int) -> Seq<EventModel>
    decreases n,
{
    if n <= 0 {
        Seq::empty()
    } else if known.contains(ws[n - 1].id) {
        opened_events(ws, known, n - 1)
    } else {
        opened_events(ws, known, n - 1).push(EventModel::Opened(ws[n - 1]))
    }
}

/// The windows among the first `n` known ones that are there no more.
pub open spec fn closed_events(known: Seq<u64>, ws: Seq<WindowInfo>, n: int) -> Seq<EventModel>
    decreases n,
{
    if n <= 0 {
        Seq::empty()
    } else if has_id(ws, known[n - 1]) {
        closed_events(known, ws, n - 1)
    } else {
        closed_events(known, ws, n - 1).push(EventModel::Closed(known[n - 1]))
    }
}

/// The changes from what subscribers know to what there is: windows opened,
/// windows closed, the focus, the workspaces.
pub open spec fn changes(
    m: IpcModel,
    ws: Seq<WindowInfo>,
    spaces: Seq<WorkspaceInfoModel>,
    focus: Option<WindowInfo>,
) -> Seq<EventModel> {
    opened_events(ws, m.known, ws.len() as int) + closed_events(m.known, ws, m.known.len() as int)
        + (if focus_key(focus) == m.focus {
        Seq::empty()
    } else {
        seq![EventModel::Focused(focus)]
    }) + (if spaces == m.workspaces {
        Seq::empty()
    } else {
        seq![EventModel::Workspaces(spaces)]
    })
}

/// What subscribers know once they have been told what there is.
pub open spec fn informed(
    m: IpcModel,
    ws: Seq<WindowInfo>,
    spaces: Seq<WorkspaceInfoModel>,
    focus: Option<WindowInfo>,
) -> IpcModel {
    IpcModel {
        known: ids_of(ws, ws.len() as int),
        focus: focus_key(focus),
        workspaces: spaces,
        ..m
    }
}

fn contains_id(ids: &Vec<u64>, id: u64) -> (r: bool)
    ensures
        r == ids@.contains(id),
{
    let mut i: usize = 0;
    while i < ids.len()
        invariant
            i <= ids@.len(),
            forall|k: int| 0 <= k < i ==> ids@[k] != id,
        decreases ids@.len() - i,
    {
        if ids[i] == id {
            assert(ids@[i as int] == id);
            return true;
        }
        i += 1;
    }
    false
}

proof fn listed_ids(ws: Seq<WindowInfo>, n: int)
    requires
        0 <= n <= ws.len(),
    ensures
        ids_of(ws, n).no_duplicates(),
        forall|id: u64| ids_of(ws, n).contains(id) <==> has_id(ws.take(n), id),
    decreases n,
{
    if n > 0 {
        listed_ids(ws, n - 1);
        let rest = ids_of(ws, n - 1);
        let last = ws[n - 1].id;
        assert forall|id: u64| ids_of(ws, n).contains(id) <==> has_id(ws.take(n), id) by {
            assert(ws.take(n)[n - 1] == ws[n - 1]);
            if has_id(ws.take(n - 1), id) {
                let i = choose|i: int| 0 <= i < n - 1 && (#[trigger] ws.take(n - 1)[i]).id == id;
                assert(ws.take(n)[i] == ws.take(n - 1)[i]);
            }
            if has_id(ws.take(n), id) && id != last {
                let i = choose|i: int| 0 <= i < n && (#[trigger] ws.take(n)[i]).id == id;
                assert(ws.take(n - 1)[i] == ws.take(n)[i]);
            }
            if !rest.contains(last) {
                assert(ids_of(ws, n) == rest.push(last));
                assert(rest.push(last)[rest.len() as int] == last);
                if rest.contains(id) {
                    let k = choose|k: int| 0 <= k < rest.len() && rest[k] == id;
                    assert(rest.push(last)[k] == id);
                }
            }
        }
    }
}

fn window_ids(ws: &Vec<WindowInfo>) -> (r: Vec<u64>)
    ensures
        r@ == ids_of(ws@, ws@.len() as int),
{
    let mut out: Vec<u64> = Vec::new();
    let mut i: usize = 0;
    while i < ws.len()
        invariant
            i <= ws@.len(),
            out@ =~= ids_of(ws@, i as int),
        decreases ws@.len() - i,
    {
        let id: u64 = ws[i].id;
        if !contains_id(&out, id) {
            out.push(id);
        }
        i += 1;
    }
    out
}

fn copy_text(s: &Option<String>) -> (r: Option<String>)
    ensures
        r == *s,
{
    match s {
        None => None,
        Some(s) => Some(s.clone()),
    }
}

fn same_text(a: &Option<String>, b: &Option<String>) -> (r: bool)
    ensures
        r == (opt_text(*a) == opt_text(*b)),
{
    match (a, b) {
        (None, None) => true,
        (Some(x), Some(y)) => same(x.as_str(), y.as_str()),
        _ => false,
    }
}

fn same_workspaces(a: &Vec<WorkspaceInfo>, b: &Vec<WorkspaceInfo>) -> (r: bool)
    ensures
        r == (workspace_infos(a@) == workspace_infos(b@)),
{
    let ghost (x, y) = (workspace_infos(a@), workspace_infos(b@));
    if a.len() != b.len() {
        assert(x.len() != y.len());
        return false;
    }
    let mut i: usize = 0;
    while i < a.len()
        invariant
            i <= a@.len(),
            a@.len() == b@.len(),
            x == workspace_infos(a@),
            y == workspace_infos(b@),
            forall|k: int| 0 <= k < i ==> x[k] == y[k],
        decreases a@.len() - i,
    {
        assert(x[i as int] == a@[i as int]@ && y[i as int] == b@[i as int]@);
        if a[i].index != b[i].index || a[i].active != b[i].active || a[i].window_count
            != b[i].window_count || !same(a[i].output.as_str(), b[i].output.as_str()) {
            assert(x[i as int] != y[i as int]);
            return false;
        }
        assert(x[i as int] =~= y[i as int]);
        i += 1;
    }
    assert(x =~= y);
    true
}

/// Another list of the same workspaces.
pub fn copy_workspaces(v: &Vec<WorkspaceInfo>) -> (r: Vec<WorkspaceInfo>)
    ensures
        r@ == v@,
{
    let mut out: Vec<WorkspaceInfo> = Vec::new();
    let mut i: usize = 0;
    while i < v.len()
        invariant
            i <= v@.len(),
            out@ =~= v@.take(i as int),
        decreases v@.len() - i,
    {
        out.push(
            WorkspaceInfo {
                output: v[i].output.clone(),
                index: v[i].index,
                active: v[i].active,
                window_count: v[i].window_count,
            },
        );
        i += 1;
    }
    assert(out@ =~= v@);
    out
}

impl IpcState {
    /// No window has a number, and nobody listens.
    pub fn new() -> (r: IpcState)
        ensures
            r@ == (IpcModel {
                ids: Map::empty(),
                owners: Map::empty(),
                last_id: 0,
                subscribers: Seq::empty(),
                last_conn: 0,
                known: Seq::empty(),
                focus: None,
                workspaces: Seq::empty(),
            }),
            r@.valid(),
    {
        let r = IpcState {
            next_id: 0,
            by_surface: HashMap::new(),
            by_id: HashMap::new(),
            subscribers: Vec::new(),
            next_conn: 0,
            last_window_ids: Vec::new(),
            last_focus: None,
            last_workspaces: Vec::new(),
        };
        assert(r@.subscribers =~= Seq::empty());
        assert(r@.workspaces =~= Seq::empty());
        r
    }

    /// Whether there are numbers left for so many windows, and for one more
    /// subscriber.
    pub fn has_room(&self, windows: usize) -> (r: bool)
        ensures
            r == (self@.last_id + windows < u64::MAX && self@.last_conn < u64::MAX),
    {
        self.next_id as u128 + (windows as u128) < u64::MAX as u128 && self.next_conn < u64::MAX
    }

    /// The number of a window, which gets the next one if it has none.
    pub fn assign(&mut self, surface: SurfaceId) -> (r: u64)
        requires
            old(self)@.valid(),
            old(self)@.last_id < u64::MAX,
        ensures
            final(self)@.valid(),
            if old(self)@.ids.dom().contains(surface) {
                r == old(self)@.ids[surface] && final(self)@ == old(self)@
            } else {
                r == old(self)@.last_id + 1 && final(self)@ == (IpcModel {
                    ids: old(self)@.ids.insert(surface, r),
                    owners: old(self)@.owners.insert(r, surface),
                    last_id: r,
                    ..old(self)@
                })
            },
    {
        broadcast use vstd::std_specs::hash::group_hash_axioms;

        if let Some(id) = self.by_surface.get(&surface) {
            return *id;
        }
        self.next_id = self.next_id + 1;
        let id: u64 = self.next_id;
        self.by_surface.insert(surface, id);
        self.by_id.insert(id, surface);
        proof {
            let (a, b) = (old(self)@, self@);
            assert(!a.owners.dom().contains(id));
            assert forall|s: SurfaceId| #[trigger] b.ids.dom().contains(s) implies b.owners.dom().contains(
            b.ids[s]) && b.owners[b.ids[s]] == s && b.ids[s] <= b.last_id by {
                if s != surface {
                    assert(a.ids.dom().contains(s));
                }
            }
            assert forall|n: u64| #[trigger] b.owners.dom().contains(n) implies b.ids.dom().contains(
            b.owners[n]) && b.ids[b.owners[n]] == n by {
                if n != id {
                    assert(a.owners.dom().contains(n));
                }
            }
        }
        id
    }

    /// The window of a number.
    pub fn surface_of(&self, id: u64) -> (r: Option<SurfaceId>)
        ensures
            r == (if self@.owners.dom().contains(id) {
                Some(self@.owners[id])
            } else {
                None
            }),
    {
        broadcast use vstd::std_specs::hash::group_hash_axioms;

        match self.by_id.get(&id) {
            None => None,
            Some(s) => Some(*s),
        }
    }

    /// Takes a window's number away; no other window gets it.
    pub fn forget(&mut self, surface: SurfaceId)
        requires
            old(self)@.valid(),
        ensures
            final(self)@.valid(),
            final(self)@ == (if old(self)@.ids.dom().contains(surface) {
                IpcModel {
                    ids: old(self)@.ids.remove(surface),
                    owners: old(self)@.owners.remove(old(self)@.ids[surface]),
                    ..old(self)@
                }
            } else {
                old(self)@
            }),
    {
        broadcast use vstd::std_specs::hash::group_hash_axioms;

        let id: u64 = match self.by_surface.get(&surface) {
            None => {
                return ;
            },
            Some(id) => *id,
        };
        self.by_surface.remove(&surface);
        self.by_id.remove(&id);
        proof {
            let (a, b) = (old(self)@, self@);
            assert forall|s: SurfaceId| #[trigger] b.ids.dom().contains(s) implies b.owners.dom().contains(
            b.ids[s]) && b.owners[b.ids[s]] == s && b.ids[s] <= b.last_id by {
                assert(a.ids.dom().contains(s));
            }
            assert forall|n: u64| #[trigger] b.owners.dom().contains(n) implies b.ids.dom().contains(
            b.owners[n]) && b.ids[b.owners[n]] == n by {
                assert(a.owners.dom().contains(n));
            }
        }
    }

    /// Takes a subscriber in, for the given kinds or, without any, for all.
    /// Says which number it has and whether it is the only one.
    pub fn add_subscriber(&mut self, events: Vec<EventKind>) -> (r: (u64, bool))
        requires
            old(self)@.valid(),
            old(self)@.last_conn < u64::MAX,
        ensures
            final(self)@.valid(),
            r.0 == old(self)@.last_conn + 1,
            r.1 == (old(self)@.subscribers.len() == 0),
            final(self)@ == (IpcModel {
                last_conn: r.0,
                subscribers: old(self)@.subscribers.push(
                    SubscriberModel {
                        id: r.0,
                        kinds: if events@.len() == 0 {
                            None
                        } else {
                            Some(events@)
                        },
                    },
                ),
                ..old(self)@
            }),
    {
        let first = self.subscribers.len() == 0;
        self.next_conn = self.next_conn + 1;
        let id: u64 = self.next_conn;
        let ghost before = self.subscribers@;
        let kinds = if events.len() == 0 {
            None
        } else {
            Some(events)
        };
        self.subscribers.push(Subscriber { id, kinds });
        assert(subscriber_views(self.subscribers@) =~= subscriber_views(before).push(
            self.subscribers@[before.len() as int]@,
        ));
        assert(forall|i: int|
            0 <= i < before.len() ==> #[trigger] old(self)@.subscribers[i].id
                <= old(self)@.last_conn);
        (id, first)
    }

    /// Takes a subscriber out.
    pub fn remove_subscriber(&mut self, id: u64)
        requires
            old(self)@.valid(),
        ensures
            final(self)@.valid(),
            final(self)@ == (IpcModel {
                subscribers: subscribers_but(
                    old(self)@.subscribers,
                    id,
                    old(self)@.subscribers.len() as int,
                ),
                ..old(self)@
            }),
    {
        let mut rest: Vec<Subscriber> = Vec::new();
        std::mem::swap(&mut rest, &mut self.subscribers);
        let ghost all = rest@;
        let ghost ss = subscriber_views(all);
        let mut todo = reversed(rest);
        let ghost n = todo@.len() as int;
        while todo.len() > 0
            invariant
                ss == subscriber_views(all),
                todo@.len() <= n,
                n == all.len(),
                forall|k: int| 0 <= k < todo@.len() ==> #[trigger] todo@[k] == all[n - 1 - k],
                subscriber_views(self.subscribers@) =~= subscribers_but(ss, id, n - todo@.len()),
                self.next_id == old(self).next_id,
                self.by_surface == old(self).by_surface,
                self.by_id == old(self).by_id,
                self.next_conn == old(self).next_conn,
                self.last_window_ids == old(self).last_window_ids,
                self.last_focus == old(self).last_focus,
                self.last_workspaces == old(self).last_workspaces,
            decreases todo@.len(),
        {
            let ghost done = n - todo@.len();
            let ghost had = self.subscribers@;
            let s = todo.pop().unwrap();
            assert(s == all[done]);
            assert(ss[done] == s@);
            if s.id != id {
                self.subscribers.push(s);
                assert(subscriber_views(self.subscribers@) =~= subscriber_views(had).push(s@));
            }
            assert(n - todo@.len() == done + 1);
        }
        proof {
            remaining_subscribers(ss, id, n);
            let b = self@.subscribers;
            assert forall|i: int| 0 <= i < b.len() implies #[trigger] b[i].id
                <= self@.last_conn by {
                let j = choose|j: int| 0 <= j < n && ss[j] == b[i];
                assert(old(self)@.subscribers[j].id <= old(self)@.last_conn);
            }
        }
    }

    /// Whether anybody listens.
    pub fn has_subscribers(&self) -> (r: bool)
        ensures
            r == (self@.subscribers.len() > 0),
    {
        self.subscribers.len() > 0
    }

    /// The subscribers that hear of a change.
    pub fn recipients(&self, event: &Event) -> (r: Vec<u64>)
        ensures
            r@ == listeners(
                self@.subscribers,
                event@.kind(),
                self@.subscribers.len() as int,
            ),
    {
        let kind = event.kind();
        let ghost ss = subscriber_views(self.subscribers@);
        let mut out: Vec<u64> = Vec::new();
        let mut i: usize = 0;
        while i < self.subscribers.len()
            invariant
                i <= self.subscribers@.len(),
                ss == subscriber_views(self.subscribers@),
                kind == event@.kind(),
                out@ =~= listeners(ss, kind, i as int),
            decreases self.subscribers@.len() - i,
        {
            assert(ss[i as int] == self.subscribers@[i as int]@);
            let hears = match &self.subscribers[i].kinds {
                None => true,
                Some(ks) => contains_kind(ks, kind),
            };
            if hears {
                out.push(self.subscribers[i].id);
            }
            i += 1;
        }
        out
    }

    /// Takes what there is as what subscribers know.
    pub fn set_baseline(
        &mut self,
        windows: &Vec<WindowInfo>,
        workspaces: &Vec<WorkspaceInfo>,
        focus: &Option<WindowInfo>,
    )
        requires
            old(self)@.valid(),
        ensures
            final(self)@.valid(),
            final(self)@ == informed(
                old(self)@,
                windows@,
                workspace_infos(workspaces@),
                *focus,
            ),
    {
        proof {
            listed_ids(windows@, windows@.len() as int);
        }
        self.last_window_ids = window_ids(windows);
        self.last_focus = match focus {
            None => None,
            Some(w) => Some((w.id, copy_text(&w.title))),
        };
        self.last_workspaces = copy_workspaces(workspaces);
    }

    /// The changes from what subscribers know to what there is, which they
    /// know from then on.
    pub fn emit_changes(
        &mut self,
        windows: Vec<WindowInfo>,
        workspaces: Vec<WorkspaceInfo>,
        focus: Option<WindowInfo>,
    ) -> (r: Vec<Event>)
        requires
            old(self)@.valid(),
        ensures
            final(self)@.valid(),
            events_view(r@) == changes(
                old(self)@,
                windows@,
                workspace_infos(workspaces@),
                focus,
            ),
            final(self)@ == informed(old(self)@, windows@, workspace_infos(workspaces@), focus),
    {
        let ghost ws = windows@;
        let ghost known = self.last_window_ids@;
        let ghost start = self@;
        proof {
            listed_ids(ws, ws.len() as int);
            assert(ws.take(ws.len() as int) =~= ws);
        }
        let current = window_ids(&windows);
        let mut out: Vec<Event> = Vec::new();
        let mut todo = reversed(windows);
        let ghost n = todo@.len() as int;
        while todo.len() > 0
            invariant
                todo@.len() <= n,
                n == ws.len(),
                known == self.last_window_ids@,
                self@ == start,
                forall|k: int| 0 <= k < todo@.len() ==> #[trigger] todo@[k] == ws[n - 1 - k],
                events_view(out@) =~= opened_events(ws, known, n - todo@.len()),
            decreases todo@.len(),
        {
            let ghost done = n - todo@.len();
            let ghost had = out@;
            let w = todo.pop().unwrap();
            assert(w == ws[done]);
            if !contains_id(&self.last_window_ids, w.id) {
                out.push(Event::WindowOpened { window: w });
                assert(events_view(out@) =~= events_view(had).push(EventModel::Opened(w)));
            }
            assert(n - todo@.len() == done + 1);
        }
        let ghost first = events_view(out@);
        let mut i: usize = 0;
        while i < self.last_window_ids.len()
            invariant
                i <= self.last_window_ids@.len(),
                known == self.last_window_ids@,
                self@ == start,
                forall|id: u64| current@.contains(id) <==> has_id(ws, id),
                events_view(out@) =~= first + closed_events(known, ws, i as int),
            decreases self.last_window_ids@.len() - i,
        {
            let ghost had = out@;
            let id: u64 = self.last_window_ids[i];
            if !contains_id(&current, id) {
                out.push(Event::WindowClosed { id });
                assert(events_view(out@) =~= events_view(had).push(EventModel::Closed(id)));
            }
            i += 1;
        }
        self.last_window_ids = current;
        let ghost second = events_view(out@);
        let unchanged = match (&focus, &self.last_focus) {
            (None, None) => true,
            (Some(w), Some((id, title))) => w.id == *id && same_text(&w.title, title),
            _ => false,
        };
        assert(unchanged == (focus_key(focus) == start.focus));
        if !unchanged {
            self.last_focus = match &focus {
                None => None,
                Some(w) => Some((w.id, copy_text(&w.title))),
            };
            let ghost had = out@;
            out.push(Event::WindowFocused { window: focus });
            assert(events_view(out@) =~= events_view(had).push(EventModel::Focused(focus)));
        }
        let ghost third = events_view(out@);
        if !same_workspaces(&workspaces, &self.last_workspaces) {
            let ghost had = out@;
            let copy = copy_workspaces(&workspaces);
            out.push(Event::WorkspacesChanged { workspaces: copy });
            assert(events_view(out@) =~= events_view(had).push(
                EventModel::Workspaces(workspace_infos(workspaces@)),
            ));
            self.last_workspaces = workspaces;
        }
        assert(events_view(out@) =~= changes(start, ws, workspace_infos(workspaces@), focus));
        out
    }
}

fn contains_kind(ks: &Vec<EventKind>, kind: EventKind) -> (r: bool)
    ensures
        r == ks@.contains(kind),
{
    let mut i: usize = 0;
    while i < ks.len()
        invariant
            i <= ks@.len(),
            forall|k: int| 0 <= k < i ==> ks@[k] != kind,
        decreases ks@.len() - i,
    {
        if ks[i] == kind {
            assert(ks@[i as int] == kind);
            return true;
        }
        i += 1;
    }
    false
}

/// The subscribers among the first `n` but for one.
pub open spec fn subscribers_but(ss: Seq<SubscriberModel>, id: u64, n: int) -> Seq<
    SubscriberModel,
>
    decreases n,
{
    if n <= 0 {
        Seq::empty()
    } else if ss[n - 1].id != id {
        subscribers_but(ss, id, n - 1).push(ss[n - 1])
    } else {
        subscribers_but(ss, id, n - 1)
    }
}

proof fn remaining_subscribers(ss: Seq<SubscriberModel>, id: u64, n: int)
    requires
        0 <= n <= ss.len(),
        forall|i: int, j: int|
            0 <= i < j < ss.len() ==> #[trigger] ss[i].id != #[trigger] ss[j].id,
    ensures
        ({
            let b = subscribers_but(ss, id, n);
            &&& forall|i: int|
                0 <= i < b.len() ==> (exists|j: int| 0 <= j < n && ss[j] == #[trigger] b[i])
            &&& forall|i: int| 0 <= i < b.len() ==> #[trigger] b[i].id != id
            &&& forall|i: int, j: int|
                0 <= i < j < b.len() ==> #[trigger] b[i].id != #[trigger] b[j].id
        }),
    decreases n,
{
    if n > 0 {
        remaining_subscribers(ss, id, n - 1);
        let a = subscribers_but(ss, id, n - 1);
        let b = subscribers_but(ss, id, n);
        assert forall|i: int| 0 <= i < b.len() implies (exists|j: int|
            0 <= j < n && ss[j] == #[trigger] b[i]) by {
            if i < a.len() {
                let j = choose|j: int| 0 <= j < n - 1 && ss[j] == a[i];
                assert(ss[j] == b[i]);
            } else {
                assert(ss[n - 1] == b[i]);
            }
        }
        assert forall|i: int, j: int| 0 <= i < j < b.len() implies #[trigger] b[i].id
            != #[trigger] b[j].id by {
            if j == a.len() {
                let k = choose|k: int| 0 <= k < n - 1 && ss[k] == a[i];
                assert(ss[k].id != ss[n - 1].id);
            } else {
                assert(a[i].id != a[j].id);
            }
        }
    }
}

/// The subscribers among the first `n` that hear of a kind of change.
pub open spec fn listeners(ss: Seq<SubscriberModel>, kind: EventKind, n: int) -> Seq<u64>
    decreases n,
{
    if n <= 0 {
        Seq::empty()
    } else if ss[n - 1].hears(kind) {
        listeners(ss, kind, n - 1).push(ss[n - 1].id)
    } else {
        listeners(ss, kind, n - 1)
    }
}

/// Two windows never have the same number.
pub proof fn windows_have_their_own_numbers(m: IpcModel, a: SurfaceId, b: SurfaceId)
    requires
        m.valid(),
        m.ids.dom().contains(a),
        m.ids.dom().contains(b),
        m.ids[a] == m.ids[b],
    ensures
        a == b,
{
}

/// The window of a window's number is the window.
pub proof fn numbers_lead_back_to_their_windows(m: IpcModel, s: SurfaceId)
    requires
        m.valid(),
        m.ids.dom().contains(s),
    ensures
        m.owners.dom().contains(m.ids[s]),
        m.owners[m.ids[s]] == s,
{
}

proof fn nothing_opened(ws: Seq<WindowInfo>, known: Seq<u64>, n: int)
    requires
        0 <= n <= ws.len(),
        forall|i: int| 0 <= i < ws.len() ==> known.contains((#[trigger] ws[i]).id),
    ensures
        opened_events(ws, known, n) == Seq::<EventModel>::empty(),
    decreases n,
{
    if n > 0 {
        nothing_opened(ws, known, n - 1);
    }
}

proof fn nothing_closed(known: Seq<u64>, ws: Seq<WindowInfo>, n: int)
    requires
        0 <= n <= known.len(),
        forall|i: int| 0 <= i < known.len() ==> has_id(ws, #[trigger] known[i]),
    ensures
        closed_events(known, ws, n) == Seq::<EventModel>::empty(),
    decreases n,
{
    if n > 0 {
        nothing_closed(known, ws, n - 1);
    }
}

/// Nothing is told twice: where nothing has changed there are no changes.
pub proof fn changes_are_told_once(
    m: IpcModel,
    ws: Seq<WindowInfo>,
    spaces: Seq<WorkspaceInfoModel>,
    focus: Option<WindowInfo>,
)
    ensures
        changes(informed(m, ws, spaces, focus), ws, spaces, focus).len() == 0,
{
    let n = ws.len() as int;
    let known = ids_of(ws, n);
    listed_ids(ws, n);
    assert(ws.take(n) =~= ws);
    assert forall|i: int| 0 <= i < ws.len() implies known.contains((#[trigger] ws[i]).id) by {
        assert(has_id(ws, ws[i].id));
    }
    assert forall|i: int| 0 <= i < known.len() implies has_id(ws, #[trigger] known[i]) by {
        assert(known.contains(known[i]));
    }
    nothing_opened(ws, known, n);
    nothing_closed(known, ws, known.len() as int);
}

proof fn opened_is_told(ws: Seq<WindowInfo>, known: Seq<u64>, n: int, i: int)
    requires
        0 <= i < n <= ws.len(),
        !known.contains(ws[i].id),
    ensures
        opened_events(ws, known, n).contains(EventModel::Opened(ws[i])),
    decreases n,
{
    let all = opened_events(ws, known, n);
    if i == n - 1 {
        assert(all.last() == EventModel::Opened(ws[i]));
    } else {
        opened_is_told(ws, known, n - 1, i);
        let rest = opened_events(ws, known, n - 1);
        let k = choose|k: int| 0 <= k < rest.len() && rest[k] == EventModel::Opened(ws[i]);
        assert(all[k] == rest[k]);
    }
}

proof fn closed_is_told(known: Seq<u64>, ws: Seq<WindowInfo>, n: int, i: int)
    requires
        0 <= i < n <= known.len(),
        !has_id(ws, known[i]),
    ensures
        closed_events(known, ws, n).contains(EventModel::Closed(known[i])),
    decreases n,
{
    let all = closed_events(known, ws, n);
    if i == n - 1 {
        assert(all.last() == EventModel::Closed(known[i]));
    } else {
        closed_is_told(known, ws, n - 1, i);
        let rest = closed_events(known, ws, n - 1);
        let k = choose|k: int| 0 <= k < rest.len() && rest[k] == EventModel::Closed(known[i]);
        assert(all[k] == rest[k]);
    }
}

/// No change is passed over: each window that was not known is told as opened,
/// and each known one that is gone as closed.
pub proof fn every_window_is_told_of(
    m: IpcModel,
    ws: Seq<WindowInfo>,
    spaces: Seq<WorkspaceInfoModel>,
    focus: Option<WindowInfo>,
)
    ensures
        forall|i: int|
            0 <= i < ws.len() && !m.known.contains((#[trigger] ws[i]).id) ==> changes(
                m,
                ws,
                spaces,
                focus,
            ).contains(EventModel::Opened(ws[i])),
        forall|i: int|
            0 <= i < m.known.len() && !has_id(ws, #[trigger] m.known[i]) ==> changes(
                m,
                ws,
                spaces,
                focus,
            ).contains(EventModel::Closed(m.known[i])),
{
    let all = changes(m, ws, spaces, focus);
    let o = opened_events(ws, m.known, ws.len() as int);
    let c = closed_events(m.known, ws, m.known.len() as int);
    assert forall|i: int| 0 <= i < ws.len() && !m.known.contains(
        (#[trigger] ws[i]).id,
    ) implies all.contains(EventModel::Opened(ws[i])) by {
        opened_is_told(ws, m.known, ws.len() as int, i);
        let k = choose|k: int| 0 <= k < o.len() && o[k] == EventModel::Opened(ws[i]);
        assert(all[k] == o[k]);
    }
    assert forall|i: int| 0 <= i < m.known.len() && !has_id(
        ws,
        #[trigger] m.known[i],
    ) implies all.contains(EventModel::Closed(m.known[i])) by {
        closed_is_told(m.known, ws, m.known.len() as int, i);
        let k = choose|k: int| 0 <= k < c.len() && c[k] == EventModel::Closed(m.known[i]);
        assert(all[o.len() + k] == c[k]);
    }
}

/// The position of the first line end at or after `from`, else the length.
pub open spec fn line_end(bytes: Seq<u8>, from: int) -> int
    decreases bytes.len() - from,
{
    if from < 0 || from >= bytes.len() {
        bytes.len() as int
    } else if bytes[from] == 10 {
        from
    } else {
        line_end(bytes, from + 1)
    }
}

/// Takes the first whole line out of what has come in, without its end. None
/// while there is no whole line.
pub fn take_line(pending: &mut Vec<u8>) -> (r: Option<Vec<u8>>)
    ensures
        ({
            let before = old(pending)@;
            let n = line_end(before, 0);
            if n >= before.len() {
                r.is_none() && final(pending)@ == before
            } else {
                r matches Some(line) && line@ == before.take(n) && final(pending)@ == before.skip(
                    n + 1,
                )
            }
        }),
{
    let ghost before = pending@;
    let mut n: usize = 0;
    while n < pending.len() && pending[n] != 10
        invariant
            n <= pending@.len(),
            pending@ == before,
            line_end(before, 0) == line_end(before, n as int),
        decreases pending@.len() - n,
    {
        n += 1;
    }
    if n == pending.len() {
        return None;
    }
    let mut line = pending.split_off(n + 1);
    assert(line@ =~= before.skip(n + 1));
    std::mem::swap(&mut line, pending);
    line.pop();
    assert(line@ =~= before.take(n as int));
    Some(line)
}

/// Puts the end of a line behind a message.
pub fn end_line(message: &mut Vec<u8>)
    ensures
        final(message)@ == old(message)@.push(10),
{
    message.push(10);
}

proof fn line_end_is_first(bytes: Seq<u8>, n: int, from: int)
    requires
        0 <= from <= n < bytes.len(),
        bytes[n] == 10,
        forall|i: int| from <= i < n ==> bytes[i] != 10,
    ensures
        line_end(bytes, from) == n,
    decreases n - from,
{
    if from < n {
        line_end_is_first(bytes, n, from + 1);
    }
}

/// A message without line ends, sent as a line before whatever follows, is the
/// line that is taken out, and what follows is what is left.
pub proof fn lines_come_out_as_they_went_in(message: Seq<u8>, more: Seq<u8>)
    requires
        !message.contains(10),
    ensures
        ({
            let stream = message.push(10) + more;
            let n = line_end(stream, 0);
            &&& n < stream.len()
            &&& stream.take(n) == message
            &&& stream.skip(n + 1) == more
        }),
{
    let stream = message.push(10) + more;
    let n = message.len() as int;
    assert forall|i: int| 0 <= i < n implies stream[i] != 10 by {
        assert(stream[i] == message[i]);
        assert(message.contains(message[i]));
    }
    line_end_is_first(stream, n, 0);
    assert(stream.take(n) =~= message);
    assert(stream.skip(n + 1) =~= more);
}

proof fn windows_that_open_are_told(ws: Seq<WindowInfo>, known: Seq<u64>, n: int, e: EventModel)
    requires
        0 <= n <= ws.len(),
    ensures
        opened_events(ws, known, n).contains(e) <==> exists|i: int|
            0 <= i < n && e == EventModel::Opened(#[trigger] ws[i]) && !known.contains(ws[i].id),
    decreases n,
{
    if n > 0 {
        windows_that_open_are_told(ws, known, n - 1, e);
        pushing_adds_one_item(
            opened_events(ws, known, n - 1),
            EventModel::Opened(ws[n - 1]),
            e,
        );
    }
}

proof fn windows_that_close_are_told(known: Seq<u64>, ws: Seq<WindowInfo>, n: int, e: EventModel)
    requires
        0 <= n <= known.len(),
    ensures
        closed_events(known, ws, n).contains(e) <==> exists|i: int|
            0 <= i < n && e == EventModel::Closed(#[trigger] known[i]) && !has_id(ws, known[i]),
    decreases n,
{
    if n > 0 {
        windows_that_close_are_told(known, ws, n - 1, e);
        pushing_adds_one_item(closed_events(known, ws, n - 1), EventModel::Closed(known[n - 1]), e);
    }
}

proof fn joining_keeps_all<A>(a: Seq<A>, b: Seq<A>, x: A)
    ensures
        (a + b).contains(x) <==> a.contains(x) || b.contains(x),
{
    let s = a + b;
    if a.contains(x) {
        let i = choose|i: int| 0 <= i < a.len() && a[i] == x;
        assert(s[i] == x);
    }
    if b.contains(x) {
        let i = choose|i: int| 0 <= i < b.len() && b[i] == x;
        assert(s[a.len() + i] == x);
    }
    if s.contains(x) {
        let i = choose|i: int| 0 <= i < s.len() && s[i] == x;
        if i < a.len() {
            assert(a[i] == x);
        } else {
            assert(b[i - a.len()] == x);
        }
    }
}

/// What subscribers are told is what they do not know yet: the windows that
/// are new to them, the known ones that are gone, the focus where another
/// window has it or its title is another, and the workspaces where they are
/// others.
pub proof fn subscribers_are_told_what_is_new(
    m: IpcModel,
    ws: Seq<WindowInfo>,
    spaces: Seq<WorkspaceInfoModel>,
    focus: Option<WindowInfo>,
    e: EventModel,
)
    ensures
        changes(m, ws, spaces, focus).contains(e) <==> match e {
            EventModel::Opened(w) => !m.known.contains(w.id) && exists|i: int|
                0 <= i < ws.len() && #[trigger] ws[i] == w,
            EventModel::Closed(id) => (exists|i: int|
                0 <= i < m.known.len() && #[trigger] m.known[i] == id) && (forall|i: int|
                0 <= i < ws.len() ==> (#[trigger] ws[i]).id != id),
            EventModel::Focused(w) => w == focus && match (focus, m.focus) {
                (None, None) => false,
                (Some(now), Some(before)) => now.id != before.0 || opt_text(now.title) != before.1,
                _ => true,
            },
            EventModel::Workspaces(s) => s == spaces && s != m.workspaces,
        },
{
    let opened = opened_events(ws, m.known, ws.len() as int);
    let closed = closed_events(m.known, ws, m.known.len() as int);
    let focused: Seq<EventModel> = if focus_key(focus) == m.focus {
        Seq::empty()
    } else {
        seq![EventModel::Focused(focus)]
    };
    let moved: Seq<EventModel> = if spaces == m.workspaces {
        Seq::empty()
    } else {
        seq![EventModel::Workspaces(spaces)]
    };
    joining_keeps_all(opened, closed, e);
    joining_keeps_all(opened + closed, focused, e);
    joining_keeps_all(opened + closed + focused, moved, e);
    windows_that_open_are_told(ws, m.known, ws.len() as int, e);
    windows_that_close_are_told(m.known, ws, m.known.len() as int, e);
    if focused.len() > 0 {
        assert(focused[0] == EventModel::Focused(focus));
    }
    if moved.len() > 0 {
        assert(moved[0] == EventModel::Workspaces(spaces));
    }
    assert(has_id(ws, 0) == has_id(ws, 0));
}

/// The numbers that subscribers know are those of the windows they were told
/// of.
pub proof fn subscribers_know_what_they_were_told(ws: Seq<WindowInfo>, n: int, id: u64)
    requires
        0 <= n <= ws.len(),
    ensures
        ids_of(ws, n).contains(id) <==> exists|i: int| 0 <= i < n && (#[trigger] ws[i]).id == id,
    decreases n,
{
    if n > 0 {
        subscribers_know_what_they_were_told(ws, n - 1, id);
        pushing_adds_one_item(ids_of(ws, n - 1), ws[n - 1].id, id);
    }
}

/// A change is sent to those who asked for its kind, and to those who asked
/// for all; to nobody else.
pub proof fn changes_go_to_those_who_asked(
    ss: Seq<SubscriberModel>,
    kind: EventKind,
    n: int,
    id: u64,
)
    requires
        0 <= n <= ss.len(),
    ensures
        listeners(ss, kind, n).contains(id) <==> exists|i: int|
            0 <= i < n && (#[trigger] ss[i]).id == id && (ss[i].kinds.is_none()
                || ss[i].kinds.unwrap().contains(kind)),
    decreases n,
{
    if n > 0 {
        changes_go_to_those_who_asked(ss, kind, n - 1, id);
        pushing_adds_one_item(listeners(ss, kind, n - 1), ss[n - 1].id, id);
    }
}

/// A subscriber that leaves hears nothing more; all others stay.
pub proof fn only_the_one_that_leaves_is_gone(
    ss: Seq<SubscriberModel>,
    id: u64,
    n: int,
    s: SubscriberModel,
)
    requires
        0 <= n <= ss.len(),
    ensures
        subscribers_but(ss, id, n).contains(s) <==> s.id != id && exists|i: int|
            0 <= i < n && #[trigger] ss[i] == s,
    decreases n,
{
    if n > 0 {
        only_the_one_that_leaves_is_gone(ss, id, n - 1, s);
        pushing_adds_one_item(subscribers_but(ss, id, n - 1), ss[n - 1], s);
    }
}

} // verus!
