use libreland::config::{Action, KeyBinding};
use libreland::desktop::{ClientFacts, Gaps, SlideTiming};
use libreland::geometry::{Point, Rect, Size};
use libreland::ipc::{Event, IpcState, Request, Response, WorkspaceTarget};
use libreland::keyboard::{MOD_CTRL, MOD_SHIFT, MOD_SUPER};
use libreland::layers::LayerBucket;
use libreland::layout::Layout;
use libreland::server::{
    capture_path, dispatch, is_mutating, mod_names, on_subscribe, poll_events, resolve_target,
    socket_path, ClientInfo, LayerRecord, OutputDescriptor, ServerContext, Step,
};
use libreland::window::{Deco, LayoutMode, WindowSurface};

/// Slides are switched off.
const STILL: SlideTiming = SlideTiming { now: 0, duration: None };

fn rect(x: i32, y: i32, w: i32, h: i32) -> Rect {
    Rect::new(Point::new(x, y), Size::new(w, h))
}

fn desktop() -> Layout {
    let mut l = Layout::new(
        vec![
            ("DP-1".to_owned(), rect(0, 0, 1000, 600)),
            ("DP-2".to_owned(), rect(1000, 0, 800, 600)),
        ],
        Gaps { outer: 0, inner: 0 },
        Deco::none(),
        LayoutMode::Tiling,
    );
    l.insert(WindowSurface::Xdg(100), Some(Point::new(10, 10)));
    l.insert(WindowSurface::Xdg(200), Some(Point::new(1200, 10)));
    l
}

const FACTS: ClientFacts = ClientFacts::Xdg {
    has_parent: false,
    declared_dialog: false,
    min: Size { w: 0, h: 0 },
    max: Size { w: 0, h: 0 },
    geometry: None,
};

struct World {
    outputs: Vec<OutputDescriptor>,
    layers: Vec<LayerRecord>,
    clients: Vec<ClientInfo>,
    binds: Vec<KeyBinding>,
    keys: Vec<String>,
}

fn world() -> World {
    World {
        outputs: vec![OutputDescriptor {
            name: "DP-1".to_owned(),
            make: Some("ACME".to_owned()),
            model: Some(String::new()),
            mode_size: Size::new(2000, 1200),
            refresh_mhz: 59_940,
            scale: 240,
            position: Point::new(0, 0),
            size: Size::new(1000, 600),
        }],
        layers: vec![LayerRecord {
            namespace: None,
            layer: LayerBucket::Overlay,
            output: Some("DP-1".to_owned()),
            size: Size::new(10, 20),
            keyboard: true,
            exclusive_zone: -1,
        }],
        clients: vec![ClientInfo {
            surface: 200,
            app_id: Some("foot".to_owned()),
            title: Some("shell".to_owned()),
            pid: Some(42),
        }],
        binds: vec![KeyBinding {
            mods: MOD_SUPER | MOD_SHIFT,
            keysym: 0x45,
            action: Action::Spawn("foot".to_owned()),
        }],
        keys: vec!["E".to_owned()],
    }
}

fn context(w: &World) -> ServerContext<'_> {
    ServerContext {
        version: "0.1.0",
        outputs: &w.outputs,
        layers: &w.layers,
        clients: &w.clients,
        binds: &w.binds,
        bind_keys: &w.keys,
        focus: Some(200),
        alive: true,
        closable: true,
        facts: &FACTS,
        primary: Some("DP-1"),
        slide: STILL,
        has_config: true,
    }
}

fn refusal(s: Step) -> String {
    match s {
        Step::Reply(Err(e)) => e,
        other => panic!("{other:?}"),
    }
}

fn handled(s: Step) -> bool {
    matches!(s, Step::Reply(Ok(Response::Handled)))
}

#[test]
fn lists_are_answered() {
    let w = world();
    let cx = context(&w);
    let mut l = desktop();
    let mut ipc = IpcState::new();
    match dispatch(&mut l, &mut ipc, Request::Version, &cx) {
        Step::Reply(Ok(Response::Version(v))) => {
            assert_eq!((v.name.as_str(), v.version.as_str()), ("libreland", "0.1.0"));
        }
        other => panic!("{other:?}"),
    }
    match dispatch(&mut l, &mut ipc, Request::Outputs, &cx) {
        Step::Reply(Ok(Response::Outputs(os))) => {
            assert_eq!(os.len(), 1);
            assert_eq!(os[0].make, Some("ACME".to_owned()));
            assert_eq!(os[0].model, None);
            assert_eq!((os[0].width, os[0].logical_width), (2000, 1000));
            assert_eq!(os[0].active_workspace, Some(0));
        }
        other => panic!("{other:?}"),
    }
    match dispatch(&mut l, &mut ipc, Request::Workspaces, &cx) {
        Step::Reply(Ok(Response::Workspaces(ws))) => {
            assert_eq!(ws.len(), 2);
            assert_eq!((ws[1].output.as_str(), ws[1].window_count), ("DP-2", 1));
        }
        other => panic!("{other:?}"),
    }
    match dispatch(&mut l, &mut ipc, Request::Layers, &cx) {
        Step::Reply(Ok(Response::Layers(ls))) => {
            assert_eq!((ls[0].namespace.as_str(), ls[0].layer.as_str()), ("", "overlay"));
            assert_eq!((ls[0].width, ls[0].exclusive_zone), (10, -1));
        }
        other => panic!("{other:?}"),
    }
    match dispatch(&mut l, &mut ipc, Request::Windows, &cx) {
        Step::Reply(Ok(Response::Windows(ws))) => {
            assert_eq!((ws[0].id, ws[0].focused, ws[0].title.clone()), (1, false, None));
            assert_eq!((ws[1].id, ws[1].focused, ws[1].pid), (2, true, Some(42)));
            assert_eq!((ws[1].x, ws[1].width), (1000, 800));
            assert_eq!(ws[1].workspace, Some(0));
        }
        other => panic!("{other:?}"),
    }
    match dispatch(&mut l, &mut ipc, Request::FocusedWindow, &cx) {
        Step::Reply(Ok(Response::FocusedWindow(Some(w)))) => assert_eq!(w.id, 2),
        other => panic!("{other:?}"),
    }
    match dispatch(&mut l, &mut ipc, Request::Binds, &cx) {
        Step::Reply(Ok(Response::Binds(bs))) => {
            assert_eq!(bs[0].mods, vec!["Super", "Shift"]);
            assert_eq!((bs[0].key.as_str(), bs[0].action.as_str()), ("E", "spawn foot"));
        }
        other => panic!("{other:?}"),
    }
}

#[test]
fn requests_need_a_window() {
    let w = world();
    let mut cx = context(&w);
    let mut l = desktop();
    let mut ipc = IpcState::new();
    ipc.assign(100);
    let go = |l: &mut Layout, ipc: &mut IpcState, cx: &ServerContext, r| dispatch(l, ipc, r, cx);
    assert_eq!(
        refusal(go(&mut l, &mut ipc, &cx, Request::FocusWindow { id: 7 })),
        "no window with id 7"
    );
    assert!(matches!(
        go(&mut l, &mut ipc, &cx, Request::FocusWindow { id: 1 }),
        Step::Focus { focus: Some(100) }
    ));
    assert!(matches!(
        go(&mut l, &mut ipc, &cx, Request::CaptureWindow { id: 1, max: None }),
        Step::Capture { of: 100, id: 1, max: 512 }
    ));
    assert!(matches!(
        go(&mut l, &mut ipc, &cx, Request::Close { id: None }),
        Step::Close { surface: 200 }
    ));
    cx.closable = false;
    assert_eq!(
        refusal(go(&mut l, &mut ipc, &cx, Request::Close { id: None })),
        "target is not a toplevel window"
    );
    cx.alive = false;
    assert_eq!(
        refusal(go(&mut l, &mut ipc, &cx, Request::CaptureWindow { id: 1, max: Some(9) })),
        "no window with id 1"
    );
    cx.focus = None;
    assert_eq!(
        refusal(go(&mut l, &mut ipc, &cx, Request::ToggleFullscreen { id: None })),
        "no focused window"
    );
}

#[test]
fn requests_change_windows() {
    let w = world();
    let mut cx = context(&w);
    let mut l = desktop();
    let mut ipc = IpcState::new();
    ipc.assign(100);
    assert!(handled(dispatch(&mut l, &mut ipc, Request::ToggleFullscreen { id: Some(1) }, &cx)));
    assert!(l.output_has_fullscreen("DP-1"));
    assert!(handled(dispatch(&mut l, &mut ipc, Request::ToggleMaximized { id: Some(1) }, &cx)));
    assert!(!l.output_has_fullscreen("DP-1"));
    assert!(handled(dispatch(&mut l, &mut ipc, Request::ToggleFloating { id: None }, &cx)));
    assert!(l.window_entries()[1].floating);
    cx.focus = Some(999);
    assert_eq!(
        refusal(dispatch(&mut l, &mut ipc, Request::ToggleFloating { id: None }, &cx)),
        "window is not managed by the tiler"
    );
    let target = WorkspaceTarget::Next;
    assert_eq!(
        refusal(dispatch(&mut l, &mut ipc, Request::MoveToWorkspace { id: None, target }, &cx)),
        "window is not on a workspace"
    );
    assert!(handled(dispatch(
        &mut l,
        &mut ipc,
        Request::MoveToWorkspace { id: Some(1), target },
        &cx
    )));
    assert_eq!(l.active_workspace("DP-1"), Some(0));
    l.insert(WindowSurface::Xdg(300), Some(Point::new(10, 10)));
    cx.focus = Some(300);
    assert!(handled(dispatch(
        &mut l,
        &mut ipc,
        Request::MoveToWorkspace { id: None, target },
        &cx
    )));
    assert_eq!(l.active_workspace("DP-1"), Some(1));
    assert_eq!(
        refusal(dispatch(
            &mut l,
            &mut ipc,
            Request::MoveToWorkspace { id: Some(1), target },
            &cx
        )),
        "could not move the window (is it on the active workspace?)"
    );
}

#[test]
fn requests_show_workspaces() {
    let w = world();
    let mut cx = context(&w);
    let mut l = desktop();
    let mut ipc = IpcState::new();
    let to = |output: Option<&str>, target| Request::FocusWorkspace {
        output: output.map(|o| o.to_owned()),
        target,
    };
    assert!(matches!(
        dispatch(&mut l, &mut ipc, to(None, WorkspaceTarget::Next), &cx),
        Step::Focus { focus: None }
    ));
    assert_eq!(l.active_workspace("DP-1"), Some(1));
    assert!(matches!(
        dispatch(&mut l, &mut ipc, to(None, WorkspaceTarget::Prev), &cx),
        Step::Focus { focus: Some(100) }
    ));
    assert!(handled(dispatch(&mut l, &mut ipc, to(None, WorkspaceTarget::Index(0)), &cx)));
    assert_eq!(
        refusal(dispatch(&mut l, &mut ipc, to(Some("X"), WorkspaceTarget::Next), &cx)),
        "no output named X"
    );
    cx.primary = None;
    assert_eq!(
        refusal(dispatch(&mut l, &mut ipc, to(None, WorkspaceTarget::Next), &cx)),
        "no output connected"
    );
    assert_eq!(resolve_target(WorkspaceTarget::Prev, 0), 0);
    assert_eq!(resolve_target(WorkspaceTarget::Next, 4), 5);
    assert_eq!(resolve_target(WorkspaceTarget::Index(9), 4), 9);
}

#[test]
fn other_requests() {
    let w = world();
    let mut cx = context(&w);
    let mut l = desktop();
    let mut ipc = IpcState::new();
    let empty = Request::Spawn { command: vec![] };
    assert_eq!(refusal(dispatch(&mut l, &mut ipc, empty, &cx)), "empty command");
    let run = Request::Spawn { command: vec!["a".to_owned(), "b".to_owned()] };
    match dispatch(&mut l, &mut ipc, run, &cx) {
        Step::Spawn { command } => assert_eq!(command, vec!["a", "b"]),
        other => panic!("{other:?}"),
    }
    assert!(matches!(dispatch(&mut l, &mut ipc, Request::Exit, &cx), Step::Exit));
    assert!(matches!(dispatch(&mut l, &mut ipc, Request::Reload, &cx), Step::Reload));
    cx.has_config = false;
    assert_eq!(
        refusal(dispatch(&mut l, &mut ipc, Request::Reload, &cx)),
        "no config path (XDG dirs unset)"
    );
    assert_eq!(
        refusal(dispatch(&mut l, &mut ipc, Request::Subscribe { events: vec![] }, &cx)),
        "subscribe must be used as a streaming connection"
    );
    assert!(is_mutating(&Request::Close { id: None }));
    assert!(!is_mutating(&Request::Windows));
    assert!(!is_mutating(&Request::Exit));
}

#[test]
fn names_of_files_and_modifiers() {
    assert_eq!(capture_path(Some("/run/user/1000"), 12), "/run/user/1000/libreland-window-12.png");
    assert_eq!(capture_path(None, 0), "/tmp/libreland-window-0.png");
    assert_eq!(
        socket_path(Some("/run/user/1000/"), "wayland-1"),
        Some("/run/user/1000/libreland-wayland-1.sock".to_owned())
    );
    assert_eq!(socket_path(None, "wayland-1"), None);
    assert_eq!(mod_names(MOD_CTRL), vec!["Ctrl"]);
    assert_eq!(mod_names(15), vec!["Super", "Ctrl", "Alt", "Shift"]);
    assert_eq!(mod_names(0), Vec::<String>::new());
}

#[test]
fn subscribers_start_from_what_there_is() {
    let w = world();
    let mut l = desktop();
    let mut ipc = IpcState::new();
    assert!(poll_events(&mut ipc, &l, &w.clients, Some(200)).is_empty());
    let (_, first) = ipc.add_subscriber(vec![]);
    let (a, b) = on_subscribe(&mut ipc, &l, &w.clients, Some(200), first);
    match a {
        Event::WindowFocused { window: Some(w) } => assert_eq!(w.title, Some("shell".to_owned())),
        other => panic!("{other:?}"),
    }
    assert!(matches!(b, Event::WorkspacesChanged { workspaces } if workspaces.len() == 2));
    assert!(poll_events(&mut ipc, &l, &w.clients, Some(200)).is_empty());
    l.remove(100);
    let es = poll_events(&mut ipc, &l, &w.clients, Some(200));
    assert!(matches!(es[0], Event::WindowClosed { .. }));
    assert!(matches!(es[1], Event::WorkspacesChanged { .. }));
    assert_eq!(es.len(), 2);
}
