use libreland::client::{
    event_line, response_lines, truncate, window_label, window_line, Command, WsTargetArg,
};
use libreland::ipc::{
    BindInfo, Event, EventKind, LayerInfo, OutputInfo, Request, Response, VersionInfo, WindowInfo,
    WorkspaceInfo, WorkspaceTarget,
};

fn window() -> WindowInfo {
    WindowInfo {
        id: 7,
        app_id: Some("org.example.terminal".to_owned()),
        title: Some("a shell".to_owned()),
        output: Some("DP-1".to_owned()),
        workspace: Some(2),
        x: 0,
        y: 0,
        width: 100,
        height: 100,
        floating: true,
        fullscreen: false,
        maximized: false,
        focused: true,
        pid: None,
    }
}

#[test]
fn workspaces_are_named_on_the_command_line() {
    assert_eq!(WsTargetArg::parse("Next"), Some(WsTargetArg::Next));
    assert_eq!(WsTargetArg::parse("prev"), Some(WsTargetArg::Prev));
    assert_eq!(WsTargetArg::parse("PREVIOUS"), Some(WsTargetArg::Prev));
    assert_eq!(WsTargetArg::parse("12"), Some(WsTargetArg::Index(12)));
    assert_eq!(WsTargetArg::parse("+3"), Some(WsTargetArg::Index(3)));
    assert_eq!(WsTargetArg::parse("-1"), None);
    assert_eq!(WsTargetArg::parse(""), None);
    assert_eq!(WsTargetArg::parse("99999999999999999999999"), None);
    assert_eq!(WsTargetArg::Index(3).to_target(), WorkspaceTarget::Index(3));
    assert_eq!(WsTargetArg::Prev.to_target(), WorkspaceTarget::Prev);
}

#[test]
fn commands_become_requests() {
    assert!(matches!(Command::FocusedWindow.to_request(), Request::FocusedWindow));
    assert!(matches!(
        Command::CaptureWindow { id: 3, max: Some(9) }.to_request(),
        Request::CaptureWindow { id: 3, max: Some(9) }
    ));
    match (Command::FocusWorkspace { target: WsTargetArg::Next, output: Some("DP-1".to_owned()) })
        .to_request()
    {
        Request::FocusWorkspace { output, target } => {
            assert_eq!(output, Some("DP-1".to_owned()));
            assert_eq!(target, WorkspaceTarget::Next);
        }
        other => panic!("{other:?}"),
    }
    match (Command::Spawn { command: vec!["a".to_owned(), "b".to_owned()] }).to_request() {
        Request::Spawn { command } => assert_eq!(command, vec!["a", "b"]),
        other => panic!("{other:?}"),
    }
    match (Command::Subscribe { events: vec![EventKind::WindowClosed] }).to_request() {
        Request::Subscribe { events } => assert_eq!(events, vec![EventKind::WindowClosed]),
        other => panic!("{other:?}"),
    }
}

#[test]
fn long_texts_are_cut() {
    assert_eq!(truncate("short", 5), "short");
    assert_eq!(truncate("longer", 5), "long…");
    assert_eq!(truncate("äöüß", 3), "äö…");
    assert_eq!(truncate("ab", 1), "…");
    assert_eq!(truncate("ab", 0), "");
    assert_eq!(truncate("", 0), "");
}

#[test]
fn windows_are_called_by_what_they_have() {
    let mut w = window();
    assert_eq!(window_label(&w), "org.example.terminal — a shell");
    w.title = None;
    assert_eq!(window_label(&w), "org.example.terminal");
    w.app_id = None;
    assert_eq!(window_label(&w), "(untitled)");
    w.title = Some("t".to_owned());
    assert_eq!(window_label(&w), "t");
}

#[test]
fn changes_are_shown() {
    let w = window();
    assert_eq!(
        event_line(&Event::WindowOpened { window: w.clone() }),
        "opened   #7 org.example.terminal — a shell"
    );
    assert_eq!(event_line(&Event::WindowClosed { id: 12 }), "closed   #12");
    assert_eq!(event_line(&Event::WindowFocused { window: None }), "focused  (none)");
    let ws = |output: &str, index, active| WorkspaceInfo {
        output: output.to_owned(),
        index,
        active,
        window_count: 0,
    };
    let workspaces = vec![ws("DP-1", 0, true), ws("DP-1", 1, false), ws("DP-2", 3, true)];
    assert_eq!(
        event_line(&Event::WorkspacesChanged { workspaces }),
        "workspaces  active=[DP-1:0 DP-2:3]"
    );
    assert_eq!(
        event_line(&Event::WorkspacesChanged { workspaces: vec![] }),
        "workspaces  active=[]"
    );
}

#[test]
fn answers_are_shown_as_tables() {
    let none = vec![];
    assert_eq!(
        response_lines(
            &Response::Version(VersionInfo { name: "libreland".to_owned(), version: "1".to_owned() }),
            &none
        ),
        vec!["libreland 1"]
    );
    assert_eq!(response_lines(&Response::Handled, &none), Vec::<String>::new());
    assert_eq!(response_lines(&Response::Windows(vec![]), &none), vec!["no windows"]);
    assert_eq!(response_lines(&Response::Binds(vec![]), &none), vec!["no binds"]);
    assert_eq!(response_lines(&Response::Layers(vec![]), &none), vec!["no layer surfaces"]);
    assert_eq!(response_lines(&Response::Outputs(vec![]), &none), vec!["no outputs"]);
    assert_eq!(response_lines(&Response::FocusedWindow(None), &none), vec!["no focused window"]);
    assert_eq!(
        response_lines(&Response::Workspaces(vec![]), &none),
        vec!["no workspaces"]
    );
    let w = WorkspaceInfo { output: "DP-1".to_owned(), index: 2, active: true, window_count: 11 };
    let lines = response_lines(&Response::Workspaces(vec![w.clone()]), &none);
    assert_eq!(
        lines[0],
        format!("{:<10} {:>5}  {:<6} {:>7}", "OUTPUT", "INDEX", "ACTIVE", "WINDOWS")
    );
    assert_eq!(
        lines[1],
        format!("{:<10} {:>5}  {:<6} {:>7}", w.output, w.index, "*", w.window_count)
    );
    let l = LayerInfo {
        namespace: "bar".to_owned(),
        layer: "top".to_owned(),
        output: None,
        width: 1920,
        height: 30,
        keyboard: true,
        exclusive_zone: -1,
    };
    let lines = response_lines(&Response::Layers(vec![l]), &none);
    assert_eq!(
        lines[0],
        format!(
            "{:<22} {:<9} {:<8} {:>9}  {:<3} {:>8}",
            "NAMESPACE", "LAYER", "OUTPUT", "SIZE", "KBD", "EXCL"
        )
    );
    assert_eq!(
        lines[1],
        format!(
            "{:<22} {:<9} {:<8} {:>4}x{:<4} {:<3} {:>8}",
            "bar", "top", "-", 1920, 30, "yes", -1
        )
    );
    let lines = response_lines(&Response::FocusedWindow(Some(window())), &none);
    assert_eq!(
        lines[0],
        format!(
            "{:>4}  {:<16} {:<28} {:<9} {:<8} STATE",
            "ID", "APP_ID", "TITLE", "WORKSPACE", "OUTPUT"
        )
    );
    assert_eq!(
        lines[1],
        format!(
            "{:>4}  {:<16} {:<28} {:<9} {:<8} {}",
            7, "org.example.ter…", "a shell", 2, "DP-1", "floating focused"
        )
    );
    let mut w = window();
    w.floating = false;
    w.fullscreen = true;
    w.maximized = true;
    w.workspace = None;
    assert!(window_line(&w).ends_with("DP-1     tiled fullscreen maximized focused"));
    let b = BindInfo {
        mods: vec!["Super".to_owned(), "Shift".to_owned()],
        key: "E".to_owned(),
        action: "exit".to_owned(),
    };
    assert_eq!(
        response_lines(&Response::Binds(vec![b]), &none),
        vec![format!("{:<24} {}", "Super+Shift+E", "exit")]
    );
    let shot = Response::WindowCapture { path: "/tmp/a.png".to_owned(), width: 10, height: -2 };
    assert_eq!(response_lines(&shot, &none), vec!["/tmp/a.png (10x-2)"]);
}

#[test]
fn outputs_are_shown_with_their_mode() {
    let o = OutputInfo {
        name: "DP-1".to_owned(),
        make: Some("ACME".to_owned()),
        model: None,
        width: 2560,
        height: 1440,
        refresh_mhz: 59_940,
        scale: 150,
        x: -2560,
        y: 0,
        logical_width: 2048,
        logical_height: 1152,
        active_workspace: Some(1),
    };
    let lines = response_lines(&Response::Outputs(vec![o]), &vec!["1.25".to_owned()]);
    assert_eq!(
        lines,
        vec![
            "DP-1  (ACME)",
            "  mode:  2560x1440 @ 59.940 Hz   scale 1.25",
            "  pos:   -2560,0   logical 2048x1152",
            "  active workspace: 1",
        ]
    );
}
