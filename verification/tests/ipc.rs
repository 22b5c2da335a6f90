use libreland::ipc::{end_line, take_line, Event, EventKind, IpcState, WindowInfo, WorkspaceInfo};

fn window(id: u64, title: Option<&str>) -> WindowInfo {
    WindowInfo {
        id,
        app_id: Some("app".to_owned()),
        title: title.map(|t| t.to_owned()),
        output: None,
        workspace: None,
        x: 0,
        y: 0,
        width: 1,
        height: 1,
        floating: false,
        fullscreen: false,
        maximized: false,
        focused: false,
        pid: None,
    }
}

fn workspace(index: usize, active: bool) -> WorkspaceInfo {
    WorkspaceInfo { output: "DP-1".to_owned(), index, active, window_count: 0 }
}

fn shown(e: &Event) -> String {
    match e {
        Event::WindowOpened { window } => format!("opened {}", window.id),
        Event::WindowClosed { id } => format!("closed {id}"),
        Event::WindowFocused { window } => format!("focused {:?}", window.as_ref().map(|w| w.id)),
        Event::WorkspacesChanged { workspaces } => format!("workspaces {}", workspaces.len()),
    }
}

#[test]
fn windows_keep_their_numbers() {
    let mut s = IpcState::new();
    assert_eq!(s.assign(100), 1);
    assert_eq!(s.assign(200), 2);
    assert_eq!(s.assign(100), 1);
    assert_eq!(s.surface_of(1), Some(100));
    assert_eq!(s.surface_of(3), None);
    s.forget(100);
    assert_eq!(s.surface_of(1), None);
    s.forget(999);
    // A number is never given to another window.
    assert_eq!(s.assign(300), 3);
    assert_eq!(s.assign(100), 4);
}

#[test]
fn subscribers_hear_what_they_asked_for() {
    let mut s = IpcState::new();
    assert!(!s.has_subscribers());
    assert_eq!(s.add_subscriber(vec![]), (1, true));
    assert_eq!(s.add_subscriber(vec![EventKind::WindowClosed]), (2, false));
    let closed = Event::WindowClosed { id: 5 };
    let focused = Event::WindowFocused { window: None };
    assert_eq!(closed.kind(), EventKind::WindowClosed);
    assert_eq!(s.recipients(&closed), vec![1, 2]);
    assert_eq!(s.recipients(&focused), vec![1]);
    s.remove_subscriber(1);
    assert_eq!(s.recipients(&focused), Vec::<u64>::new());
    assert!(s.has_subscribers());
    s.remove_subscriber(2);
    assert!(!s.has_subscribers());
    assert_eq!(s.add_subscriber(vec![]), (3, true));
}

#[test]
fn only_changes_are_told() {
    let mut s = IpcState::new();
    s.set_baseline(
        &vec![window(1, None), window(2, None)],
        &vec![workspace(0, true)],
        &Some(window(1, Some("a"))),
    );
    let es = s.emit_changes(
        vec![window(1, None), window(2, None)],
        vec![workspace(0, true)],
        Some(window(1, Some("a"))),
    );
    assert!(es.is_empty());
    let es = s.emit_changes(
        vec![window(3, None), window(2, None), window(4, None)],
        vec![workspace(0, true), workspace(1, false)],
        Some(window(1, Some("b"))),
    );
    let got: Vec<String> = es.iter().map(shown).collect();
    assert_eq!(
        got,
        vec!["opened 3", "opened 4", "closed 1", "focused Some(1)", "workspaces 2"]
    );
    let es = s.emit_changes(
        vec![window(3, None), window(2, None), window(4, None)],
        vec![workspace(0, false), workspace(1, true)],
        None,
    );
    let got: Vec<String> = es.iter().map(shown).collect();
    assert_eq!(got, vec!["focused None", "workspaces 2"]);
}

#[test]
fn messages_are_lines() {
    let mut stream = Vec::new();
    for m in ["one", "", "three"] {
        let mut bytes = m.as_bytes().to_vec();
        end_line(&mut bytes);
        stream.extend(bytes);
    }
    stream.extend(b"rest");
    assert_eq!(take_line(&mut stream), Some(b"one".to_vec()));
    assert_eq!(take_line(&mut stream), Some(vec![]));
    assert_eq!(take_line(&mut stream), Some(b"three".to_vec()));
    assert_eq!(take_line(&mut stream), None);
    assert_eq!(stream, b"rest".to_vec());
}
