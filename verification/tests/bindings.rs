use libreland::bindings::{
    apply_child_env, build_command, dispatch_action, focus_surface, handle_key, words, Effect,
    EnvVar, KeyStep,
};
use libreland::config::{Action, KeyBinding, ScreenshotBind, ScreenshotMode};
use libreland::desktop::{ClientFacts, Gaps, SlideTiming};
use libreland::geometry::{Point, Rect, Size};
use libreland::keyboard::{KeyResult, KEY_ESCAPE, KEY_KP_ENTER, KEY_RETURN, MOD_SHIFT, MOD_SUPER};
use libreland::layout::Layout;
use libreland::window::{Deco, FillMode, LayoutMode, WindowSurface};

/// Slides are switched off.
const STILL: SlideTiming = SlideTiming { now: 0, duration: None };

fn desktop() -> Layout {
    let mut l = Layout::new(
        vec![("DP-1".to_owned(), Rect::new(Point::new(0, 0), Size::new(1000, 600)))],
        Gaps { outer: 0, inner: 0 },
        Deco::none(),
        LayoutMode::Tiling,
    );
    l.insert(WindowSurface::Xdg(1), None);
    l
}

fn facts() -> ClientFacts {
    ClientFacts::Xdg {
        has_parent: false,
        declared_dialog: false,
        min: Size::new(0, 0),
        max: Size::new(0, 0),
        geometry: None,
    }
}

fn shot() -> ScreenshotBind {
    ScreenshotBind {
        mods: MOD_SUPER,
        keysym: 0x73,
        mode: ScreenshotMode::Region,
        freeze: true,
        show_cursor: false,
        clipboard: true,
        directory: None,
    }
}

fn key(keysym: u32, base: u32, mods: u32) -> KeyResult {
    KeyResult { keysym, base_keysym: base, mods }
}

#[test]
fn the_first_matching_binding_runs() {
    let binds = vec![
        KeyBinding { mods: MOD_SUPER, keysym: 0x32, action: Action::Close },
        KeyBinding { mods: MOD_SUPER | MOD_SHIFT, keysym: 0x32, action: Action::Exit },
        KeyBinding { mods: MOD_SUPER, keysym: 0x73, action: Action::ToggleFloating },
    ];
    let shots = vec![shot()];
    // Shift+2 gives another symbol, but it is the key of the digit.
    let k = key(0x40, 0x32, MOD_SUPER | MOD_SHIFT);
    assert!(matches!(
        handle_key(&k, true, false, false, &binds, &shots),
        KeyStep::Run(Action::Close)
    ));
    // Plain bindings come before screenshots.
    let s = key(0x73, 0x73, MOD_SUPER);
    assert!(matches!(
        handle_key(&s, true, false, false, &binds, &shots),
        KeyStep::Run(Action::ToggleFloating)
    ));
    let none = vec![];
    match handle_key(&s, true, false, false, &none, &shots) {
        KeyStep::Shoot(b) => assert_eq!(b.mode, ScreenshotMode::Region),
        other => panic!("{other:?}"),
    }
    assert!(matches!(handle_key(&s, false, false, false, &binds, &shots), KeyStep::Forward));
    assert!(matches!(handle_key(&s, true, false, true, &binds, &shots), KeyStep::Forward));
    let plain = key(0x73, 0x73, 0);
    assert!(matches!(handle_key(&plain, true, false, false, &binds, &shots), KeyStep::Forward));
}

#[test]
fn keys_belong_to_a_screenshot_while_one_is_taken() {
    let binds = vec![KeyBinding { mods: 0, keysym: KEY_ESCAPE, action: Action::Exit }];
    let shots = vec![];
    let go = |k: u32, pressed| handle_key(&key(k, k, 0), pressed, true, false, &binds, &shots);
    assert!(matches!(go(KEY_ESCAPE, true), KeyStep::ShotCancel));
    assert!(matches!(go(KEY_ESCAPE, false), KeyStep::Swallow));
    assert!(matches!(go(KEY_RETURN, true), KeyStep::ShotConfirm));
    assert!(matches!(go(KEY_KP_ENTER, true), KeyStep::ShotConfirm));
    assert!(matches!(go(0x61, true), KeyStep::Swallow));
}

#[test]
fn actions_change_the_focused_window() {
    let mut l = desktop();
    let f = facts();
    assert!(matches!(dispatch_action(&mut l, &Action::Exit, None, &f), Effect::Stop));
    assert!(matches!(
        dispatch_action(&mut l, &Action::ToggleFullscreen, Some(1), &f),
        Effect::Nothing
    ));
    assert_eq!(l.placements(None, &vec![None])[0].fill, FillMode::Fullscreen);
    dispatch_action(&mut l, &Action::ToggleFullscreen, Some(1), &f);
    dispatch_action(&mut l, &Action::ToggleFloating, Some(1), &f);
    assert!(l.placements(None, &vec![None])[0].floating);
    dispatch_action(&mut l, &Action::ToggleFloating, None, &f);
    assert!(l.placements(None, &vec![None])[0].floating);
    assert!(matches!(
        dispatch_action(&mut l, &Action::Close, Some(1), &f),
        Effect::Close(WindowSurface::Xdg(1))
    ));
    assert!(matches!(dispatch_action(&mut l, &Action::Close, Some(9), &f), Effect::Nothing));
    assert!(matches!(dispatch_action(&mut l, &Action::Close, None, &f), Effect::Nothing));
    match dispatch_action(&mut l, &Action::Spawn("foot -e  htop".to_owned()), None, &f) {
        Effect::Run(c) => assert_eq!(c, vec!["foot", "-e", "htop"]),
        other => panic!("{other:?}"),
    }
    assert!(matches!(
        dispatch_action(&mut l, &Action::Spawn("  ".to_owned()), None, &f),
        Effect::Nothing
    ));
    let a = Action::Screenshot(shot());
    assert!(matches!(dispatch_action(&mut l, &a, None, &f), Effect::Shoot(_)));
}

#[test]
fn command_lines_are_split_at_white_space() {
    assert_eq!(words(" a\tbc\u{3000}d \n"), vec!["a", "bc", "d"]);
    assert_eq!(build_command("foot"), Some(vec!["foot".to_owned()]));
    assert_eq!(build_command(""), None);
    assert_eq!(build_command(" \t"), None);
}

#[test]
fn focusing_a_window_shows_its_workspace() {
    let mut l = desktop();
    l.switch_workspace_to("DP-1", 1, STILL);
    l.insert(WindowSurface::Xdg(2), None);
    assert!(focus_surface(&mut l, 1, STILL));
    assert_eq!(l.active_workspace("DP-1"), Some(0));
    assert!(!focus_surface(&mut l, 9, STILL));
    assert_eq!(l.active_workspace("DP-1"), Some(0));
}

#[test]
fn programs_get_the_configured_environment() {
    let env = vec![EnvVar { name: "A".to_owned(), value: "1".to_owned() }];
    let with = apply_child_env(&env, Some(":1"));
    let names: Vec<_> = with.set.iter().map(|v| (v.name.as_str(), v.value.as_str())).collect();
    assert_eq!(names, vec![("A", "1"), ("DISPLAY", ":1")]);
    assert!(!with.remove_display);
    let without = apply_child_env(&env, None);
    assert_eq!(without.set.len(), 1);
    assert!(without.remove_display);
}
