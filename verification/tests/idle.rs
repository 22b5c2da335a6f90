use libreland::idle::{is_activity, screen_power, IdleConfig, IdlePlan, IdleState, InputKind};

const CONFIG: IdleConfig =
    IdleConfig { lock_after: Some(1000), has_lock_command: true, screen_off_after: Some(2000) };

#[test]
fn the_session_locks_once_and_then_goes_dark() {
    let mut s = IdleState::new(0);
    let nothing = IdlePlan { wake: false, lock: false, screen_off: false };
    assert_eq!(s.idle_tick(999, Some(CONFIG), false), nothing);
    assert_eq!(s.idle_tick(1000, Some(CONFIG), false), IdlePlan { lock: true, ..nothing });
    assert_eq!(s.idle_tick(1500, Some(CONFIG), false), nothing);
    s.on_session_locked();
    assert!(s.session_lock_active());
    assert_eq!(s.idle_tick(2000, Some(CONFIG), false), IdlePlan { screen_off: true, ..nothing });
    assert_eq!(s.idle_tick(3000, Some(CONFIG), false), nothing);
    assert!(s.note_input_activity(3500));
    assert!(!s.note_input_activity(3600));
    s.on_session_unlocked(4000);
    assert!(!s.session_lock_active());
    assert_eq!(s.idle_tick(4999, Some(CONFIG), false), nothing);
    assert!(s.idle_tick(5000, Some(CONFIG), false).lock);
}

#[test]
fn something_can_keep_it_awake() {
    let mut s = IdleState::new(0);
    s.idle_tick(5000, Some(CONFIG), false);
    assert!(s.screen_off);
    let plan = s.idle_tick(6000, Some(CONFIG), true);
    assert_eq!(plan, IdlePlan { wake: true, lock: false, screen_off: false });
    assert_eq!(s.last_input, 6000);
    let off = IdleConfig { lock_after: None, has_lock_command: true, screen_off_after: None };
    let plan = s.idle_tick(90_000, Some(off), false);
    assert_eq!(plan, IdlePlan { wake: false, lock: false, screen_off: false });
    let plan = s.idle_tick(90_000, None, true);
    assert_eq!(plan, IdlePlan { wake: false, lock: false, screen_off: false });
    assert_eq!((screen_power(true), screen_power(false)), (0, 3));
}

#[test]
fn every_input_shows_that_the_user_is_there() {
    assert!(is_activity(InputKind::Keyboard));
    assert!(is_activity(InputKind::PointerMotion));
    assert!(is_activity(InputKind::PointerButton));
    assert!(is_activity(InputKind::PointerAxis));
    assert!(is_activity(InputKind::Gesture));
    assert!(is_activity(InputKind::Other));
    assert!(!is_activity(InputKind::Device));
}
