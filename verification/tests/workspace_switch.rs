use libreland::desktop::{slide_action, SlideAction};

/// A slide `steps` from its origin, still young enough to redirect.
fn act(steps: i32, delta: i32) -> SlideAction {
    slide_action(Some((steps, true)), delta)
}

/// Quick scroll notches re-aim the slide that is already running, which keeps
/// its origin and its clock: one continuous motion.
#[test]
fn a_flick_in_one_direction_keeps_re_aiming_the_same_slide() {
    assert_eq!(act(1, 1), SlideAction::Aim(2));
    assert_eq!(act(2, 1), SlideAction::Aim(3));
    // And the same going the other way.
    assert_eq!(act(-1, -1), SlideAction::Aim(-2));
    assert_eq!(act(-2, -1), SlideAction::Aim(-3));
}

/// A bigger jump than one notch re-aims just the same, as long as it keeps
/// going.
#[test]
fn a_larger_jump_the_same_way_also_re_aims() {
    assert_eq!(act(1, 4), SlideAction::Aim(5));
    assert_eq!(act(-1, -4), SlideAction::Aim(-5));
}

/// Back on the workspace the slide started from, no slide is left.
#[test]
fn returning_to_the_origin_drops_the_slide_rather_than_restarting() {
    assert_eq!(act(1, -1), SlideAction::Drop);
    assert_eq!(act(-1, 1), SlideAction::Drop);
    assert_eq!(act(3, -3), SlideAction::Drop);
}

/// A reversal past the origin cannot use the picture of the slide.
#[test]
fn reversing_past_the_origin_starts_over() {
    assert_eq!(act(1, -2), SlideAction::Fresh);
    assert_eq!(act(2, -5), SlideAction::Fresh);
    assert_eq!(act(-1, 2), SlideAction::Fresh);
}

/// With no slide running there is nothing to redirect.
#[test]
fn a_switch_from_rest_starts_a_slide() {
    assert_eq!(slide_action(None, 1), SlideAction::Fresh);
    assert_eq!(slide_action(None, -3), SlideAction::Fresh);
}

/// A slide too far along is replaced, not redirected.
#[test]
fn a_switch_arriving_late_replaces_the_slide() {
    let old = Some((1, false));
    assert_eq!(slide_action(old, 1), SlideAction::Fresh);
    // Even where it would otherwise be dropped or reversed.
    assert_eq!(slide_action(old, -1), SlideAction::Fresh);
    assert_eq!(slide_action(old, -5), SlideAction::Fresh);
}

/// A slide is never aimed at its own origin: that cannot be drawn.
#[test]
fn no_decision_ever_yields_a_zero_aim() {
    for steps in -5..=5 {
        for delta in -5..=5 {
            if steps == 0 || delta == 0 {
                continue; // neither is reachable: no slide, or no switch
            }
            for fresh_enough in [true, false] {
                if let SlideAction::Aim(aimed) = slide_action(Some((steps, fresh_enough)), delta) {
                    assert_ne!(aimed, 0, "steps={steps} delta={delta}");
                }
            }
        }
    }
}
