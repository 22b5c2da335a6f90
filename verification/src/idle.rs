//! What happens when nobody touches the machine, and the session lock.

use vstd::prelude::*;

verus! {

/// After how many milliseconds without input what happens.
#[derive(Debug, Clone, Copy, PartialEq, Eq, Structural)]
pub struct IdleConfig {
    pub lock_after: Option<u64>,
    /// Whether there is a command to lock with.
    pub has_lock_command: bool,
    pub screen_off_after: Option<u64>,
}

/// What a look at the clock leads to.
#[derive(Debug, Clone, Copy, PartialEq, Eq, Structural)]
pub struct IdlePlan {
    /// Wake the screens.
    pub wake: bool,
    /// Run the lock command.
    pub lock: bool,
    /// Turn the screens off.
    pub screen_off: bool,
}

/// The idle clock and the session lock.
#[derive(Debug, Clone, Copy, PartialEq, Eq, Structural)]
pub struct IdleState {
    /// When the last input came, in milliseconds.
    pub last_input: u64,
    pub screen_off: bool,
    /// Whether the lock command was run in this idle period.
    pub lock_spawned: bool,
    pub session_locked: bool,
}

/// Whether a time that may not be set has passed.
pub open spec fn passed(after: Option<u64>, idle_for: int) -> bool {
    match after {
        None => false,
        Some(t) => idle_for >= t,
    }
}

impl IdleState {
    /// A session that starts now.
    pub fn new(now: u64) -> (r: IdleState)
        ensures
            r == (IdleState {
                last_input: now,
                screen_off: false,
                lock_spawned: false,
                session_locked: false,
            }),
    {
        IdleState { last_input: now, screen_off: false, lock_spawned: false, session_locked: false }
    }

    /// How long there has been no input.
    pub open spec fn idle_for(self, now: u64) -> int {
        if now >= self.last_input {
            now - self.last_input
        } else {
            0
        }
    }

    /// Takes note of input; says whether the screens have to be woken.
    pub fn note_input_activity(&mut self, now: u64) -> (r: bool)
        ensures
            r == old(self).screen_off,
            *final(self) == (IdleState { last_input: now, screen_off: false, ..*old(self) }),
    {
        let wake = self.screen_off;
        self.last_input = now;
        self.screen_off = false;
        wake
    }

    /// The state after a look at the clock, and what has to be done.
    pub open spec fn ticked(self, now: u64, config: Option<IdleConfig>, inhibited: bool) -> (
        IdleState,
        IdlePlan,
    ) {
        match config {
            None => (self, IdlePlan { wake: false, lock: false, screen_off: false }),
            Some(c) => if inhibited {
                (
                    IdleState { last_input: now, screen_off: false, ..self },
                    IdlePlan { wake: self.screen_off, lock: false, screen_off: false },
                )
            } else {
                let idle = self.idle_for(now);
                let lock = passed(c.lock_after, idle) && !self.lock_spawned
                    && !self.session_locked && c.has_lock_command;
                let off = passed(c.screen_off_after, idle) && !self.screen_off;
                (
                    IdleState {
                        lock_spawned: self.lock_spawned || lock,
                        screen_off: self.screen_off || off,
                        ..self
                    },
                    IdlePlan { wake: false, lock, screen_off: off },
                )
            },
        }
    }

    /// Looks at the clock. Something that keeps the session awake counts as
    /// input. The lock command runs once in an idle period and not while the
    /// session is locked; the screens go off once.
    pub fn idle_tick(&mut self, now: u64, config: Option<IdleConfig>, inhibited: bool) -> (r:
        IdlePlan)
        ensures
            (*final(self), r) == old(self).ticked(now, config, inhibited),
    {
        let c = match config {
            None => {
                return IdlePlan { wake: false, lock: false, screen_off: false };
            },
            Some(c) => c,
        };
        if inhibited {
            let wake = self.note_input_activity(now);
            return IdlePlan { wake, lock: false, screen_off: false };
        }
        let idle: u64 = if now >= self.last_input {
            now - self.last_input
        } else {
            0
        };
        let lock_due = match c.lock_after {
            None => false,
            Some(t) => idle >= t,
        };
        let off_due = match c.screen_off_after {
            None => false,
            Some(t) => idle >= t,
        };
        let lock = lock_due && !self.lock_spawned && !self.session_locked && c.has_lock_command;
        let screen_off = off_due && !self.screen_off;
        if lock {
            self.lock_spawned = true;
        }
        if screen_off {
            self.screen_off = true;
        }
        IdlePlan { wake: false, lock, screen_off }
    }

    /// Whether the session is locked.
    pub fn session_lock_active(&self) -> (r: bool)
        ensures
            r == self.session_locked,
    {
        self.session_locked
    }

    /// The session is locked.
    pub fn on_session_locked(&mut self)
        ensures
            *final(self) == (IdleState { session_locked: true, ..*old(self) }),
    {
        self.session_locked = true;
    }

    /// The session is unlocked; the idle period starts over.
    pub fn on_session_unlocked(&mut self, now: u64)
        ensures
            *final(self) == (IdleState {
                session_locked: false,
                lock_spawned: false,
                last_input: now,
                ..*old(self)
            }),
    {
        self.session_locked = false;
        self.lock_spawned = false;
        self.last_input = now;
    }
}

/// What comes from the input devices.
#[derive(Debug, Clone, Copy, PartialEq, Eq, Structural)]
pub enum InputKind {
    Keyboard,
    PointerMotion,
    PointerButton,
    PointerAxis,
    Gesture,
    /// A device was plugged in or out.
    Device,
    /// Touch screens, tablets and the like.
    Other,
}

/// Whether an event shows that the user is there: every input does, the coming
/// and going of devices does not.
pub fn is_activity(kind: InputKind) -> (r: bool)
    ensures
        r == (kind != InputKind::Device),
{
    match kind {
        InputKind::Device => false,
        _ => true,
    }
}

/// The lock command runs once: once it has run, or while the session is
/// locked, no look at the clock runs it again.
pub proof fn the_lock_command_runs_once(
    s: IdleState,
    now: u64,
    config: Option<IdleConfig>,
    inhibited: bool,
)
    ensures
        s.ticked(now, config, inhibited).1.lock ==> s.ticked(now, config, inhibited).0.lock_spawned,
        s.lock_spawned || s.session_locked ==> !s.ticked(now, config, inhibited).1.lock,
        s.lock_spawned ==> s.ticked(now, config, inhibited).0.lock_spawned,
{
}

/// Nothing is locked or switched off while something keeps the session awake,
/// or before the time set for it has passed.
pub proof fn nothing_happens_before_its_time(
    s: IdleState,
    now: u64,
    config: IdleConfig,
    inhibited: bool,
)
    ensures
        ({
            let plan = s.ticked(now, Some(config), inhibited).1;
            &&& plan.lock ==> !inhibited && config.lock_after.is_some() && s.idle_for(now)
                >= config.lock_after.unwrap()
            &&& plan.screen_off ==> !inhibited && config.screen_off_after.is_some() && s.idle_for(
                now,
            ) >= config.screen_off_after.unwrap()
        }),
{
}

/// The value of the power property of a display: fully on, or off.
pub fn screen_power(on: bool) -> (r: u64)
    ensures
        r == (if on {
            0u64
        } else {
            3u64
        }),
{
    if on {
        0
    } else {
        3
    }
}

/// What is due happens: once nobody has touched the machine for the time set and
/// nothing keeps it awake, the lock command runs, if there is one and it has not
/// run and the session is not locked, and the screens go off, if they are on.
/// The two do not wait for each other.
pub proof fn what_is_due_happens(s: IdleState, now: u64, config: IdleConfig, t: u64)
    ensures
        ({
            let (after, plan) = s.ticked(now, Some(config), false);
            &&& config.lock_after == Some(t) && now >= s.last_input + t && config.has_lock_command
                && !s.lock_spawned && !s.session_locked ==> plan.lock && after.lock_spawned
            &&& config.screen_off_after == Some(t) && now >= s.last_input + t && !s.screen_off
                ==> plan.screen_off && after.screen_off
            &&& config.lock_after == Some(t) && now < s.last_input + t && t > 0 ==> !plan.lock
            &&& config.screen_off_after == Some(t) && now < s.last_input + t && t > 0
                ==> !plan.screen_off
            &&& !config.has_lock_command ==> !plan.lock
            &&& config.lock_after.is_none() ==> !plan.lock
            &&& config.screen_off_after.is_none() ==> !plan.screen_off
            &&& !plan.wake
            &&& after.last_input == s.last_input
            &&& after.session_locked == s.session_locked
            &&& s.screen_off ==> after.screen_off && !plan.screen_off
        }),
{
}

/// What keeps the session awake counts as input: screens that were off wake up,
/// and the time counts from then on.
pub proof fn a_session_kept_awake_wakes_up(s: IdleState, now: u64, config: IdleConfig)
    ensures
        ({
            let (after, plan) = s.ticked(now, Some(config), true);
            &&& plan.wake == s.screen_off
            &&& !plan.lock
            &&& !plan.screen_off
            &&& !after.screen_off
            &&& after.last_input == now
            &&& after.session_locked == s.session_locked
        }),
{
}

/// Without settings nothing ever happens.
pub proof fn nothing_happens_without_settings(s: IdleState, now: u64, inhibited: bool)
    ensures
        s.ticked(now, None, inhibited).0 == s,
        !s.ticked(now, None, inhibited).1.wake,
        !s.ticked(now, None, inhibited).1.lock,
        !s.ticked(now, None, inhibited).1.screen_off,
{
}

} // verus!
