//! The configuration, its defaults, and what changes when it is read again.
//!
//! Fractions are held as whole numbers: colours in hundredths, scales in 120ths
//! as clients are told them, pointer speed in thousandths.

use vstd::prelude::*;
use vstd::string::*;

use crate::drm::RequestedMode;
use crate::keyboard::Keysym;
use crate::text::{same, texts};

verus! {

/// How pointer motion follows the device.
#[derive(Debug, Clone, Copy, PartialEq, Eq, Structural)]
pub enum AccelProfile {
    /// One to one.
    Flat,
    /// Faster when moved faster.
    Adaptive,
}

/// What moves keyboard focus.
#[derive(Debug, Clone, Copy, PartialEq, Eq, Structural)]
pub enum FocusModel {
    Hover,
    Click,
}

/// What a screenshot is of.
#[derive(Debug, Clone, Copy, PartialEq, Eq, Structural)]
pub enum ScreenshotMode {
    Region,
    Window,
    Output,
}

/// A key that takes a screenshot, and how.
#[derive(Debug, Clone)]
pub struct ScreenshotBind {
    pub mods: u32,
    pub keysym: Keysym,
    pub mode: ScreenshotMode,
    /// Whether the picture stands still while the selection is made.
    pub freeze: bool,
    pub show_cursor: bool,
    pub clipboard: bool,
    pub directory: Option<String>,
}

impl ScreenshotBind {
    /// Another of the same.
    pub fn copy(&self) -> (r: ScreenshotBind)
        ensures
            r == *self,
    {
        ScreenshotBind {
            mods: self.mods,
            keysym: self.keysym,
            mode: self.mode,
            freeze: self.freeze,
            show_cursor: self.show_cursor,
            clipboard: self.clipboard,
            directory: match &self.directory {
                None => None,
                Some(d) => Some(d.clone()),
            },
        }
    }
}

/// What a key does.
#[derive(Debug, Clone)]
pub enum Action {
    /// End the session.
    Exit,
    ToggleFloating,
    ToggleFullscreen,
    /// Ask the focused window to close.
    Close,
    /// Run a command line.
    Spawn(String),
    Screenshot(ScreenshotBind),
}

/// A key and what it does.
#[derive(Debug, Clone)]
pub struct KeyBinding {
    /// The modifiers that have to be held; others may be held as well.
    pub mods: u32,
    pub keysym: Keysym,
    pub action: Action,
}

/// The key bindings in order; the first that matches is the one.
#[derive(Debug, Clone)]
pub struct BindsConfig {
    pub bindings: Vec<KeyBinding>,
}

/// The settings of one output.
#[derive(Debug, Clone, Copy, PartialEq, Eq, Structural)]
pub struct OutputConfig {
    /// The mode to force; else what the display prefers.
    pub mode: Option<RequestedMode>,
    pub x: i32,
    pub y: i32,
    /// In 120ths.
    pub scale: u32,
    pub hdr: bool,
    /// How bright the white of plain content is, in candela per square metre;
    /// else the usual.
    pub sdr_reference_white: Option<u32>,
}

impl Default for OutputConfig {
    fn default() -> (r: OutputConfig)
        ensures
            r == (OutputConfig {
                mode: None,
                x: 0,
                y: 0,
                scale: 120,
                hdr: false,
                sdr_reference_white: None,
            }),
    {
        OutputConfig { mode: None, x: 0, y: 0, scale: 120, hdr: false, sdr_reference_white: None }
    }
}

/// The settings of the output of a name.
#[derive(Debug, Clone)]
pub struct NamedOutput {
    pub name: String,
    pub settings: OutputConfig,
}

/// The settings of the outputs.
#[derive(Debug, Clone)]
pub struct MonitorsConfig {
    pub outputs: Vec<NamedOutput>,
    /// The output that counts as the first; else the first one connected.
    pub primary: Option<String>,
}

/// The settings of the output of a name, from position `from` on.
pub open spec fn settings_from(
    outputs: Seq<NamedOutput>,
    name: Seq<char>,
    from: int,
) -> Option<OutputConfig>
    decreases outputs.len() - from,
{
    if from < 0 || from >= outputs.len() {
        None
    } else if outputs[from].name@ == name {
        Some(outputs[from].settings)
    } else {
        settings_from(outputs, name, from + 1)
    }
}

/// A name that may be missing, as it reads.
pub open spec fn opt_view(n: Option<String>) -> Option<Seq<char>> {
    match n {
        None => None,
        Some(n) => Some(n@),
    }
}

impl MonitorsConfig {
    /// The settings of an output.
    pub open spec fn settings(self, name: Seq<char>) -> Option<OutputConfig> {
        settings_from(self.outputs@, name, 0)
    }

    /// Whether two configurations mean the same: the same settings for every
    /// name, and the same primary output.
    pub open spec fn same_as(self, other: MonitorsConfig) -> bool {
        &&& forall|name: Seq<char>| #[trigger] self.settings(name) == other.settings(name)
        &&& opt_view(self.primary) == opt_view(other.primary)
    }

    /// The settings of an output.
    pub fn get(&self, name: &str) -> (r: Option<OutputConfig>)
        ensures
            r == self.settings(name@),
    {
        let mut i: usize = 0;
        while i < self.outputs.len()
            invariant
                i <= self.outputs@.len(),
                settings_from(self.outputs@, name@, 0) == settings_from(
                    self.outputs@,
                    name@,
                    i as int,
                ),
            decreases self.outputs@.len() - i,
        {
            if same(self.outputs[i].name.as_str(), name) {
                return Some(self.outputs[i].settings);
            }
            i += 1;
        }
        None
    }

    fn covers(&self, other: &MonitorsConfig) -> (r: bool)
        ensures
            r == forall|k: int|
                0 <= k < self.outputs@.len() ==> self.settings(
                    (#[trigger] self.outputs@[k]).name@,
                ) == other.settings(self.outputs@[k].name@),
    {
        let mut i: usize = 0;
        while i < self.outputs.len()
            invariant
                i <= self.outputs@.len(),
                forall|k: int|
                    0 <= k < i ==> self.settings((#[trigger] self.outputs@[k]).name@)
                        == other.settings(self.outputs@[k].name@),
            decreases self.outputs@.len() - i,
        {
            let name = self.outputs[i].name.as_str();
            if self.get(name) != other.get(name) {
                assert(self.settings(self.outputs@[i as int].name@) != other.settings(
                    self.outputs@[i as int].name@,
                ));
                return false;
            }
            i += 1;
        }
        true
    }

    /// Whether two configurations mean the same.
    pub fn equals(&self, other: &MonitorsConfig) -> (r: bool)
        ensures
            r == self.same_as(*other),
    {
        let primary = match (&self.primary, &other.primary) {
            (None, None) => true,
            (Some(a), Some(b)) => same(a.as_str(), b.as_str()),
            _ => false,
        };
        let r = self.covers(other) && other.covers(self) && primary;
        proof {
            if r {
                assert forall|name: Seq<char>| #[trigger]
                    self.settings(name) == other.settings(name) by {
                    settings_come_from_an_entry(*self, name);
                    settings_come_from_an_entry(*other, name);
                }
            }
        }
        r
    }
}

proof fn settings_come_from(outputs: Seq<NamedOutput>, name: Seq<char>, from: int)
    requires
        0 <= from,
    ensures
        settings_from(outputs, name, from).is_some() ==> exists|k: int|
            from <= k < outputs.len() && (#[trigger] outputs[k]).name@ == name,
    decreases outputs.len() - from,
{
    if from < outputs.len() {
        if outputs[from].name@ != name {
            settings_come_from(outputs, name, from + 1);
        }
    }
}

proof fn settings_come_from_an_entry(m: MonitorsConfig, name: Seq<char>)
    ensures
        m.settings(name).is_some() ==> exists|k: int|
            0 <= k < m.outputs@.len() && (#[trigger] m.outputs@[k]).name@ == name,
{
    settings_come_from(m.outputs@, name, 0);
}

/// The settings of keyboard and pointer.
#[derive(Debug, Clone)]
pub struct InputConfig {
    /// Repeats per second.
    pub repeat_rate: u32,
    /// Milliseconds before a key repeats.
    pub repeat_delay: u32,
    /// Empty for the system's layout.
    pub keyboard_layout: String,
    pub mouse_accel_profile: AccelProfile,
    /// In thousandths, from -1000 to 1000.
    pub mouse_accel_speed: i32,
    pub focus_model: FocusModel,
    pub numlock: bool,
}

/// A colour in hundredths.
#[derive(Debug, Clone, Copy, PartialEq, Eq, Structural)]
pub struct Colour {
    pub r: u8,
    pub g: u8,
    pub b: u8,
}

/// A background without a picture.
#[derive(Debug, Clone, Copy, PartialEq, Eq, Structural)]
pub enum Fill {
    Solid(Colour),
    VerticalGradient { top: Colour, bottom: Colour },
}

/// A background.
#[derive(Debug, Clone)]
pub enum Wallpaper {
    Fill(Fill),
    /// A picture or a video.
    Media { path: String },
}

/// The remaining settings.
#[derive(Debug, Clone)]
pub struct MiscConfig {
    pub wallpaper: Wallpaper,
}

/// All settings.
#[derive(Debug, Clone)]
pub struct Config {
    pub monitors: MonitorsConfig,
    pub input: InputConfig,
    pub binds: BindsConfig,
    pub misc: MiscConfig,
    pub xwayland: bool,
}

/// The symbol of the capital letter E.
pub const KEY_E: Keysym = 0x45;

impl Default for Config {
    fn default() -> (r: Config)
        ensures
            r.monitors.outputs@.len() == 0,
            r.monitors.primary is None,
            r.input.repeat_rate == 25,
            r.input.repeat_delay == 600,
            r.input.keyboard_layout@ == Seq::<char>::empty(),
            r.input.mouse_accel_profile == AccelProfile::Flat,
            r.input.mouse_accel_speed == 0,
            r.input.focus_model == FocusModel::Hover,
            !r.input.numlock,
            r.binds.bindings@.len() == 1,
            r.binds.bindings@[0].mods == crate::keyboard::MOD_SHIFT + crate::keyboard::MOD_SUPER,
            r.binds.bindings@[0].keysym == KEY_E,
            r.binds.bindings@[0].action is Exit,
            r.misc.wallpaper == Wallpaper::Fill(
                Fill::VerticalGradient {
                    top: Colour { r: 40, g: 60, b: 90 },
                    bottom: Colour { r: 10, g: 20, b: 50 },
                },
            ),
            !r.xwayland,
    {
        let mut bindings: Vec<KeyBinding> = Vec::new();
        bindings.push(
            KeyBinding {
                mods: crate::keyboard::MOD_SHIFT + crate::keyboard::MOD_SUPER,
                keysym: KEY_E,
                action: Action::Exit,
            },
        );
        Config {
            monitors: MonitorsConfig { outputs: Vec::new(), primary: None },
            input: InputConfig {
                repeat_rate: 25,
                repeat_delay: 600,
                keyboard_layout: String::new(),
                mouse_accel_profile: AccelProfile::Flat,
                mouse_accel_speed: 0,
                focus_model: FocusModel::Hover,
                numlock: false,
            },
            binds: BindsConfig { bindings },
            misc: MiscConfig {
                wallpaper: Wallpaper::Fill(
                    Fill::VerticalGradient {
                        top: Colour { r: 40, g: 60, b: 90 },
                        bottom: Colour { r: 10, g: 20, b: 50 },
                    },
                ),
            },
            xwayland: false,
        }
    }
}

/// The background where a picture cannot be shown.
pub fn wallpaper_fallback() -> (r: Fill)
    ensures
        r == Fill::Solid(Colour { r: 8, g: 8, b: 10 }),
{
    Fill::Solid(Colour { r: 8, g: 8, b: 10 })
}

/// What is put up as the background.
#[derive(Debug, Clone, Copy, PartialEq, Eq, Structural)]
pub struct Backdrop {
    pub fill: Fill,
    /// Whether no picture is shown, so that an old one comes off the screen.
    pub drop: bool,
}

/// What a background leads to.
#[derive(Debug, Clone, Copy, PartialEq, Eq, Structural)]
pub enum WallpaperStep {
    /// Put this up.
    Show(Backdrop),
    /// Decode the picture, no side longer than this.
    Decode { cap: u32 },
}

/// The longest side of the first `n` outputs.
pub open spec fn longest_side(sizes: Seq<(i32, i32)>, n: int) -> int
    decreases n,
{
    if n <= 1 {
        if n == 1 {
            crate::geometry::larger(sizes[0].0 as int, sizes[0].1 as int)
        } else {
            3840
        }
    } else {
        crate::geometry::larger(
            longest_side(sizes, n - 1),
            crate::geometry::larger(sizes[n - 1].0 as int, sizes[n - 1].1 as int),
        )
    }
}

/// How a background is put up on outputs of the given sizes: a fill at once; a
/// picture is decoded no larger than the longest side of any output, or 3840
/// where there is none.
pub fn apply_wallpaper(wallpaper: &Wallpaper, sizes: &Vec<(i32, i32)>) -> (r: WallpaperStep)
    ensures
        r == (match *wallpaper {
            Wallpaper::Fill(fill) => WallpaperStep::Show(Backdrop { fill, drop: true }),
            Wallpaper::Media { path: _ } => WallpaperStep::Decode {
                cap: crate::geometry::larger(longest_side(sizes@, sizes@.len() as int), 1) as u32,
            },
        }),
{
    match wallpaper {
        Wallpaper::Fill(f) => WallpaperStep::Show(Backdrop { fill: *f, drop: true }),
        Wallpaper::Media { path: _ } => {
            let mut cap: i32 = 3840;
            let mut i: usize = 0;
            while i < sizes.len()
                invariant
                    i <= sizes@.len(),
                    cap == longest_side(sizes@, i as int),
                decreases sizes@.len() - i,
            {
                let side: i32 = crate::geometry::max32(sizes[i].0, sizes[i].1);
                if i == 0 || side > cap {
                    cap = side;
                }
                i += 1;
            }
            WallpaperStep::Decode { cap: crate::geometry::max32(cap, 1) as u32 }
        },
    }
}

/// What is put up once a picture was tried: behind one that is shown black,
/// since rounded corners cannot sample it; else the fallback, and neither this
/// picture nor an old one.
pub fn media_step(decoded: bool, shown: bool) -> (r: Backdrop)
    ensures
        r == (if decoded && shown {
            Backdrop { fill: Fill::Solid(Colour { r: 0, g: 0, b: 0 }), drop: false }
        } else {
            Backdrop { fill: Fill::Solid(Colour { r: 8, g: 8, b: 10 }), drop: true }
        }),
{
    if decoded && shown {
        Backdrop { fill: Fill::Solid(Colour { r: 0, g: 0, b: 0 }), drop: false }
    } else {
        Backdrop { fill: wallpaper_fallback(), drop: true }
    }
}

/// What a configuration that was read again changes.
#[derive(Debug)]
pub struct ReloadPlan {
    /// The new key repeat, as rate and delay that clients can be told.
    pub repeat: Option<(i32, i32)>,
    pub keyboard_layout: bool,
    pub accel: bool,
    /// The new state of the number lock.
    pub numlock: Option<bool>,
    pub monitors: bool,
    /// The outputs that have to be set up anew.
    pub rebuild: Vec<String>,
    /// The new state of the X server.
    pub xwayland: Option<bool>,
}

/// The mode an output is forced to.
pub open spec fn forced_mode(c: Option<OutputConfig>) -> Option<RequestedMode> {
    match c {
        None => None,
        Some(c) => c.mode,
    }
}

/// Whether an output shows high dynamic range.
pub open spec fn wants_hdr(c: Option<OutputConfig>) -> bool {
    match c {
        None => false,
        Some(c) => c.hdr,
    }
}

/// Whether an output has to be set up anew: its forced mode or its dynamic
/// range differs.
pub open spec fn must_rebuild(old_m: MonitorsConfig, new_m: MonitorsConfig, name: Seq<char>) -> bool {
    forced_mode(old_m.settings(name)) != forced_mode(new_m.settings(name)) || wants_hdr(
        old_m.settings(name),
    ) != wants_hdr(new_m.settings(name))
}

/// The outputs among the first `n` that have to be set up anew.
pub open spec fn rebuilds(
    old_m: MonitorsConfig,
    new_m: MonitorsConfig,
    names: Seq<Seq<char>>,
    n: int,
) -> Seq<Seq<char>>
    decreases n,
{
    if n <= 0 {
        Seq::empty()
    } else if must_rebuild(old_m, new_m, names[n - 1]) {
        rebuilds(old_m, new_m, names, n - 1).push(names[n - 1])
    } else {
        rebuilds(old_m, new_m, names, n - 1)
    }
}

/// A count as clients are told it.
pub open spec fn told(v: u32) -> i32 {
    if v > i32::MAX {
        i32::MAX
    } else {
        v as i32
    }
}

fn tell(v: u32) -> (r: i32)
    ensures
        r == told(v),
{
    if v > 0x7fff_ffff {
        0x7fff_ffff
    } else {
        v as i32
    }
}

fn needs_rebuild(old_m: &MonitorsConfig, new_m: &MonitorsConfig, name: &str) -> (r: bool)
    ensures
        r == must_rebuild(*old_m, *new_m, name@),
{
    let (a_mode, a_hdr) = match old_m.get(name) {
        None => (None, false),
        Some(c) => (c.mode, c.hdr),
    };
    let (b_mode, b_hdr) = match new_m.get(name) {
        None => (None, false),
        Some(c) => (c.mode, c.hdr),
    };
    let same_mode = match (a_mode, b_mode) {
        (None, None) => true,
        (Some(a), Some(b)) => a == b,
        _ => false,
    };
    !same_mode || a_hdr != b_hdr
}

/// What changes when `new_config` replaces the running configuration while the
/// given outputs are driven.
pub fn reload_config(running: &Config, new_config: &Config, outputs: &Vec<String>) -> (r:
    ReloadPlan)
    ensures
        ({
            let (a, b) = (running.input, new_config.input);
            let moved = !new_config.monitors.same_as(running.monitors);
            &&& r.repeat == (if a.repeat_rate != b.repeat_rate || a.repeat_delay
                != b.repeat_delay {
                Some((told(b.repeat_rate), told(b.repeat_delay)))
            } else {
                None
            })
            &&& r.keyboard_layout == (a.keyboard_layout@ != b.keyboard_layout@)
            &&& r.accel == (a.mouse_accel_profile != b.mouse_accel_profile || a.mouse_accel_speed
                != b.mouse_accel_speed)
            &&& r.numlock == (if a.numlock != b.numlock {
                Some(b.numlock)
            } else {
                None
            })
            &&& r.monitors == moved
            &&& texts(r.rebuild@) == (if moved {
                rebuilds(
                    running.monitors,
                    new_config.monitors,
                    texts(outputs@),
                    outputs@.len() as int,
                )
            } else {
                Seq::empty()
            })
            &&& r.xwayland == (if running.xwayland != new_config.xwayland {
                Some(new_config.xwayland)
            } else {
                None
            })
        }),
{
    let (a, b) = (&running.input, &new_config.input);
    let moved = !new_config.monitors.equals(&running.monitors);
    let mut rebuild: Vec<String> = Vec::new();
    assert(texts(rebuild@) =~= Seq::<Seq<char>>::empty());
    if moved {
        let mut i: usize = 0;
        while i < outputs.len()
            invariant
                i <= outputs@.len(),
                texts(rebuild@) =~= rebuilds(
                    running.monitors,
                    new_config.monitors,
                    texts(outputs@),
                    i as int,
                ),
            decreases outputs@.len() - i,
        {
            if needs_rebuild(&running.monitors, &new_config.monitors, outputs[i].as_str()) {
                let ghost was = texts(rebuild@);
                rebuild.push(outputs[i].clone());
                assert(texts(rebuild@) =~= was.push(outputs@[i as int]@));
            }
            i += 1;
        }
    }
    ReloadPlan {
        repeat: if a.repeat_rate != b.repeat_rate || a.repeat_delay != b.repeat_delay {
            Some((tell(b.repeat_rate), tell(b.repeat_delay)))
        } else {
            None
        },
        keyboard_layout: !same(a.keyboard_layout.as_str(), b.keyboard_layout.as_str()),
        accel: a.mouse_accel_profile != b.mouse_accel_profile || a.mouse_accel_speed
            != b.mouse_accel_speed,
        numlock: if a.numlock != b.numlock {
            Some(b.numlock)
        } else {
            None
        },
        monitors: moved,
        rebuild,
        xwayland: if running.xwayland != new_config.xwayland {
            Some(new_config.xwayland)
        } else {
            None
        },
    }
}

/// Reading an unchanged configuration again changes nothing.
pub proof fn an_unchanged_configuration_changes_nothing(c: Config, names: Seq<Seq<char>>, n: int)
    ensures
        c.monitors.same_as(c.monitors),
        rebuilds(c.monitors, c.monitors, names, n) == Seq::<Seq<char>>::empty(),
    decreases n,
{
    if n > 0 {
        an_unchanged_configuration_changes_nothing(c, names, n - 1);
    }
}

/// What a file looked like: when it was changed, where that is known, and how
/// long it was.
#[derive(Debug, Clone, Copy, PartialEq, Eq, Structural)]
pub struct Stamp {
    pub modified: Option<u64>,
    pub len: u64,
}

/// Follows the configuration file. Says whether it has to be read again: it
/// looks other than before, and is there.
pub fn watch(last: &mut Option<Stamp>, current: Option<Stamp>) -> (r: bool)
    ensures
        r == (current != *old(last) && current.is_some()),
        *final(last) == current,
{
    let same = match (*last, current) {
        (None, None) => true,
        (Some(a), Some(b)) => a == b,
        _ => false,
    };
    *last = current;
    !same && current.is_some()
}

/// The settings of an output are those of the first entry with its name.
pub proof fn the_first_entry_of_a_name_counts(m: MonitorsConfig, i: int)
    requires
        0 <= i < m.outputs@.len(),
        forall|k: int| 0 <= k < i ==> (#[trigger] m.outputs@[k]).name@ != m.outputs@[i].name@,
    ensures
        m.settings(m.outputs@[i].name@) == Some(m.outputs@[i].settings),
{
    first_entry_from(m.outputs@, i, 0);
}

proof fn first_entry_from(outputs: Seq<NamedOutput>, i: int, from: int)
    requires
        0 <= from <= i < outputs.len(),
        forall|k: int| 0 <= k < i ==> (#[trigger] outputs[k]).name@ != outputs[i].name@,
    ensures
        settings_from(outputs, outputs[i].name@, from) == Some(outputs[i].settings),
    decreases i - from,
{
    if from < i {
        first_entry_from(outputs, i, from + 1);
    }
}

/// No side of an output is longer than the longest one, which is a side of one
/// of them; without outputs it is 3840.
pub proof fn the_longest_side_is_the_longest(sizes: Seq<(i32, i32)>, n: int, k: int)
    requires
        0 <= n <= sizes.len(),
    ensures
        n == 0 ==> longest_side(sizes, n) == 3840,
        0 <= k < n ==> sizes[k].0 <= longest_side(sizes, n) && sizes[k].1 <= longest_side(sizes, n),
        n > 0 ==> exists|j: int|
            0 <= j < n && (longest_side(sizes, n) == (#[trigger] sizes[j]).0 || longest_side(
                sizes,
                n,
            ) == sizes[j].1),
    decreases n,
{
    if n > 1 {
        the_longest_side_is_the_longest(sizes, n - 1, k);
        let j = choose|j: int|
            0 <= j < n - 1 && (longest_side(sizes, n - 1) == (#[trigger] sizes[j]).0
                || longest_side(sizes, n - 1) == sizes[j].1);
        assert(0 <= j < n && 0 <= n - 1 < n);
        let last = sizes[n - 1];
        assert(longest_side(sizes, n) == longest_side(sizes, n - 1) || longest_side(sizes, n)
            == last.0 || longest_side(sizes, n) == last.1);
    } else if n == 1 {
        let first = sizes[0];
        assert(longest_side(sizes, n) == first.0 || longest_side(sizes, n) == first.1);
    }
}

/// An output is set up anew exactly if the mode it is forced to or its dynamic
/// range differs. An output without settings has no forced mode and no high
/// dynamic range.
pub proof fn outputs_are_set_up_anew_where_needed(
    old_m: MonitorsConfig,
    new_m: MonitorsConfig,
    name: Seq<char>,
)
    ensures
        ({
            let (a, b) = (old_m.settings(name), new_m.settings(name));
            &&& a.is_some() && b.is_some() ==> (must_rebuild(old_m, new_m, name) <==> (
            a.unwrap().mode != b.unwrap().mode || a.unwrap().hdr != b.unwrap().hdr))
            &&& a.is_none() && b.is_some() ==> (must_rebuild(old_m, new_m, name) <==> (
            b.unwrap().mode.is_some() || b.unwrap().hdr))
            &&& a.is_some() && b.is_none() ==> (must_rebuild(old_m, new_m, name) <==> (
            a.unwrap().mode.is_some() || a.unwrap().hdr))
            &&& a.is_none() && b.is_none() ==> !must_rebuild(old_m, new_m, name)
        }),
{
}

/// Every output that has to be set up anew is named, and no other.
pub proof fn outputs_to_set_up_anew_are_named(
    old_m: MonitorsConfig,
    new_m: MonitorsConfig,
    names: Seq<Seq<char>>,
    n: int,
    name: Seq<char>,
)
    requires
        0 <= n <= names.len(),
    ensures
        rebuilds(old_m, new_m, names, n).contains(name) <==> must_rebuild(old_m, new_m, name)
            && names.take(n).contains(name),
    decreases n,
{
    let all = rebuilds(old_m, new_m, names, n);
    if n > 0 {
        outputs_to_set_up_anew_are_named(old_m, new_m, names, n - 1, name);
        let before = rebuilds(old_m, new_m, names, n - 1);
        assert(names.take(n).drop_last() =~= names.take(n - 1));
        assert(names.take(n)[n - 1] == names[n - 1]);
        if before.contains(name) {
            let i = choose|i: int| 0 <= i < before.len() && before[i] == name;
            assert(all[i] == name);
        }
        if names.take(n - 1).contains(name) {
            let few = names.take(n - 1);
            let i = choose|i: int| 0 <= i < few.len() && few[i] == name;
            assert(names.take(n)[i] == name);
        }
        if all.contains(name) {
            let i = choose|i: int| 0 <= i < all.len() && all[i] == name;
            if i < before.len() {
                assert(before[i] == name);
            }
        }
        if must_rebuild(old_m, new_m, name) && names.take(n).contains(name) {
            let some = names.take(n);
            let i = choose|i: int| 0 <= i < some.len() && some[i] == name;
            if i < n - 1 {
                assert(names.take(n - 1)[i] == name);
            } else {
                assert(all.last() == name);
            }
        }
    }
}

/// Clients are told a count as it is, as far as they can be.
pub proof fn counts_are_told_as_they_are(v: u32)
    ensures
        v <= 0x7fff_ffff ==> told(v) == v,
        v > 0x7fff_ffff ==> told(v) == 0x7fff_ffff,
{
}

} // verus!
