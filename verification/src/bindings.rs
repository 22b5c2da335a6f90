//! What keys do: which binding a key stands for, what the action of a binding
//! changes, and the command lines they run.

use vstd::prelude::*;
use vstd::string::*;

use crate::config::{Action, KeyBinding, ScreenshotBind};
use crate::desktop::{window_lines, ClientFacts, LayoutModel, Probe, SlideTiming, WindowLine};
use crate::keyboard::{
    blank, is_blank, matches_key, KeyResult, KEY_ESCAPE, KEY_KP_ENTER, KEY_RETURN,
};
use crate::layout::{window_views, Layout, WindowEntry};
use crate::text::{chars_of, part, texts};
use crate::window::{FillMode, SurfaceId, WindowSurface};

verus! {

/// Whether a key event stands for a binding: it is its key, and all its
/// modifiers are held.
pub open spec fn is_bound(key: KeyResult, keysym: u32, mods: u32) -> bool {
    key.is_key(keysym) && key.holds_all(mods)
}

fn bound(key: &KeyResult, keysym: u32, mods: u32) -> (r: bool)
    ensures
        r == is_bound(*key, keysym, mods),
{
    matches_key(key, keysym) && key.has_all_mods(mods)
}

/// The first binding at or after `from` that a key event stands for.
pub open spec fn binding_from(binds: Seq<KeyBinding>, key: KeyResult, from: int) -> Option<int>
    decreases binds.len() - from,
{
    if from < 0 || from >= binds.len() {
        None
    } else if is_bound(key, binds[from].keysym, binds[from].mods) {
        Some(from)
    } else {
        binding_from(binds, key, from + 1)
    }
}

/// The first screenshot binding at or after `from` that a key event stands
/// for.
pub open spec fn shot_from(binds: Seq<ScreenshotBind>, key: KeyResult, from: int) -> Option<int>
    decreases binds.len() - from,
{
    if from < 0 || from >= binds.len() {
        None
    } else if is_bound(key, binds[from].keysym, binds[from].mods) {
        Some(from)
    } else {
        shot_from(binds, key, from + 1)
    }
}

/// What a key does.
#[derive(Debug)]
pub enum KeyStep<'a> {
    /// Gives the screenshot up.
    ShotCancel,
    /// Takes the screenshot.
    ShotConfirm,
    /// Nothing.
    Swallow,
    /// Runs the action of a binding.
    Run(&'a Action),
    /// Takes a screenshot.
    Shoot(&'a ScreenshotBind),
    /// Goes to the client that has the keyboard.
    Forward,
}

/// What a key does: while a screenshot is taken every key belongs to that;
/// otherwise a press can stand for a binding, the plain ones first, unless the
/// session is locked.
pub fn handle_key<'a>(
    key: &KeyResult,
    pressed: bool,
    screenshot: bool,
    session_locked: bool,
    binds: &'a Vec<KeyBinding>,
    shots: &'a Vec<ScreenshotBind>,
) -> (r: KeyStep<'a>)
    ensures
        r == (if screenshot {
            if pressed && key.keysym == KEY_ESCAPE {
                KeyStep::ShotCancel
            } else if pressed && (key.keysym == KEY_RETURN || key.keysym == KEY_KP_ENTER) {
                KeyStep::ShotConfirm
            } else {
                KeyStep::Swallow
            }
        } else if !pressed || session_locked {
            KeyStep::Forward
        } else {
            match binding_from(binds@, *key, 0) {
                Some(i) => KeyStep::Run(&binds@[i].action),
                None => match shot_from(shots@, *key, 0) {
                    Some(i) => KeyStep::Shoot(&shots@[i]),
                    None => KeyStep::Forward,
                },
            }
        }),
{
    if screenshot {
        if pressed && key.keysym == KEY_ESCAPE {
            return KeyStep::ShotCancel;
        }
        if pressed && (key.keysym == KEY_RETURN || key.keysym == KEY_KP_ENTER) {
            return KeyStep::ShotConfirm;
        }
        return KeyStep::Swallow;
    }
    if !pressed || session_locked {
        return KeyStep::Forward;
    }
    let mut i: usize = 0;
    while i < binds.len()
        invariant
            i <= binds@.len(),
            !screenshot,
            pressed,
            !session_locked,
            binding_from(binds@, *key, 0) == binding_from(binds@, *key, i as int),
        decreases binds@.len() - i,
    {
        if bound(key, binds[i].keysym, binds[i].mods) {
            return KeyStep::Run(&binds[i].action);
        }
        i += 1;
    }
    let mut j: usize = 0;
    while j < shots.len()
        invariant
            j <= shots@.len(),
            !screenshot,
            pressed,
            !session_locked,
            binding_from(binds@, *key, 0).is_none(),
            shot_from(shots@, *key, 0) == shot_from(shots@, *key, j as int),
        decreases shots@.len() - j,
    {
        if bound(key, shots[j].keysym, shots[j].mods) {
            return KeyStep::Shoot(&shots[j]);
        }
        j += 1;
    }
    KeyStep::Forward
}

/// The binding found is one that the key stands for, and none before it is.
pub proof fn the_first_binding_is_the_one(binds: Seq<KeyBinding>, key: KeyResult, from: int)
    requires
        0 <= from <= binds.len(),
    ensures
        match binding_from(binds, key, from) {
            Some(i) => from <= i < binds.len() && is_bound(key, binds[i].keysym, binds[i].mods)
                && forall|j: int| from <= j < i ==> !is_bound(key, #[trigger] binds[j].keysym, binds[j].mods),
            None => forall|j: int|
                from <= j < binds.len() ==> !is_bound(key, #[trigger] binds[j].keysym, binds[j].mods),
        },
    decreases binds.len() - from,
{
    if from < binds.len() && !is_bound(key, binds[from].keysym, binds[from].mods) {
        the_first_binding_is_the_one(binds, key, from + 1);
    }
}

/// Where the word that starts at `from` ends.
pub open spec fn word_end(s: Seq<char>, from: int) -> int
    decreases s.len() - from,
{
    if from < 0 || from >= s.len() || is_blank(s[from]) {
        from
    } else {
        word_end(s, from + 1)
    }
}

/// The words of a text from a position on.
pub open spec fn words_from(s: Seq<char>, from: int) -> Seq<Seq<char>>
    decreases s.len() - from,
{
    if from < 0 || from >= s.len() {
        Seq::empty()
    } else if is_blank(s[from]) {
        words_from(s, from + 1)
    } else {
        let end = word_end(s, from);
        if from < end <= s.len() {
            seq![s.subrange(from, end)] + words_from(s, end)
        } else {
            Seq::empty()
        }
    }
}

proof fn word_end_is_blank(s: Seq<char>, from: int)
    requires
        0 <= from <= s.len(),
    ensures
        from <= word_end(s, from) <= s.len(),
        forall|j: int| from <= j < word_end(s, from) ==> !is_blank(s[j]),
        word_end(s, from) < s.len() ==> is_blank(s[word_end(s, from)]),
    decreases s.len() - from,
{
    if from < s.len() && !is_blank(s[from]) {
        word_end_is_blank(s, from + 1);
    }
}

/// The words of a text: its longest pieces without white space, in order.
pub fn words(s: &str) -> (r: Vec<String>)
    ensures
        texts(r@) == words_from(s@, 0),
{
    let chars = chars_of(s);
    let mut out: Vec<String> = Vec::new();
    let mut i: usize = 0;
    while i < chars.len()
        invariant
            i <= chars@.len(),
            chars@ == s@,
            words_from(s@, 0) =~= texts(out@) + words_from(s@, i as int),
        decreases chars@.len() - i,
    {
        if blank(chars[i]) {
            i += 1;
        } else {
            let start: usize = i;
            while i < chars.len() && !blank(chars[i])
                invariant
                    start <= i <= chars@.len(),
                    chars@ == s@,
                    word_end(s@, start as int) == word_end(s@, i as int),
                decreases chars@.len() - i,
            {
                i += 1;
            }
            proof {
                word_end_is_blank(s@, start as int);
            }
            assert(word_end(s@, start as int) == i);
            assert(start < i);
            let ghost before = out@;
            let w = part(&chars, start, i);
            out.push(w);
            assert(texts(out@) =~= texts(before).push(w@));
            assert(words_from(s@, start as int) =~= seq![w@] + words_from(s@, i as int));
        }
    }
    assert(words_from(s@, i as int) =~= Seq::<Seq<char>>::empty());
    assert(texts(out@) =~= words_from(s@, 0));
    out
}

proof fn word_of(s: Seq<char>, from: int, n: int)
    requires
        0 <= from <= s.len(),
        0 <= n < words_from(s, from).len(),
    ensures
        words_from(s, from)[n].len() > 0,
        forall|j: int|
            0 <= j < words_from(s, from)[n].len() ==> !is_blank(#[trigger] words_from(s, from)[n][j]),
    decreases s.len() - from,
{
    if from < s.len() {
        if is_blank(s[from]) {
            word_of(s, from + 1, n);
        } else {
            word_end_is_blank(s, from);
            let end = word_end(s, from);
            assert(end > from);
            if n > 0 {
                word_of(s, end, n - 1);
            }
        }
    }
}

/// A word is never empty and has no white space in it.
pub proof fn words_have_no_white_space(s: Seq<char>, n: int)
    requires
        0 <= n < words_from(s, 0).len(),
    ensures
        words_from(s, 0)[n].len() > 0,
        forall|j: int|
            0 <= j < words_from(s, 0)[n].len() ==> !is_blank(#[trigger] words_from(s, 0)[n][j]),
{
    word_of(s, 0, n);
}

/// The program that a command line runs, followed by its arguments. None where
/// the line has no words.
pub fn build_command(raw: &str) -> (r: Option<Vec<String>>)
    ensures
        r.is_some() <==> words_from(raw@, 0).len() > 0,
        r.is_some() ==> texts(r.unwrap()@) == words_from(raw@, 0),
{
    let all = words(raw);
    assert(texts(all@).len() == all@.len());
    if all.len() == 0 {
        None
    } else {
        Some(all)
    }
}

/// What is left to do after an action.
#[derive(Debug)]
pub enum Effect<'a> {
    Nothing,
    /// End the session.
    Stop,
    /// Ask a window to close.
    Close(WindowSurface),
    /// Run a program with arguments.
    Run(Vec<String>),
    /// Take a screenshot.
    Shoot(&'a ScreenshotBind),
}

/// The desktop after an action: the focused window floats or tiles, fills its
/// output or does not.
pub open spec fn acted(
    m: LayoutModel,
    action: Action,
    focus: Option<SurfaceId>,
    facts: ClientFacts,
) -> LayoutModel {
    match (action, focus) {
        (Action::ToggleFloating, Some(s)) => m.toggling_floating(s, facts).0,
        (Action::ToggleFullscreen, Some(s)) => m.toggling_fill(s, FillMode::Fullscreen),
        _ => m,
    }
}

/// Does what an action asks for of the desktop, and says what else it asks
/// for. `facts` are those of the focused window.
pub fn dispatch_action<'a>(
    layout: &mut Layout,
    action: &'a Action,
    focus: Option<SurfaceId>,
    facts: &ClientFacts,
) -> (r: Effect<'a>)
    requires
        old(layout)@.valid(),
    ensures
        final(layout)@ == acted(old(layout)@, *action, focus, *facts),
        final(layout)@.valid(),
        match *action {
            Action::Exit => r is Stop,
            Action::ToggleFloating => r is Nothing,
            Action::ToggleFullscreen => r is Nothing,
            Action::Close => match focus {
                None => r is Nothing,
                Some(s) => match old(layout)@.role_of(s) {
                    None => r is Nothing,
                    Some(w) => r == Effect::<'a>::Close(w),
                },
            },
            Action::Spawn(cmd) => if words_from(cmd@, 0).len() == 0 {
                r is Nothing
            } else {
                r matches Effect::Run(c) && texts(c@) == words_from(cmd@, 0)
            },
            Action::Screenshot(b) => r matches Effect::Shoot(x) && *x == b,
        },
{
    match action {
        Action::Exit => Effect::Stop,
        Action::ToggleFloating => {
            if let Some(s) = focus {
                layout.toggle_floating(s, facts);
            }
            Effect::Nothing
        },
        Action::ToggleFullscreen => {
            if let Some(s) = focus {
                layout.toggle_fullscreen(s);
            }
            Effect::Nothing
        },
        Action::Close => match focus {
            None => Effect::Nothing,
            Some(s) => match layout.window_surface(s) {
                None => Effect::Nothing,
                Some(w) => Effect::Close(w),
            },
        },
        Action::Spawn(cmd) => match build_command(cmd.as_str()) {
            None => Effect::Nothing,
            Some(c) => Effect::Run(c),
        },
        Action::Screenshot(b) => Effect::Shoot(b),
    }
}

/// The first line of the window list at or after `from` that is of a surface.
pub open spec fn line_from(ls: Seq<WindowLine>, surface: SurfaceId, from: int) -> Option<int>
    decreases ls.len() - from,
{
    if from < 0 || from >= ls.len() {
        None
    } else if ls[from].surface == surface {
        Some(from)
    } else {
        line_from(ls, surface, from + 1)
    }
}

/// The line of the window list that is of a surface.
pub open spec fn line_of(m: LayoutModel, surface: SurfaceId) -> Option<WindowLine> {
    let ls = window_lines(m.outputs, m.outputs.len() as int);
    match line_from(ls, surface, 0) {
        None => None,
        Some(i) => Some(ls[i]),
    }
}

/// The line of the window list that is of a surface.
pub fn find_entry(layout: &Layout, surface: SurfaceId) -> (r: Option<WindowEntry>)
    ensures
        match r {
            None => line_of(layout@, surface).is_none(),
            Some(e) => line_of(layout@, surface) == Some(e@),
        },
{
    let mut entries = layout.window_entries();
    let ghost ls = window_lines(layout@.outputs, layout@.outputs.len() as int);
    let mut i: usize = 0;
    while i < entries.len()
        invariant
            i <= entries@.len(),
            window_views(entries@) == ls,
            ls == window_lines(layout@.outputs, layout@.outputs.len() as int),
            line_from(ls, surface, 0) == line_from(ls, surface, i as int),
        decreases entries@.len() - i,
    {
        assert(window_views(entries@)[i as int] == entries@[i as int]@);
        if entries[i].surface == surface {
            assert(line_from(ls, surface, i as int) == Some(i as int));
            return Some(entries.swap_remove(i));
        }
        i += 1;
    }
    None
}

/// The desktop with the workspace of a window on show.
pub open spec fn showing(m: LayoutModel, surface: SurfaceId, slide: SlideTiming) -> LayoutModel {
    match line_of(m, surface) {
        None => m,
        Some(l) => match m.pane(Probe::Named(l.output)) {
            None => m,
            Some(i) => m.switching(i, l.workspace, slide).0,
        },
    }
}

/// Shows the workspace of a window; says whether there is such a window, which
/// then gets the keyboard.
pub fn focus_surface(layout: &mut Layout, surface: SurfaceId, slide: SlideTiming) -> (r: bool)
    requires
        old(layout)@.valid(),
    ensures
        r == line_of(old(layout)@, surface).is_some(),
        final(layout)@ == showing(old(layout)@, surface, slide),
        final(layout)@.valid(),
{
    match find_entry(layout, surface) {
        None => false,
        Some(e) => {
            layout.switch_workspace_to(e.output.as_str(), e.workspace, slide);
            true
        },
    }
}

/// A variable of the environment.
#[derive(Debug)]
pub struct EnvVar {
    pub name: String,
    pub value: String,
}

/// The environment of a program that is started, on top of the compositor's
/// own: the configured variables in order, and the X display, which is taken
/// away where there is none.
#[derive(Debug)]
pub struct ChildEnv {
    pub set: Vec<EnvVar>,
    pub remove_display: bool,
}

/// The variables of an environment, as they read.
pub open spec fn env_view(vars: Seq<EnvVar>) -> Seq<(Seq<char>, Seq<char>)> {
    Seq::new(vars.len(), |i: int| (vars[i].name@, vars[i].value@))
}

/// The environment of a program that is started.
pub fn apply_child_env(env: &Vec<EnvVar>, display: Option<&str>) -> (r: ChildEnv)
    ensures
        r.remove_display == display.is_none(),
        env_view(r.set@) == (match display {
            None => env_view(env@),
            Some(d) => env_view(env@).push(("DISPLAY"@, d@)),
        }),
{
    let mut set: Vec<EnvVar> = Vec::new();
    let mut i: usize = 0;
    while i < env.len()
        invariant
            i <= env@.len(),
            set@ =~= env@.take(i as int),
        decreases env@.len() - i,
    {
        set.push(EnvVar { name: env[i].name.clone(), value: env[i].value.clone() });
        i += 1;
    }
    assert(set@ =~= env@);
    match display {
        None => ChildEnv { set, remove_display: true },
        Some(d) => {
            set.push(EnvVar { name: "DISPLAY".to_owned(), value: d.to_owned() });
            assert(env_view(set@) =~= env_view(env@).push(("DISPLAY"@, d@)));
            ChildEnv { set, remove_display: false }
        },
    }
}

/// A screenshot binding is the first one that the key stands for, and there is
/// none only where the key stands for none.
pub proof fn the_first_screenshot_binding_is_the_one(
    binds: Seq<ScreenshotBind>,
    key: KeyResult,
    from: int,
)
    requires
        0 <= from,
    ensures
        match shot_from(binds, key, from) {
            None => forall|j: int|
                from <= j < binds.len() ==> !is_bound(key, (#[trigger] binds[j]).keysym, binds[j].mods),
            Some(i) => {
                &&& from <= i < binds.len()
                &&& is_bound(key, binds[i].keysym, binds[i].mods)
                &&& forall|j: int|
                    from <= j < i ==> !is_bound(key, (#[trigger] binds[j]).keysym, binds[j].mods)
            },
        },
    decreases binds.len() - from,
{
    if from < binds.len() && !is_bound(key, binds[from].keysym, binds[from].mods) {
        the_first_screenshot_binding_is_the_one(binds, key, from + 1);
    }
}

/// A binding fires where its key is pressed while each of its modifiers is
/// held, whichever others are.
pub proof fn bindings_fire_on_their_key(key: KeyResult, keysym: u32, mods: u32)
    ensures
        key.keysym == keysym && key.mods & mods == mods ==> is_bound(key, keysym, mods),
        key.base_keysym == keysym && key.mods & mods == mods ==> is_bound(key, keysym, mods),
        key.mods & mods != mods ==> !is_bound(key, keysym, mods),
{
}

proof fn word_end_behind(p: Seq<char>, s: Seq<char>, i: int)
    requires
        0 <= i <= s.len(),
    ensures
        word_end(p + s, p.len() + i) == p.len() + word_end(s, i),
    decreases s.len() - i,
{
    if i < s.len() {
        assert((p + s)[p.len() + i] == s[i]);
        if !is_blank(s[i]) {
            word_end_behind(p, s, i + 1);
        }
    }
}

proof fn words_behind(p: Seq<char>, s: Seq<char>, i: int)
    requires
        0 <= i <= s.len(),
    ensures
        words_from(p + s, p.len() + i) == words_from(s, i),
    decreases s.len() - i,
{
    if i < s.len() {
        assert((p + s)[p.len() + i] == s[i]);
        if is_blank(s[i]) {
            words_behind(p, s, i + 1);
        } else {
            word_end_behind(p, s, i);
            word_end_is_blank(s, i);
            let end = word_end(s, i);
            assert(end > i);
            words_behind(p, s, end);
            assert((p + s).subrange(p.len() + i, p.len() + end) =~= s.subrange(i, end));
        }
    }
}

proof fn word_ends_at(s: Seq<char>, from: int, end: int)
    requires
        0 <= from <= end <= s.len(),
        forall|j: int| from <= j < end ==> !is_blank(#[trigger] s[j]),
        end < s.len() ==> is_blank(s[end]),
    ensures
        word_end(s, from) == end,
    decreases end - from,
{
    if from < end {
        word_ends_at(s, from + 1, end);
    }
}

/// Words are what stands between white space: a text that has none is one
/// word, white space in front of a text does not count, and after a word with
/// white space behind it come the words of the rest.
pub proof fn white_space_parts_words(w: Seq<char>, c: char, rest: Seq<char>)
    requires
        w.len() > 0,
        forall|j: int| 0 <= j < w.len() ==> !is_blank(#[trigger] w[j]),
        is_blank(c),
    ensures
        words_from(Seq::empty(), 0) == Seq::<Seq<char>>::empty(),
        words_from(w, 0) == seq![w],
        words_from(seq![c] + rest, 0) == words_from(rest, 0),
        words_from(w + (seq![c] + rest), 0) == seq![w] + words_from(rest, 0),
{
    word_ends_at(w, 0, w.len() as int);
    assert(w.subrange(0, w.len() as int) =~= w);
    assert(words_from(w, w.len() as int) =~= Seq::<Seq<char>>::empty());
    let t = seq![c] + rest;
    assert(t[0] == c);
    words_behind(seq![c], rest, 0);
    let s = w + t;
    assert(s[0] == w[0]);
    assert forall|j: int| 0 <= j < w.len() implies !is_blank(#[trigger] s[j]) by {
        assert(s[j] == w[j]);
    }
    assert(s[w.len() as int] == c);
    word_ends_at(s, 0, w.len() as int);
    assert(s.subrange(0, w.len() as int) =~= w);
    words_behind(w, t, 0);
}

/// An action on the focused window changes that window alone: without one, and
/// for any other action, the desktop stays as it is.
pub proof fn other_actions_leave_the_desktop(
    m: LayoutModel,
    action: Action,
    focus: Option<SurfaceId>,
    facts: ClientFacts,
)
    ensures
        focus.is_none() ==> acted(m, action, focus, facts) == m,
        !(action is ToggleFloating) && !(action is ToggleFullscreen) ==> acted(
            m,
            action,
            focus,
            facts,
        ) == m,
{
}

} // verus!
