//! The command that talks to a running compositor: what its arguments ask for,
//! and how the answers are shown.

use vstd::prelude::*;
use vstd::string::*;

use crate::ipc::{
    BindInfo, Event, EventKind, LayerInfo, OutputInfo, Request, Response, WindowInfo,
    WorkspaceInfo, WorkspaceTarget,
};
use crate::text::{
    chars_of, decimal, index_in, joined, lower, lowered, number_text, parse_index, part, same,
    signed_decimal, signed_text, string_of, texts,
};

verus! {

/// A workspace as it is named on the command line.
#[derive(Debug, Clone, Copy, PartialEq, Eq, Structural)]
pub enum WsTargetArg {
    Index(usize),
    Next,
    Prev,
}

/// The workspace that a text names: `next`, `prev` or `previous` in any case,
/// or an index.
pub open spec fn target_named(s: Seq<char>) -> Option<WsTargetArg> {
    if lowered(s) == "next"@ {
        Some(WsTargetArg::Next)
    } else if lowered(s) == "prev"@ || lowered(s) == "previous"@ {
        Some(WsTargetArg::Prev)
    } else {
        match index_in(s) {
            None => None,
            Some(i) => Some(WsTargetArg::Index(i)),
        }
    }
}

impl WsTargetArg {
    /// The workspace that a text names.
    pub fn parse(s: &str) -> (r: Option<WsTargetArg>)
        ensures
            r == target_named(s@),
    {
        let l = lower(s);
        if same(l.as_str(), "next") {
            Some(WsTargetArg::Next)
        } else if same(l.as_str(), "prev") || same(l.as_str(), "previous") {
            Some(WsTargetArg::Prev)
        } else {
            match parse_index(s) {
                None => None,
                Some(i) => Some(WsTargetArg::Index(i)),
            }
        }
    }

    /// The workspace as it is asked for.
    pub open spec fn target(self) -> WorkspaceTarget {
        match self {
            WsTargetArg::Index(i) => WorkspaceTarget::Index(i),
            WsTargetArg::Next => WorkspaceTarget::Next,
            WsTargetArg::Prev => WorkspaceTarget::Prev,
        }
    }

    /// The workspace as it is asked for.
    pub fn to_target(&self) -> (r: WorkspaceTarget)
        ensures
            r == self.target(),
    {
        match self {
            WsTargetArg::Index(i) => WorkspaceTarget::Index(*i),
            WsTargetArg::Next => WorkspaceTarget::Next,
            WsTargetArg::Prev => WorkspaceTarget::Prev,
        }
    }
}

/// What the command line asks for.
#[derive(Debug, Clone)]
pub enum Command {
    Version,
    Outputs,
    Workspaces,
    Layers,
    Windows,
    FocusedWindow,
    Binds,
    CaptureWindow { id: u64, max: Option<i32> },
    FocusWindow { id: u64 },
    Close { id: Option<u64> },
    ToggleFloating { id: Option<u64> },
    ToggleFullscreen { id: Option<u64> },
    ToggleMaximized { id: Option<u64> },
    FocusWorkspace { target: WsTargetArg, output: Option<String> },
    MoveToWorkspace { target: WsTargetArg, id: Option<u64> },
    Spawn { command: Vec<String> },
    Reload,
    Exit,
    Subscribe { events: Vec<EventKind> },
}

/// Whether a request is what the command line asks for.
pub open spec fn asks_for(c: Command, r: Request) -> bool {
    match c {
        Command::Version => r is Version,
        Command::Outputs => r is Outputs,
        Command::Workspaces => r is Workspaces,
        Command::Layers => r is Layers,
        Command::Windows => r is Windows,
        Command::FocusedWindow => r is FocusedWindow,
        Command::Binds => r is Binds,
        Command::CaptureWindow { id, max } => r == (Request::CaptureWindow { id, max }),
        Command::FocusWindow { id } => r == (Request::FocusWindow { id }),
        Command::Close { id } => r == (Request::Close { id }),
        Command::ToggleFloating { id } => r == (Request::ToggleFloating { id }),
        Command::ToggleFullscreen { id } => r == (Request::ToggleFullscreen { id }),
        Command::ToggleMaximized { id } => r == (Request::ToggleMaximized { id }),
        Command::FocusWorkspace { target, output } => r == (Request::FocusWorkspace {
            output,
            target: target.target(),
        }),
        Command::MoveToWorkspace { target, id } => r == (Request::MoveToWorkspace {
            id,
            target: target.target(),
        }),
        Command::Spawn { command } => r matches Request::Spawn { command: x } && texts(x@)
            == texts(command@),
        Command::Reload => r is Reload,
        Command::Exit => r is Exit,
        Command::Subscribe { events } => r matches Request::Subscribe { events: x } && x@
            == events@,
    }
}

fn copy_words(v: &Vec<String>) -> (r: Vec<String>)
    ensures
        texts(r@) == texts(v@),
{
    let mut out: Vec<String> = Vec::new();
    let mut i: usize = 0;
    while i < v.len()
        invariant
            i <= v@.len(),
            out@ =~= v@.take(i as int),
        decreases v@.len() - i,
    {
        out.push(v[i].clone());
        i += 1;
    }
    assert(out@ =~= v@);
    out
}

fn copy_kinds(v: &Vec<EventKind>) -> (r: Vec<EventKind>)
    ensures
        r@ == v@,
{
    let mut out: Vec<EventKind> = Vec::new();
    let mut i: usize = 0;
    while i < v.len()
        invariant
            i <= v@.len(),
            out@ =~= v@.take(i as int),
        decreases v@.len() - i,
    {
        out.push(v[i]);
        i += 1;
    }
    assert(out@ =~= v@);
    out
}

impl Command {
    /// The request that the command line asks for.
    pub fn to_request(&self) -> (r: Request)
        ensures
            asks_for(*self, r),
    {
        match self {
            Command::Version => Request::Version,
            Command::Outputs => Request::Outputs,
            Command::Workspaces => Request::Workspaces,
            Command::Layers => Request::Layers,
            Command::Windows => Request::Windows,
            Command::FocusedWindow => Request::FocusedWindow,
            Command::Binds => Request::Binds,
            Command::CaptureWindow { id, max } => Request::CaptureWindow { id: *id, max: *max },
            Command::FocusWindow { id } => Request::FocusWindow { id: *id },
            Command::Close { id } => Request::Close { id: *id },
            Command::ToggleFloating { id } => Request::ToggleFloating { id: *id },
            Command::ToggleFullscreen { id } => Request::ToggleFullscreen { id: *id },
            Command::ToggleMaximized { id } => Request::ToggleMaximized { id: *id },
            Command::FocusWorkspace { target, output } => Request::FocusWorkspace {
                output: match output {
                    None => None,
                    Some(o) => Some(o.clone()),
                },
                target: target.to_target(),
            },
            Command::MoveToWorkspace { target, id } => Request::MoveToWorkspace {
                id: *id,
                target: target.to_target(),
            },
            Command::Spawn { command } => Request::Spawn { command: copy_words(command) },
            Command::Reload => Request::Reload,
            Command::Exit => Request::Exit,
            Command::Subscribe { events } => Request::Subscribe { events: copy_kinds(events) },
        }
    }
}

/// A text of at most so many characters: a longer one is cut, and ends with an
/// ellipsis where there is room for it.
pub open spec fn cut(s: Seq<char>, max: int) -> Seq<char> {
    if s.len() <= max {
        s
    } else if max <= 0 {
        Seq::empty()
    } else {
        s.take(max - 1) + "…"@
    }
}

/// A text of at most so many characters.
pub fn truncate(s: &str, max: usize) -> (r: String)
    ensures
        r@ == cut(s@, max as int),
        r@.len() <= max,
{
    proof {
        cut_texts_fit(s@, max as int);
    }
    let chars = chars_of(s);
    if chars.len() <= max {
        return s.to_owned();
    }
    if max == 0 {
        return String::new();
    }
    let mut out = part(&chars, 0, max - 1);
    assert(out@ =~= s@.take(max - 1));
    out.append("…");
    out
}

/// So many spaces.
pub open spec fn spaces(n: int) -> Seq<char> {
    Seq::new(
        if n > 0 {
            n as nat
        } else {
            0
        },
        |i: int| ' ',
    )
}

/// A text with spaces behind it up to a width.
pub open spec fn padded(s: Seq<char>, width: int) -> Seq<char> {
    s + spaces(width - s.len())
}

/// A text with spaces before it up to a width.
pub open spec fn indented(s: Seq<char>, width: int) -> Seq<char> {
    spaces(width - s.len()) + s
}

fn blanks(n: usize) -> (r: String)
    ensures
        r@ == spaces(n as int),
{
    let mut out: Vec<char> = Vec::new();
    let mut i: usize = 0;
    while i < n
        invariant
            i <= n,
            out@ =~= spaces(i as int),
        decreases n - i,
    {
        out.push(' ');
        i += 1;
    }
    string_of(&out)
}

fn missing(s: &str, width: usize) -> (r: usize)
    ensures
        spaces(r as int) == spaces(width - s@.len()),
{
    let n: usize = s.unicode_len();
    let r: usize = if n < width {
        width - n
    } else {
        0
    };
    assert(spaces(r as int) =~= spaces(width - s@.len()));
    r
}

fn pad(s: &str, width: usize) -> (r: String)
    ensures
        r@ == padded(s@, width as int),
{
    joined(s, blanks(missing(s, width)).as_str())
}

fn indent(s: &str, width: usize) -> (r: String)
    ensures
        r@ == indented(s@, width as int),
{
    joined(blanks(missing(s, width)).as_str(), s)
}

/// A text is as wide as its column, or wider.
pub proof fn columns_are_filled(s: Seq<char>, width: int)
    requires
        s.len() <= width,
    ensures
        padded(s, width).len() == width,
        indented(s, width).len() == width,
{
}

/// A cut text is never longer than it may be.
pub proof fn cut_texts_fit(s: Seq<char>, max: int)
    requires
        max >= 0,
    ensures
        cut(s, max).len() <= max,
{
    reveal_strlit("…");
}

/// A text that may be missing, else another.
pub open spec fn text_or(s: Option<String>, otherwise: Seq<char>) -> Seq<char> {
    match s {
        None => otherwise,
        Some(s) => s@,
    }
}

fn or_dash(s: &Option<String>) -> (r: &str)
    ensures
        r@ == text_or(*s, "-"@),
{
    match s {
        None => "-",
        Some(s) => s.as_str(),
    }
}

/// What a window is called: its program and its title, as far as it has them.
pub open spec fn label(w: WindowInfo) -> Seq<char> {
    match (w.app_id, w.title) {
        (Some(app), Some(title)) => app@ + " — "@ + title@,
        (Some(s), None) => s@,
        (None, Some(s)) => s@,
        (None, None) => "(untitled)"@,
    }
}

/// What a window is called.
pub fn window_label(w: &WindowInfo) -> (r: String)
    ensures
        r@ == label(*w),
{
    match (&w.app_id, &w.title) {
        (Some(app), Some(title)) => {
            let mut out = joined(app.as_str(), " — ");
            out.append(title.as_str());
            out
        },
        (Some(s), None) => s.clone(),
        (None, Some(s)) => s.clone(),
        (None, None) => "(untitled)".to_owned(),
    }
}

/// The active workspaces among the first `n`, with spaces between.
pub open spec fn active_list(ws: Seq<WorkspaceInfo>, n: int) -> Seq<char>
    decreases n,
{
    if n <= 0 {
        Seq::empty()
    } else if !ws[n - 1].active {
        active_list(ws, n - 1)
    } else {
        let rest = active_list(ws, n - 1);
        (if rest.len() == 0 {
            rest
        } else {
            rest + " "@
        }) + ws[n - 1].output@ + ":"@ + decimal(ws[n - 1].index as int)
    }
}

fn active_workspaces(ws: &Vec<WorkspaceInfo>) -> (r: String)
    ensures
        r@ == active_list(ws@, ws@.len() as int),
{
    let mut out = String::new();
    assert(out@ =~= Seq::<char>::empty());
    let mut i: usize = 0;
    while i < ws.len()
        invariant
            i <= ws@.len(),
            out@ == active_list(ws@, i as int),
        decreases ws@.len() - i,
    {
        if ws[i].active {
            if out.as_str().unicode_len() > 0 {
                out.append(" ");
            }
            out.append(ws[i].output.as_str());
            out.append(":");
            out.append(number_text(ws[i].index as u64).as_str());
        }
        i += 1;
    }
    out
}

/// How a change is shown.
pub open spec fn shown_event(e: Event) -> Seq<char> {
    match e {
        Event::WindowOpened { window } => "opened   #"@ + decimal(window.id as int) + " "@ + label(
            window,
        ),
        Event::WindowClosed { id } => "closed   #"@ + decimal(id as int),
        Event::WindowFocused { window } => match window {
            Some(w) => "focused  #"@ + decimal(w.id as int) + " "@ + label(w),
            None => "focused  (none)"@,
        },
        Event::WorkspacesChanged { workspaces } => "workspaces  active=["@ + active_list(
            workspaces@,
            workspaces@.len() as int,
        ) + "]"@,
    }
}

/// How a change is shown.
pub fn event_line(e: &Event) -> (r: String)
    ensures
        r@ == shown_event(*e),
{
    match e {
        Event::WindowOpened { window } => {
            let mut out = joined("opened   #", number_text(window.id).as_str());
            out.append(" ");
            out.append(window_label(window).as_str());
            out
        },
        Event::WindowClosed { id } => joined("closed   #", number_text(*id).as_str()),
        Event::WindowFocused { window } => match window {
            Some(w) => {
                let mut out = joined("focused  #", number_text(w.id).as_str());
                out.append(" ");
                out.append(window_label(w).as_str());
                out
            },
            None => "focused  (none)".to_owned(),
        },
        Event::WorkspacesChanged { workspaces } => {
            let mut out = joined("workspaces  active=[", active_workspaces(workspaces).as_str());
            out.append("]");
            out
        },
    }
}

/// A workspace in the list of them.
pub open spec fn workspace_row(w: WorkspaceInfo) -> Seq<char> {
    padded(w.output@, 10) + " "@ + indented(decimal(w.index as int), 5) + "  "@ + padded(
        if w.active {
            "*"@
        } else {
            ""@
        },
        6,
    ) + " "@ + indented(decimal(w.window_count as int), 7)
}

/// A workspace in the list of them.
pub fn workspace_line(w: &WorkspaceInfo) -> (r: String)
    ensures
        r@ == workspace_row(*w),
{
    let mut out = joined(pad(w.output.as_str(), 10).as_str(), " ");
    out.append(indent(number_text(w.index as u64).as_str(), 5).as_str());
    out.append("  ");
    let mark = if w.active {
        "*"
    } else {
        ""
    };
    out.append(pad(mark, 6).as_str());
    out.append(" ");
    out.append(indent(number_text(w.window_count as u64).as_str(), 7).as_str());
    out
}

/// A layer surface in the list of them.
pub open spec fn layer_row(l: LayerInfo) -> Seq<char> {
    padded(l.namespace@, 22) + " "@ + padded(l.layer@, 9) + " "@ + padded(
        text_or(l.output, "-"@),
        8,
    ) + " "@ + indented(signed_decimal(l.width as int), 4) + "x"@ + padded(
        signed_decimal(l.height as int),
        4,
    ) + " "@ + padded(
        if l.keyboard {
            "yes"@
        } else {
            ""@
        },
        3,
    ) + " "@ + indented(signed_decimal(l.exclusive_zone as int), 8)
}

/// A layer surface in the list of them.
pub fn layer_line(l: &LayerInfo) -> (r: String)
    ensures
        r@ == layer_row(*l),
{
    let mut out = joined(pad(l.namespace.as_str(), 22).as_str(), " ");
    out.append(pad(l.layer.as_str(), 9).as_str());
    out.append(" ");
    out.append(pad(or_dash(&l.output), 8).as_str());
    out.append(" ");
    out.append(indent(signed_text(l.width).as_str(), 4).as_str());
    out.append("x");
    out.append(pad(signed_text(l.height).as_str(), 4).as_str());
    out.append(" ");
    let mark = if l.keyboard {
        "yes"
    } else {
        ""
    };
    out.append(pad(mark, 3).as_str());
    out.append(" ");
    out.append(indent(signed_text(l.exclusive_zone).as_str(), 8).as_str());
    out
}

/// The state of a window, in words.
pub open spec fn state_words(w: WindowInfo) -> Seq<char> {
    (if w.floating {
        "floating"@
    } else {
        "tiled"@
    }) + (if w.fullscreen {
        " fullscreen"@
    } else {
        ""@
    }) + (if w.maximized {
        " maximized"@
    } else {
        ""@
    }) + (if w.focused {
        " focused"@
    } else {
        ""@
    })
}

fn window_state(w: &WindowInfo) -> (r: String)
    ensures
        r@ == state_words(*w),
{
    let mut out = (if w.floating {
        "floating"
    } else {
        "tiled"
    }).to_owned();
    out.append(
        if w.fullscreen {
            " fullscreen"
        } else {
            ""
        },
    );
    out.append(
        if w.maximized {
            " maximized"
        } else {
            ""
        },
    );
    out.append(
        if w.focused {
            " focused"
        } else {
            ""
        },
    );
    out
}

/// A window in the list of them.
pub open spec fn window_row(w: WindowInfo) -> Seq<char> {
    indented(decimal(w.id as int), 4) + "  "@ + padded(cut(text_or(w.app_id, "-"@), 16), 16)
        + " "@ + padded(cut(text_or(w.title, "-"@), 28), 28) + " "@ + padded(
        match w.workspace {
            None => "-"@,
            Some(n) => decimal(n as int),
        },
        9,
    ) + " "@ + padded(text_or(w.output, "-"@), 8) + " "@ + state_words(w)
}

/// A window in the list of them.
pub fn window_line(w: &WindowInfo) -> (r: String)
    ensures
        r@ == window_row(*w),
{
    let mut out = joined(indent(number_text(w.id).as_str(), 4).as_str(), "  ");
    out.append(pad(truncate(or_dash(&w.app_id), 16).as_str(), 16).as_str());
    out.append(" ");
    out.append(pad(truncate(or_dash(&w.title), 28).as_str(), 28).as_str());
    out.append(" ");
    let workspace = match w.workspace {
        None => "-".to_owned(),
        Some(n) => number_text(n as u64),
    };
    out.append(pad(workspace.as_str(), 9).as_str());
    out.append(" ");
    out.append(pad(or_dash(&w.output), 8).as_str());
    out.append(" ");
    out.append(window_state(w).as_str());
    out
}

/// The first `n` modifiers of a binding, each with a plus behind it.
pub open spec fn combo(mods: Seq<String>, n: int) -> Seq<char>
    decreases n,
{
    if n <= 0 {
        Seq::empty()
    } else {
        combo(mods, n - 1) + mods[n - 1]@ + "+"@
    }
}

/// A binding in the list of them.
pub open spec fn bind_row(b: BindInfo) -> Seq<char> {
    padded(combo(b.mods@, b.mods@.len() as int) + b.key@, 24) + " "@ + b.action@
}

/// A binding in the list of them.
pub fn bind_line(b: &BindInfo) -> (r: String)
    ensures
        r@ == bind_row(*b),
{
    let mut keys = String::new();
    assert(keys@ =~= Seq::<char>::empty());
    let mut i: usize = 0;
    while i < b.mods.len()
        invariant
            i <= b.mods@.len(),
            keys@ == combo(b.mods@, i as int),
        decreases b.mods@.len() - i,
    {
        keys.append(b.mods[i].as_str());
        keys.append("+");
        i += 1;
    }
    keys.append(b.key.as_str());
    let mut out = joined(pad(keys.as_str(), 24).as_str(), " ");
    out.append(b.action.as_str());
    out
}

/// A number of thousandths, with three decimals.
pub open spec fn thousandths(n: int) -> Seq<char> {
    let size = if n < 0 {
        -n
    } else {
        n
    };
    (if n < 0 {
        "-"@
    } else {
        ""@
    }) + decimal(size / 1000) + "."@ + decimal(size / 100 % 10) + decimal(size / 10 % 10)
        + decimal(size % 10)
}

fn with_decimals(n: i32) -> (r: String)
    ensures
        r@ == thousandths(n as int),
{
    let size: u64 = if n < 0 {
        (-(n as i64)) as u64
    } else {
        n as u64
    };
    let mut out = (if n < 0 {
        "-"
    } else {
        ""
    }).to_owned();
    out.append(number_text(size / 1000).as_str());
    out.append(".");
    out.append(number_text(size / 100 % 10).as_str());
    out.append(number_text(size / 10 % 10).as_str());
    out.append(number_text(size % 10).as_str());
    out
}

/// The maker and model of an output, in brackets, as far as they are known.
pub open spec fn maker(o: OutputInfo) -> Seq<char> {
    match (o.make, o.model) {
        (Some(a), Some(b)) => "  ("@ + a@ + " "@ + b@ + ")"@,
        (Some(a), None) => "  ("@ + a@ + ")"@,
        (None, Some(b)) => "  ("@ + b@ + ")"@,
        (None, None) => ""@,
    }
}

fn maker_text(o: &OutputInfo) -> (r: String)
    ensures
        r@ == maker(*o),
{
    match (&o.make, &o.model) {
        (Some(a), Some(b)) => {
            let mut out = joined("  (", a.as_str());
            out.append(" ");
            out.append(b.as_str());
            out.append(")");
            out
        },
        (Some(a), None) => {
            let mut out = joined("  (", a.as_str());
            out.append(")");
            out
        },
        (None, Some(b)) => {
            let mut out = joined("  (", b.as_str());
            out.append(")");
            out
        },
        (None, None) => "".to_owned(),
    }
}

/// An output in the list of them. `scale` is its scale in words.
pub open spec fn output_rows(o: OutputInfo, scale: Seq<char>) -> Seq<Seq<char>> {
    let rows = seq![
        o.name@ + maker(o),
        "  mode:  "@ + signed_decimal(o.width as int) + "x"@ + signed_decimal(o.height as int)
            + " @ "@ + thousandths(o.refresh_mhz as int) + " Hz   scale "@ + scale,
        "  pos:   "@ + signed_decimal(o.x as int) + ","@ + signed_decimal(o.y as int)
            + "   logical "@ + signed_decimal(o.logical_width as int) + "x"@ + signed_decimal(
            o.logical_height as int,
        ),
    ];
    match o.active_workspace {
        None => rows,
        Some(n) => rows.push("  active workspace: "@ + decimal(n as int)),
    }
}

/// An output in the list of them. `scale` is its scale in words.
pub fn output_lines(o: &OutputInfo, scale: &str) -> (r: Vec<String>)
    ensures
        texts(r@) == output_rows(*o, scale@),
{
    let first = joined(o.name.as_str(), maker_text(o).as_str());
    let mut mode = joined("  mode:  ", signed_text(o.width).as_str());
    mode.append("x");
    mode.append(signed_text(o.height).as_str());
    mode.append(" @ ");
    mode.append(with_decimals(o.refresh_mhz).as_str());
    mode.append(" Hz   scale ");
    mode.append(scale);
    let mut pos = joined("  pos:   ", signed_text(o.x).as_str());
    pos.append(",");
    pos.append(signed_text(o.y).as_str());
    pos.append("   logical ");
    pos.append(signed_text(o.logical_width).as_str());
    pos.append("x");
    pos.append(signed_text(o.logical_height).as_str());
    let mut out: Vec<String> = Vec::new();
    out.push(first);
    out.push(mode);
    out.push(pos);
    if let Some(n) = o.active_workspace {
        out.push(joined("  active workspace: ", number_text(n as u64).as_str()));
    }
    assert(texts(out@) =~= output_rows(*o, scale@));
    out
}

/// The lines under a heading, or what is shown where there are none.
pub open spec fn listing(rows: Seq<Seq<char>>, heading: Seq<Seq<char>>, nothing: Seq<char>) -> Seq<
    Seq<char>,
> {
    if rows.len() == 0 {
        seq![nothing]
    } else {
        heading + rows
    }
}

/// The lines of the first `n` outputs.
pub open spec fn all_output_rows(os: Seq<OutputInfo>, scales: Seq<String>, n: int) -> Seq<
    Seq<char>,
>
    decreases n,
{
    if n <= 0 {
        Seq::empty()
    } else {
        all_output_rows(os, scales, n - 1) + output_rows(os[n - 1], scales[n - 1]@)
    }
}

/// The heading of the workspace list.
pub open spec fn workspace_heading() -> Seq<char> {
    "OUTPUT     INDEX  ACTIVE WINDOWS"@
}

/// The heading of the list of layer surfaces.
pub open spec fn layer_heading() -> Seq<char> {
    "NAMESPACE              LAYER     OUTPUT        SIZE  KBD     EXCL"@
}

/// The heading of the window list.
pub open spec fn window_heading() -> Seq<char> {
    "  ID  APP_ID           TITLE                        WORKSPACE OUTPUT   STATE"@
}

/// How an answer is shown. `scales` are the scales of the outputs in words.
pub open spec fn shown_response(r: Response, scales: Seq<String>) -> Seq<Seq<char>> {
    match r {
        Response::Version(v) => seq![v.name@ + " "@ + v.version@],
        Response::Outputs(os) => listing(
            all_output_rows(os@, scales, os@.len() as int),
            Seq::empty(),
            "no outputs"@,
        ),
        Response::Workspaces(ws) => listing(
            Seq::new(ws@.len(), |i: int| workspace_row(ws@[i])),
            seq![workspace_heading()],
            "no workspaces"@,
        ),
        Response::Layers(ls) => listing(
            Seq::new(ls@.len(), |i: int| layer_row(ls@[i])),
            seq![layer_heading()],
            "no layer surfaces"@,
        ),
        Response::Windows(ws) => listing(
            Seq::new(ws@.len(), |i: int| window_row(ws@[i])),
            seq![window_heading()],
            "no windows"@,
        ),
        Response::FocusedWindow(w) => match w {
            None => seq!["no focused window"@],
            Some(w) => seq![window_heading(), window_row(w)],
        },
        Response::Binds(bs) => listing(
            Seq::new(bs@.len(), |i: int| bind_row(bs@[i])),
            Seq::empty(),
            "no binds"@,
        ),
        Response::WindowCapture { path, width, height } => seq![
            path@ + " ("@ + signed_decimal(width as int) + "x"@ + signed_decimal(height as int)
                + ")"@,
        ],
        Response::Handled => Seq::empty(),
    }
}

fn one(s: &str) -> (r: Vec<String>)
    ensures
        texts(r@) == seq![s@],
{
    let mut out: Vec<String> = Vec::new();
    out.push(s.to_owned());
    assert(texts(out@) =~= seq![s@]);
    out
}

fn put(out: &mut Vec<String>, line: String)
    ensures
        texts(final(out)@) == texts(old(out)@).push(line@),
{
    out.push(line);
    assert(texts(out@) =~= texts(old(out)@).push(line@));
}

fn outputs_shown(os: &Vec<OutputInfo>, scales: &Vec<String>) -> (r: Vec<String>)
    requires
        scales@.len() == os@.len(),
    ensures
        texts(r@) == all_output_rows(os@, scales@, os@.len() as int),
{
    let mut out: Vec<String> = Vec::new();
    assert(texts(out@) =~= Seq::empty());
    let mut i: usize = 0;
    while i < os.len()
        invariant
            i <= os@.len(),
            scales@.len() == os@.len(),
            texts(out@) == all_output_rows(os@, scales@, i as int),
        decreases os@.len() - i,
    {
        let ghost before = out@;
        let mut lines = output_lines(&os[i], scales[i].as_str());
        let ghost more = lines@;
        out.append(&mut lines);
        assert(texts(out@) =~= texts(before) + texts(more));
        i += 1;
    }
    out
}

fn workspaces_shown(ws: &Vec<WorkspaceInfo>) -> (r: Vec<String>)
    ensures
        texts(r@) == listing(
            Seq::new(ws@.len(), |i: int| workspace_row(ws@[i])),
            seq![workspace_heading()],
            "no workspaces"@,
        ),
{
    let ghost rows = Seq::new(ws@.len(), |i: int| workspace_row(ws@[i]));
    if ws.len() == 0 {
        return one("no workspaces");
    }
    let mut out = one("OUTPUT     INDEX  ACTIVE WINDOWS");
    let ghost head = texts(out@);
    let mut i: usize = 0;
    while i < ws.len()
        invariant
            i <= ws@.len(),
            rows == Seq::new(ws@.len(), |i: int| workspace_row(ws@[i])),
            texts(out@) =~= head + rows.take(i as int),
        decreases ws@.len() - i,
    {
        put(&mut out, workspace_line(&ws[i]));
        i += 1;
    }
    assert(rows.take(i as int) =~= rows);
    out
}

fn layers_shown(ls: &Vec<LayerInfo>) -> (r: Vec<String>)
    ensures
        texts(r@) == listing(
            Seq::new(ls@.len(), |i: int| layer_row(ls@[i])),
            seq![layer_heading()],
            "no layer surfaces"@,
        ),
{
    let ghost rows = Seq::new(ls@.len(), |i: int| layer_row(ls@[i]));
    if ls.len() == 0 {
        return one("no layer surfaces");
    }
    let mut out = one("NAMESPACE              LAYER     OUTPUT        SIZE  KBD     EXCL");
    let ghost head = texts(out@);
    let mut i: usize = 0;
    while i < ls.len()
        invariant
            i <= ls@.len(),
            rows == Seq::new(ls@.len(), |i: int| layer_row(ls@[i])),
            texts(out@) =~= head + rows.take(i as int),
        decreases ls@.len() - i,
    {
        put(&mut out, layer_line(&ls[i]));
        i += 1;
    }
    assert(rows.take(i as int) =~= rows);
    out
}

fn windows_shown(ws: &Vec<WindowInfo>) -> (r: Vec<String>)
    ensures
        texts(r@) == listing(
            Seq::new(ws@.len(), |i: int| window_row(ws@[i])),
            seq![window_heading()],
            "no windows"@,
        ),
{
    let ghost rows = Seq::new(ws@.len(), |i: int| window_row(ws@[i]));
    if ws.len() == 0 {
        return one("no windows");
    }
    let mut out = one(
        "  ID  APP_ID           TITLE                        WORKSPACE OUTPUT   STATE",
    );
    let ghost head = texts(out@);
    let mut i: usize = 0;
    while i < ws.len()
        invariant
            i <= ws@.len(),
            rows == Seq::new(ws@.len(), |i: int| window_row(ws@[i])),
            texts(out@) =~= head + rows.take(i as int),
        decreases ws@.len() - i,
    {
        put(&mut out, window_line(&ws[i]));
        i += 1;
    }
    assert(rows.take(i as int) =~= rows);
    out
}

fn binds_shown(bs: &Vec<BindInfo>) -> (r: Vec<String>)
    ensures
        texts(r@) == listing(
            Seq::new(bs@.len(), |i: int| bind_row(bs@[i])),
            Seq::empty(),
            "no binds"@,
        ),
{
    let ghost rows = Seq::new(bs@.len(), |i: int| bind_row(bs@[i]));
    if bs.len() == 0 {
        return one("no binds");
    }
    let mut out: Vec<String> = Vec::new();
    assert(texts(out@) =~= Seq::empty());
    let mut i: usize = 0;
    while i < bs.len()
        invariant
            i <= bs@.len(),
            rows == Seq::new(bs@.len(), |i: int| bind_row(bs@[i])),
            texts(out@) =~= rows.take(i as int),
        decreases bs@.len() - i,
    {
        put(&mut out, bind_line(&bs[i]));
        i += 1;
    }
    assert(rows.take(i as int) =~= rows);
    assert(Seq::<Seq<char>>::empty() + rows =~= rows);
    out
}

/// How an answer is shown. `scales` are the scales of the outputs in words.
pub fn response_lines(response: &Response, scales: &Vec<String>) -> (r: Vec<String>)
    requires
        response matches Response::Outputs(os) ==> scales@.len() == os@.len(),
    ensures
        texts(r@) == shown_response(*response, scales@),
{
    match response {
        Response::Version(v) => {
            let mut line = joined(v.name.as_str(), " ");
            line.append(v.version.as_str());
            one(line.as_str())
        },
        Response::Outputs(os) => {
            let lines = outputs_shown(os, scales);
            assert(texts(lines@).len() == lines@.len());
            if lines.len() == 0 {
                one("no outputs")
            } else {
                assert(Seq::<Seq<char>>::empty() + texts(lines@) =~= texts(lines@));
                lines
            }
        },
        Response::Workspaces(ws) => workspaces_shown(ws),
        Response::Layers(ls) => layers_shown(ls),
        Response::Windows(ws) => windows_shown(ws),
        Response::FocusedWindow(w) => match w {
            None => one("no focused window"),
            Some(w) => {
                let mut out = one(
                    "  ID  APP_ID           TITLE                        WORKSPACE OUTPUT   STATE",
                );
                put(&mut out, window_line(w));
                assert(texts(out@) =~= seq![window_heading(), window_row(*w)]);
                out
            },
        },
        Response::Binds(bs) => binds_shown(bs),
        Response::WindowCapture { path, width, height } => {
            let mut line = joined(path.as_str(), " (");
            line.append(signed_text(*width).as_str());
            line.append("x");
            line.append(signed_text(*height).as_str());
            line.append(")");
            one(line.as_str())
        },
        Response::Handled => {
            let out: Vec<String> = Vec::new();
            assert(texts(out@) =~= Seq::empty());
            out
        },
    }
}

/// A text that is too long keeps its beginning, and a mark stands for the
/// rest.
pub proof fn cut_texts_keep_their_beginning(s: Seq<char>, max: int, i: int)
    requires
        0 < max < s.len(),
        0 <= i < max - 1,
    ensures
        cut(s, max).len() == max,
        cut(s, max)[i] == s[i],
        cut(s, max)[max - 1] == '\u{2026}',
        cut(s, s.len() as int) == s,
{
    reveal_strlit("…");
}

/// A column is filled up with spaces: behind a text, or before it.
pub proof fn columns_hold_their_text(s: Seq<char>, width: int, i: int)
    requires
        0 <= i,
    ensures
        i < s.len() ==> padded(s, width)[i] == s[i],
        s.len() <= i < width ==> padded(s, width)[i] == ' ',
        i < width - s.len() ==> indented(s, width)[i] == ' ',
        i < s.len() <= width ==> indented(s, width)[width - s.len() + i] == s[i],
        s.len() >= width ==> padded(s, width) == s && indented(s, width) == s,
{
    if s.len() >= width {
        assert(padded(s, width) =~= s);
        assert(indented(s, width) =~= s);
    }
}

proof fn three_digits(n: int)
    requires
        n >= 0,
    ensures
        n % 1000 == (n / 100 % 10) * 100 + (n / 10 % 10) * 10 + n % 10,
{
    let q = n / 10;
    let p = n / 100;
    assert(p == q / 10);
    assert(n == 10 * q + n % 10);
    assert(q == 10 * p + q % 10);
    assert(p == 10 * (n / 1000) + p % 10);
}

proof fn digits_behind_the_point(a: int, b: int, c: int)
    requires
        0 <= a < 10,
        0 <= b < 10,
        0 <= c < 10,
    ensures
        (decimal(a) + decimal(b) + decimal(c)).len() == 3,
        crate::text::digits_value(decimal(a) + decimal(b) + decimal(c)) == Some(
            a * 100 + b * 10 + c,
        ),
{
    let e = Seq::<char>::empty();
    let (x, y, z) = (crate::text::digit(a), crate::text::digit(b), crate::text::digit(c));
    assert(decimal(a) + decimal(b) + decimal(c) =~= e.push(x).push(y).push(z));
    crate::text::digits_count_by_their_place(e, x);
    crate::text::digits_count_by_their_place(e.push(x), y);
    crate::text::digits_count_by_their_place(e.push(x).push(y), z);
}

/// A number of thousandths is written with its whole part before the point and
/// three digits behind it, which read as what is left.
pub proof fn thousandths_have_three_decimals(n: int, behind: Seq<char>)
    requires
        n >= 0,
        behind == decimal(n / 100 % 10) + decimal(n / 10 % 10) + decimal(n % 10),
    ensures
        thousandths(n) == decimal(n / 1000) + seq!['.'] + behind,
        behind.len() == 3,
        crate::text::digits_value(behind) == Some(n % 1000),
        n > 0 ==> thousandths(-n) == seq!['-'] + thousandths(n),
{
    reveal_strlit("");
    reveal_strlit(".");
    reveal_strlit("-");
    let (a, b, c) = (decimal(n / 100 % 10), decimal(n / 10 % 10), decimal(n % 10));
    let whole = decimal(n / 1000);
    digits_behind_the_point(n / 100 % 10, n / 10 % 10, n % 10);
    three_digits(n);
    assert("."@ =~= seq!['.']);
    assert("-"@ =~= seq!['-']);
    assert(""@ + whole + "."@ + a + b + c =~= whole + seq!['.'] + behind);
    if n > 0 {
        assert(thousandths(-n) =~= seq!['-'] + thousandths(n));
    }
}

/// The words for a neighbour are read in any case; any other text is the place
/// of a workspace, if it is a number.
pub proof fn workspaces_are_named_in_any_case(s: Seq<char>)
    ensures
        lowered(s) == "next"@ ==> target_named(s) == Some(WsTargetArg::Next),
        lowered(s) == "previous"@ || lowered(s) == "prev"@ ==> target_named(s) == Some(
            WsTargetArg::Prev,
        ),
        lowered(s) != "next"@ && lowered(s) != "previous"@ && lowered(s) != "prev"@ ==> match index_in(
            s,
        ) {
            Some(i) => target_named(s) == Some(WsTargetArg::Index(i)),
            None => target_named(s).is_none(),
        },
{
    reveal_strlit("next");
    reveal_strlit("prev");
    reveal_strlit("previous");
    assert("next"@[0] != "prev"@[0]);
    assert("next"@.len() != "previous"@.len());
}

/// The columns of the list of windows stand at fixed places where the texts
/// fit in them: the number, the program, the title, the workspace, the output
/// and the state.
pub proof fn window_columns_stand_in_place(w: WindowInfo)
    requires
        decimal(w.id as int).len() <= 4,
        w.workspace matches Some(n) ==> decimal(n as int).len() <= 9,
        w.output matches Some(o) ==> o@.len() <= 8,
    ensures
        window_row(w).len() == 71 + state_words(w).len(),
        window_row(w).subrange(0, 4) == indented(decimal(w.id as int), 4),
        w.app_id matches Some(t) ==> window_row(w).subrange(6, 22) == padded(cut(t@, 16), 16),
        w.title matches Some(t) ==> window_row(w).subrange(23, 51) == padded(cut(t@, 28), 28),
        w.workspace matches Some(n) ==> window_row(w).subrange(52, 61) == padded(
            decimal(n as int),
            9,
        ),
        w.output matches Some(o) ==> window_row(w).subrange(62, 70) == padded(o@, 8),
        window_row(w).skip(71) == state_words(w),
{
    reveal_strlit(" ");
    reveal_strlit("  ");
    reveal_strlit("-");
    let row = window_row(w);
    cut_texts_fit(text_or(w.app_id, "-"@), 16);
    cut_texts_fit(text_or(w.title, "-"@), 28);
    let id = indented(decimal(w.id as int), 4);
    let app = padded(cut(text_or(w.app_id, "-"@), 16), 16);
    let title = padded(cut(text_or(w.title, "-"@), 28), 28);
    let place = padded(
        match w.workspace {
            None => "-"@,
            Some(n) => decimal(n as int),
        },
        9,
    );
    let output = padded(text_or(w.output, "-"@), 8);
    assert(id.len() == 4 && app.len() == 16 && title.len() == 28 && place.len() == 9
        && output.len() == 8);
    assert(row.subrange(0, 4) =~= id);
    assert(row.subrange(6, 22) =~= app);
    assert(row.subrange(23, 51) =~= title);
    assert(row.subrange(52, 61) =~= place);
    assert(row.subrange(62, 70) =~= output);
    assert(row.skip(71) =~= state_words(w));
}

/// The columns of the list of workspaces stand at fixed places where the texts
/// fit in them, and the workspace on show has a star.
pub proof fn workspace_columns_stand_in_place(w: WorkspaceInfo)
    requires
        w.output@.len() <= 10,
        decimal(w.index as int).len() <= 5,
        decimal(w.window_count as int).len() <= 7,
    ensures
        workspace_row(w).len() == 32,
        workspace_row(w).subrange(0, 10) == padded(w.output@, 10),
        workspace_row(w).subrange(11, 16) == indented(decimal(w.index as int), 5),
        w.active <==> workspace_row(w)[18] == '*',
        workspace_row(w).subrange(25, 32) == indented(decimal(w.window_count as int), 7),
{
    reveal_strlit(" ");
    reveal_strlit("  ");
    reveal_strlit("*");
    reveal_strlit("");
    let row = workspace_row(w);
    let mark = padded(
        if w.active {
            "*"@
        } else {
            ""@
        },
        6,
    );
    assert(mark.len() == 6);
    assert(row.subrange(0, 10) =~= padded(w.output@, 10));
    assert(row.subrange(11, 16) =~= indented(decimal(w.index as int), 5));
    assert(row[18] == mark[0]);
    assert(row.subrange(25, 32) =~= indented(decimal(w.window_count as int), 7));
}

/// The columns of the list of layers stand at fixed places where the texts fit
/// in them.
pub proof fn layer_columns_stand_in_place(l: LayerInfo)
    requires
        l.namespace@.len() <= 22,
        l.layer@.len() <= 9,
        l.output matches Some(o) ==> o@.len() <= 8,
        signed_decimal(l.width as int).len() <= 4,
        signed_decimal(l.height as int).len() <= 4,
        signed_decimal(l.exclusive_zone as int).len() <= 8,
    ensures
        layer_row(l).len() == 64,
        layer_row(l).subrange(0, 22) == padded(l.namespace@, 22),
        layer_row(l).subrange(23, 32) == padded(l.layer@, 9),
        l.output matches Some(o) ==> layer_row(l).subrange(33, 41) == padded(o@, 8),
        layer_row(l).subrange(42, 46) == indented(signed_decimal(l.width as int), 4),
        layer_row(l)[46] == 'x',
        layer_row(l).subrange(47, 51) == padded(signed_decimal(l.height as int), 4),
        l.keyboard <==> layer_row(l)[52] == 'y',
        layer_row(l).subrange(56, 64) == indented(signed_decimal(l.exclusive_zone as int), 8),
{
    reveal_strlit(" ");
    reveal_strlit("-");
    reveal_strlit("x");
    reveal_strlit("yes");
    reveal_strlit("");
    let row = layer_row(l);
    let output = padded(text_or(l.output, "-"@), 8);
    let keyboard = padded(
        if l.keyboard {
            "yes"@
        } else {
            ""@
        },
        3,
    );
    assert(output.len() == 8 && keyboard.len() == 3);
    assert(row.subrange(0, 22) =~= padded(l.namespace@, 22));
    assert(row.subrange(23, 32) =~= padded(l.layer@, 9));
    assert(row.subrange(33, 41) =~= output);
    assert(row.subrange(42, 46) =~= indented(signed_decimal(l.width as int), 4));
    assert(row.subrange(47, 51) =~= padded(signed_decimal(l.height as int), 4));
    assert(row[52] == keyboard[0]);
    assert(row.subrange(56, 64) =~= indented(signed_decimal(l.exclusive_zone as int), 8));
}

/// A command asks for what it names, of the window or the workspace it names.
pub proof fn commands_ask_for_what_they_name(
    r: Request,
    id: u64,
    one: Option<u64>,
    max: Option<i32>,
    target: WsTargetArg,
    output: Option<String>,
)
    ensures
        asks_for(Command::FocusWindow { id }, r) <==> r == (Request::FocusWindow { id }),
        asks_for(Command::Close { id: one }, r) <==> r == (Request::Close { id: one }),
        asks_for(Command::ToggleFloating { id: one }, r) <==> r == (Request::ToggleFloating {
            id: one,
        }),
        asks_for(Command::ToggleFullscreen { id: one }, r) <==> r == (Request::ToggleFullscreen {
            id: one,
        }),
        asks_for(Command::ToggleMaximized { id: one }, r) <==> r == (Request::ToggleMaximized {
            id: one,
        }),
        asks_for(Command::CaptureWindow { id, max }, r) <==> r == (Request::CaptureWindow {
            id,
            max,
        }),
        asks_for(Command::MoveToWorkspace { target, id: one }, r) ==> (
        r matches Request::MoveToWorkspace { id: of, target: to } && of == one && match target {
            WsTargetArg::Index(i) => to == WorkspaceTarget::Index(i),
            WsTargetArg::Next => to == WorkspaceTarget::Next,
            WsTargetArg::Prev => to == WorkspaceTarget::Prev,
        }),
        asks_for(Command::FocusWorkspace { target, output }, r) ==> (
        r matches Request::FocusWorkspace { output: on, target: to } && on == output && match target {
            WsTargetArg::Index(i) => to == WorkspaceTarget::Index(i),
            WsTargetArg::Next => to == WorkspaceTarget::Next,
            WsTargetArg::Prev => to == WorkspaceTarget::Prev,
        }),
{
}

} // verus!
