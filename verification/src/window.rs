//! Windows, their decoration, and what their clients are told.

use vstd::prelude::*;

use crate::geometry::{clip, clipped, larger, max32, Point, Rect, Size};

verus! {

/// The number of a client surface. Two surfaces of one session never share it.
pub type SurfaceId = u64;

/// How much of its output a window covers.
#[derive(Debug, Clone, Copy, PartialEq, Eq, Structural)]
pub enum FillMode {
    /// The window keeps its tile or floating rectangle.
    Normal,
    /// The window covers the work area, beside the panels.
    Maximized,
    /// The window covers the whole output, above the panels.
    Fullscreen,
}

impl Default for FillMode {
    fn default() -> (r: FillMode)
        ensures
            r == FillMode::Normal,
    {
        FillMode::Normal
    }
}

/// Whether new windows tile or stack.
#[derive(Debug, Clone, Copy, PartialEq, Eq, Structural)]
pub enum LayoutMode {
    Tiling,
    Floating,
}

/// The shell role through which a window speaks to the compositor.
#[derive(Debug, Clone, Copy, PartialEq, Eq, Structural)]
pub enum WindowSurface {
    /// A native toplevel, known by its surface.
    Xdg(SurfaceId),
    /// A window of the X server, with the surface it draws to.
    X11 { window: u32, wl_surface: SurfaceId },
}

impl WindowSurface {
    /// The surface the window draws to.
    pub open spec fn id(self) -> SurfaceId {
        match self {
            WindowSurface::Xdg(s) => s,
            WindowSurface::X11 { window: _, wl_surface } => wl_surface,
        }
    }

    /// The surface the window draws to.
    pub fn wl_surface(&self) -> (r: SurfaceId)
        ensures
            r == self.id(),
    {
        match self {
            WindowSurface::Xdg(s) => *s,
            WindowSurface::X11 { window: _, wl_surface } => *wl_surface,
        }
    }
}

/// A managed window: its role, its rectangle while it does not fill its
/// output, and its fill mode.
#[derive(Debug, Clone, Copy, PartialEq, Eq, Structural)]
pub struct Window {
    pub toplevel: WindowSurface,
    pub rect: Rect,
    pub fill: FillMode,
}

impl Window {
    /// The surface the window draws to.
    pub open spec fn id(self) -> SurfaceId {
        self.toplevel.id()
    }
}

/// The two rectangles of an output: all of it, and what the panels leave.
#[derive(Debug, Clone, Copy, PartialEq, Eq, Structural)]
pub struct OutputArea {
    pub full: Rect,
    pub work: Rect,
}

impl OutputArea {
    /// The rectangle a window of the given fill mode covers.
    pub open spec fn filled(self, mode: FillMode) -> Rect {
        if mode == FillMode::Fullscreen {
            self.full
        } else {
            self.work
        }
    }

    /// The rectangle a window of the given fill mode covers.
    pub fn fill(self, mode: FillMode) -> (r: Rect)
        ensures
            r == self.filled(mode),
    {
        match mode {
            FillMode::Fullscreen => self.full,
            _ => self.work,
        }
    }

    /// The rectangle in which a window is drawn: its own while it fills
    /// nothing, the filled one otherwise.
    pub open spec fn cell_of(self, w: Window) -> Rect {
        if w.fill == FillMode::Normal {
            w.rect
        } else {
            self.filled(w.fill)
        }
    }

    /// The rectangle in which a window is drawn.
    pub fn cell(self, w: &Window) -> (r: Rect)
        ensures
            r == self.cell_of(*w),
    {
        match w.fill {
            FillMode::Normal => w.rect,
            _ => self.fill(w.fill),
        }
    }
}

/// The frame around a window's content: a border on all four sides and a
/// titlebar under the top border.
#[derive(Debug, Clone, Copy, PartialEq, Eq, Structural)]
pub struct Deco {
    pub border: i32,
    pub titlebar: i32,
}

impl Default for Deco {
    fn default() -> (r: Deco)
        ensures
            r == Deco::nothing(),
    {
        Deco { border: 0, titlebar: 0 }
    }
}

impl Deco {
    /// No frame at all.
    pub open spec fn nothing() -> Deco {
        Deco { border: 0, titlebar: 0 }
    }

    /// A frame with the given parts; a negative part counts as none.
    #[must_use]
    pub fn new(border: i32, titlebar: i32) -> (r: Deco)
        ensures
            r.border == larger(border as int, 0),
            r.titlebar == larger(titlebar as int, 0),
    {
        Deco { border: max32(border, 0), titlebar: max32(titlebar, 0) }
    }

    /// No frame at all.
    #[must_use]
    pub fn none() -> (r: Deco)
        ensures
            r == Deco::nothing(),
    {
        Deco { border: 0, titlebar: 0 }
    }

    /// The height of the frame above the content.
    #[must_use]
    pub fn top(self) -> (r: i32)
        ensures
            r == clipped(self.border + self.titlebar),
    {
        clip(self.border as i64 + self.titlebar as i64)
    }

    /// Where the content starts, measured from the cell's corner.
    pub open spec fn inset(self) -> Point {
        Point { x: self.border, y: clipped(self.border + self.titlebar) }
    }

    /// Where the content starts, measured from the cell's corner.
    #[must_use]
    pub fn content_offset(self) -> (r: Point)
        ensures
            r == self.inset(),
    {
        Point { x: self.border, y: self.top() }
    }

    /// The content that fits in a cell, never less than one pixel.
    pub open spec fn inner(self, cell: Size) -> Size {
        Size {
            w: larger(clipped(cell.w - 2 * self.border) as int, 1) as i32,
            h: larger(clipped(cell.h - self.titlebar - 2 * self.border) as int, 1) as i32,
        }
    }

    /// The content that fits in a cell, never less than one pixel.
    #[must_use]
    pub fn content_size(self, cell_size: Size) -> (r: Size)
        ensures
            r == self.inner(cell_size),
    {
        Size {
            w: max32(clip(cell_size.w as i64 - 2 * (self.border as i64)), 1),
            h: max32(
                clip(cell_size.h as i64 - self.titlebar as i64 - 2 * (self.border as i64)),
                1,
            ),
        }
    }

    /// The rectangle of the content in a cell.
    pub open spec fn inner_rect(self, cell: Rect) -> Rect {
        Rect { loc: cell.loc.moved(self.inset()), size: self.inner(cell.size) }
    }

    /// The rectangle of the content in a cell.
    #[must_use]
    pub fn content_rect(self, cell: Rect) -> (r: Rect)
        ensures
            r == self.inner_rect(cell),
    {
        Rect { loc: cell.loc.offset(self.content_offset()), size: self.content_size(cell.size) }
    }

    /// The cell that content of the given size needs.
    pub open spec fn outer(self, content: Size) -> Size {
        Size {
            w: clipped(content.w + 2 * self.border),
            h: clipped(content.h + self.titlebar + 2 * self.border),
        }
    }

    /// The cell that content of the given size needs.
    #[must_use]
    pub fn cell_size_for(self, content: Size) -> (r: Size)
        ensures
            r == self.outer(content),
    {
        Size {
            w: clip(content.w as i64 + 2 * (self.border as i64)),
            h: clip(content.h as i64 + self.titlebar as i64 + 2 * (self.border as i64)),
        }
    }

    /// The frame a window of the given fill mode keeps: fullscreen drops it,
    /// and so does maximized unless windows stack, where the titlebar is
    /// needed to undo it.
    pub open spec fn under(self, mode: LayoutMode, fill: FillMode) -> Deco {
        if fill == FillMode::Normal || (fill == FillMode::Maximized && mode
            == LayoutMode::Floating) {
            self
        } else {
            Deco::nothing()
        }
    }
}

/// The frame a window of the given fill mode keeps.
pub fn deco_for_fill(deco: Deco, mode: LayoutMode, fill: FillMode) -> (r: Deco)
    ensures
        r == deco.under(mode, fill),
{
    match fill {
        FillMode::Normal => deco,
        FillMode::Maximized => match mode {
            LayoutMode::Floating => deco,
            LayoutMode::Tiling => Deco::none(),
        },
        FillMode::Fullscreen => Deco::none(),
    }
}

/// Content of at least one pixel that can be framed without leaving the
/// coordinate range comes back unchanged from the cell made for it.
pub proof fn cell_and_content_sizes_are_inverse(deco: Deco, content: Size)
    requires
        content.w >= 1,
        content.h >= 1,
        deco.border >= 0,
        deco.titlebar >= 0,
        content.w + 2 * deco.border <= i32::MAX,
        content.h + deco.titlebar + 2 * deco.border <= i32::MAX,
    ensures
        deco.inner(deco.outer(content)) == content,
{
}

/// However small the cell, its client is asked for at least one pixel.
pub proof fn content_is_never_empty(deco: Deco, cell: Size)
    ensures
        deco.inner(cell).w >= 1,
        deco.inner(cell).h >= 1,
{
}

/// Content never reaches outside its cell, as long as the cell can hold its
/// own frame and one pixel and lies inside the coordinate range.
pub proof fn content_stays_in_its_cell(deco: Deco, cell: Rect, p: Point)
    requires
        deco.border >= 0,
        deco.titlebar >= 0,
        cell.size.w > 2 * deco.border,
        cell.size.h > deco.titlebar + 2 * deco.border,
        cell.loc.x + deco.border <= i32::MAX,
        cell.loc.y + deco.border + deco.titlebar <= i32::MAX,
        deco.inner_rect(cell).holds(p),
    ensures
        cell.holds(p),
{
}

/// A size and state that a client is asked to take.
#[derive(Debug, Clone, Copy, PartialEq, Eq, Structural)]
pub enum Configure {
    /// For a native toplevel, which is always told that it is active.
    Xdg { surface: SurfaceId, size: Size, tiled: bool, maximized: bool, fullscreen: bool },
    /// For a window of the X server, which also learns its position.
    X11 { window: u32, rect: Rect, maximized: bool, fullscreen: bool },
}

/// What a window without a frame that covers `rect` is told.
pub open spec fn filled_configure(w: Window, rect: Rect) -> Configure {
    match w.toplevel {
        WindowSurface::Xdg(surface) => Configure::Xdg {
            surface,
            size: rect.size.floored(),
            tiled: false,
            maximized: w.fill == FillMode::Maximized,
            fullscreen: w.fill == FillMode::Fullscreen,
        },
        WindowSurface::X11 { window, wl_surface: _ } => x11_configure(window, rect, w.fill),
    }
}

/// What a window of the X server is told: its content rectangle, at least one
/// pixel large, and its two state flags.
pub open spec fn x11_configure(window: u32, rect: Rect, fill: FillMode) -> Configure {
    Configure::X11 {
        window,
        rect: Rect { loc: rect.loc, size: rect.size.floored() },
        maximized: fill == FillMode::Maximized,
        fullscreen: fill == FillMode::Fullscreen,
    }
}

/// What a tiled window is told.
pub open spec fn tile_configure(w: Window, deco: Deco, area: OutputArea) -> Configure {
    if w.fill != FillMode::Normal {
        filled_configure(w, area.filled(w.fill))
    } else {
        match w.toplevel {
            WindowSurface::Xdg(surface) => Configure::Xdg {
                surface,
                size: deco.inner(w.rect.size),
                tiled: true,
                maximized: false,
                fullscreen: false,
            },
            WindowSurface::X11 { window, wl_surface: _ } => x11_configure(
                window,
                deco.inner_rect(w.rect),
                FillMode::Normal,
            ),
        }
    }
}

/// What a floating window is told.
pub open spec fn floating_configure(w: Window, deco: Deco, area: OutputArea) -> Configure {
    if w.fill != FillMode::Normal && deco == Deco::nothing() {
        filled_configure(w, area.filled(w.fill))
    } else {
        match w.toplevel {
            WindowSurface::Xdg(surface) => Configure::Xdg {
                surface,
                size: deco.inner(area.cell_of(w).size),
                tiled: false,
                maximized: w.fill == FillMode::Maximized,
                fullscreen: false,
            },
            WindowSurface::X11 { window, wl_surface: _ } => x11_configure(
                window,
                deco.inner_rect(area.cell_of(w)),
                w.fill,
            ),
        }
    }
}

fn push_x11_configure(window: u32, rect: Rect, fill: FillMode) -> (r: Configure)
    ensures
        r == x11_configure(window, rect, fill),
{
    Configure::X11 {
        window,
        rect: Rect { loc: rect.loc, size: rect.size.at_least_one() },
        maximized: fill == FillMode::Maximized,
        fullscreen: fill == FillMode::Fullscreen,
    }
}

fn push_configure_filled(w: &Window, rect: Rect) -> (r: Configure)
    ensures
        r == filled_configure(*w, rect),
{
    match w.toplevel {
        WindowSurface::Xdg(surface) => Configure::Xdg {
            surface,
            size: rect.size.at_least_one(),
            tiled: false,
            maximized: w.fill == FillMode::Maximized,
            fullscreen: w.fill == FillMode::Fullscreen,
        },
        WindowSurface::X11 { window, wl_surface: _ } => push_x11_configure(window, rect, w.fill),
    }
}

/// What a tiled window is told.
pub fn push_configure_for_tile(w: &Window, deco: Deco, area: OutputArea) -> (r: Configure)
    ensures
        r == tile_configure(*w, deco, area),
{
    if w.fill != FillMode::Normal {
        return push_configure_filled(w, area.fill(w.fill));
    }
    match w.toplevel {
        WindowSurface::Xdg(surface) => Configure::Xdg {
            surface,
            size: deco.content_size(w.rect.size),
            tiled: true,
            maximized: false,
            fullscreen: false,
        },
        WindowSurface::X11 { window, wl_surface: _ } => push_x11_configure(
            window,
            deco.content_rect(w.rect),
            FillMode::Normal,
        ),
    }
}

/// What a floating window is told.
pub fn push_configure_for_floating(w: &Window, deco: Deco, area: OutputArea) -> (r: Configure)
    ensures
        r == floating_configure(*w, deco, area),
{
    if w.fill != FillMode::Normal && deco == Deco::none() {
        return push_configure_filled(w, area.fill(w.fill));
    }
    let cell = area.cell(w);
    match w.toplevel {
        WindowSurface::Xdg(surface) => Configure::Xdg {
            surface,
            size: deco.content_size(cell.size),
            tiled: false,
            maximized: w.fill == FillMode::Maximized,
            fullscreen: false,
        },
        WindowSurface::X11 { window, wl_surface: _ } => push_x11_configure(
            window,
            deco.content_rect(cell),
            w.fill,
        ),
    }
}

/// The state flags of a window of the X server that have to be changed: one is
/// only written where it differs from what the server already holds.
pub fn x11_flag_changes(
    is_maximized: bool,
    is_fullscreen: bool,
    maximized: bool,
    fullscreen: bool,
) -> (r: (Option<bool>, Option<bool>))
    ensures
        r.0 == (if is_maximized != maximized {
            Some(maximized)
        } else {
            None::<bool>
        }),
        r.1 == (if is_fullscreen != fullscreen {
            Some(fullscreen)
        } else {
            None::<bool>
        }),
{
    (
        if is_maximized != maximized {
            Some(maximized)
        } else {
            None
        },
        if is_fullscreen != fullscreen {
            Some(fullscreen)
        } else {
            None
        },
    )
}

/// No configure of either kind asks for an empty window.
pub proof fn configures_are_never_empty(w: Window, deco: Deco, area: OutputArea)
    ensures
        configured_size(tile_configure(w, deco, area)).is_positive(),
        configured_size(floating_configure(w, deco, area)).is_positive(),
{
}

/// The size a configure asks for.
pub open spec fn configured_size(c: Configure) -> Size {
    match c {
        Configure::Xdg { surface: _, size, tiled: _, maximized: _, fullscreen: _ } => size,
        Configure::X11 { window: _, rect, maximized: _, fullscreen: _ } => rect.size,
    }
}

/// The frame lies around the content: a border on each side and the titlebar
/// above. What it takes, the content lacks.
pub proof fn frames_lie_around_the_content(deco: Deco, cell: Rect)
    requires
        0 <= deco.border,
        0 <= deco.titlebar,
        2 * deco.border < cell.size.w,
        deco.titlebar + 2 * deco.border < cell.size.h,
        cell.loc.x + cell.size.w <= i32::MAX,
        cell.loc.y + cell.size.h <= i32::MAX,
    ensures
        ({
            let content = deco.inner_rect(cell);
            &&& content.loc.x == cell.loc.x + deco.border
            &&& content.loc.y == cell.loc.y + deco.border + deco.titlebar
            &&& content.loc.x + content.size.w + deco.border == cell.loc.x + cell.size.w
            &&& content.loc.y + content.size.h + deco.border == cell.loc.y + cell.size.h
        }),
{
}

/// A fullscreen window covers its whole output, a maximized one what the
/// panels leave, and any other has its own rectangle.
pub proof fn windows_cover_what_their_fill_says(area: OutputArea, w: Window)
    ensures
        w.fill == FillMode::Fullscreen ==> area.cell_of(w) == area.full,
        w.fill == FillMode::Maximized ==> area.cell_of(w) == area.work,
        w.fill == FillMode::Normal ==> area.cell_of(w) == w.rect,
        area.filled(FillMode::Fullscreen) == area.full,
        area.filled(FillMode::Maximized) == area.work,
{
}

/// Fullscreen windows have no frame, plain ones have theirs; maximized ones
/// keep it only where windows float.
pub proof fn frames_depend_on_the_fill(deco: Deco)
    ensures
        deco.under(LayoutMode::Tiling, FillMode::Fullscreen) == (Deco { border: 0, titlebar: 0 }),
        deco.under(LayoutMode::Floating, FillMode::Fullscreen) == (Deco { border: 0, titlebar: 0 }),
        deco.under(LayoutMode::Tiling, FillMode::Maximized) == (Deco { border: 0, titlebar: 0 }),
        deco.under(LayoutMode::Floating, FillMode::Maximized) == deco,
        deco.under(LayoutMode::Tiling, FillMode::Normal) == deco,
        deco.under(LayoutMode::Floating, FillMode::Normal) == deco,
{
}

} // verus!
