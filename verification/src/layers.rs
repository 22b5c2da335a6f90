//! Panels, launchers and other layer surfaces: where they are, which of them
//! takes the pointer or the keyboard, and how much of an output they reserve.

use vstd::prelude::*;
use vstd::string::*;

use crate::desktop::LayoutModel;
use crate::geometry::{clip, clipped, half, larger, max32, Point, Rect, Size};
use crate::layout::Layout;
use crate::text::same;
use crate::window::SurfaceId;

verus! {

/// The layer of a surface, from the wallpaper up.
#[derive(Debug, Clone, Copy, PartialEq, Eq, Structural)]
pub enum LayerBucket {
    Background,
    Bottom,
    Top,
    Overlay,
}

impl LayerBucket {
    /// How high the layer is.
    pub open spec fn height(self) -> int {
        match self {
            LayerBucket::Background => 0,
            LayerBucket::Bottom => 1,
            LayerBucket::Top => 2,
            LayerBucket::Overlay => 3,
        }
    }

    fn priority(self) -> (r: u8)
        ensures
            r == self.height(),
    {
        match self {
            LayerBucket::Background => 0,
            LayerBucket::Bottom => 1,
            LayerBucket::Top => 2,
            LayerBucket::Overlay => 3,
        }
    }

    /// Whether the layer lies above the windows.
    pub open spec fn is_above(self) -> bool {
        self == LayerBucket::Top || self == LayerBucket::Overlay
    }
}

/// The edges of its output that a surface is tied to.
#[derive(Debug, Clone, Copy, PartialEq, Eq, Structural)]
pub struct Anchors {
    pub top: bool,
    pub bottom: bool,
    pub left: bool,
    pub right: bool,
}

/// The distances a surface keeps from the edges it is tied to.
#[derive(Debug, Clone, Copy, PartialEq, Eq, Structural)]
pub struct Margins {
    pub top: i32,
    pub bottom: i32,
    pub left: i32,
    pub right: i32,
}

/// What a layer surface has asked for.
#[derive(Debug)]
pub struct LayerSurface {
    pub surface: SurfaceId,
    /// The output it asked for.
    pub output: Option<String>,
    pub anchors: Anchors,
    pub margins: Margins,
    /// The size it asked for; a side that is not positive is left to its
    /// output.
    pub size: Size,
    pub layer: LayerBucket,
    /// How many pixels it reserves at its edge.
    pub exclusive_zone: i32,
    /// Whether it takes the keyboard for itself.
    pub keyboard_exclusive: bool,
    pub alive: bool,
}

/// Where a layer surface is drawn.
#[derive(Debug, Clone, Copy, PartialEq, Eq, Structural)]
pub struct LayerPlacement {
    pub surface: SurfaceId,
    pub rect: Rect,
    pub layer: LayerBucket,
}

/// An output and where it is.
#[derive(Debug)]
pub struct OutputRect {
    pub name: String,
    pub rect: Rect,
}

/// The rectangle of the output of a name, from position `from` on.
pub open spec fn rect_from(outputs: Seq<OutputRect>, name: Seq<char>, from: int) -> Option<Rect>
    decreases outputs.len() - from,
{
    if from < 0 || from >= outputs.len() {
        None
    } else if outputs[from].name@ == name {
        Some(outputs[from].rect)
    } else {
        rect_from(outputs, name, from + 1)
    }
}

/// The rectangle of the output that a surface asked for, else of the primary.
pub open spec fn area_for(
    outputs: Seq<OutputRect>,
    name: Option<Seq<char>>,
    primary: Rect,
) -> Rect {
    match name {
        None => primary,
        Some(n) => match rect_from(outputs, n, 0) {
            None => primary,
            Some(r) => r,
        },
    }
}

/// A name that may be missing, as it reads.
pub open spec fn asked(l: LayerSurface) -> Option<Seq<char>> {
    match l.output {
        None => None,
        Some(n) => Some(n@),
    }
}

fn find_rect(outputs: &Vec<OutputRect>, name: &str) -> (r: Option<Rect>)
    ensures
        r == rect_from(outputs@, name@, 0),
{
    let mut i: usize = 0;
    while i < outputs.len()
        invariant
            i <= outputs@.len(),
            rect_from(outputs@, name@, 0) == rect_from(outputs@, name@, i as int),
        decreases outputs@.len() - i,
    {
        if same(outputs[i].name.as_str(), name) {
            return Some(outputs[i].rect);
        }
        i += 1;
    }
    None
}

/// The rectangle of the output that a surface asked for, else of the primary.
pub fn layer_output_rect(l: &LayerSurface, outputs: &Vec<OutputRect>, primary: Rect) -> (r: Rect)
    ensures
        r == area_for(outputs@, asked(*l), primary),
{
    match &l.output {
        None => primary,
        Some(n) => match find_rect(outputs, n.as_str()) {
            None => primary,
            Some(r) => r,
        },
    }
}

/// How long a side is: as it was asked for, else that of the output, less the
/// margins where it is tied to both edges.
pub open spec fn side_length(
    asked: int,
    len: int,
    near: bool,
    far: bool,
    near_margin: int,
    far_margin: int,
) -> i32 {
    if asked > 0 {
        asked as i32
    } else if near && far {
        clipped(len - near_margin - far_margin)
    } else {
        len as i32
    }
}

fn length_of_side(
    asked: i32,
    len: i32,
    near: bool,
    far: bool,
    near_margin: i32,
    far_margin: i32,
) -> (r: i32)
    ensures
        r == side_length(
            asked as int,
            len as int,
            near,
            far,
            near_margin as int,
            far_margin as int,
        ),
{
    if asked > 0 {
        asked
    } else if near && far {
        clip(len as i64 - near_margin as i64 - far_margin as i64)
    } else {
        len
    }
}

/// The size of a layer surface on its output.
pub open spec fn layer_extent(l: LayerSurface, area: Rect) -> Size {
    Size {
        w: side_length(
            l.size.w as int,
            area.size.w as int,
            l.anchors.left,
            l.anchors.right,
            l.margins.left as int,
            l.margins.right as int,
        ),
        h: side_length(
            l.size.h as int,
            area.size.h as int,
            l.anchors.top,
            l.anchors.bottom,
            l.margins.top as int,
            l.margins.bottom as int,
        ),
    }
}

/// The size of a layer surface on its output.
pub fn layer_size(l: &LayerSurface, area: Rect) -> (r: Size)
    ensures
        r == layer_extent(*l, area),
{
    Size {
        w: length_of_side(
            l.size.w,
            area.size.w,
            l.anchors.left,
            l.anchors.right,
            l.margins.left,
            l.margins.right,
        ),
        h: length_of_side(
            l.size.h,
            area.size.h,
            l.anchors.top,
            l.anchors.bottom,
            l.margins.top,
            l.margins.bottom,
        ),
    }
}

/// Where a side starts: at its near edge, else at its far edge, else in the
/// middle.
pub open spec fn side_start(
    at: int,
    len: int,
    size: int,
    near: bool,
    far: bool,
    near_margin: int,
    far_margin: int,
) -> i32 {
    if near {
        clipped(at + near_margin)
    } else if far {
        clipped(at + len - size - far_margin)
    } else {
        clipped(at + half(len - size))
    }
}

fn start_of_side(
    at: i32,
    len: i32,
    size: i32,
    near: bool,
    far: bool,
    near_margin: i32,
    far_margin: i32,
) -> (r: i32)
    ensures
        r == side_start(
            at as int,
            len as int,
            size as int,
            near,
            far,
            near_margin as int,
            far_margin as int,
        ),
{
    if near {
        clip(at as i64 + near_margin as i64)
    } else if far {
        clip(at as i64 + len as i64 - size as i64 - far_margin as i64)
    } else {
        let d: i64 = len as i64 - size as i64;
        let h: i64 = if d >= 0 {
            d / 2
        } else {
            -((-d) / 2)
        };
        clip(at as i64 + h)
    }
}

/// Where a layer surface is drawn on its output.
pub open spec fn placed_layer(l: LayerSurface, area: Rect) -> LayerPlacement {
    let size = layer_extent(l, area);
    LayerPlacement {
        surface: l.surface,
        rect: Rect {
            loc: Point {
                x: side_start(
                    area.loc.x as int,
                    area.size.w as int,
                    size.w as int,
                    l.anchors.left,
                    l.anchors.right,
                    l.margins.left as int,
                    l.margins.right as int,
                ),
                y: side_start(
                    area.loc.y as int,
                    area.size.h as int,
                    size.h as int,
                    l.anchors.top,
                    l.anchors.bottom,
                    l.margins.top as int,
                    l.margins.bottom as int,
                ),
            },
            size,
        },
        layer: l.layer,
    }
}

/// Where all layer surfaces are drawn.
pub open spec fn layer_placements(
    layers: Seq<LayerSurface>,
    outputs: Seq<OutputRect>,
    primary: Rect,
) -> Seq<LayerPlacement> {
    Seq::new(
        layers.len(),
        |i: int| placed_layer(layers[i], area_for(outputs, asked(layers[i]), primary)),
    )
}

/// Where all layer surfaces are drawn.
pub fn snapshot_layer_placements(
    layers: &Vec<LayerSurface>,
    outputs: &Vec<OutputRect>,
    primary: Rect,
) -> (r: Vec<LayerPlacement>)
    ensures
        r@ == layer_placements(layers@, outputs@, primary),
{
    let mut out: Vec<LayerPlacement> = Vec::new();
    let ghost all = layer_placements(layers@, outputs@, primary);
    let mut i: usize = 0;
    while i < layers.len()
        invariant
            i <= layers@.len(),
            all == layer_placements(layers@, outputs@, primary),
            out@ =~= all.take(i as int),
        decreases layers@.len() - i,
    {
        let l = &layers[i];
        let area = layer_output_rect(l, outputs, primary);
        let size = layer_size(l, area);
        out.push(
            LayerPlacement {
                surface: l.surface,
                rect: Rect {
                    loc: Point {
                        x: start_of_side(
                            area.loc.x,
                            area.size.w,
                            size.w,
                            l.anchors.left,
                            l.anchors.right,
                            l.margins.left,
                            l.margins.right,
                        ),
                        y: start_of_side(
                            area.loc.y,
                            area.size.h,
                            size.h,
                            l.anchors.top,
                            l.anchors.bottom,
                            l.margins.top,
                            l.margins.bottom,
                        ),
                    },
                    size,
                },
                layer: l.layer,
            },
        );
        i += 1;
    }
    assert(out@ =~= all);
    out
}

/// Whether a fullscreen window hides a layer: one is on show on the output it
/// asked for, and the layer is not above all windows.
pub open spec fn is_hidden(m: LayoutModel, l: LayerSurface) -> bool {
    l.layer != LayerBucket::Overlay && (asked(l) matches Some(n) && m.fullscreen_on(n).is_some())
}

/// Whether a layer takes the pointer at a point: the point is on it, no
/// fullscreen window hides it, and it claims input there.
pub open spec fn takes_pointer(
    m: LayoutModel,
    l: LayerSurface,
    p: LayerPlacement,
    claims: bool,
    pos: Point,
) -> bool {
    p.rect.holds(pos) && !is_hidden(m, l) && claims
}

/// The layer among the first `n` that takes the pointer: the first of the
/// highest.
pub open spec fn topmost_layer(
    m: LayoutModel,
    layers: Seq<LayerSurface>,
    placements: Seq<LayerPlacement>,
    claims: Seq<bool>,
    pos: Point,
    n: int,
) -> Option<int>
    decreases n,
{
    if n <= 0 {
        None
    } else {
        let before = topmost_layer(m, layers, placements, claims, pos, n - 1);
        if !takes_pointer(m, layers[n - 1], placements[n - 1], claims[n - 1], pos) {
            before
        } else {
            match before {
                None => Some(n - 1),
                Some(b) => if placements[b].layer.height() < placements[n - 1].layer.height() {
                    Some(n - 1)
                } else {
                    Some(b)
                },
            }
        }
    }
}

/// The layer that takes the pointer at a point. `claims` tells of each layer
/// whether its input region has the point.
pub fn layer_at(
    layout: &Layout,
    layers: &Vec<LayerSurface>,
    placements: &Vec<LayerPlacement>,
    claims: &Vec<bool>,
    pos: Point,
) -> (r: Option<(SurfaceId, Rect)>)
    requires
        layout@.valid(),
        placements@.len() == layers@.len(),
        claims@.len() == layers@.len(),
    ensures
        r == (match topmost_layer(
            layout@,
            layers@,
            placements@,
            claims@,
            pos,
            layers@.len() as int,
        ) {
            None => None,
            Some(i) => Some((placements@[i].surface, placements@[i].rect)),
        }),
{
    let mut best: Option<usize> = None;
    let mut i: usize = 0;
    while i < layers.len()
        invariant
            i <= layers@.len(),
            layout@.valid(),
            placements@.len() == layers@.len(),
            claims@.len() == layers@.len(),
            match best {
                None => topmost_layer(
                    layout@,
                    layers@,
                    placements@,
                    claims@,
                    pos,
                    i as int,
                ).is_none(),
                Some(b) => b < i && topmost_layer(
                    layout@,
                    layers@,
                    placements@,
                    claims@,
                    pos,
                    i as int,
                ) == Some(b as int),
            },
        decreases layers@.len() - i,
    {
        let hidden = layers[i].layer != LayerBucket::Overlay && (match &layers[i].output {
            None => false,
            Some(n) => layout.output_has_fullscreen(n.as_str()),
        });
        if placements[i].rect.contains(pos) && !hidden && claims[i] {
            let higher = match best {
                None => true,
                Some(b) => placements[b].layer.priority() < placements[i].layer.priority(),
            };
            if higher {
                best = Some(i);
            }
        }
        i += 1;
    }
    match best {
        None => None,
        Some(b) => Some((placements[b].surface, placements[b].rect)),
    }
}

/// No layer that takes the pointer lies above the one found.
pub proof fn no_layer_lies_above_the_one_found(
    m: LayoutModel,
    layers: Seq<LayerSurface>,
    placements: Seq<LayerPlacement>,
    claims: Seq<bool>,
    pos: Point,
    n: int,
    j: int,
)
    requires
        0 <= j < n <= layers.len(),
        takes_pointer(m, layers[j], placements[j], claims[j], pos),
    ensures
        topmost_layer(m, layers, placements, claims, pos, n) matches Some(b) && 0 <= b < n
            && placements[j].layer.height() <= placements[b].layer.height(),
    decreases n,
{
    topmost_is_in_range(m, layers, placements, claims, pos, n - 1);
    if j < n - 1 {
        no_layer_lies_above_the_one_found(m, layers, placements, claims, pos, n - 1, j);
    }
}

proof fn topmost_is_in_range(
    m: LayoutModel,
    layers: Seq<LayerSurface>,
    placements: Seq<LayerPlacement>,
    claims: Seq<bool>,
    pos: Point,
    n: int,
)
    ensures
        topmost_layer(m, layers, placements, claims, pos, n) matches Some(b) ==> 0 <= b < n,
    decreases n,
{
    if n > 0 {
        topmost_is_in_range(m, layers, placements, claims, pos, n - 1);
    }
}

/// Whether a layer keeps the keyboard for itself.
pub open spec fn is_modal(l: LayerSurface) -> bool {
    l.keyboard_exclusive && l.layer.is_above()
}

fn keeps_keyboard(l: &LayerSurface) -> (r: bool)
    ensures
        r == is_modal(*l),
{
    l.keyboard_exclusive && (l.layer == LayerBucket::Top || l.layer == LayerBucket::Overlay)
}

/// The first layer of a surface at or after `from`.
pub open spec fn layer_from(ls: Seq<LayerSurface>, surface: SurfaceId, from: int) -> Option<int>
    decreases ls.len() - from,
{
    if from < 0 || from >= ls.len() {
        None
    } else if ls[from].surface == surface {
        Some(from)
    } else {
        layer_from(ls, surface, from + 1)
    }
}

/// Whether the keyboard is held by a layer that keeps it for itself.
pub fn focus_locked_by_layer(layers: &Vec<LayerSurface>, focus: Option<SurfaceId>) -> (r: bool)
    ensures
        r == (focus matches Some(s) && (layer_from(layers@, s, 0) matches Some(i) && is_modal(
            layers@[i],
        ))),
{
    let s: SurfaceId = match focus {
        None => {
            return false;
        },
        Some(s) => s,
    };
    let mut i: usize = 0;
    while i < layers.len()
        invariant
            i <= layers@.len(),
            focus == Some(s),
            layer_from(layers@, s, 0) == layer_from(layers@, s, i as int),
        decreases layers@.len() - i,
    {
        if layers[i].surface == s {
            return keeps_keyboard(&layers[i]);
        }
        i += 1;
    }
    false
}

/// The first layer at or after `from` that is alive, keeps the keyboard for
/// itself and is not the excluded one.
pub open spec fn modal_from(
    ls: Seq<LayerSurface>,
    exclude: SurfaceId,
    from: int,
) -> Option<SurfaceId>
    decreases ls.len() - from,
{
    if from < 0 || from >= ls.len() {
        None
    } else if ls[from].surface != exclude && ls[from].alive && is_modal(ls[from]) {
        Some(ls[from].surface)
    } else {
        modal_from(ls, exclude, from + 1)
    }
}

/// Another layer that should have the keyboard when the excluded one goes.
pub fn first_exclusive_layer_surface(layers: &Vec<LayerSurface>, exclude: SurfaceId) -> (r: Option<
    SurfaceId,
>)
    ensures
        r == modal_from(layers@, exclude, 0),
{
    let mut i: usize = 0;
    while i < layers.len()
        invariant
            i <= layers@.len(),
            modal_from(layers@, exclude, 0) == modal_from(layers@, exclude, i as int),
        decreases layers@.len() - i,
    {
        if layers[i].surface != exclude && layers[i].alive && keeps_keyboard(&layers[i]) {
            return Some(layers[i].surface);
        }
        i += 1;
    }
    None
}

/// How much of an output is reserved at each edge.
#[derive(Debug, Clone, Copy, PartialEq, Eq, Structural)]
pub struct Zone {
    pub top: i32,
    pub bottom: i32,
    pub left: i32,
    pub right: i32,
}

/// A zone with the reservation of one more layer, which is added to the one
/// edge it is tied to without its opposite, top and bottom before left and
/// right.
pub open spec fn reserved(z: Zone, a: Anchors, exclusive: i32) -> Zone {
    if exclusive <= 0 {
        z
    } else if a.top && !a.bottom {
        Zone { top: clipped(z.top + exclusive), ..z }
    } else if a.bottom && !a.top {
        Zone { bottom: clipped(z.bottom + exclusive), ..z }
    } else if a.left && !a.right {
        Zone { left: clipped(z.left + exclusive), ..z }
    } else if a.right && !a.left {
        Zone { right: clipped(z.right + exclusive), ..z }
    } else {
        z
    }
}

fn reserve(z: Zone, a: Anchors, exclusive: i32) -> (r: Zone)
    ensures
        r == reserved(z, a, exclusive),
{
    let mut out = z;
    if exclusive <= 0 {
        return out;
    }
    if a.top && !a.bottom {
        out.top = clip(out.top as i64 + exclusive as i64);
    } else if a.bottom && !a.top {
        out.bottom = clip(out.bottom as i64 + exclusive as i64);
    } else if a.left && !a.right {
        out.left = clip(out.left as i64 + exclusive as i64);
    } else if a.right && !a.left {
        out.right = clip(out.right as i64 + exclusive as i64);
    }
    out
}

/// Whether layers of a bucket can reserve room: those right above and right
/// below the windows can, the overlay and the background cannot.
pub open spec fn reserves(bucket: LayerBucket) -> bool {
    bucket == LayerBucket::Top || bucket == LayerBucket::Bottom
}

/// Whether a layer counts for an output: it can reserve room, and asked for the
/// output, or for none where the output is the primary one.
pub open spec fn counts_for(l: LayerSurface, name: Seq<char>, primary: Seq<char>) -> bool {
    reserves(l.layer) && match asked(l) {
        Some(n) => n == name,
        None => primary == name,
    }
}

/// What the first `n` layers reserve of an output.
pub open spec fn zone_of(
    ls: Seq<LayerSurface>,
    name: Seq<char>,
    primary: Seq<char>,
    n: int,
) -> Zone
    decreases n,
{
    if n <= 0 {
        Zone { top: 0, bottom: 0, left: 0, right: 0 }
    } else {
        let z = zone_of(ls, name, primary, n - 1);
        if counts_for(ls[n - 1], name, primary) {
            reserved(z, ls[n - 1].anchors, ls[n - 1].exclusive_zone)
        } else {
            z
        }
    }
}

/// What a zone leaves of an output, never less than one pixel.
pub open spec fn outside_zone(rect: Rect, z: Zone) -> Rect {
    Rect {
        loc: Point { x: clipped(rect.loc.x + z.left), y: clipped(rect.loc.y + z.top) },
        size: Size {
            w: larger(clipped(rect.size.w - z.left - z.right) as int, 1) as i32,
            h: larger(clipped(rect.size.h - z.top - z.bottom) as int, 1) as i32,
        },
    }
}

fn zone_for(layers: &Vec<LayerSurface>, name: &str, primary: &str) -> (r: Zone)
    ensures
        r == zone_of(layers@, name@, primary@, layers@.len() as int),
{
    let mut z = Zone { top: 0, bottom: 0, left: 0, right: 0 };
    let mut i: usize = 0;
    while i < layers.len()
        invariant
            i <= layers@.len(),
            z == zone_of(layers@, name@, primary@, i as int),
        decreases layers@.len() - i,
    {
        let here = match &layers[i].output {
            Some(n) => same(n.as_str(), name),
            None => same(primary, name),
        };
        let bucket = layers[i].layer;
        if (bucket == LayerBucket::Top || bucket == LayerBucket::Bottom) && here {
            z = reserve(z, layers[i].anchors, layers[i].exclusive_zone);
        }
        i += 1;
    }
    z
}

/// What a zone leaves of an output.
pub fn work_area(rect: Rect, z: Zone) -> (r: Rect)
    ensures
        r == outside_zone(rect, z),
{
    Rect {
        loc: Point {
            x: clip(rect.loc.x as i64 + z.left as i64),
            y: clip(rect.loc.y as i64 + z.top as i64),
        },
        size: Size {
            w: max32(clip(rect.size.w as i64 - z.left as i64 - z.right as i64), 1),
            h: max32(clip(rect.size.h as i64 - z.top as i64 - z.bottom as i64), 1),
        },
    }
}

/// The desktop with the work areas of the first `n` outputs set to what the
/// layers leave.
pub open spec fn reserving(
    m: LayoutModel,
    ls: Seq<LayerSurface>,
    outputs: Seq<OutputRect>,
    primary: Seq<char>,
    n: int,
) -> LayoutModel
    decreases n,
{
    if n <= 0 {
        m
    } else {
        let o = outputs[n - 1];
        reserving(m, ls, outputs, primary, n - 1).bounding(
            o.name@,
            o.rect,
            outside_zone(o.rect, zone_of(ls, o.name@, primary, ls.len() as int)),
        )
    }
}

/// Sets the work area of every output to what the layers leave of it. Without
/// outputs there is nothing to do.
pub fn recompute_layer_layout(
    layout: &mut Layout,
    layers: &Vec<LayerSurface>,
    outputs: &Vec<OutputRect>,
    primary: Option<&str>,
)
    requires
        old(layout)@.valid(),
    ensures
        final(layout)@ == (match primary {
            None => old(layout)@,
            Some(p) => reserving(old(layout)@, layers@, outputs@, p@, outputs@.len() as int),
        }),
        final(layout)@.valid(),
{
    let first = match primary {
        None => {
            return ;
        },
        Some(p) => p,
    };
    let mut i: usize = 0;
    while i < outputs.len()
        invariant
            i <= outputs@.len(),
            layout@.valid(),
            layout@ == reserving(old(layout)@, layers@, outputs@, first@, i as int),
        decreases outputs@.len() - i,
    {
        let name = outputs[i].name.as_str();
        let rect = outputs[i].rect;
        let z = zone_for(layers, name, first);
        layout.set_output_bounds(name, rect, work_area(rect, z));
        i += 1;
    }
}

/// What layers reserve never grows an output's work area beyond the output,
/// where it reserves less than the output has and stays in range.
pub proof fn work_areas_stay_inside(rect: Rect, z: Zone, p: Point)
    requires
        z.top >= 0,
        z.bottom >= 0,
        z.left >= 0,
        z.right >= 0,
        z.left + z.right < rect.size.w,
        z.top + z.bottom < rect.size.h,
        rect.loc.x + rect.size.w <= i32::MAX,
        rect.loc.y + rect.size.h <= i32::MAX,
        outside_zone(rect, z).holds(p),
    ensures
        rect.holds(p),
{
}

/// Whether a side of a layer is where its anchors tie it: away from an edge it
/// is tied to by the margin there, from the near edge before the far one, and
/// in the middle where it is tied to neither.
pub open spec fn is_tied_to(
    at: int,
    len: int,
    outer_at: int,
    outer_len: int,
    near: bool,
    far: bool,
    near_margin: int,
    far_margin: int,
) -> bool {
    &&& near ==> at == outer_at + near_margin
    &&& !near && far ==> at + len == outer_at + outer_len - far_margin
    &&& !near && !far ==> -1 <= (at - outer_at) - (outer_at + outer_len - at - len) <= 1
}

/// Whether a number is a coordinate.
pub open spec fn in_range(v: int) -> bool {
    i32::MIN <= v <= i32::MAX
}

/// A layer lies at the edges of its output that it is tied to, as far from them
/// as its margins say, and in the middle between edges that it is not tied to.
/// It has the size it asked for. A side it has left open reaches over the
/// output, and where it is tied to both edges, from one margin to the other.
pub proof fn layers_lie_at_their_edges(l: LayerSurface, area: Rect)
    requires
        area.size.w >= 0,
        area.size.h >= 0,
        l.margins.left >= 0 && l.margins.right >= 0 && l.margins.top >= 0 && l.margins.bottom >= 0,
        in_range(area.loc.x + area.size.w),
        in_range(area.loc.y + area.size.h),
        in_range(area.loc.x + l.margins.left),
        in_range(area.loc.y + l.margins.top),
        in_range(area.loc.x + area.size.w - l.size.w - l.margins.right),
        in_range(area.loc.y + area.size.h - l.size.h - l.margins.bottom),
        in_range(area.loc.x - l.margins.right),
        in_range(area.loc.y - l.margins.bottom),
        in_range(area.size.w - l.margins.left - l.margins.right),
        in_range(area.size.h - l.margins.top - l.margins.bottom),
        in_range(area.loc.x - l.size.w),
        in_range(area.loc.y - l.size.h),
    ensures
        ({
            let r = placed_layer(l, area).rect;
            &&& is_tied_to(
                r.loc.x as int,
                r.size.w as int,
                area.loc.x as int,
                area.size.w as int,
                l.anchors.left,
                l.anchors.right,
                l.margins.left as int,
                l.margins.right as int,
            )
            &&& is_tied_to(
                r.loc.y as int,
                r.size.h as int,
                area.loc.y as int,
                area.size.h as int,
                l.anchors.top,
                l.anchors.bottom,
                l.margins.top as int,
                l.margins.bottom as int,
            )
            &&& l.size.w > 0 ==> r.size.w == l.size.w
            &&& l.size.h > 0 ==> r.size.h == l.size.h
            &&& l.size.w <= 0 && l.anchors.left && l.anchors.right ==> r.loc.x + r.size.w
                == area.loc.x + area.size.w - l.margins.right
            &&& l.size.h <= 0 && l.anchors.top && l.anchors.bottom ==> r.loc.y + r.size.h
                == area.loc.y + area.size.h - l.margins.bottom
            &&& l.size.w <= 0 && !(l.anchors.left && l.anchors.right) ==> r.size.w == area.size.w
            &&& l.size.h <= 0 && !(l.anchors.top && l.anchors.bottom) ==> r.size.h == area.size.h
            &&& placed_layer(l, area).surface == l.surface
            &&& placed_layer(l, area).layer == l.layer
        }),
{
}

/// Of layers that take the pointer at a point and are equally high, the first
/// is found, and what is found does take the pointer.
pub proof fn the_first_of_the_highest_layers_is_found(
    m: LayoutModel,
    layers: Seq<LayerSurface>,
    placements: Seq<LayerPlacement>,
    claims: Seq<bool>,
    pos: Point,
    n: int,
    j: int,
)
    requires
        0 <= n <= layers.len(),
        0 <= j < n,
        topmost_layer(m, layers, placements, claims, pos, n).is_some(),
    ensures
        ({
            let b = topmost_layer(m, layers, placements, claims, pos, n).unwrap();
            &&& 0 <= b < n
            &&& placements[b].rect.holds(pos)
            &&& claims[b]
            &&& !is_hidden(m, layers[b])
            &&& j < b && placements[j].rect.holds(pos) && claims[j] && !is_hidden(m, layers[j])
                ==> placements[j].layer.height() < placements[b].layer.height()
        }),
    decreases n,
{
    topmost_is_in_range(m, layers, placements, claims, pos, n);
    topmost_is_in_range(m, layers, placements, claims, pos, n - 1);
    if topmost_layer(m, layers, placements, claims, pos, n - 1).is_some() && n > 1 {
        if j < n - 1 {
            the_first_of_the_highest_layers_is_found(m, layers, placements, claims, pos, n - 1, j);
            if takes_pointer(m, layers[j], placements[j], claims[j], pos) {
                no_layer_lies_above_the_one_found(m, layers, placements, claims, pos, n - 1, j);
            }
        } else {
            the_first_of_the_highest_layers_is_found(m, layers, placements, claims, pos, n - 1, 0);
        }
    } else if j < n - 1 && takes_pointer(m, layers[j], placements[j], claims[j], pos) {
        no_layer_lies_above_the_one_found(m, layers, placements, claims, pos, n - 1, j);
    }
}

/// Overlays lie above the top layer, that above the bottom one, and that above
/// the background.
pub proof fn layers_are_stacked()
    ensures
        LayerBucket::Overlay.height() > LayerBucket::Top.height(),
        LayerBucket::Top.height() > LayerBucket::Bottom.height(),
        LayerBucket::Bottom.height() > LayerBucket::Background.height(),
{
}

/// The rectangle of an output is that of the first of its name.
pub proof fn layers_go_by_the_first_output_of_a_name(outputs: Seq<OutputRect>, i: int, from: int)
    requires
        0 <= from <= i < outputs.len(),
        forall|k: int| from <= k < i ==> (#[trigger] outputs[k]).name@ != outputs[i].name@,
    ensures
        rect_from(outputs, outputs[i].name@, from) == Some(outputs[i].rect),
    decreases i - from,
{
    if from < i {
        layers_go_by_the_first_output_of_a_name(outputs, i, from + 1);
    }
}

/// An output that is not there has no rectangle.
pub proof fn outputs_that_are_not_there_have_no_place(
    outputs: Seq<OutputRect>,
    name: Seq<char>,
    from: int,
)
    requires
        0 <= from,
        forall|k: int| from <= k < outputs.len() ==> (#[trigger] outputs[k]).name@ != name,
    ensures
        rect_from(outputs, name, from).is_none(),
    decreases outputs.len() - from,
{
    if from < outputs.len() {
        outputs_that_are_not_there_have_no_place(outputs, name, from + 1);
    }
}

/// A layer lies on the output it asked for; on the primary one where it asked
/// for none, or where that output is not there.
pub proof fn layers_lie_on_the_output_they_asked_for(
    outputs: Seq<OutputRect>,
    i: int,
    name: Seq<char>,
    primary: Rect,
)
    ensures
        area_for(outputs, None, primary) == primary,
        0 <= i < outputs.len() && (forall|k: int|
            0 <= k < i ==> (#[trigger] outputs[k]).name@ != outputs[i].name@) ==> area_for(
            outputs,
            Some(outputs[i].name@),
            primary,
        ) == outputs[i].rect,
        (forall|k: int| 0 <= k < outputs.len() ==> (#[trigger] outputs[k]).name@ != name)
            ==> area_for(outputs, Some(name), primary) == primary,
{
    if 0 <= i < outputs.len() && (forall|k: int|
        0 <= k < i ==> (#[trigger] outputs[k]).name@ != outputs[i].name@) {
        layers_go_by_the_first_output_of_a_name(outputs, i, 0);
    }
    if forall|k: int| 0 <= k < outputs.len() ==> (#[trigger] outputs[k]).name@ != name {
        outputs_that_are_not_there_have_no_place(outputs, name, 0);
    }
}

/// A fullscreen window hides the layers of its output, but not those that lie
/// above all.
pub proof fn fullscreen_windows_hide_layers(m: LayoutModel, l: LayerSurface)
    ensures
        l.layer == LayerBucket::Overlay ==> !is_hidden(m, l),
        l.output.is_none() ==> !is_hidden(m, l),
        l.layer != LayerBucket::Overlay && l.output.is_some() ==> (is_hidden(m, l)
            <==> m.fullscreen_on(l.output.unwrap()@).is_some()),
{
}

/// A layer takes the pointer where it lies, where it claims input, and where
/// it is not hidden; nowhere else.
pub proof fn layers_take_the_pointer_where_they_lie(
    m: LayoutModel,
    l: LayerSurface,
    p: LayerPlacement,
    pos: Point,
)
    ensures
        !takes_pointer(m, l, p, false, pos),
        is_hidden(m, l) ==> !takes_pointer(m, l, p, true, pos),
        !is_hidden(m, l) ==> (takes_pointer(m, l, p, true, pos) <==> p.rect.loc.x <= pos.x
            < p.rect.loc.x + p.rect.size.w && p.rect.loc.y <= pos.y < p.rect.loc.y + p.rect.size.h),
{
}

/// A layer keeps the keyboard for itself where it asked to and lies above the
/// windows.
pub proof fn only_layers_above_keep_the_keyboard(l: LayerSurface)
    ensures
        is_modal(l) <==> l.keyboard_exclusive && (l.layer == LayerBucket::Top || l.layer
            == LayerBucket::Overlay),
{
}

/// The layer of a surface is the first one that draws to it.
pub proof fn the_first_layer_of_a_surface_counts(
    ls: Seq<LayerSurface>,
    surface: SurfaceId,
    from: int,
)
    requires
        0 <= from,
    ensures
        match layer_from(ls, surface, from) {
            None => forall|i: int| from <= i < ls.len() ==> (#[trigger] ls[i]).surface != surface,
            Some(k) => from <= k < ls.len() && ls[k].surface == surface && forall|i: int|
                from <= i < k ==> (#[trigger] ls[i]).surface != surface,
        },
    decreases ls.len() - from,
{
    if from < ls.len() && ls[from].surface != surface {
        the_first_layer_of_a_surface_counts(ls, surface, from + 1);
    }
}

/// The keyboard goes to the first living layer that keeps it for itself, but
/// for the one that is given; to none only where there is no such layer.
pub proof fn the_first_layer_that_keeps_the_keyboard_gets_it(
    ls: Seq<LayerSurface>,
    exclude: SurfaceId,
    from: int,
)
    requires
        0 <= from,
    ensures
        match modal_from(ls, exclude, from) {
            None => forall|i: int|
                from <= i < ls.len() ==> !((#[trigger] ls[i]).surface != exclude && ls[i].alive
                    && is_modal(ls[i])),
            Some(s) => exists|k: int|
                from <= k < ls.len() && (#[trigger] ls[k]).surface == s && s != exclude
                    && ls[k].alive && is_modal(ls[k]) && forall|i: int|
                    from <= i < k ==> !((#[trigger] ls[i]).surface != exclude && ls[i].alive
                        && is_modal(ls[i])),
        },
    decreases ls.len() - from,
{
    if from < ls.len() {
        if ls[from].surface != exclude && ls[from].alive && is_modal(ls[from]) {
            assert(ls[from].surface == ls[from].surface);
        } else {
            the_first_layer_that_keeps_the_keyboard_gets_it(ls, exclude, from + 1);
        }
    }
}

} // verus!
