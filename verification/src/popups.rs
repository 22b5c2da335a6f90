//! Menus: where they are drawn, and which of them is under the pointer.

use vstd::prelude::*;

use crate::desktop::Placement;
use crate::geometry::{clip, clipped, larger, max32, Point, Rect};
use crate::layers::LayerPlacement;
use crate::window::SurfaceId;

verus! {

/// A menu as its client has set it up.
#[derive(Debug, Clone, Copy, PartialEq, Eq, Structural)]
pub struct PopupFacts {
    /// The window or layer at the root of its chain.
    pub root: SurfaceId,
    pub surface: SurfaceId,
    /// Whether it is a menu, and not an input method's window.
    pub is_menu: bool,
    /// Where it is, from its root's content.
    pub location: Point,
    /// The visible part of its buffer; without an area where not declared.
    pub geometry: Rect,
    /// The extent of its buffer.
    pub extent: Rect,
}

/// A window that an X client has placed by itself, such as a menu.
#[derive(Debug, Clone, Copy, PartialEq, Eq, Structural)]
pub struct OverrideWindow {
    pub surface: SurfaceId,
    pub alive: bool,
    pub rect: Rect,
}

/// Where a menu is drawn.
#[derive(Debug, Clone, Copy, PartialEq, Eq, Structural)]
pub struct PopupPlacement {
    pub surface: SurfaceId,
    /// Where the corner of its buffer is.
    pub buffer_origin: Point,
    /// Its visible part.
    pub rect: Rect,
}

/// A window or layer that menus can hang on.
#[derive(Debug, Clone, Copy, PartialEq, Eq, Structural)]
pub struct PopupParent {
    pub root: SurfaceId,
    /// Where its content starts.
    pub origin: Point,
}

/// The first output at or after `from` that has a point.
pub open spec fn output_from(outputs: Seq<Rect>, p: Point, from: int) -> Option<Rect>
    decreases outputs.len() - from,
{
    if from < 0 || from >= outputs.len() {
        None
    } else if outputs[from].holds(p) {
        Some(outputs[from])
    } else {
        output_from(outputs, p, from + 1)
    }
}

/// The output that has a point, else the first.
pub open spec fn output_for(outputs: Seq<Rect>, p: Point) -> Option<Rect> {
    if output_from(outputs, p, 0).is_some() {
        output_from(outputs, p, 0)
    } else if outputs.len() > 0 {
        Some(outputs[0])
    } else {
        None
    }
}

fn find_output(outputs: &Vec<Rect>, p: Point) -> (r: Option<Rect>)
    ensures
        r == output_for(outputs@, p),
{
    let mut i: usize = 0;
    while i < outputs.len()
        invariant
            i <= outputs@.len(),
            output_from(outputs@, p, 0) == output_from(outputs@, p, i as int),
        decreases outputs@.len() - i,
    {
        if outputs[i].contains(p) {
            return Some(outputs[i]);
        }
        i += 1;
    }
    if outputs.len() > 0 {
        Some(outputs[0])
    } else {
        None
    }
}

/// Where a side starts after it is slid into a range: back from its far end,
/// but not before its near end.
pub open spec fn slid(at: int, len: int, from: int, size: int) -> int {
    larger(
        if at + len > from + size {
            clipped(from + size - len) as int
        } else {
            at
        },
        from,
    )
}

fn slide(at: i32, len: i32, from: i32, size: i32) -> (r: i32)
    ensures
        r == slid(at as int, len as int, from as int, size as int),
{
    let end: i64 = from as i64 + size as i64;
    let start: i32 = if at as i64 + len as i64 > end {
        clip(end - len as i64)
    } else {
        at
    };
    max32(start, from)
}

/// The visible part of a menu's buffer: as declared, else all of it.
pub open spec fn visible_part(f: PopupFacts) -> Rect {
    if f.geometry.size.is_positive() {
        f.geometry
    } else {
        f.extent
    }
}

/// Where a menu is drawn: at its place from its parent's content, slid into
/// the output where there is one.
pub open spec fn placed_popup(
    f: PopupFacts,
    origin: Point,
    output: Option<Rect>,
) -> PopupPlacement {
    let part = visible_part(f);
    let x = clipped(origin.x + f.location.x) as int;
    let y = clipped(origin.y + f.location.y) as int;
    let (left, top) = match output {
        None => (x, y),
        Some(o) => (
            slid(x, part.size.w as int, o.loc.x as int, o.size.w as int),
            slid(y, part.size.h as int, o.loc.y as int, o.size.h as int),
        ),
    };
    PopupPlacement {
        surface: f.surface,
        buffer_origin: Point { x: clipped(left - part.loc.x), y: clipped(top - part.loc.y) },
        rect: Rect { loc: Point { x: left as i32, y: top as i32 }, size: part.size },
    }
}

fn place_popup(f: &PopupFacts, origin: Point, output: Option<Rect>) -> (r: PopupPlacement)
    ensures
        r == placed_popup(*f, origin, output),
{
    let part = if f.geometry.size.w > 0 && f.geometry.size.h > 0 {
        f.geometry
    } else {
        f.extent
    };
    let x: i32 = clip(origin.x as i64 + f.location.x as i64);
    let y: i32 = clip(origin.y as i64 + f.location.y as i64);
    let (left, top) = match output {
        None => (x, y),
        Some(o) => (
            slide(x, part.size.w, o.loc.x, o.size.w),
            slide(y, part.size.h, o.loc.y, o.size.h),
        ),
    };
    PopupPlacement {
        surface: f.surface,
        buffer_origin: Point {
            x: clip(left as i64 - part.loc.x as i64),
            y: clip(top as i64 - part.loc.y as i64),
        },
        rect: Rect { loc: Point { x: left, y: top }, size: part.size },
    }
}

/// A menu no larger than its output is drawn wholly on it.
pub proof fn menus_stay_on_their_output(f: PopupFacts, origin: Point, output: Rect, p: Point)
    requires
        visible_part(f).size.is_positive(),
        visible_part(f).size.w <= output.size.w,
        visible_part(f).size.h <= output.size.h,
        output.loc.x + output.size.w <= i32::MAX,
        output.loc.y + output.size.h <= i32::MAX,
        placed_popup(f, origin, Some(output)).rect.holds(p),
    ensures
        output.holds(p),
{
}

/// A menu that already lies on its output stays where its client put it.
pub proof fn menus_that_fit_are_not_moved(f: PopupFacts, origin: Point, output: Rect)
    requires
        output.loc.x <= origin.x + f.location.x,
        origin.x + f.location.x + visible_part(f).size.w <= output.loc.x + output.size.w,
        output.loc.y <= origin.y + f.location.y,
        origin.y + f.location.y + visible_part(f).size.h <= output.loc.y + output.size.h,
        i32::MIN <= origin.x + f.location.x <= i32::MAX,
        i32::MIN <= origin.y + f.location.y <= i32::MAX,
    ensures
        placed_popup(f, origin, Some(output)) == placed_popup(f, origin, None),
{
}

/// The menus among the first `n` that hang on a parent.
pub open spec fn menus_on(
    parent: PopupParent,
    facts: Seq<PopupFacts>,
    outputs: Seq<Rect>,
    n: int,
) -> Seq<PopupPlacement>
    decreases n,
{
    if n <= 0 {
        Seq::empty()
    } else if facts[n - 1].root == parent.root && facts[n - 1].is_menu {
        menus_on(parent, facts, outputs, n - 1).push(
            placed_popup(facts[n - 1], parent.origin, output_for(outputs, parent.origin)),
        )
    } else {
        menus_on(parent, facts, outputs, n - 1)
    }
}

/// The menus of the first `n` parents.
pub open spec fn menus_of(
    parents: Seq<PopupParent>,
    facts: Seq<PopupFacts>,
    outputs: Seq<Rect>,
    n: int,
) -> Seq<PopupPlacement>
    decreases n,
{
    if n <= 0 {
        Seq::empty()
    } else {
        menus_of(parents, facts, outputs, n - 1) + menus_on(
            parents[n - 1],
            facts,
            outputs,
            facts.len() as int,
        )
    }
}

/// The windows among the first `n` that X clients have placed themselves.
pub open spec fn self_placed(ws: Seq<OverrideWindow>, n: int) -> Seq<PopupPlacement>
    decreases n,
{
    if n <= 0 {
        Seq::empty()
    } else if ws[n - 1].alive {
        self_placed(ws, n - 1).push(
            PopupPlacement {
                surface: ws[n - 1].surface,
                buffer_origin: ws[n - 1].rect.loc,
                rect: ws[n - 1].rect,
            },
        )
    } else {
        self_placed(ws, n - 1)
    }
}

/// What menus can hang on: the drawn windows, whose content starts inside
/// their border, and then the layers.
pub open spec fn popup_parents(
    placements: Seq<Placement>,
    layers: Seq<LayerPlacement>,
    border: i32,
) -> Seq<PopupParent> {
    Seq::new(
        placements.len(),
        |i: int|
            PopupParent {
                root: placements[i].surface,
                origin: placements[i].cell_rect.loc.moved(Point { x: border, y: border }),
            },
    ) + Seq::new(
        layers.len(),
        |i: int| PopupParent { root: layers[i].surface, origin: layers[i].rect.loc },
    )
}

fn collect_parents(
    placements: &Vec<Placement>,
    layers: &Vec<LayerPlacement>,
    border: i32,
) -> (r: Vec<PopupParent>)
    ensures
        r@ == popup_parents(placements@, layers@, border),
{
    let ghost all = popup_parents(placements@, layers@, border);
    let mut out: Vec<PopupParent> = Vec::new();
    let mut i: usize = 0;
    while i < placements.len()
        invariant
            i <= placements@.len(),
            all == popup_parents(placements@, layers@, border),
            out@ =~= all.take(i as int),
        decreases placements@.len() - i,
    {
        out.push(
            PopupParent {
                root: placements[i].surface,
                origin: placements[i].cell_rect.loc.offset(Point { x: border, y: border }),
            },
        );
        i += 1;
    }
    let mut j: usize = 0;
    while j < layers.len()
        invariant
            j <= layers@.len(),
            all == popup_parents(placements@, layers@, border),
            out@ =~= all.take(placements@.len() + j),
        decreases layers@.len() - j,
    {
        out.push(PopupParent { root: layers[j].surface, origin: layers[j].rect.loc });
        j += 1;
    }
    assert(out@ =~= all);
    out
}

/// Where every menu is drawn, parents before the menus that hang on them and
/// windows that X clients placed last.
pub fn snapshot_popup_placements(
    placements: &Vec<Placement>,
    layers: &Vec<LayerPlacement>,
    border: i32,
    outputs: &Vec<Rect>,
    facts: &Vec<PopupFacts>,
    overrides: &Vec<OverrideWindow>,
) -> (r: Vec<PopupPlacement>)
    ensures
        ({
            let parents = popup_parents(placements@, layers@, border);
            r@ == menus_of(parents, facts@, outputs@, parents.len() as int) + self_placed(
                overrides@,
                overrides@.len() as int,
            )
        }),
{
    let parents = collect_parents(placements, layers, border);
    let mut out: Vec<PopupPlacement> = Vec::new();
    let mut i: usize = 0;
    while i < parents.len()
        invariant
            i <= parents@.len(),
            out@ =~= menus_of(parents@, facts@, outputs@, i as int),
        decreases parents@.len() - i,
    {
        let parent = parents[i];
        let output = find_output(outputs, parent.origin);
        let ghost before = out@;
        let mut j: usize = 0;
        while j < facts.len()
            invariant
                j <= facts@.len(),
                output == output_for(outputs@, parent.origin),
                out@ =~= before + menus_on(parent, facts@, outputs@, j as int),
            decreases facts@.len() - j,
        {
            if facts[j].root == parent.root && facts[j].is_menu {
                out.push(place_popup(&facts[j], parent.origin, output));
            }
            j += 1;
        }
        i += 1;
    }
    let ghost menus = out@;
    let mut k: usize = 0;
    while k < overrides.len()
        invariant
            k <= overrides@.len(),
            out@ =~= menus + self_placed(overrides@, k as int),
        decreases overrides@.len() - k,
    {
        let w = overrides[k];
        if w.alive {
            out.push(
                PopupPlacement { surface: w.surface, buffer_origin: w.rect.loc, rect: w.rect },
            );
        }
        k += 1;
    }
    out
}

/// The last of the first `n` menus that has a point.
pub open spec fn menu_at(ps: Seq<PopupPlacement>, pos: Point, n: int) -> Option<PopupPlacement>
    decreases n,
{
    if n <= 0 {
        None
    } else if ps[n - 1].rect.holds(pos) {
        Some(ps[n - 1])
    } else {
        menu_at(ps, pos, n - 1)
    }
}

/// The topmost menu at a point, with the corner of its buffer.
pub fn popup_at(snapshot: &Vec<PopupPlacement>, pos: Point) -> (r: Option<(SurfaceId, Point)>)
    ensures
        r == (match menu_at(snapshot@, pos, snapshot@.len() as int) {
            None => None,
            Some(p) => Some((p.surface, p.buffer_origin)),
        }),
{
    let mut n: usize = snapshot.len();
    while n > 0
        invariant
            n <= snapshot@.len(),
            menu_at(snapshot@, pos, snapshot@.len() as int) == menu_at(
                snapshot@,
                pos,
                n as int,
            ),
        decreases n,
    {
        let p = snapshot[n - 1];
        if p.rect.contains(pos) {
            return Some((p.surface, p.buffer_origin));
        }
        n -= 1;
    }
    None
}

/// The rectangle into which a menu's client is asked to fit it, measured from
/// the content of what the menu hangs on: its output. `within_root` is where
/// that is inside the root, nothing for the root itself. None where the root
/// is not drawn or there is no output.
pub fn unconstrain_popup_geometry(
    root_origin: Option<Point>,
    within_root: Point,
    outputs: &Vec<Rect>,
) -> (r: Option<Rect>)
    ensures
        r == (match root_origin {
            None => None,
            Some(o) => match output_for(outputs@, o) {
                None => None,
                Some(out) => Some(
                    Rect {
                        loc: Point {
                            x: clipped(out.loc.x - clipped(o.x + within_root.x)),
                            y: clipped(out.loc.y - clipped(o.y + within_root.y)),
                        },
                        size: out.size,
                    },
                ),
            },
        }),
{
    let o = match root_origin {
        None => {
            return None;
        },
        Some(o) => o,
    };
    match find_output(outputs, o) {
        None => None,
        Some(out) => {
            let p = o.offset(within_root);
            Some(
                Rect {
                    loc: Point {
                        x: clip(out.loc.x as i64 - p.x as i64),
                        y: clip(out.loc.y as i64 - p.y as i64),
                    },
                    size: out.size,
                },
            )
        },
    }
}

/// The root that holds the menu grab, while it lives and has menus open.
pub fn refresh_popup_grab(grab: Option<SurfaceId>, alive: bool, has_menus: bool) -> (r: Option<
    SurfaceId,
>)
    ensures
        r == (if alive && has_menus {
            grab
        } else {
            None
        }),
{
    if alive && has_menus {
        grab
    } else {
        None
    }
}

/// A menu that sticks out of its output is moved back just as far as needed:
/// one that reaches too far right ends at the right edge, one that begins too
/// far left or does not fit begins at the left edge, and likewise for the other
/// direction.
pub proof fn menus_are_moved_no_further_than_needed(f: PopupFacts, origin: Point, output: Rect)
    requires
        visible_part(f).size.is_positive(),
        output.size.is_positive(),
        i32::MIN <= origin.x + f.location.x <= i32::MAX,
        i32::MIN <= origin.y + f.location.y <= i32::MAX,
        output.loc.x + output.size.w <= i32::MAX,
        output.loc.y + output.size.h <= i32::MAX,
    ensures
        ({
            let r = placed_popup(f, origin, Some(output)).rect;
            let (x, y) = (origin.x + f.location.x, origin.y + f.location.y);
            let (w, h) = (visible_part(f).size.w, visible_part(f).size.h);
            let (right, bottom) = (
                output.loc.x + output.size.w,
                output.loc.y + output.size.h,
            );
            &&& r.size == visible_part(f).size
            &&& x + w > right && w <= output.size.w ==> r.loc.x + r.size.w == right
            &&& x < output.loc.x || w > output.size.w && x + w > right ==> r.loc.x == output.loc.x
            &&& x >= output.loc.x && x + w <= right ==> r.loc.x == x
            &&& y + h > bottom && h <= output.size.h ==> r.loc.y + r.size.h == bottom
            &&& y < output.loc.y || h > output.size.h && y + h > bottom ==> r.loc.y == output.loc.y
            &&& y >= output.loc.y && y + h <= bottom ==> r.loc.y == y
        }),
{
}

/// The buffer of a menu is where its visible part comes to lie where the menu
/// is drawn. That part is what the client declared, if it has an area.
pub proof fn buffers_lie_around_what_is_visible(
    f: PopupFacts,
    origin: Point,
    output: Option<Rect>,
)
    requires
        ({
            let r = placed_popup(f, origin, output).rect;
            let part = if f.geometry.size.w > 0 && f.geometry.size.h > 0 {
                f.geometry
            } else {
                f.extent
            };
            &&& i32::MIN <= r.loc.x - part.loc.x <= i32::MAX
            &&& i32::MIN <= r.loc.y - part.loc.y <= i32::MAX
        }),
    ensures
        ({
            let p = placed_popup(f, origin, output);
            let part = if f.geometry.size.w > 0 && f.geometry.size.h > 0 {
                f.geometry
            } else {
                f.extent
            };
            &&& p.surface == f.surface
            &&& p.rect.size == part.size
            &&& p.buffer_origin.x + part.loc.x == p.rect.loc.x
            &&& p.buffer_origin.y + part.loc.y == p.rect.loc.y
        }),
{
}

/// The menu found at a point is the last of all that have the point, and so the
/// one that is drawn above the others.
pub proof fn the_topmost_menu_is_found(ps: Seq<PopupPlacement>, pos: Point, n: int)
    requires
        0 <= n <= ps.len(),
    ensures
        menu_at(ps, pos, n).is_none() ==> forall|j: int|
            0 <= j < n ==> !(#[trigger] ps[j]).rect.holds(pos),
        menu_at(ps, pos, n).is_some() ==> exists|j: int|
            {
                &&& 0 <= j < n
                &&& #[trigger] ps[j] == menu_at(ps, pos, n).unwrap()
                &&& ps[j].rect.holds(pos)
                &&& forall|k: int| j < k < n ==> !(#[trigger] ps[k]).rect.holds(pos)
            },
    decreases n,
{
    if n > 0 {
        the_topmost_menu_is_found(ps, pos, n - 1);
        if ps[n - 1].rect.holds(pos) {
            assert(ps[n - 1] == menu_at(ps, pos, n).unwrap());
        } else if menu_at(ps, pos, n - 1).is_some() {
            let j = choose|j: int|
                {
                    &&& 0 <= j < n - 1
                    &&& #[trigger] ps[j] == menu_at(ps, pos, n - 1).unwrap()
                    &&& ps[j].rect.holds(pos)
                    &&& forall|k: int| j < k < n - 1 ==> !(#[trigger] ps[k]).rect.holds(pos)
                };
            assert(ps[j] == menu_at(ps, pos, n).unwrap());
        }
    }
}

/// A menu is kept on the output that its parent is on: the first that has the
/// corner of the parent's content, else the first of all.
pub proof fn menus_are_on_the_output_of_their_parent(outputs: Seq<Rect>, p: Point, i: int)
    requires
        0 <= i < outputs.len(),
        outputs[i].holds(p),
        forall|j: int| 0 <= j < i ==> !(#[trigger] outputs[j]).holds(p),
    ensures
        output_for(outputs, p) == Some(outputs[i]),
{
    first_output_is_found(outputs, p, 0, i);
}

proof fn first_output_is_found(outputs: Seq<Rect>, p: Point, from: int, i: int)
    requires
        0 <= from <= i < outputs.len(),
        outputs[i].holds(p),
        forall|j: int| from <= j < i ==> !(#[trigger] outputs[j]).holds(p),
    ensures
        output_from(outputs, p, from) == Some(outputs[i]),
    decreases i - from,
{
    if from < i {
        assert(!outputs[from].holds(p));
        first_output_is_found(outputs, p, from + 1, i);
    }
}

/// Menus hang on the content of a drawn window, which starts past its border,
/// and on the corner of a layer.
pub proof fn menus_hang_on_the_content(
    placements: Seq<Placement>,
    layers: Seq<LayerPlacement>,
    border: i32,
    k: int,
)
    requires
        0 <= k < placements.len() + layers.len(),
        k < placements.len() ==> placements[k].cell_rect.loc.x + border <= i32::MAX
            && placements[k].cell_rect.loc.y + border <= i32::MAX,
        border >= 0,
    ensures
        ({
            let ps = popup_parents(placements, layers, border);
            &&& ps.len() == placements.len() + layers.len()
            &&& k < placements.len() ==> ps[k].root == placements[k].surface && ps[k].origin.x
                == placements[k].cell_rect.loc.x + border && ps[k].origin.y
                == placements[k].cell_rect.loc.y + border
            &&& k >= placements.len() ==> ps[k].root == layers[k - placements.len()].surface
                && ps[k].origin == layers[k - placements.len()].rect.loc
        }),
{
}

/// The menus on a parent are those whose chain it is the root of, each where it
/// belongs, in order. Input methods' windows are not among them.
pub proof fn every_menu_is_drawn(
    parent: PopupParent,
    facts: Seq<PopupFacts>,
    outputs: Seq<Rect>,
    n: int,
    k: int,
)
    requires
        0 <= k < n <= facts.len(),
        facts[k].root == parent.root,
        facts[k].is_menu,
    ensures
        exists|j: int|
            0 <= j < menus_on(parent, facts, outputs, n).len() && #[trigger] menus_on(
                parent,
                facts,
                outputs,
                n,
            )[j] == placed_popup(facts[k], parent.origin, output_for(outputs, parent.origin)),
    decreases n,
{
    let l = menus_on(parent, facts, outputs, n);
    if k == n - 1 {
        assert(l[l.len() - 1] == placed_popup(
            facts[k],
            parent.origin,
            output_for(outputs, parent.origin),
        ));
    } else {
        every_menu_is_drawn(parent, facts, outputs, n - 1, k);
        let before = menus_on(parent, facts, outputs, n - 1);
        let j = choose|j: int|
            0 <= j < before.len() && #[trigger] before[j] == placed_popup(
                facts[k],
                parent.origin,
                output_for(outputs, parent.origin),
            );
        assert(l[j] == before[j]);
    }
}

/// Without outputs no menu is moved.
pub proof fn menus_stay_where_there_is_no_output(p: Point)
    ensures
        output_for(Seq::empty(), p).is_none(),
{
}

} // verus!
