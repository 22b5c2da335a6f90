//! What panels keep for themselves: the strips at the edges of an output in
//! which no window is put.

use vstd::prelude::*;

use crate::desktop::{pane_search_is_exact, LayoutModel, Probe};
use crate::geometry::{Point, Rect};
use crate::layers::{
    asked, outside_zone, reserved, reserving, zone_of, Anchors, LayerBucket, LayerSurface,
    OutputRect,
};

verus! {

/// An edge of an output.
#[derive(Debug, Clone, Copy, PartialEq, Eq, Structural)]
pub enum Edge {
    Top,
    Bottom,
    Left,
    Right,
}

/// Whether a layer reserves room at an edge: it is tied to it and not to the
/// opposite one. One that is tied to the top or the bottom alone reserves there
/// and not at a side.
pub open spec fn is_tied(a: Anchors, edge: Edge) -> bool {
    match edge {
        Edge::Top => a.top && !a.bottom,
        Edge::Bottom => a.bottom && !a.top,
        Edge::Left => a.left && !a.right && a.top == a.bottom,
        Edge::Right => a.right && !a.left && a.top == a.bottom,
    }
}

/// Whether a layer is on an output: the one it asked for, or the primary one
/// where it asked for none.
pub open spec fn is_on(l: LayerSurface, name: Seq<char>, primary: Seq<char>) -> bool {
    match l.output {
        Some(n) => n@ == name,
        None => primary == name,
    }
}

/// How many pixels a layer reserves at an edge of an output. Only layers next
/// to the windows reserve any.
pub open spec fn strip(l: LayerSurface, name: Seq<char>, primary: Seq<char>, edge: Edge) -> int {
    if is_on(l, name, primary) && (l.layer == LayerBucket::Top || l.layer == LayerBucket::Bottom)
        && l.exclusive_zone > 0 && is_tied(l.anchors, edge) {
        l.exclusive_zone as int
    } else {
        0
    }
}

/// How many pixels the first `n` layers reserve at an edge of an output.
pub open spec fn strips(
    ls: Seq<LayerSurface>,
    name: Seq<char>,
    primary: Seq<char>,
    edge: Edge,
    n: int,
) -> int
    decreases n,
{
    if n <= 0 {
        0
    } else {
        strips(ls, name, primary, edge, n - 1) + strip(ls[n - 1], name, primary, edge)
    }
}

/// Whether an output has room for all that is reserved and a pixel more, and
/// lies in the coordinate range.
pub open spec fn has_room_for_strips(
    rect: Rect,
    ls: Seq<LayerSurface>,
    name: Seq<char>,
    primary: Seq<char>,
) -> bool {
    let n = ls.len() as int;
    &&& strips(ls, name, primary, Edge::Top, n) + strips(ls, name, primary, Edge::Bottom, n)
        < rect.size.h
    &&& strips(ls, name, primary, Edge::Left, n) + strips(ls, name, primary, Edge::Right, n)
        < rect.size.w
    &&& rect.loc.x + rect.size.w <= i32::MAX
    &&& rect.loc.y + rect.size.h <= i32::MAX
}

proof fn strips_grow(
    ls: Seq<LayerSurface>,
    name: Seq<char>,
    primary: Seq<char>,
    edge: Edge,
    k: int,
    n: int,
)
    requires
        0 <= k <= n,
    ensures
        0 <= strips(ls, name, primary, edge, k) <= strips(ls, name, primary, edge, n),
        k < n ==> strip(ls[k], name, primary, edge) <= strips(ls, name, primary, edge, n),
    decreases n,
{
    if k < n {
        strips_grow(ls, name, primary, edge, k, n - 1);
    } else if n > 0 {
        strips_grow(ls, name, primary, edge, n - 1, n - 1);
    }
}

proof fn zones_are_sums(ls: Seq<LayerSurface>, name: Seq<char>, primary: Seq<char>, n: int)
    requires
        0 <= n,
        strips(ls, name, primary, Edge::Top, n) <= i32::MAX,
        strips(ls, name, primary, Edge::Bottom, n) <= i32::MAX,
        strips(ls, name, primary, Edge::Left, n) <= i32::MAX,
        strips(ls, name, primary, Edge::Right, n) <= i32::MAX,
    ensures
        zone_of(ls, name, primary, n).top == strips(ls, name, primary, Edge::Top, n),
        zone_of(ls, name, primary, n).bottom == strips(ls, name, primary, Edge::Bottom, n),
        zone_of(ls, name, primary, n).left == strips(ls, name, primary, Edge::Left, n),
        zone_of(ls, name, primary, n).right == strips(ls, name, primary, Edge::Right, n),
    decreases n,
{
    if n > 0 {
        strips_grow(ls, name, primary, Edge::Top, n - 1, n);
        strips_grow(ls, name, primary, Edge::Bottom, n - 1, n);
        strips_grow(ls, name, primary, Edge::Left, n - 1, n);
        strips_grow(ls, name, primary, Edge::Right, n - 1, n);
        zones_are_sums(ls, name, primary, n - 1);
    }
}

/// Whether an area is what the strips leave of an output: each of its edges is
/// as far from that of the output as is reserved there.
pub open spec fn is_between_strips(
    area: Rect,
    rect: Rect,
    ls: Seq<LayerSurface>,
    name: Seq<char>,
    primary: Seq<char>,
) -> bool {
    let n = ls.len() as int;
    &&& area.loc.y == rect.loc.y + strips(ls, name, primary, Edge::Top, n)
    &&& area.loc.y + area.size.h == rect.loc.y + rect.size.h - strips(
        ls,
        name,
        primary,
        Edge::Bottom,
        n,
    )
    &&& area.loc.x == rect.loc.x + strips(ls, name, primary, Edge::Left, n)
    &&& area.loc.x + area.size.w == rect.loc.x + rect.size.w - strips(
        ls,
        name,
        primary,
        Edge::Right,
        n,
    )
}

proof fn zones_leave_what_is_between(
    rect: Rect,
    ls: Seq<LayerSurface>,
    name: Seq<char>,
    primary: Seq<char>,
)
    requires
        has_room_for_strips(rect, ls, name, primary),
    ensures
        is_between_strips(
            outside_zone(rect, zone_of(ls, name, primary, ls.len() as int)),
            rect,
            ls,
            name,
            primary,
        ),
{
    let n = ls.len() as int;
    strips_grow(ls, name, primary, Edge::Top, n, n);
    strips_grow(ls, name, primary, Edge::Bottom, n, n);
    strips_grow(ls, name, primary, Edge::Left, n, n);
    strips_grow(ls, name, primary, Edge::Right, n, n);
    zones_are_sums(ls, name, primary, n);
}

/// Whether a point is in the strip of that many pixels at an edge.
pub open spec fn in_strip(rect: Rect, edge: Edge, pixels: int, p: Point) -> bool {
    match edge {
        Edge::Top => p.y < rect.loc.y + pixels,
        Edge::Bottom => p.y >= rect.loc.y + rect.size.h - pixels,
        Edge::Left => p.x < rect.loc.x + pixels,
        Edge::Right => p.x >= rect.loc.x + rect.size.w - pixels,
    }
}

/// Whether the outputs have names of their own.
pub open spec fn have_own_names(outputs: Seq<OutputRect>) -> bool {
    forall|a: int, b: int|
        0 <= a < b < outputs.len() ==> (#[trigger] outputs[a]).name@ != (
        #[trigger] outputs[b]).name@
}

proof fn bounding_one_output(m: LayoutModel, name: Seq<char>, full: Rect, work: Rect, q: int)
    requires
        0 <= q < m.outputs.len(),
    ensures
        ({
            let after = m.bounding(name, full, work);
            &&& after.outputs.len() == m.outputs.len()
            &&& after.gaps == m.gaps
            &&& after.outputs[q].name == m.outputs[q].name
            &&& m.pane(Probe::Named(name)) == Some(q) ==> after.outputs[q].full == full
                && after.outputs[q].bounds == work
            &&& m.pane(Probe::Named(name)) != Some(q) ==> after.outputs[q].full
                == m.outputs[q].full && after.outputs[q].bounds == m.outputs[q].bounds
        }),
{
    pane_search_is_exact(m.outputs, Probe::Named(name), 0);
}

proof fn bounding_keeps_names(m: LayoutModel, name: Seq<char>, full: Rect, work: Rect, other: Seq<char>)
    ensures
        m.bounding(name, full, work).pane(Probe::Named(other)) == m.pane(Probe::Named(other)),
{
    let after = m.bounding(name, full, work);
    assert forall|k: int| 0 <= k < m.outputs.len() implies (#[trigger] after.outputs[k]).name
        == m.outputs[k].name by {
        bounding_one_output(m, name, full, work, k);
    }
    if m.outputs.len() > 0 {
        bounding_one_output(m, name, full, work, 0);
    } else {
        pane_search_is_exact(m.outputs, Probe::Named(name), 0);
    }
    pane_search_is_exact(m.outputs, Probe::Named(other), 0);
    pane_search_is_exact(after.outputs, Probe::Named(other), 0);
    match (m.pane(Probe::Named(other)), after.pane(Probe::Named(other))) {
        (Some(a), Some(b)) => {
            assert(m.outputs[a].meets(Probe::Named(other)));
            assert(after.outputs[b].meets(Probe::Named(other)));
            if a < b {
                assert(!after.outputs[a].meets(Probe::Named(other)));
            }
            if b < a {
                assert(!m.outputs[b].meets(Probe::Named(other)));
            }
        },
        (Some(a), None) => {
            assert(m.outputs[a].meets(Probe::Named(other)));
            assert(!after.outputs[a].meets(Probe::Named(other)));
        },
        (None, Some(b)) => {
            assert(after.outputs[b].meets(Probe::Named(other)));
            assert(!m.outputs[b].meets(Probe::Named(other)));
        },
        (None, None) => {},
    }
}

proof fn reserving_sets_the_areas(
    m: LayoutModel,
    ls: Seq<LayerSurface>,
    outputs: Seq<OutputRect>,
    primary: Seq<char>,
    n: int,
    o: int,
    q: int,
)
    requires
        0 <= o < outputs.len(),
        0 <= n <= outputs.len(),
        have_own_names(outputs),
        m.pane(Probe::Named(outputs[o].name@)) == Some(q),
    ensures
        ({
            let after = reserving(m, ls, outputs, primary, n);
            let name = outputs[o].name@;
            &&& 0 <= q < m.outputs.len()
            &&& after.outputs.len() == m.outputs.len()
            &&& after.gaps == m.gaps
            &&& after.pane(Probe::Named(name)) == Some(q)
            &&& n > o ==> after.outputs[q].full == outputs[o].rect && after.outputs[q].bounds
                == outside_zone(outputs[o].rect, zone_of(ls, name, primary, ls.len() as int))
        }),
    decreases n,
{
    let name = outputs[o].name@;
    pane_search_is_exact(m.outputs, Probe::Named(name), 0);
    if n > 0 {
        reserving_sets_the_areas(m, ls, outputs, primary, n - 1, o, q);
        let before = reserving(m, ls, outputs, primary, n - 1);
        let x = outputs[n - 1];
        let work = outside_zone(x.rect, zone_of(ls, x.name@, primary, ls.len() as int));
        bounding_one_output(before, x.name@, x.rect, work, q);
        bounding_keeps_names(before, x.name@, x.rect, work, name);
        if n - 1 != o {
            pane_search_is_exact(before.outputs, Probe::Named(x.name@), 0);
            pane_search_is_exact(before.outputs, Probe::Named(name), 0);
            if before.pane(Probe::Named(x.name@)) == Some(q) {
                assert(before.outputs[q].meets(Probe::Named(x.name@)));
                assert(before.outputs[q].meets(Probe::Named(name)));
                if n - 1 < o {
                    assert(outputs[n - 1].name@ != outputs[o].name@);
                } else {
                    assert(outputs[o].name@ != outputs[n - 1].name@);
                }
            }
        }
    }
}

/// The work area of an output lies between what the layers on it reserve: each
/// of its edges is as far from that of the output as all layers tied to that
/// edge reserve together. An edge where none reserves is an edge of the work
/// area.
pub proof fn work_areas_lie_between_the_strips(
    m: LayoutModel,
    ls: Seq<LayerSurface>,
    outputs: Seq<OutputRect>,
    primary: Seq<char>,
    o: int,
    q: int,
)
    requires
        0 <= o < outputs.len(),
        have_own_names(outputs),
        m.pane(Probe::Named(outputs[o].name@)) == Some(q),
        has_room_for_strips(outputs[o].rect, ls, outputs[o].name@, primary),
    ensures
        ({
            let after = reserving(m, ls, outputs, primary, outputs.len() as int);
            &&& after.outputs[q].full == outputs[o].rect
            &&& is_between_strips(
                after.outputs[q].bounds,
                outputs[o].rect,
                ls,
                outputs[o].name@,
                primary,
            )
        }),
{
    reserving_sets_the_areas(m, ls, outputs, primary, outputs.len() as int, o, q);
    zones_leave_what_is_between(outputs[o].rect, ls, outputs[o].name@, primary);
}

/// No point of the work area is in the strip that a layer on the output
/// reserves at its edge.
pub proof fn work_areas_keep_clear_of_panels(
    m: LayoutModel,
    ls: Seq<LayerSurface>,
    outputs: Seq<OutputRect>,
    primary: Seq<char>,
    o: int,
    q: int,
    k: int,
    edge: Edge,
    p: Point,
)
    requires
        0 <= o < outputs.len(),
        have_own_names(outputs),
        m.pane(Probe::Named(outputs[o].name@)) == Some(q),
        has_room_for_strips(outputs[o].rect, ls, outputs[o].name@, primary),
        0 <= k < ls.len(),
        is_on(ls[k], outputs[o].name@, primary),
        ls[k].layer == LayerBucket::Top || ls[k].layer == LayerBucket::Bottom,
        ls[k].exclusive_zone > 0,
        is_tied(ls[k].anchors, edge),
        reserving(m, ls, outputs, primary, outputs.len() as int).outputs[q].bounds.holds(p),
    ensures
        !in_strip(outputs[o].rect, edge, ls[k].exclusive_zone as int, p),
        outputs[o].rect.holds(p),
{
    work_areas_lie_between_the_strips(m, ls, outputs, primary, o, q);
    let n = ls.len() as int;
    strips_grow(ls, outputs[o].name@, primary, edge, k, n);
    strips_grow(ls, outputs[o].name@, primary, Edge::Top, 0, n);
    strips_grow(ls, outputs[o].name@, primary, Edge::Bottom, 0, n);
    strips_grow(ls, outputs[o].name@, primary, Edge::Left, 0, n);
    strips_grow(ls, outputs[o].name@, primary, Edge::Right, 0, n);
}

} // verus!
