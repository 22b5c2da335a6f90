//! What a resize drag does to tiles: which dividers move, and where the dragged
//! edges end up.

use vstd::prelude::*;

use crate::desktop::{pane_search_is_exact, LayoutModel, Probe};
use crate::geometry::{half, Rect};
use crate::tree::{
    divider_ratio, gap_halves, in_tree, leaf_of, leaves, placed, resized, resizing_keeps_the_leaves,
    roomy, split_cells, wanted_divider, Node, Ratio, ResizeEdges, SplitAxis,
};
use crate::placing::gap_of;
use crate::window::SurfaceId;

verus! {

/// Where a rectangle starts in a direction.
pub open spec fn start(r: Rect, axis: SplitAxis) -> int {
    match axis {
        SplitAxis::LeftRight => r.loc.x as int,
        SplitAxis::TopBottom => r.loc.y as int,
    }
}

/// How far a rectangle reaches in a direction.
pub open spec fn extent(r: Rect, axis: SplitAxis) -> int {
    match axis {
        SplitAxis::LeftRight => r.size.w as int,
        SplitAxis::TopBottom => r.size.h as int,
    }
}

/// The edge of a rectangle in a direction: the right or lower one if `far`,
/// else the left or upper one.
pub open spec fn edge(r: Rect, axis: SplitAxis, far: bool) -> int {
    if far {
        start(r, axis) + extent(r, axis)
    } else {
        start(r, axis)
    }
}

/// The cell of the innermost split whose divider an edge of the tile of a
/// surface faces.
pub open spec fn facing(
    node: Node,
    bounds: Rect,
    inner: int,
    s: SurfaceId,
    axis: SplitAxis,
    far: bool,
) -> Option<Rect>
    decreases node,
{
    match node {
        Node::Leaf(_) => None,
        Node::Split { axis: a, ratio, first, second } => {
            let (b1, b2) = split_cells(bounds, a, ratio, inner);
            let in_first = in_tree(*first, s);
            let deeper = if in_first {
                facing(*first, b1, inner, s, axis, far)
            } else {
                facing(*second, b2, inner, s, axis, far)
            };
            if deeper.is_some() {
                deeper
            } else if a == axis && in_first == far {
                Some(bounds)
            } else {
                None
            }
        },
    }
}

/// Whether a drag moves the far edge in a direction.
pub open spec fn drags_far(edges: ResizeEdges, axis: SplitAxis) -> bool {
    match axis {
        SplitAxis::LeftRight => edges.right,
        SplitAxis::TopBottom => edges.bottom,
    }
}

/// The least that a drag leaves on either side of a divider.
pub open spec fn least(axis: SplitAxis) -> int {
    match axis {
        SplitAxis::LeftRight => 120,
        SplitAxis::TopBottom => 80,
    }
}

/// The first and the last place of a divider in a cell: the least away from
/// either end, or in the middle where there is no room for that.
pub open spec fn stops(cell: Rect, axis: SplitAxis) -> (int, int) {
    if extent(cell, axis) >= 2 * least(axis) {
        (
            start(cell, axis) + least(axis),
            start(cell, axis) + extent(cell, axis) - least(axis),
        )
    } else {
        (
            start(cell, axis) + extent(cell, axis) / 2,
            start(cell, axis) + extent(cell, axis) / 2,
        )
    }
}

/// How far an edge is from the divider it faces: half a gap, with the odd pixel
/// behind the divider.
pub open spec fn to_divider(inner: int, far: bool) -> int {
    if far {
        gap_of(inner) / 2
    } else {
        gap_of(inner) / 2 - gap_of(inner)
    }
}

/// Whether an edge of a tile is where a drag towards an edge of the target puts
/// it: on the target's edge if the divider may stand there, else as near as it
/// may.
pub open spec fn follows(
    tile: Rect,
    target: Rect,
    cell: Rect,
    inner: int,
    axis: SplitAxis,
    far: bool,
) -> bool {
    let divider = edge(target, axis, far) + to_divider(inner, far);
    let at = edge(tile, axis, far);
    let (first, last) = stops(cell, axis);
    &&& first <= divider <= last ==> at == edge(target, axis, far)
    &&& divider < first ==> at == first - to_divider(inner, far)
    &&& divider > last ==> at == last - to_divider(inner, far)
}

spec fn flag(done_h: bool, done_v: bool, axis: SplitAxis) -> bool {
    match axis {
        SplitAxis::LeftRight => done_h,
        SplitAxis::TopBottom => done_v,
    }
}

spec fn after_drag(
    node: Node,
    bounds: Rect,
    inner: int,
    s: SurfaceId,
    target: Rect,
    edges: ResizeEdges,
) -> Node {
    resized(node, bounds, inner, s, target, edges, false, false).node
}

proof fn drags_elsewhere_change_nothing(
    node: Node,
    bounds: Rect,
    inner: int,
    s: SurfaceId,
    target: Rect,
    edges: ResizeEdges,
    done_h: bool,
    done_v: bool,
)
    requires
        !in_tree(node, s),
    ensures
        ({
            let r = resized(node, bounds, inner, s, target, edges, done_h, done_v);
            !r.found && r.node == node && r.done_h == done_h && r.done_v == done_v
        }),
    decreases node,
{
    if let Node::Split { axis, ratio, first, second } = node {
        let (b1, b2) = split_cells(bounds, axis, ratio, inner);
        drags_elsewhere_change_nothing(*first, b1, inner, s, target, edges, done_h, done_v);
        drags_elsewhere_change_nothing(*second, b2, inner, s, target, edges, done_h, done_v);
    }
}

/// What a drag makes of a split with the tile in one of its parts.
proof fn drag_of_a_split(
    node: Node,
    bounds: Rect,
    inner: int,
    s: SurfaceId,
    target: Rect,
    edges: ResizeEdges,
)
    requires
        in_tree(node, s),
        node is Split,
    ensures
        ({
            let axis = node->Split_axis;
            let (first, second) = (*node->Split_first, *node->Split_second);
            let (b1, b2) = split_cells(bounds, axis, node->Split_ratio, inner);
            let in_first = in_tree(first, s);
            let r = resized(node, bounds, inner, s, target, edges, false, false);
            let x = if in_first {
                resized(first, b1, inner, s, target, edges, false, false)
            } else {
                resized(second, b2, inner, s, target, edges, false, false)
            };
            let moves = !flag(x.done_h, x.done_v, axis) && in_first == drags_far(edges, axis);
            &&& r.found
            &&& r.node is Split
            &&& r.node->Split_axis == axis
            &&& *r.node->Split_first == (if in_first {
                x.node
            } else {
                first
            })
            &&& *r.node->Split_second == (if in_first {
                second
            } else {
                x.node
            })
            &&& !moves ==> r.node->Split_ratio == node->Split_ratio && r.done_h == x.done_h
                && r.done_v == x.done_v
            &&& moves ==> {
                &&& r.done_h == (x.done_h || axis == SplitAxis::LeftRight)
                &&& r.done_v == (x.done_v || axis == SplitAxis::TopBottom)
                &&& r.node->Split_ratio == divider_ratio(
                    extent(bounds, axis),
                    start(bounds, axis),
                    wanted_divider(axis, in_first, target, edges, inner, false, false).unwrap(),
                    least(axis),
                )
            }
        }),
{
    let axis = node->Split_axis;
    let (first, second) = (*node->Split_first, *node->Split_second);
    let (b1, b2) = split_cells(bounds, axis, node->Split_ratio, inner);
    resizing_keeps_the_leaves(first, b1, inner, s, target, edges, false, false);
    resizing_keeps_the_leaves(second, b2, inner, s, target, edges, false, false);
    if !in_tree(first, s) {
        drags_elsewhere_change_nothing(first, b1, inner, s, target, edges, false, false);
    }
}

proof fn drags_move_what_is_faced(
    node: Node,
    bounds: Rect,
    inner: int,
    s: SurfaceId,
    target: Rect,
    edges: ResizeEdges,
    axis: SplitAxis,
)
    requires
        in_tree(node, s),
    ensures
        ({
            let r = resized(node, bounds, inner, s, target, edges, false, false);
            flag(r.done_h, r.done_v, axis) == facing(
                node,
                bounds,
                inner,
                s,
                axis,
                drags_far(edges, axis),
            ).is_some()
        }),
    decreases node,
{
    if let Node::Split { axis: a, ratio, first, second } = node {
        let (b1, b2) = split_cells(bounds, a, ratio, inner);
        drag_of_a_split(node, bounds, inner, s, target, edges);
        if in_tree(*first, s) {
            drags_move_what_is_faced(*first, b1, inner, s, target, edges, axis);
        } else {
            drags_move_what_is_faced(*second, b2, inner, s, target, edges, axis);
        }
    }
}

/// Whether two rectangles are the same in a direction.
spec fn level(a: Rect, b: Rect, axis: SplitAxis) -> bool {
    start(a, axis) == start(b, axis) && extent(a, axis) == extent(b, axis)
}

proof fn parts_of_level_cells(
    a: Rect,
    b: Rect,
    dir: SplitAxis,
    ratio: Ratio,
    other: Ratio,
    inner: int,
    axis: SplitAxis,
)
    requires
        level(a, b, axis),
        dir == axis ==> ratio == other,
    ensures
        level(split_cells(a, dir, ratio, inner).0, split_cells(b, dir, other, inner).0, axis),
        level(split_cells(a, dir, ratio, inner).1, split_cells(b, dir, other, inner).1, axis),
{
}

proof fn part_edges(bounds: Rect, axis: SplitAxis, ratio: Ratio, inner: int)
    requires
        bounds.loc.x + bounds.size.w <= i32::MAX,
        bounds.loc.y + bounds.size.h <= i32::MAX,
        ratio.line(extent(bounds, axis)) - gap_halves(inner).0 >= 1,
        extent(bounds, axis) - ratio.line(extent(bounds, axis)) - gap_halves(inner).1 >= 1,
    ensures
        ({
            let (b1, b2) = split_cells(bounds, axis, ratio, inner);
            let at = start(bounds, axis) + ratio.line(extent(bounds, axis));
            &&& edge(b1, axis, false) == edge(bounds, axis, false)
            &&& edge(b1, axis, true) == at - to_divider(inner, true)
            &&& edge(b2, axis, false) == at - to_divider(inner, false)
            &&& edge(b2, axis, true) == edge(bounds, axis, true)
        }),
{
}

/// The edge of a tile that faces no divider is the edge of the cell.
proof fn outer_edges_are_those_of_the_cell(
    node: Node,
    bounds: Rect,
    any: Rect,
    inner: int,
    s: SurfaceId,
    axis: SplitAxis,
    far: bool,
)
    requires
        in_tree(node, s),
        roomy(node, bounds, inner),
        facing(node, any, inner, s, axis, far).is_none(),
    ensures
        leaf_of(placed(node, bounds, inner), s) matches Some(w) && edge(w.rect, axis, far) == edge(
            bounds,
            axis,
            far,
        ),
    decreases node,
{
    if let Node::Split { axis: a, ratio, first, second } = node {
        let (b1, b2) = split_cells(bounds, a, ratio, inner);
        let (a1, a2) = split_cells(any, a, ratio, inner);
        part_edges(bounds, a, ratio, inner);
        placed_surfaces(*first, b1, inner, s);
        if in_tree(*first, s) {
            outer_edges_are_those_of_the_cell(*first, b1, a1, inner, s, axis, far);
        } else {
            outer_edges_are_those_of_the_cell(*second, b2, a2, inner, s, axis, far);
        }
    }
}

proof fn placed_surfaces(node: Node, bounds: Rect, inner: int, s: SurfaceId)
    ensures
        leaf_of(placed(node, bounds, inner), s).is_some() == in_tree(node, s),
        in_tree(placed(node, bounds, inner), s) == in_tree(node, s),
    decreases node,
{
    if let Node::Split { axis, ratio, first, second } = node {
        let (b1, b2) = split_cells(bounds, axis, ratio, inner);
        placed_surfaces(*first, b1, inner, s);
        placed_surfaces(*second, b2, inner, s);
    }
}

proof fn drags_keep_what_is_faced(
    node: Node,
    bounds: Rect,
    any: Rect,
    inner: int,
    s: SurfaceId,
    target: Rect,
    edges: ResizeEdges,
    axis: SplitAxis,
    far: bool,
)
    requires
        in_tree(node, s),
    ensures
        ({
            let r = after_drag(node, bounds, inner, s, target, edges);
            &&& in_tree(r, s)
            &&& facing(r, any, inner, s, axis, far).is_some() == facing(
                node,
                bounds,
                inner,
                s,
                axis,
                far,
            ).is_some()
        }),
    decreases node,
{
    if let Node::Split { axis: a, ratio, first, second } = node {
        let (b1, b2) = split_cells(bounds, a, ratio, inner);
        drag_of_a_split(node, bounds, inner, s, target, edges);
        let r = after_drag(node, bounds, inner, s, target, edges);
        let (a1, a2) = split_cells(any, a, r->Split_ratio, inner);
        if in_tree(*first, s) {
            drags_keep_what_is_faced(*first, b1, a1, inner, s, target, edges, axis, far);
        } else {
            drags_keep_what_is_faced(*second, b2, a2, inner, s, target, edges, axis, far);
        }
    }
}

proof fn moved_dividers_stop_in_time(
    cell: Rect,
    target: Rect,
    edges: ResizeEdges,
    inner: int,
    axis: SplitAxis,
)
    requires
        extent(cell, axis) >= 2,
        edge(cell, axis, true) <= i32::MAX,
    ensures
        ({
            let far = drags_far(edges, axis);
            let want = wanted_divider(axis, far, target, edges, inner, false, false).unwrap();
            let r = divider_ratio(extent(cell, axis), start(cell, axis), want, least(axis));
            let at = start(cell, axis) + r.line(extent(cell, axis));
            let divider = edge(target, axis, far) + to_divider(inner, far);
            let (first, last) = stops(cell, axis);
            &&& first <= divider <= last ==> at == divider
            &&& divider < first ==> at == first
            &&& divider > last ==> at == last
        }),
{
    let span = extent(cell, axis);
    let far = drags_far(edges, axis);
    let want = wanted_divider(axis, far, target, edges, inner, false, false).unwrap();
    let r = divider_ratio(span, start(cell, axis), want, least(axis));
    let k = r.num as int;
    assert(1 <= k <= span - 1);
    assert((span * k) / span == k) by (nonlinear_arith)
        requires
            span >= 1,
    ;
    assert(r.line(span) == k);
}

proof fn the_dragged_edge_follows(
    node: Node,
    bounds: Rect,
    inner: int,
    s: SurfaceId,
    target: Rect,
    edges: ResizeEdges,
    axis: SplitAxis,
    now: Rect,
)
    requires
        in_tree(node, s),
        level(bounds, now, axis),
        roomy(after_drag(node, bounds, inner, s, target, edges), now, inner),
        facing(node, bounds, inner, s, axis, drags_far(edges, axis)).is_some(),
    ensures
        leaf_of(
            placed(after_drag(node, bounds, inner, s, target, edges), now, inner),
            s,
        ) matches Some(w) && follows(
            w.rect,
            target,
            facing(node, bounds, inner, s, axis, drags_far(edges, axis)).unwrap(),
            inner,
            axis,
            drags_far(edges, axis),
        ),
    decreases node,
{
    let far = drags_far(edges, axis);
    let r = after_drag(node, bounds, inner, s, target, edges);
    if let Node::Split { axis: a, ratio, first, second } = node {
        let (b1, b2) = split_cells(bounds, a, ratio, inner);
        drag_of_a_split(node, bounds, inner, s, target, edges);
        let (n1, n2) = split_cells(now, a, r->Split_ratio, inner);
        let in_first = in_tree(*first, s);
        let (child, cell, place) = if in_first {
            (*first, b1, n1)
        } else {
            (*second, b2, n2)
        };
        let moved = after_drag(child, cell, inner, s, target, edges);
        drags_move_what_is_faced(child, cell, inner, s, target, edges, axis);
        placed_surfaces(*r->Split_first, n1, inner, s);
        drags_keep_what_is_faced(child, cell, place, inner, s, target, edges, axis, far);
        if facing(child, cell, inner, s, axis, far).is_some() {
            parts_of_level_cells(bounds, now, a, ratio, r->Split_ratio, inner, axis);
            the_dragged_edge_follows(child, cell, inner, s, target, edges, axis, place);
        } else {
            part_edges(now, a, r->Split_ratio, inner);
            outer_edges_are_those_of_the_cell(moved, place, place, inner, s, axis, far);
            moved_dividers_stop_in_time(bounds, target, edges, inner, axis);
        }
    }
}

proof fn an_edge_at_the_border_moves_nothing(
    node: Node,
    bounds: Rect,
    inner: int,
    s: SurfaceId,
    target: Rect,
    edges: ResizeEdges,
    axis: SplitAxis,
    now: Rect,
    j: int,
)
    requires
        in_tree(node, s),
        level(bounds, now, axis),
        facing(node, bounds, inner, s, axis, drags_far(edges, axis)).is_none(),
        0 <= j < leaves(node).len(),
    ensures
        ({
            let before = leaves(placed(node, bounds, inner));
            let after = leaves(
                placed(after_drag(node, bounds, inner, s, target, edges), now, inner),
            );
            &&& before.len() == leaves(node).len()
            &&& after.len() == before.len()
            &&& level(before[j].rect, after[j].rect, axis)
        }),
    decreases node,
{
    let r = after_drag(node, bounds, inner, s, target, edges);
    if let Node::Split { axis: a, ratio, first, second } = node {
        let (b1, b2) = split_cells(bounds, a, ratio, inner);
        drag_of_a_split(node, bounds, inner, s, target, edges);
        let (n1, n2) = split_cells(now, a, r->Split_ratio, inner);
        let in_first = in_tree(*first, s);
        crate::tree::placing_keeps_the_windows(*first, b1, inner);
        crate::tree::placing_keeps_the_windows(*second, b2, inner);
        crate::tree::placing_keeps_the_windows(*r->Split_first, n1, inner);
        crate::tree::placing_keeps_the_windows(*r->Split_second, n2, inner);
        resizing_keeps_the_leaves(*first, b1, inner, s, target, edges, false, false);
        resizing_keeps_the_leaves(*second, b2, inner, s, target, edges, false, false);
        if in_first {
            drags_move_what_is_faced(*first, b1, inner, s, target, edges, axis);
        } else {
            drags_move_what_is_faced(*second, b2, inner, s, target, edges, axis);
        }
        parts_of_level_cells(bounds, now, a, ratio, r->Split_ratio, inner, axis);
        let n = leaves(*first).len() as int;
        if j < n {
            if in_first {
                an_edge_at_the_border_moves_nothing(
                    *first, b1, inner, s, target, edges, axis, n1, j);
            } else {
                level_cells_hold_level_tiles(*first, b1, n1, inner, axis, j);
            }
        } else {
            if in_first {
                level_cells_hold_level_tiles(*second, b2, n2, inner, axis, j - n);
            } else {
                an_edge_at_the_border_moves_nothing(
                    *second, b2, inner, s, target, edges, axis, n2, j - n);
            }
        }
    }
}

proof fn level_cells_hold_level_tiles(
    node: Node,
    bounds: Rect,
    now: Rect,
    inner: int,
    axis: SplitAxis,
    j: int,
)
    requires
        level(bounds, now, axis),
        0 <= j < leaves(node).len(),
    ensures
        leaves(placed(node, bounds, inner)).len() == leaves(node).len(),
        leaves(placed(node, now, inner)).len() == leaves(node).len(),
        level(
            leaves(placed(node, bounds, inner))[j].rect,
            leaves(placed(node, now, inner))[j].rect,
            axis,
        ),
    decreases node,
{
    if let Node::Split { axis: a, ratio, first, second } = node {
        let (b1, b2) = split_cells(bounds, a, ratio, inner);
        let (n1, n2) = split_cells(now, a, ratio, inner);
        parts_of_level_cells(bounds, now, a, ratio, ratio, inner, axis);
        crate::tree::placing_keeps_the_windows(*first, b1, inner);
        crate::tree::placing_keeps_the_windows(*second, b2, inner);
        crate::tree::placing_keeps_the_windows(*first, n1, inner);
        crate::tree::placing_keeps_the_windows(*second, n2, inner);
        let n = leaves(*first).len() as int;
        if j < n {
            level_cells_hold_level_tiles(*first, b1, n1, inner, axis, j);
        } else {
            level_cells_hold_level_tiles(*second, b2, n2, inner, axis, j - n);
        }
    }
}

proof fn dragging_a_tile(m: LayoutModel, s: SurfaceId, target: Rect, edges: ResizeEdges, i: int)
    requires
        m.valid(),
        m.pane(Probe::Floating(s)).is_none(),
        m.pane(Probe::Tiled(s)) == Some(i),
    ensures
        0 <= i < m.outputs.len(),
        m.outputs[i].current().tree.is_some(),
        in_tree(m.outputs[i].current().tree.unwrap(), s),
        m.resizing(s, target, edges).outputs[i].current().tree == Some(
            placed(
                after_drag(
                    m.outputs[i].current().tree.unwrap(),
                    m.tile_bounds(i),
                    m.gaps.inner as int,
                    s,
                    target,
                    edges,
                ),
                m.tile_bounds(i),
                m.gaps.inner as int,
            ),
        ),
{
    pane_search_is_exact(m.outputs, Probe::Tiled(s), 0);
    assert(m.outputs[i].valid());
}

/// The cell of the divider that an edge of a tile faces, on the output that
/// shows the tile.
pub open spec fn faced(m: LayoutModel, i: int, s: SurfaceId, axis: SplitAxis, far: bool) -> Option<
    Rect,
> {
    facing(
        m.outputs[i].current().tree.unwrap(),
        m.tile_bounds(i),
        m.gaps.inner as int,
        s,
        axis,
        far,
    )
}

/// A dragged edge of a tile that faces a divider lands on that edge of the
/// target, in either direction, wherever the divider may stand there. Where it
/// may not, the edge comes as near as the least size of the parts allows.
pub proof fn dragged_edges_land_on_the_target(
    m: LayoutModel,
    s: SurfaceId,
    target: Rect,
    edges: ResizeEdges,
    i: int,
    axis: SplitAxis,
)
    requires
        m.valid(),
        m.pane(Probe::Floating(s)).is_none(),
        m.pane(Probe::Tiled(s)) == Some(i),
        faced(m, i, s, axis, drags_far(edges, axis)).is_some(),
        m.resizing(s, target, edges).outputs[i].current().tree matches Some(t) && roomy(
            t,
            m.tile_bounds(i),
            m.gaps.inner as int,
        ),
    ensures
        follows(
            m.resizing(s, target, edges).outputs[i].current().tile(s).rect,
            target,
            faced(m, i, s, axis, drags_far(edges, axis)).unwrap(),
            m.gaps.inner as int,
            axis,
            drags_far(edges, axis),
        ),
{
    dragging_a_tile(m, s, target, edges, i);
    let (b, inner) = (m.tile_bounds(i), m.gaps.inner as int);
    let t = m.outputs[i].current().tree.unwrap();
    let r = after_drag(t, b, inner, s, target, edges);
    room_does_not_depend_on_rectangles(r, b, b, inner);
    the_dragged_edge_follows(t, b, inner, s, target, edges, axis, b);
}

/// An edge of a tile at the border of its output cannot be dragged: no tile
/// changes in that direction.
pub proof fn edges_at_the_border_stay(
    m: LayoutModel,
    s: SurfaceId,
    target: Rect,
    edges: ResizeEdges,
    i: int,
    axis: SplitAxis,
    j: int,
)
    requires
        m.valid(),
        crate::laws::is_laid_out(m),
        m.pane(Probe::Floating(s)).is_none(),
        m.pane(Probe::Tiled(s)) == Some(i),
        faced(m, i, s, axis, drags_far(edges, axis)).is_none(),
        0 <= j < crate::placing::tiles_of(m.outputs[i]).len(),
    ensures
        ({
            let before = crate::placing::tiles_of(m.outputs[i]);
            let after = crate::placing::tiles_of(m.resizing(s, target, edges).outputs[i]);
            &&& after.len() == before.len()
            &&& start(after[j].rect, axis) == start(before[j].rect, axis)
            &&& extent(after[j].rect, axis) == extent(before[j].rect, axis)
        }),
{
    dragging_a_tile(m, s, target, edges, i);
    let (b, inner) = (m.tile_bounds(i), m.gaps.inner as int);
    let p = m.outputs[i];
    let t = p.current().tree.unwrap();
    assert(p.valid());
    assert(p.laid_out(m.gaps) == p);
    assert(p.laid_out(m.gaps).workspaces[p.active] == p.workspaces[p.active]);
    assert(placed(t, b, inner) == t);
    an_edge_at_the_border_moves_nothing(t, b, inner, s, target, edges, axis, b, j);
}

proof fn room_does_not_depend_on_rectangles(node: Node, bounds: Rect, any: Rect, inner: int)
    ensures
        roomy(placed(node, any, inner), bounds, inner) == roomy(node, bounds, inner),
    decreases node,
{
    if let Node::Split { axis, ratio, first, second } = node {
        let (b1, b2) = split_cells(bounds, axis, ratio, inner);
        let (a1, a2) = split_cells(any, axis, ratio, inner);
        room_does_not_depend_on_rectangles(*first, b1, a1, inner);
        room_does_not_depend_on_rectangles(*second, b2, a2, inner);
    }
}

} // verus!
