//! The tile tree of one workspace: windows at the leaves, split lines inside.

use vstd::prelude::*;

use crate::geometry::{clip, clipped, half, halve, larger, max32, min32, smaller, Point, Rect, Size};
use crate::window::{FillMode, SurfaceId, Window};

verus! {

/// The least width a divider drag leaves a tile.
pub const MIN_TILE_W: i32 = 120;

/// The least height a divider drag leaves a tile.
pub const MIN_TILE_H: i32 = 80;

/// The direction in which a split places its two parts.
#[derive(Debug, Clone, Copy, PartialEq, Eq, Structural)]
pub enum SplitAxis {
    LeftRight,
    TopBottom,
}

/// The share of a cell that goes to the first part of a split, as a fraction.
#[derive(Debug, Clone, Copy, PartialEq, Eq, Structural)]
pub struct Ratio {
    pub num: i32,
    pub den: i32,
}

impl Ratio {
    /// Half and half.
    pub open spec fn even() -> Ratio {
        Ratio { num: 1, den: 2 }
    }

    /// The denominator, read as one where it is not positive.
    pub open spec fn base(self) -> int {
        larger(self.den as int, 1)
    }

    /// The numerator, brought between zero and the denominator.
    pub open spec fn part(self) -> int {
        smaller(larger(self.num as int, 0), self.base())
    }

    /// Where the split line falls in a span of pixels: at the share, rounded
    /// down, but one pixel away from either end where there is room.
    pub open spec fn line(self, span: int) -> int {
        smaller(
            larger((larger(span, 0) * self.part()) / self.base(), 1),
            larger(span - 1, 1),
        )
    }

    /// Where the split line falls in a span of pixels.
    pub fn split(self, span: i32) -> (r: i32)
        ensures
            r == self.line(span as int),
            1 <= r,
    {
        let base: i32 = max32(self.den, 1);
        let part: i32 = min32(max32(self.num, 0), base);
        let room: i32 = max32(span, 0);
        proof {
            let (a, b, c) = (room as int, part as int, base as int);
            assert(0 <= a * b <= 0x7fff_ffff * 0x7fff_ffff) by (nonlinear_arith)
                requires
                    0 <= a <= 0x7fff_ffff,
                    0 <= b <= 0x7fff_ffff,
            ;
            assert(0 <= (a * b) / c <= a) by (nonlinear_arith)
                requires
                    0 <= a,
                    0 <= b <= c,
                    1 <= c,
            ;
        }
        let at: i64 = (room as i64 * part as i64) / (base as i64);
        min32(
            max32(at as i32, 1),
            if span >= 2 {
                span - 1
            } else {
                1
            },
        )
    }
}

/// The two halves of the gap between two parts: before and after the line.
pub open spec fn gap_halves(inner: int) -> (int, int) {
    (larger(inner, 0) / 2, larger(inner, 0) - larger(inner, 0) / 2)
}

/// The cells of the two parts of a split.
pub open spec fn split_cells(bounds: Rect, axis: SplitAxis, ratio: Ratio, inner: int) -> (
    Rect,
    Rect,
) {
    let (before, after) = gap_halves(inner);
    match axis {
        SplitAxis::LeftRight => {
            let line = ratio.line(bounds.size.w as int);
            (
                Rect {
                    loc: bounds.loc,
                    size: Size { w: larger(line - before, 1) as i32, h: bounds.size.h },
                },
                Rect {
                    loc: Point { x: clipped(bounds.loc.x + line + after), y: bounds.loc.y },
                    size: Size {
                        w: larger(clipped(bounds.size.w - line - after) as int, 1) as i32,
                        h: bounds.size.h,
                    },
                },
            )
        },
        SplitAxis::TopBottom => {
            let line = ratio.line(bounds.size.h as int);
            (
                Rect {
                    loc: bounds.loc,
                    size: Size { w: bounds.size.w, h: larger(line - before, 1) as i32 },
                },
                Rect {
                    loc: Point { x: bounds.loc.x, y: clipped(bounds.loc.y + line + after) },
                    size: Size {
                        w: bounds.size.w,
                        h: larger(clipped(bounds.size.h - line - after) as int, 1) as i32,
                    },
                },
            )
        },
    }
}

/// The cells of the two parts of a split.
pub fn split_bounds(bounds: Rect, axis: SplitAxis, ratio: Ratio, inner: i32) -> (r: (Rect, Rect))
    ensures
        r == split_cells(bounds, axis, ratio, inner as int),
{
    let gap: i32 = max32(inner, 0);
    let before: i32 = gap / 2;
    let after: i32 = gap - before;
    match axis {
        SplitAxis::LeftRight => {
            let line: i32 = ratio.split(bounds.size.w);
            (
                Rect {
                    loc: bounds.loc,
                    size: Size { w: max32(line - before, 1), h: bounds.size.h },
                },
                Rect {
                    loc: Point {
                        x: clip(bounds.loc.x as i64 + line as i64 + after as i64),
                        y: bounds.loc.y,
                    },
                    size: Size {
                        w: max32(clip(bounds.size.w as i64 - line as i64 - after as i64), 1),
                        h: bounds.size.h,
                    },
                },
            )
        },
        SplitAxis::TopBottom => {
            let line: i32 = ratio.split(bounds.size.h);
            (
                Rect {
                    loc: bounds.loc,
                    size: Size { w: bounds.size.w, h: max32(line - before, 1) },
                },
                Rect {
                    loc: Point {
                        x: bounds.loc.x,
                        y: clip(bounds.loc.y as i64 + line as i64 + after as i64),
                    },
                    size: Size {
                        w: bounds.size.w,
                        h: max32(clip(bounds.size.h as i64 - line as i64 - after as i64), 1),
                    },
                },
            )
        },
    }
}

/// The cell inside the outer gap of an output, never less than one pixel.
pub open spec fn inside_gap(bounds: Rect, outer: int) -> Rect {
    let gap = larger(outer, 0);
    Rect {
        loc: Point { x: clipped(bounds.loc.x + gap), y: clipped(bounds.loc.y + gap) },
        size: Size {
            w: larger(clipped(bounds.size.w - 2 * gap) as int, 1) as i32,
            h: larger(clipped(bounds.size.h - 2 * gap) as int, 1) as i32,
        },
    }
}

/// The cell inside the outer gap of an output.
pub fn shrink_for_outer(bounds: Rect, outer: i32) -> (r: Rect)
    ensures
        r == inside_gap(bounds, outer as int),
{
    let gap: i64 = max32(outer, 0) as i64;
    Rect {
        loc: Point { x: clip(bounds.loc.x as i64 + gap), y: clip(bounds.loc.y as i64 + gap) },
        size: Size {
            w: max32(clip(bounds.size.w as i64 - 2 * gap), 1),
            h: max32(clip(bounds.size.h as i64 - 2 * gap), 1),
        },
    }
}

/// A node of the tile tree.
#[derive(Debug)]
pub enum Node {
    Leaf(Window),
    Split { axis: SplitAxis, ratio: Ratio, first: Box<Node>, second: Box<Node> },
}

/// The windows of a tree from its first leaf to its last.
pub open spec fn leaves(node: Node) -> Seq<Window>
    decreases node,
{
    match node {
        Node::Leaf(w) => seq![w],
        Node::Split { axis: _, ratio: _, first, second } => leaves(*first) + leaves(*second),
    }
}

/// The position of the first window of `surface` at or after `from`.
pub open spec fn find_from(ws: Seq<Window>, surface: SurfaceId, from: int) -> Option<int>
    decreases ws.len() - from,
{
    if from < 0 || from >= ws.len() {
        None
    } else if ws[from].id() == surface {
        Some(from)
    } else {
        find_from(ws, surface, from + 1)
    }
}

/// The position of the first window of `surface`.
pub open spec fn position_of(ws: Seq<Window>, surface: SurfaceId) -> Option<int> {
    find_from(ws, surface, 0)
}

/// Whether a window of `surface` is among `ws`.
pub open spec fn among(ws: Seq<Window>, surface: SurfaceId) -> bool {
    exists|i: int| 0 <= i < ws.len() && (#[trigger] ws[i]).id() == surface
}

/// A search finds the first match, and finds one whenever there is one.
pub proof fn search_is_exact(ws: Seq<Window>, surface: SurfaceId, from: int)
    requires
        0 <= from <= ws.len(),
    ensures
        match find_from(ws, surface, from) {
            Some(i) => from <= i < ws.len() && ws[i].id() == surface && forall|j: int|
                from <= j < i ==> (#[trigger] ws[j]).id() != surface,
            None => forall|j: int| from <= j < ws.len() ==> (#[trigger] ws[j]).id() != surface,
        },
    decreases ws.len() - from,
{
    if from < ws.len() && ws[from].id() != surface {
        search_is_exact(ws, surface, from + 1);
    }
}

/// Where the next window goes in a leaf's cell: along its longer side, and
/// before the present window only where the cursor is in the cell's leading
/// half.
pub open spec fn split_choice(cell: Rect, cursor: Option<Point>) -> (SplitAxis, bool) {
    let axis = if cell.size.w >= cell.size.h {
        SplitAxis::LeftRight
    } else {
        SplitAxis::TopBottom
    };
    (
        axis,
        match cursor {
            Some(c) if cell.holds(c) => if axis == SplitAxis::LeftRight {
                c.x < cell.middle().x
            } else {
                c.y < cell.middle().y
            },
            _ => false,
        },
    )
}

fn pick_split(cell: Rect, cursor: Option<Point>) -> (r: (SplitAxis, bool))
    ensures
        r == split_choice(cell, cursor),
{
    let middle = cell.center();
    if cell.size.w >= cell.size.h {
        (
            SplitAxis::LeftRight,
            match cursor {
                None => false,
                Some(c) => cell.contains(c) && c.x < middle.x,
            },
        )
    } else {
        (
            SplitAxis::TopBottom,
            match cursor {
                None => false,
                Some(c) => cell.contains(c) && c.y < middle.y,
            },
        )
    }
}

/// Whether an insertion goes down the first part of a split: only where the
/// cursor is in that part's cell.
pub open spec fn goes_first(first_cell: Rect, cursor: Option<Point>) -> bool {
    match cursor {
        Some(c) => first_cell.holds(c),
        None => false,
    }
}

/// The tree with one more window, split off the leaf under the cursor; with no
/// cursor there, off the last leaf.
pub open spec fn inserted(
    node: Node,
    new: Window,
    bounds: Rect,
    cursor: Option<Point>,
    inner: int,
) -> Node
    decreases node,
{
    match node {
        Node::Leaf(existing) => {
            let (axis, new_first) = split_choice(bounds, cursor);
            Node::Split {
                axis,
                ratio: Ratio::even(),
                first: Box::new(
                    Node::Leaf(
                        if new_first {
                            new
                        } else {
                            existing
                        },
                    ),
                ),
                second: Box::new(
                    Node::Leaf(
                        if new_first {
                            existing
                        } else {
                            new
                        },
                    ),
                ),
            }
        },
        Node::Split { axis, ratio, first, second } => {
            let (b1, b2) = split_cells(bounds, axis, ratio, inner);
            if goes_first(b1, cursor) {
                Node::Split {
                    axis,
                    ratio,
                    first: Box::new(inserted(*first, new, b1, cursor, inner)),
                    second,
                }
            } else {
                Node::Split {
                    axis,
                    ratio,
                    first,
                    second: Box::new(inserted(*second, new, b2, cursor, inner)),
                }
            }
        },
    }
}

/// The tree with one more window, split off the leaf under the cursor.
pub fn insert_at_cursor(
    node: Node,
    new: Window,
    bounds: Rect,
    cursor: Option<Point>,
    inner: i32,
) -> (r: Node)
    ensures
        r == inserted(node, new, bounds, cursor, inner as int),
    decreases node,
{
    match node {
        Node::Leaf(existing) => {
            let (axis, new_first) = pick_split(bounds, cursor);
            let ratio = Ratio { num: 1, den: 2 };
            if new_first {
                Node::Split {
                    axis,
                    ratio,
                    first: Box::new(Node::Leaf(new)),
                    second: Box::new(Node::Leaf(existing)),
                }
            } else {
                Node::Split {
                    axis,
                    ratio,
                    first: Box::new(Node::Leaf(existing)),
                    second: Box::new(Node::Leaf(new)),
                }
            }
        },
        Node::Split { axis, ratio, first, second } => {
            let (b1, b2) = split_bounds(bounds, axis, ratio, inner);
            let go_first = match cursor {
                Some(c) => b1.contains(c),
                None => false,
            };
            if go_first {
                Node::Split {
                    axis,
                    ratio,
                    first: Box::new(insert_at_cursor(*first, new, b1, cursor, inner)),
                    second,
                }
            } else {
                Node::Split {
                    axis,
                    ratio,
                    first,
                    second: Box::new(insert_at_cursor(*second, new, b2, cursor, inner)),
                }
            }
        },
    }
}

/// The tree without the first window of `surface`, whose sibling takes over
/// the place of their split; `None` where it was the only window.
pub open spec fn pruned(node: Node, surface: SurfaceId) -> Option<Node>
    decreases node,
{
    match node {
        Node::Leaf(w) => if w.id() == surface {
            None
        } else {
            Some(node)
        },
        Node::Split { axis, ratio, first, second } => if in_tree(*first, surface) {
            match pruned(*first, surface) {
                Some(n) => Some(Node::Split { axis, ratio, first: Box::new(n), second }),
                None => Some(*second),
            }
        } else {
            match pruned(*second, surface) {
                Some(n) => Some(Node::Split { axis, ratio, first, second: Box::new(n) }),
                None => Some(*first),
            }
        },
    }
}

/// Whether a leaf of the tree shows `surface`.
pub open spec fn in_tree(node: Node, surface: SurfaceId) -> bool
    decreases node,
{
    match node {
        Node::Leaf(w) => w.id() == surface,
        Node::Split { axis: _, ratio: _, first, second } => in_tree(*first, surface) || in_tree(
            *second,
            surface,
        ),
    }
}

/// The first window of `surface` in the tree.
pub open spec fn leaf_of(node: Node, surface: SurfaceId) -> Option<Window>
    decreases node,
{
    match node {
        Node::Leaf(w) => if w.id() == surface {
            Some(w)
        } else {
            None
        },
        Node::Split { axis: _, ratio: _, first, second } => match leaf_of(*first, surface) {
            Some(w) => Some(w),
            None => leaf_of(*second, surface),
        },
    }
}

/// Takes the first window of `surface` out of the tree. The first part of the
/// result is the tree that is left, the second the window.
pub fn remove_from_tree(node: Node, surface: SurfaceId) -> (r: (Option<Node>, Option<Window>))
    ensures
        r.0 == pruned(node, surface),
        r.1 == leaf_of(node, surface),
        r.1.is_some() == in_tree(node, surface),
        r.1.is_none() ==> r.0 == Some(node),
    decreases node,
{
    match node {
        Node::Leaf(w) => {
            if w.toplevel.wl_surface() == surface {
                (None, Some(w))
            } else {
                (Some(Node::Leaf(w)), None)
            }
        },
        Node::Split { axis, ratio, first, second } => {
            let (first_after, removed) = remove_from_tree(*first, surface);
            if let Some(window) = removed {
                let after = match first_after {
                    Some(n) => Node::Split { axis, ratio, first: Box::new(n), second },
                    None => *second,
                };
                return (Some(after), Some(window));
            }
            let first_kept = first_after.unwrap();
            let (second_after, removed) = remove_from_tree(*second, surface);
            let after = match second_after {
                Some(n) => Node::Split {
                    axis,
                    ratio,
                    first: Box::new(first_kept),
                    second: Box::new(n),
                },
                None => first_kept,
            };
            (Some(after), removed)
        },
    }
}

/// The tree with every leaf's rectangle set to its cell.
pub open spec fn placed(node: Node, bounds: Rect, inner: int) -> Node
    decreases node,
{
    match node {
        Node::Leaf(w) => Node::Leaf(Window { rect: bounds, ..w }),
        Node::Split { axis, ratio, first, second } => {
            let (b1, b2) = split_cells(bounds, axis, ratio, inner);
            Node::Split {
                axis,
                ratio,
                first: Box::new(placed(*first, b1, inner)),
                second: Box::new(placed(*second, b2, inner)),
            }
        },
    }
}

/// The tree with every leaf's rectangle set to its cell.
pub fn assign_rects(node: Node, bounds: Rect, inner: i32) -> (r: Node)
    ensures
        r == placed(node, bounds, inner as int),
    decreases node,
{
    match node {
        Node::Leaf(w) => Node::Leaf(Window { toplevel: w.toplevel, rect: bounds, fill: w.fill }),
        Node::Split { axis, ratio, first, second } => {
            let (b1, b2) = split_bounds(bounds, axis, ratio, inner);
            Node::Split {
                axis,
                ratio,
                first: Box::new(assign_rects(*first, b1, inner)),
                second: Box::new(assign_rects(*second, b2, inner)),
            }
        },
    }
}

/// The first leaf whose rectangle holds `pos`.
pub open spec fn leaf_under(node: Node, pos: Point) -> Option<Window>
    decreases node,
{
    match node {
        Node::Leaf(w) => if w.rect.holds(pos) {
            Some(w)
        } else {
            None
        },
        Node::Split { axis: _, ratio: _, first, second } => match leaf_under(*first, pos) {
            Some(w) => Some(w),
            None => leaf_under(*second, pos),
        },
    }
}

/// The first leaf whose rectangle holds `pos`.
pub fn leaf_at(node: &Node, pos: Point) -> (r: Option<Window>)
    ensures
        r == leaf_under(*node, pos),
    decreases node,
{
    match node {
        Node::Leaf(w) => if w.rect.contains(pos) {
            Some(*w)
        } else {
            None
        },
        Node::Split { axis: _, ratio: _, first, second } => match leaf_at(first, pos) {
            Some(w) => Some(w),
            None => leaf_at(second, pos),
        },
    }
}

/// The first window of `surface` in the tree.
pub fn leaf_ref(node: &Node, surface: SurfaceId) -> (r: Option<Window>)
    ensures
        r == leaf_of(*node, surface),
    decreases node,
{
    match node {
        Node::Leaf(w) => if w.toplevel.wl_surface() == surface {
            Some(*w)
        } else {
            None
        },
        Node::Split { axis: _, ratio: _, first, second } => match leaf_ref(first, surface) {
            Some(w) => Some(w),
            None => leaf_ref(second, surface),
        },
    }
}

/// Whether a leaf of the tree shows `surface`.
pub fn tree_contains(node: &Node, surface: SurfaceId) -> (r: bool)
    ensures
        r == in_tree(*node, surface),
    decreases node,
{
    match node {
        Node::Leaf(w) => w.toplevel.wl_surface() == surface,
        Node::Split { axis: _, ratio: _, first, second } => tree_contains(first, surface)
            || tree_contains(second, surface),
    }
}

/// Appends the windows of the tree, first leaf first.
pub fn collect_windows(node: &Node, out: &mut Vec<Window>)
    ensures
        final(out)@ == old(out)@ + leaves(*node),
    decreases node,
{
    match node {
        Node::Leaf(w) => out.push(*w),
        Node::Split { axis: _, ratio: _, first, second } => {
            collect_windows(first, out);
            collect_windows(second, out);
            assert(out@ =~= old(out)@ + (leaves(**first) + leaves(**second)));
        },
    }
}

/// The tree in which the first window of `surface` has the given fill mode.
pub open spec fn refilled(node: Node, surface: SurfaceId, fill: FillMode) -> Node
    decreases node,
{
    match node {
        Node::Leaf(w) => if w.id() == surface {
            Node::Leaf(Window { fill, ..w })
        } else {
            node
        },
        Node::Split { axis, ratio, first, second } => if in_tree(*first, surface) {
            Node::Split { axis, ratio, first: Box::new(refilled(*first, surface, fill)), second }
        } else {
            Node::Split { axis, ratio, first, second: Box::new(refilled(*second, surface, fill)) }
        },
    }
}

/// Gives the first window of `surface` another fill mode.
pub fn refill_leaf(node: Node, surface: SurfaceId, fill: FillMode) -> (r: Node)
    ensures
        r == refilled(node, surface, fill),
    decreases node,
{
    match node {
        Node::Leaf(w) => if w.toplevel.wl_surface() == surface {
            Node::Leaf(Window { toplevel: w.toplevel, rect: w.rect, fill })
        } else {
            Node::Leaf(w)
        },
        Node::Split { axis, ratio, first, second } => if tree_contains(&first, surface) {
            Node::Split { axis, ratio, first: Box::new(refill_leaf(*first, surface, fill)), second }
        } else {
            Node::Split { axis, ratio, first, second: Box::new(refill_leaf(*second, surface, fill)) }
        },
    }
}

/// Which edges of a window a resize drag moves.
#[derive(Debug, Clone, Copy, PartialEq, Eq, Structural)]
pub struct ResizeEdges {
    pub right: bool,
    pub bottom: bool,
}

impl ResizeEdges {
    /// The edges nearest to the press: the right one from the middle on, the
    /// bottom one likewise.
    pub fn from_press(rect: Rect, cursor: Point) -> (r: ResizeEdges)
        ensures
            r.right == (cursor.x >= rect.middle().x),
            r.bottom == (cursor.y >= rect.middle().y),
    {
        let middle = rect.center();
        ResizeEdges { right: cursor.x >= middle.x, bottom: cursor.y >= middle.y }
    }
}

/// Where a divider may stand in a span of pixels: it leaves both parts `min`
/// pixels where there is room, and otherwise stands at the middle or after it.
pub open spec fn divider_range(span: int, min: int) -> (int, int) {
    let lo = smaller(min, half(span));
    (lo, larger(clipped(span - min) as int, lo))
}

/// The share that puts a divider at a pixel of a cell, kept in its range.
pub open spec fn divider_ratio(span: int, origin: int, at: int, min: int) -> Ratio {
    let (lo, hi) = divider_range(span, min);
    Ratio { num: smaller(larger(at - origin, lo), hi) as i32, den: larger(span, 1) as i32 }
}

/// The share that puts a divider at pixel `split_px` of a cell that starts at
/// `origin`, kept so that both parts stay usable.
pub fn ratio_for_divider(span: i32, origin: i32, split_px: i32, min: i32) -> (r: Ratio)
    ensures
        r == divider_ratio(span as int, origin as int, split_px as int, min as int),
{
    let lo: i32 = min32(min, halve(span));
    let hi: i32 = max32(clip(span as i64 - min as i64), lo);
    let at: i64 = split_px as i64 - origin as i64;
    let num: i32 = if at <= lo as i64 {
        lo
    } else if at >= hi as i64 {
        hi
    } else {
        at as i32
    };
    Ratio { num, den: max32(span, 1) }
}

/// What a resize drag made of a tree.
pub struct Resized {
    /// Whether the dragged window is in the tree.
    pub found: bool,
    pub node: Node,
    /// Whether a divider between columns has moved.
    pub done_h: bool,
    /// Whether a divider between rows has moved.
    pub done_v: bool,
}

/// Where a resize drag wants the divider of a split: at the dragged edge of
/// the target, half a gap beyond it, where that edge faces this divider and no
/// deeper divider of the same direction has taken it.
pub open spec fn wanted_divider(
    axis: SplitAxis,
    in_first: bool,
    target: Rect,
    edges: ResizeEdges,
    inner: int,
    done_h: bool,
    done_v: bool,
) -> Option<int> {
    let (before, after) = gap_halves(inner);
    match axis {
        SplitAxis::LeftRight => if done_h {
            None
        } else if in_first && edges.right {
            Some(clipped(target.loc.x + target.size.w + before) as int)
        } else if !in_first && !edges.right {
            Some(clipped(target.loc.x - after) as int)
        } else {
            None
        },
        SplitAxis::TopBottom => if done_v {
            None
        } else if in_first && edges.bottom {
            Some(clipped(target.loc.y + target.size.h + before) as int)
        } else if !in_first && !edges.bottom {
            Some(clipped(target.loc.y - after) as int)
        } else {
            None
        },
    }
}

/// The tree after dragging edges of the window of `surface` towards `target`:
/// of the splits above it, the innermost one of each direction whose divider
/// the dragged edge faces gets the share that puts it there.
pub open spec fn resized(
    node: Node,
    bounds: Rect,
    inner: int,
    surface: SurfaceId,
    target: Rect,
    edges: ResizeEdges,
    done_h: bool,
    done_v: bool,
) -> Resized
    decreases node,
{
    match node {
        Node::Leaf(w) => Resized { found: w.id() == surface, node, done_h, done_v },
        Node::Split { axis, ratio, first, second } => {
            let (b1, b2) = split_cells(bounds, axis, ratio, inner);
            let a = resized(*first, b1, inner, surface, target, edges, done_h, done_v);
            let b = resized(*second, b2, inner, surface, target, edges, a.done_h, a.done_v);
            let (dh, dv) = if a.found {
                (a.done_h, a.done_v)
            } else {
                (b.done_h, b.done_v)
            };
            let new_first = a.node;
            let new_second = if a.found {
                *second
            } else {
                b.node
            };
            let found = a.found || b.found;
            let want = wanted_divider(axis, a.found, target, edges, inner, dh, dv);
            if found && want.is_some() {
                Resized {
                    found,
                    node: Node::Split {
                        axis,
                        ratio: if axis == SplitAxis::LeftRight {
                            divider_ratio(
                                bounds.size.w as int,
                                bounds.loc.x as int,
                                want.unwrap(),
                                MIN_TILE_W as int,
                            )
                        } else {
                            divider_ratio(
                                bounds.size.h as int,
                                bounds.loc.y as int,
                                want.unwrap(),
                                MIN_TILE_H as int,
                            )
                        },
                        first: Box::new(new_first),
                        second: Box::new(new_second),
                    },
                    done_h: dh || axis == SplitAxis::LeftRight,
                    done_v: dv || axis == SplitAxis::TopBottom,
                }
            } else {
                Resized {
                    found,
                    node: Node::Split {
                        axis,
                        ratio,
                        first: Box::new(new_first),
                        second: Box::new(new_second),
                    },
                    done_h: dh,
                    done_v: dv,
                }
            }
        },
    }
}

fn divider_target(
    axis: SplitAxis,
    in_first: bool,
    target: Rect,
    edges: ResizeEdges,
    inner: i32,
    done_h: bool,
    done_v: bool,
) -> (r: Option<i32>)
    ensures
        r.is_some() == wanted_divider(
            axis,
            in_first,
            target,
            edges,
            inner as int,
            done_h,
            done_v,
        ).is_some(),
        r.is_some() ==> r.unwrap() == wanted_divider(
            axis,
            in_first,
            target,
            edges,
            inner as int,
            done_h,
            done_v,
        ).unwrap(),
{
    let gap: i32 = max32(inner, 0);
    let before: i64 = (gap / 2) as i64;
    let after: i64 = gap as i64 - before;
    match axis {
        SplitAxis::LeftRight => if done_h {
            None
        } else if in_first && edges.right {
            Some(clip(target.loc.x as i64 + target.size.w as i64 + before))
        } else if !in_first && !edges.right {
            Some(clip(target.loc.x as i64 - after))
        } else {
            None
        },
        SplitAxis::TopBottom => if done_v {
            None
        } else if in_first && edges.bottom {
            Some(clip(target.loc.y as i64 + target.size.h as i64 + before))
        } else if !in_first && !edges.bottom {
            Some(clip(target.loc.y as i64 - after))
        } else {
            None
        },
    }
}

/// Drags edges of the window of `surface` towards `target`.
pub fn resize_leaf(
    node: Node,
    bounds: Rect,
    inner: i32,
    surface: SurfaceId,
    target: Rect,
    edges: ResizeEdges,
    done_h: bool,
    done_v: bool,
) -> (r: Resized)
    ensures
        r == resized(node, bounds, inner as int, surface, target, edges, done_h, done_v),
    decreases node,
{
    match node {
        Node::Leaf(w) => {
            let found = w.toplevel.wl_surface() == surface;
            Resized { found, node: Node::Leaf(w), done_h, done_v }
        },
        Node::Split { axis, ratio, first, second } => {
            let (b1, b2) = split_bounds(bounds, axis, ratio, inner);
            let a = resize_leaf(*first, b1, inner, surface, target, edges, done_h, done_v);
            let in_first = a.found;
            let mut dh = a.done_h;
            let mut dv = a.done_v;
            let mut found = in_first;
            let mut new_second = second;
            if !in_first {
                let b = resize_leaf(*new_second, b2, inner, surface, target, edges, dh, dv);
                dh = b.done_h;
                dv = b.done_v;
                found = b.found;
                new_second = Box::new(b.node);
            }
            let mut new_ratio = ratio;
            if found {
                if let Some(at) = divider_target(axis, in_first, target, edges, inner, dh, dv) {
                    match axis {
                        SplitAxis::LeftRight => {
                            new_ratio = ratio_for_divider(
                                bounds.size.w,
                                bounds.loc.x,
                                at,
                                MIN_TILE_W,
                            );
                            dh = true;
                        },
                        SplitAxis::TopBottom => {
                            new_ratio = ratio_for_divider(
                                bounds.size.h,
                                bounds.loc.y,
                                at,
                                MIN_TILE_H,
                            );
                            dv = true;
                        },
                    }
                }
            }
            Resized {
                found,
                node: Node::Split {
                    axis,
                    ratio: new_ratio,
                    first: Box::new(a.node),
                    second: new_second,
                },
                done_h: dh,
                done_v: dv,
            }
        },
    }
}

/// A tree is never without a window, and finding, holding and listing windows
/// agree: the window found for a surface is the first of its leaves.
pub proof fn tree_search_agrees_with_leaves(node: Node, surface: SurfaceId)
    ensures
        leaves(node).len() >= 1,
        in_tree(node, surface) == among(leaves(node), surface),
        in_tree(node, surface) == leaf_of(node, surface).is_some(),
        in_tree(node, surface) ==> position_of(leaves(node), surface).is_some() && leaf_of(
            node,
            surface,
        ) == Some(leaves(node)[position_of(leaves(node), surface).unwrap()]),
        !in_tree(node, surface) ==> position_of(leaves(node), surface).is_none(),
    decreases node,
{
    let l = leaves(node);
    search_is_exact(l, surface, 0);
    match node {
        Node::Leaf(w) => {
            assert(l[0] == w);
        },
        Node::Split { axis: _, ratio: _, first, second } => {
            tree_search_agrees_with_leaves(*first, surface);
            tree_search_agrees_with_leaves(*second, surface);
            let (a, b) = (leaves(*first), leaves(*second));
            search_is_exact(a, surface, 0);
            search_is_exact(b, surface, 0);
            assert forall|i: int| 0 <= i < b.len() implies l[a.len() + i] == b[i] by {}
            if in_tree(*first, surface) {
                let i = position_of(a, surface).unwrap();
                assert(l[i] == a[i]);
                assert forall|j: int| 0 <= j < i implies (#[trigger] l[j]).id() != surface by {
                    assert(l[j] == a[j]);
                }
            } else {
                assert forall|j: int| 0 <= j < a.len() implies (#[trigger] l[j]).id() != surface by {
                    assert(l[j] == a[j]);
                }
                if in_tree(*second, surface) {
                    let i = position_of(b, surface).unwrap();
                    assert(l[a.len() + i] == b[i]);
                    assert forall|j: int| 0 <= j < a.len() + i implies (#[trigger] l[j]).id()
                        != surface by {
                        if j >= a.len() {
                            assert(l[j] == b[j - a.len()]);
                        }
                    }
                } else {
                    assert forall|j: int| 0 <= j < l.len() implies (#[trigger] l[j]).id()
                        != surface by {
                        if j >= a.len() {
                            assert(l[j] == b[j - a.len()]);
                        }
                    }
                }
            }
        },
    }
}

proof fn insert_before(a: Seq<Window>, b: Seq<Window>, at: int, new: Window)
    requires
        0 <= at <= a.len(),
    ensures
        a.insert(at, new) + b == (a + b).insert(at, new),
{
    assert(a.insert(at, new) + b =~= (a + b).insert(at, new));
}

proof fn insert_after(a: Seq<Window>, b: Seq<Window>, at: int, new: Window)
    requires
        0 <= at <= b.len(),
    ensures
        a + b.insert(at, new) == (a + b).insert(a.len() + at, new),
{
    assert(a + b.insert(at, new) =~= (a + b).insert(a.len() + at, new));
}

/// Inserting keeps every window and adds the new one next to an old one: the
/// leaves are the old ones with the new window put in at some place.
pub proof fn insertion_adds_one_leaf(
    node: Node,
    new: Window,
    bounds: Rect,
    cursor: Option<Point>,
    inner: int,
) -> (at: int)
    ensures
        0 <= at <= leaves(node).len(),
        leaves(inserted(node, new, bounds, cursor, inner)) == leaves(node).insert(at, new),
    decreases node,
{
    match node {
        Node::Leaf(existing) => {
            let new_first = split_choice(bounds, cursor).1;
            let (x, y) = if new_first {
                (new, existing)
            } else {
                (existing, new)
            };
            assert(leaves(Node::Leaf(x)) =~= seq![x]);
            assert(leaves(Node::Leaf(y)) =~= seq![y]);
            assert(leaves(node) =~= seq![existing]);
            let at: int = if new_first {
                0
            } else {
                1
            };
            assert(seq![x] + seq![y] =~= seq![existing].insert(at, new));
            at
        },
        Node::Split { axis, ratio, first, second } => {
            let (b1, b2) = split_cells(bounds, axis, ratio, inner);
            let (a, b) = (leaves(*first), leaves(*second));
            if goes_first(b1, cursor) {
                let at = insertion_adds_one_leaf(*first, new, b1, cursor, inner);
                insert_before(a, b, at, new);
                at
            } else {
                let at = insertion_adds_one_leaf(*second, new, b2, cursor, inner);
                insert_after(a, b, at, new);
                a.len() + at
            }
        },
    }
}

/// Removing takes out the first window of the surface and no other; a tree
/// without the surface is left as it was.
pub proof fn removal_takes_one_leaf(node: Node, surface: SurfaceId)
    ensures
        !in_tree(node, surface) ==> pruned(node, surface) == Some(node),
        in_tree(node, surface) ==> position_of(leaves(node), surface).is_some(),
        in_tree(node, surface) ==> match pruned(node, surface) {
            Some(rest) => leaves(rest) == leaves(node).remove(
                position_of(leaves(node), surface).unwrap(),
            ),
            None => leaves(node).len() == 1,
        },
    decreases node,
{
    tree_search_agrees_with_leaves(node, surface);
    let l = leaves(node);
    search_is_exact(l, surface, 0);
    match node {
        Node::Leaf(_) => {},
        Node::Split { axis, ratio, first, second } => {
            removal_takes_one_leaf(*first, surface);
            removal_takes_one_leaf(*second, surface);
            tree_search_agrees_with_leaves(*first, surface);
            tree_search_agrees_with_leaves(*second, surface);
            let (a, b) = (leaves(*first), leaves(*second));
            search_is_exact(a, surface, 0);
            search_is_exact(b, surface, 0);
            let i = position_of(l, surface);
            if in_tree(*first, surface) {
                let k = position_of(a, surface).unwrap();
                assert(l[k] == a[k]);
                assert(i.unwrap() == k) by {
                    if i.unwrap() < k {
                        assert(l[i.unwrap()] == a[i.unwrap()]);
                    }
                }
                match pruned(*first, surface) {
                    Some(rest) => {
                        assert(a.remove(k) + b =~= l.remove(k));
                    },
                    None => {
                        assert(b =~= l.remove(k));
                    },
                }
            } else if in_tree(*second, surface) {
                let k = position_of(b, surface).unwrap();
                assert(l[a.len() + k] == b[k]);
                assert(i.unwrap() == a.len() + k) by {
                    let j = i.unwrap();
                    if j < a.len() {
                        assert(l[j] == a[j]);
                    } else if j < a.len() + k {
                        assert(l[j] == b[j - a.len()]);
                    }
                }
                match pruned(*second, surface) {
                    Some(rest) => {
                        assert(a + b.remove(k) =~= l.remove(a.len() + k));
                    },
                    None => {
                        assert(a =~= l.remove(a.len() + k));
                    },
                }
            }
        },
    }
}

/// Taking a window out right after putting it in gives back the tree, whatever
/// the cursor was, as long as the surface was not in it before.
pub proof fn removal_undoes_insertion(
    node: Node,
    new: Window,
    bounds: Rect,
    cursor: Option<Point>,
    inner: int,
)
    requires
        !in_tree(node, new.id()),
    ensures
        pruned(inserted(node, new, bounds, cursor, inner), new.id()) == Some(node),
        leaf_of(inserted(node, new, bounds, cursor, inner), new.id()) == Some(new),
        in_tree(inserted(node, new, bounds, cursor, inner), new.id()),
    decreases node,
{
    match node {
        Node::Leaf(existing) => {
            reveal_with_fuel(pruned, 2);
            reveal_with_fuel(leaf_of, 2);
            reveal_with_fuel(in_tree, 2);
        },
        Node::Split { axis, ratio, first, second } => {
            let (b1, b2) = split_cells(bounds, axis, ratio, inner);
            tree_search_agrees_with_leaves(*first, new.id());
            if goes_first(b1, cursor) {
                removal_undoes_insertion(*first, new, b1, cursor, inner);
            } else {
                removal_undoes_insertion(*second, new, b2, cursor, inner);
            }
        },
    }
}

/// Laying out a tree changes rectangles only: the leaves keep their order,
/// their roles and their fill modes.
pub proof fn placing_keeps_the_windows(node: Node, bounds: Rect, inner: int)
    ensures
        leaves(placed(node, bounds, inner)).len() == leaves(node).len(),
        forall|i: int|
            0 <= i < leaves(node).len() ==> (#[trigger] leaves(
                placed(node, bounds, inner),
            )[i]).toplevel == leaves(node)[i].toplevel && leaves(placed(node, bounds, inner))[i].fill
                == leaves(node)[i].fill,
    decreases node,
{
    match node {
        Node::Leaf(_) => {},
        Node::Split { axis, ratio, first, second } => {
            let (b1, b2) = split_cells(bounds, axis, ratio, inner);
            placing_keeps_the_windows(*first, b1, inner);
            placing_keeps_the_windows(*second, b2, inner);
        },
    }
}

/// Laying out a second time in the same cell changes nothing.
pub proof fn placing_is_idempotent(node: Node, bounds: Rect, inner: int)
    ensures
        placed(placed(node, bounds, inner), bounds, inner) == placed(node, bounds, inner),
    decreases node,
{
    match node {
        Node::Leaf(_) => {},
        Node::Split { axis, ratio, first, second } => {
            let (b1, b2) = split_cells(bounds, axis, ratio, inner);
            placing_is_idempotent(*first, b1, inner);
            placing_is_idempotent(*second, b2, inner);
        },
    }
}

/// A resize drag moves dividers only: the windows and their order stay.
pub proof fn resizing_keeps_the_leaves(
    node: Node,
    bounds: Rect,
    inner: int,
    surface: SurfaceId,
    target: Rect,
    edges: ResizeEdges,
    done_h: bool,
    done_v: bool,
)
    ensures
        leaves(
            resized(node, bounds, inner, surface, target, edges, done_h, done_v).node,
        ) == leaves(node),
        resized(node, bounds, inner, surface, target, edges, done_h, done_v).found == in_tree(
            node,
            surface,
        ),
    decreases node,
{
    match node {
        Node::Leaf(_) => {},
        Node::Split { axis, ratio, first, second } => {
            let (b1, b2) = split_cells(bounds, axis, ratio, inner);
            resizing_keeps_the_leaves(*first, b1, inner, surface, target, edges, done_h, done_v);
            let a = resized(*first, b1, inner, surface, target, edges, done_h, done_v);
            resizing_keeps_the_leaves(
                *second,
                b2,
                inner,
                surface,
                target,
                edges,
                a.done_h,
                a.done_v,
            );
        },
    }
}

/// A divider dropped on a pixel of its range stands on that pixel.
pub proof fn divider_lands_where_it_is_dropped(span: int, origin: int, at: int, min: int)
    requires
        2 <= span <= i32::MAX,
        1 <= min <= i32::MAX,
        divider_range(span, min).0 <= at - origin <= divider_range(span, min).1,
    ensures
        divider_ratio(span, origin, at, min).line(span) == at - origin,
{
    let r = divider_ratio(span, origin, at, min);
    let k = at - origin;
    assert(1 <= k <= span - 1);
    assert((span * k) / span == k) by (nonlinear_arith)
        requires
            span >= 1,
    ;
}

/// A divider drag leaves both parts the minimum wherever the cell has room for
/// two minimums.
pub proof fn divider_leaves_room_for_both(span: int, origin: int, at: int, min: int)
    requires
        1 <= min,
        2 * min <= span <= i32::MAX,
    ensures
        min <= divider_ratio(span, origin, at, min).line(span) <= span - min,
{
    let k = smaller(larger(at - origin, min), span - min);
    divider_lands_where_it_is_dropped(span, 0, k, min);
}

/// Whether every split of the tree has room for its gap and for a pixel on
/// either side, inside the coordinate range.
pub open spec fn roomy(node: Node, bounds: Rect, inner: int) -> bool
    decreases node,
{
    match node {
        Node::Leaf(_) => bounds.size.is_positive(),
        Node::Split { axis, ratio, first, second } => {
            let (before, after) = gap_halves(inner);
            let (b1, b2) = split_cells(bounds, axis, ratio, inner);
            &&& bounds.loc.x + bounds.size.w <= i32::MAX
            &&& bounds.loc.y + bounds.size.h <= i32::MAX
            &&& match axis {
                SplitAxis::LeftRight => ratio.line(bounds.size.w as int) - before >= 1
                    && bounds.size.w - ratio.line(bounds.size.w as int) - after >= 1,
                SplitAxis::TopBottom => ratio.line(bounds.size.h as int) - before >= 1
                    && bounds.size.h - ratio.line(bounds.size.h as int) - after >= 1,
            }
            &&& roomy(*first, b1, inner)
            &&& roomy(*second, b2, inner)
        },
    }
}

/// Tiles stay inside the cell of their tree.
pub proof fn tiles_stay_inside(node: Node, bounds: Rect, inner: int, i: int, p: Point)
    requires
        roomy(node, bounds, inner),
        0 <= i < leaves(placed(node, bounds, inner)).len(),
        leaves(placed(node, bounds, inner))[i].rect.holds(p),
    ensures
        bounds.holds(p),
    decreases node,
{
    match node {
        Node::Leaf(_) => {},
        Node::Split { axis, ratio, first, second } => {
            let (b1, b2) = split_cells(bounds, axis, ratio, inner);
            let a = leaves(placed(*first, b1, inner));
            let b = leaves(placed(*second, b2, inner));
            if i < a.len() {
                tiles_stay_inside(*first, b1, inner, i, p);
            } else {
                tiles_stay_inside(*second, b2, inner, i - a.len(), p);
            }
        },
    }
}

/// No point belongs to two tiles.
pub proof fn tiles_never_overlap(node: Node, bounds: Rect, inner: int, i: int, j: int, p: Point)
    requires
        roomy(node, bounds, inner),
        0 <= i < j < leaves(placed(node, bounds, inner)).len(),
        leaves(placed(node, bounds, inner))[i].rect.holds(p),
    ensures
        !leaves(placed(node, bounds, inner))[j].rect.holds(p),
    decreases node,
{
    match node {
        Node::Leaf(_) => {},
        Node::Split { axis, ratio, first, second } => {
            let (b1, b2) = split_cells(bounds, axis, ratio, inner);
            let a = leaves(placed(*first, b1, inner));
            let b = leaves(placed(*second, b2, inner));
            if j < a.len() {
                tiles_never_overlap(*first, b1, inner, i, j, p);
            } else if i >= a.len() {
                tiles_never_overlap(*second, b2, inner, i - a.len(), j - a.len(), p);
            } else {
                tiles_stay_inside(*first, b1, inner, i, p);
                if b[j - a.len()].rect.holds(p) {
                    tiles_stay_inside(*second, b2, inner, j - a.len(), p);
                }
            }
        },
    }
}

/// A pointer over a tile of a laid-out tree finds that tile.
pub proof fn pointer_finds_the_tile_under_it(node: Node, bounds: Rect, inner: int, i: int, p: Point)
    requires
        roomy(node, bounds, inner),
        0 <= i < leaves(placed(node, bounds, inner)).len(),
        leaves(placed(node, bounds, inner))[i].rect.holds(p),
    ensures
        leaf_under(placed(node, bounds, inner), p) == Some(
            leaves(placed(node, bounds, inner))[i],
        ),
    decreases node,
{
    match node {
        Node::Leaf(_) => {},
        Node::Split { axis, ratio, first, second } => {
            let (b1, b2) = split_cells(bounds, axis, ratio, inner);
            let a = leaves(placed(*first, b1, inner));
            if i < a.len() {
                pointer_finds_the_tile_under_it(*first, b1, inner, i, p);
            } else {
                pointer_finds_the_tile_under_it(*second, b2, inner, i - a.len(), p);
                tiles_stay_inside(*second, b2, inner, i - a.len(), p);
                nothing_is_found_outside(*first, b1, inner, p);
            }
        },
    }
}

/// A pointer outside the cell of a laid-out tree finds none of its tiles.
pub proof fn nothing_is_found_outside(node: Node, bounds: Rect, inner: int, p: Point)
    requires
        roomy(node, bounds, inner),
        !bounds.holds(p),
    ensures
        leaf_under(placed(node, bounds, inner), p).is_none(),
    decreases node,
{
    match node {
        Node::Leaf(_) => {},
        Node::Split { axis, ratio, first, second } => {
            let (b1, b2) = split_cells(bounds, axis, ratio, inner);
            nothing_is_found_outside(*first, b1, inner, p);
            nothing_is_found_outside(*second, b2, inner, p);
        },
    }
}

/// Without gaps the tiles leave nothing of their cell free: every point of it
/// belongs to a tile.
pub proof fn tiles_cover_their_cell(node: Node, bounds: Rect, inner: int, p: Point) -> (i: int)
    requires
        roomy(node, bounds, inner),
        inner <= 0,
        bounds.holds(p),
    ensures
        0 <= i < leaves(placed(node, bounds, inner)).len(),
        leaves(placed(node, bounds, inner))[i].rect.holds(p),
    decreases node,
{
    match node {
        Node::Leaf(w) => {
            assert(leaves(placed(node, bounds, inner))[0].rect == bounds);
            0
        },
        Node::Split { axis, ratio, first, second } => {
            let (b1, b2) = split_cells(bounds, axis, ratio, inner);
            let a = leaves(placed(*first, b1, inner));
            let b = leaves(placed(*second, b2, inner));
            let l = leaves(placed(node, bounds, inner));
            assert(l =~= a + b);
            assert(b1.holds(p) || b2.holds(p));
            if b1.holds(p) {
                let i = tiles_cover_their_cell(*first, b1, inner, p);
                assert(l[i] == a[i]);
                i
            } else {
                let i = tiles_cover_their_cell(*second, b2, inner, p);
                assert(l[a.len() + i] == b[i]);
                a.len() + i
            }
        },
    }
}

/// The two parts of a split reach to the edges of their cell and keep the gap
/// between them, and nothing more is lost.
pub proof fn parts_keep_the_gap(bounds: Rect, axis: SplitAxis, ratio: Ratio, inner: int)
    requires
        bounds.loc.x + bounds.size.w <= i32::MAX,
        bounds.loc.y + bounds.size.h <= i32::MAX,
        0 <= inner,
        match axis {
            SplitAxis::LeftRight => ratio.line(bounds.size.w as int) - gap_halves(inner).0 >= 1
                && bounds.size.w - ratio.line(bounds.size.w as int) - gap_halves(inner).1 >= 1,
            SplitAxis::TopBottom => ratio.line(bounds.size.h as int) - gap_halves(inner).0 >= 1
                && bounds.size.h - ratio.line(bounds.size.h as int) - gap_halves(inner).1 >= 1,
        },
    ensures
        ({
            let (a, b) = split_cells(bounds, axis, ratio, inner);
            &&& a.loc == bounds.loc
            &&& b.loc.x + b.size.w == bounds.loc.x + bounds.size.w
            &&& b.loc.y + b.size.h == bounds.loc.y + bounds.size.h
            &&& axis == SplitAxis::LeftRight ==> a.size.h == bounds.size.h && b.size.h
                == bounds.size.h && b.loc.x == a.loc.x + a.size.w + inner
            &&& axis == SplitAxis::TopBottom ==> a.size.w == bounds.size.w && b.size.w
                == bounds.size.w && b.loc.y == a.loc.y + a.size.h + inner
        }),
{
}

/// A press moves the edges of the half it is in: the right one in the right
/// half, else the left one, and likewise the bottom or the top one.
pub proof fn the_middle_tells_the_edges(r: Rect, p: Point)
    requires
        r.holds(p),
        r.loc.x + r.size.w <= i32::MAX,
        r.loc.y + r.size.h <= i32::MAX,
    ensures
        p.x >= r.middle().x <==> 2 * (p.x - r.loc.x) >= r.size.w || 2 * (p.x - r.loc.x) + 1
            == r.size.w,
        p.y >= r.middle().y <==> 2 * (p.y - r.loc.y) >= r.size.h || 2 * (p.y - r.loc.y) + 1
            == r.size.h,
{
}

} // verus!
