//! Where windows end up: what opening, dropping and floating a window does to
//! the tiles of an output, and what a resize drag does to their edges.

use vstd::prelude::*;

use crate::desktop::{pane_search_is_exact, DragSource, LayoutModel, PaneModel, Probe};
use crate::geometry::{Point, Rect};
use crate::laws::{is_laid_out, tidying_keeps_the_active_workspace};
use crate::tree::{
    gap_halves, inserted, leaves, placed, roomy, split_cells, split_choice, tiles_stay_inside,
    tree_search_agrees_with_leaves, Node, Ratio, SplitAxis,
};
use crate::window::{FillMode, Window, WindowSurface};

verus! {

// ---- Dividing a tile

/// The pixels between two tiles.
pub open spec fn gap_of(inner: int) -> int {
    if inner > 0 {
        inner
    } else {
        0
    }
}

/// Whether a cell has room for two tiles and a gap along its longer side, and
/// lies in the coordinate range.
pub open spec fn can_be_divided(cell: Rect, inner: int) -> bool {
    &&& cell.loc.x + cell.size.w <= i32::MAX
    &&& cell.loc.y + cell.size.h <= i32::MAX
    &&& cell.size.w >= cell.size.h ==> cell.size.w >= gap_of(inner) + 2
    &&& cell.size.w < cell.size.h ==> cell.size.h >= gap_of(inner) + 2
}

/// Whether two rectangles share a cell: side by side if it is at least as wide
/// as high, else one above the other, each half of it but for a pixel, and
/// with the gap between them.
pub open spec fn share(cell: Rect, a: Rect, b: Rect, inner: int) -> bool {
    &&& a.loc == cell.loc
    &&& b.loc.x + b.size.w == cell.loc.x + cell.size.w
    &&& b.loc.y + b.size.h == cell.loc.y + cell.size.h
    &&& if cell.size.w >= cell.size.h {
        &&& a.size.h == cell.size.h
        &&& b.size.h == cell.size.h
        &&& b.loc.x == a.loc.x + a.size.w + gap_of(inner)
        &&& -1 <= a.size.w - b.size.w <= 1
    } else {
        &&& a.size.w == cell.size.w
        &&& b.size.w == cell.size.w
        &&& b.loc.y == a.loc.y + a.size.h + gap_of(inner)
        &&& -1 <= a.size.h - b.size.h <= 1
    }
}

/// Whether a point is in the half of a cell in which a window goes before the
/// one that is there: the left half if the cell is at least as wide as high,
/// else the upper one.
pub open spec fn in_leading_half(cell: Rect, c: Point) -> bool {
    if cell.size.w >= cell.size.h {
        c.x < cell.loc.x + cell.size.w / 2
    } else {
        c.y < cell.loc.y + cell.size.h / 2
    }
}

/// Whether the tiles `after` are the tiles `before` but for the one at `k`,
/// whose cell is shared with the new window `w`: the new one before the other
/// if `leading`, else after it. All others are as they were.
pub open spec fn shared_at(
    before: Seq<Window>,
    after: Seq<Window>,
    k: int,
    w: Window,
    leading: bool,
    inner: int,
) -> bool {
    let new = if leading {
        after[k]
    } else {
        after[k + 1]
    };
    let old = if leading {
        after[k + 1]
    } else {
        after[k]
    };
    &&& after.len() == before.len() + 1
    &&& forall|j: int| 0 <= j < k ==> #[trigger] after[j] == before[j]
    &&& forall|j: int| k + 1 < j < after.len() ==> #[trigger] after[j] == before[j - 1]
    &&& new.toplevel == w.toplevel
    &&& new.fill == w.fill
    &&& old.toplevel == before[k].toplevel
    &&& old.fill == before[k].fill
    &&& share(before[k].rect, after[k].rect, after[k + 1].rect, inner)
}

proof fn even_splits_share(cell: Rect, inner: int)
    requires
        cell.size.is_positive(),
        can_be_divided(cell, inner),
    ensures
        ({
            let axis = split_choice(cell, None).0;
            let (a, b) = split_cells(cell, axis, Ratio::even(), inner);
            share(cell, a, b, inner)
        }),
{
    let r = Ratio::even();
    let (w, h) = (cell.size.w as int, cell.size.h as int);
    assert((w * 1) / 2 == w / 2 && (h * 1) / 2 == h / 2);
    assert(r.line(w) == (if w >= 2 {
        w / 2
    } else {
        1
    }));
    assert(r.line(h) == (if h >= 2 {
        h / 2
    } else {
        1
    }));
}

#[verifier::opaque]
pub(crate) open spec fn shares(
    before: Seq<Window>,
    after: Seq<Window>,
    k: int,
    w: Window,
    leading: bool,
    inner: int,
) -> bool {
    shared_at(before, after, k, w, leading, inner)
}

proof fn a_single_tile_is_shared(
    existing: Window,
    new: Window,
    bounds: Rect,
    cursor: Option<Point>,
    inner: int,
)
    requires
        bounds.size.is_positive(),
        can_be_divided(bounds, inner),
    ensures
        ({
            let node = Node::Leaf(existing);
            shares(
                leaves(placed(node, bounds, inner)),
                leaves(placed(inserted(node, new, bounds, cursor, inner), bounds, inner)),
                0,
                new,
                cursor matches Some(c) && bounds.holds(c) && in_leading_half(bounds, c),
                inner,
            )
        }),
{
    reveal(shares);
    let node = Node::Leaf(existing);
    assert(leaves(placed(node, bounds, inner)) =~= seq![Window { rect: bounds, ..existing }]);
    two_leaves(node, new, bounds, cursor, inner);
    even_splits_share(bounds, inner);
}

proof fn shared_before(
    a: Seq<Window>,
    x: Seq<Window>,
    b: Seq<Window>,
    k: int,
    w: Window,
    leading: bool,
    inner: int,
)
    requires
        0 <= k < a.len(),
        shares(a, x, k, w, leading, inner),
    ensures
        shares(a + b, x + b, k, w, leading, inner),
{
    reveal(shares);
    let (before, after) = (a + b, x + b);
    assert(before[k] == a[k]);
    assert(after[k] == x[k] && after[k + 1] == x[k + 1]);
    assert forall|j: int| 0 <= j < k implies #[trigger] after[j] == before[j] by {
        assert(x[j] == a[j]);
    }
    assert forall|j: int| k + 1 < j < after.len() implies #[trigger] after[j] == before[j - 1] by {
        if j < x.len() {
            assert(x[j] == a[j - 1]);
        }
    }
}

proof fn shared_behind(
    a: Seq<Window>,
    b: Seq<Window>,
    x: Seq<Window>,
    k: int,
    w: Window,
    leading: bool,
    inner: int,
)
    requires
        0 <= k < b.len(),
        shares(b, x, k, w, leading, inner),
    ensures
        shares(a + b, a + x, a.len() + k, w, leading, inner),
{
    reveal(shares);
    let (before, after) = (a + b, a + x);
    let n = a.len() as int;
    assert(before[n + k] == b[k]);
    assert(after[n + k] == x[k] && after[n + k + 1] == x[k + 1]);
    assert forall|j: int| 0 <= j < n + k implies #[trigger] after[j] == before[j] by {
        if j >= n {
            assert(x[j - n] == b[j - n]);
        }
    }
    assert forall|j: int| n + k + 1 < j < after.len() implies #[trigger] after[j] == before[j
        - 1] by {
        assert(x[j - n] == b[j - n - 1]);
    }
}

proof fn parts_are_apart(bounds: Rect, axis: SplitAxis, ratio: Ratio, inner: int, c: Point)
    requires
        bounds.loc.x + bounds.size.w <= i32::MAX,
        bounds.loc.y + bounds.size.h <= i32::MAX,
        match axis {
            SplitAxis::LeftRight => ratio.line(bounds.size.w as int) - gap_halves(inner).0 >= 1
                && bounds.size.w - ratio.line(bounds.size.w as int) - gap_halves(inner).1 >= 1,
            SplitAxis::TopBottom => ratio.line(bounds.size.h as int) - gap_halves(inner).0 >= 1
                && bounds.size.h - ratio.line(bounds.size.h as int) - gap_halves(inner).1 >= 1,
        },
    ensures
        ({
            let (b1, b2) = split_cells(bounds, axis, ratio, inner);
            &&& b2.holds(c) ==> !b1.holds(c)
            &&& b1.holds(c) || b2.holds(c) ==> bounds.holds(c)
        }),
{
}

#[verifier::spinoff_prover]
#[verifier::rlimit(40)]
pub(crate) proof fn an_insertion_shares_the_tile_under_it(
    node: Node,
    new: Window,
    bounds: Rect,
    c: Point,
    inner: int,
    k: int,
)
    requires
        roomy(node, bounds, inner),
        0 <= k < leaves(placed(node, bounds, inner)).len(),
        leaves(placed(node, bounds, inner))[k].rect.holds(c),
        can_be_divided(leaves(placed(node, bounds, inner))[k].rect, inner),
    ensures
        ({
            let before = leaves(placed(node, bounds, inner));
            shares(
                before,
                leaves(placed(inserted(node, new, bounds, Some(c), inner), bounds, inner)),
                k,
                new,
                in_leading_half(before[k].rect, c),
                inner,
            )
        }),
    decreases node,
{
    let before = leaves(placed(node, bounds, inner));
    let tree = inserted(node, new, bounds, Some(c), inner);
    let after = leaves(placed(tree, bounds, inner));
    match node {
        Node::Leaf(existing) => {
            assert(before =~= seq![Window { rect: bounds, ..existing }]);
            a_single_tile_is_shared(existing, new, bounds, Some(c), inner);
        },
        Node::Split { axis, ratio, first, second } => {
            let (b1, b2) = split_cells(bounds, axis, ratio, inner);
            let a = leaves(placed(*first, b1, inner));
            let b = leaves(placed(*second, b2, inner));
            assert(before =~= a + b);
            if k < a.len() {
                assert(before[k] == a[k]);
                tiles_stay_inside(*first, b1, inner, k, c);
                an_insertion_shares_the_tile_under_it(*first, new, b1, c, inner, k);
                let x = leaves(placed(inserted(*first, new, b1, Some(c), inner), b1, inner));
                assert(after =~= x + b);
                shared_before(a, x, b, k, new, in_leading_half(a[k].rect, c), inner);
            } else {
                assert(before[k] == b[k - a.len()]);
                tiles_stay_inside(*second, b2, inner, k - a.len(), c);
                parts_are_apart(bounds, axis, ratio, inner, c);
                an_insertion_shares_the_tile_under_it(*second, new, b2, c, inner, k - a.len());
                let x = leaves(placed(inserted(*second, new, b2, Some(c), inner), b2, inner));
                assert(after =~= a + x);
                let at = k - a.len();
                shared_behind(a, b, x, at, new, in_leading_half(b[at].rect, c), inner);
            }
        },
    }
}

proof fn two_leaves(node: Node, new: Window, bounds: Rect, cursor: Option<Point>, inner: int)
    requires
        node is Leaf,
    ensures
        ({
            let existing = node->Leaf_0;
            let (axis, leading) = split_choice(bounds, cursor);
            let (a, b) = split_cells(bounds, axis, Ratio::even(), inner);
            let (x, y) = if leading {
                (new, existing)
            } else {
                (existing, new)
            };
            leaves(placed(inserted(node, new, bounds, cursor, inner), bounds, inner)) == seq![
                Window { rect: a, ..x },
                Window { rect: b, ..y },
            ]
        }),
{
    reveal_with_fuel(placed, 3);
    reveal_with_fuel(leaves, 3);
    let after = leaves(placed(inserted(node, new, bounds, cursor, inner), bounds, inner));
    let existing = node->Leaf_0;
    let (axis, leading) = split_choice(bounds, cursor);
    let (a, b) = split_cells(bounds, axis, Ratio::even(), inner);
    let (x, y) = if leading {
        (new, existing)
    } else {
        (existing, new)
    };
    assert(after =~= seq![Window { rect: a, ..x }, Window { rect: b, ..y }]);
}

#[verifier::spinoff_prover]
#[verifier::rlimit(40)]
proof fn an_insertion_without_a_cursor_shares_the_last_tile(
    node: Node,
    new: Window,
    bounds: Rect,
    cursor: Option<Point>,
    inner: int,
)
    requires
        roomy(node, bounds, inner),
        cursor matches Some(c) ==> !bounds.holds(c),
        can_be_divided(leaves(placed(node, bounds, inner)).last().rect, inner),
    ensures
        ({
            let before = leaves(placed(node, bounds, inner));
            shares(
                before,
                leaves(placed(inserted(node, new, bounds, cursor, inner), bounds, inner)),
                before.len() - 1,
                new,
                false,
                inner,
            )
        }),
    decreases node,
{
    let before = leaves(placed(node, bounds, inner));
    let tree = inserted(node, new, bounds, cursor, inner);
    let after = leaves(placed(tree, bounds, inner));
    match node {
        Node::Leaf(existing) => {
            assert(before =~= seq![Window { rect: bounds, ..existing }]);
            a_single_tile_is_shared(existing, new, bounds, cursor, inner);
        },
        Node::Split { axis, ratio, first, second } => {
            let (b1, b2) = split_cells(bounds, axis, ratio, inner);
            let a = leaves(placed(*first, b1, inner));
            let b = leaves(placed(*second, b2, inner));
            assert(before =~= a + b);
            tree_search_agrees_with_leaves(placed(*second, b2, inner), 0);
            if let Some(c) = cursor {
                parts_are_apart(bounds, axis, ratio, inner, c);
            }
            assert(before.last() == b.last());
            an_insertion_without_a_cursor_shares_the_last_tile(*second, new, b2, cursor, inner);
            let x = leaves(placed(inserted(*second, new, b2, cursor, inner), b2, inner));
            assert(after =~= a + x);
            shared_behind(a, b, x, b.len() - 1, new, false, inner);
        },
    }
}

// ---- Opening and dropping

/// The tiles of the workspace that an output shows.
pub open spec fn tiles_of(p: PaneModel) -> Seq<Window> {
    match p.current().tree {
        Some(t) => leaves(t),
        None => Seq::empty(),
    }
}

/// Whether the tiles that an output shows have the room they need.
pub open spec fn has_roomy_tiles(m: LayoutModel, i: int) -> bool {
    m.outputs[i].current().tree matches Some(t) ==> roomy(
        t,
        m.tile_bounds(i),
        m.gaps.inner as int,
    )
}

/// Whether an output is the first that has the point.
pub open spec fn is_under(m: LayoutModel, c: Point, i: int) -> bool {
    &&& 0 <= i < m.outputs.len()
    &&& m.outputs[i].full.holds(c)
    &&& forall|j: int| 0 <= j < i ==> !(#[trigger] m.outputs[j]).full.holds(c)
}

/// Whether an output is where a window goes that opens with the cursor there:
/// the first under the cursor, else the first of all.
pub open spec fn opens_on(m: LayoutModel, cursor: Option<Point>, i: int) -> bool {
    ||| cursor matches Some(c) && is_under(m, c, i)
    ||| {
        &&& i == 0
        &&& m.outputs.len() > 0
        &&& cursor matches Some(c) ==> forall|j: int|
            0 <= j < m.outputs.len() ==> !(#[trigger] m.outputs[j]).full.holds(c)
    }
}

/// Whether two desktops differ in nothing but the tiles that one output shows.
pub open spec fn same_but_tiles(a: LayoutModel, b: LayoutModel, i: int) -> bool {
    &&& b.outputs.len() == a.outputs.len()
    &&& forall|j: int| 0 <= j < a.outputs.len() && j != i ==> #[trigger] b.outputs[j] == a.outputs[j]
    &&& b.outputs[i].name == a.outputs[i].name
    &&& b.outputs[i].full == a.outputs[i].full
    &&& b.outputs[i].bounds == a.outputs[i].bounds
    &&& b.outputs[i].active == a.outputs[i].active
    &&& b.outputs[i].workspaces.len() == a.outputs[i].workspaces.len()
    &&& forall|x: int|
        0 <= x < a.outputs[i].workspaces.len() && x != a.outputs[i].active
            ==> #[trigger] b.outputs[i].workspaces[x] == a.outputs[i].workspaces[x]
    &&& b.outputs[i].current().floating == a.outputs[i].current().floating
    &&& b.in_transit == a.in_transit
    &&& b.gaps == a.gaps
}

pub(crate) proof fn laid_out_trees_stay(m: LayoutModel, i: int)
    requires
        m.valid(),
        is_laid_out(m),
        0 <= i < m.outputs.len(),
    ensures
        m.outputs[i].valid(),
        m.outputs[i].laid_out(m.gaps) == m.outputs[i],
        m.outputs[i].current().tree matches Some(t) ==> placed(
            t,
            m.tile_bounds(i),
            m.gaps.inner as int,
        ) == t,
{
    let p = m.outputs[i];
    assert(p.valid());
    assert(p.laid_out(m.gaps) == p);
    assert(p.laid_out(m.gaps).workspaces[p.active] == p.workspaces[p.active]);
}

pub(crate) proof fn tiling_changes_one_workspace(m: LayoutModel, i: int, w: Window, cursor: Option<Point>)
    requires
        m.valid(),
        is_laid_out(m),
        0 <= i < m.outputs.len(),
    ensures
        ({
            let after = m.tiling(i, w, cursor).reflowed();
            let b = m.tile_bounds(i);
            let inner = m.gaps.inner as int;
            &&& same_but_tiles(m, after, i)
            &&& after.outputs[i].valid()
            &&& after.outputs[i].current().tree == Some(
                placed(
                    match m.outputs[i].current().tree {
                        None => Node::Leaf(w),
                        Some(t) => inserted(t, w, b, cursor, inner),
                    },
                    b,
                    inner,
                ),
            )
        }),
{
    laid_out_trees_stay(m, i);
    let after = m.tiling(i, w, cursor).reflowed();
    assert forall|j: int| 0 <= j < m.outputs.len() && j != i implies #[trigger] after.outputs[j]
        == m.outputs[j] by {
        laid_out_trees_stay(m, j);
    }
    let p = m.outputs[i];
    assert forall|x: int| 0 <= x < p.workspaces.len() && x != p.active implies #[trigger] after.outputs[i].workspaces[x]
        == p.workspaces[x] by {
        assert(p.laid_out(m.gaps).workspaces[x] == p.workspaces[x]);
    }
}

pub(crate) proof fn landing_is_where_it_opens(m: LayoutModel, cursor: Option<Point>, i: int)
    requires
        opens_on(m, cursor, i),
    ensures
        m.landing(cursor) == Some(i),
{
    if let Some(c) = cursor {
        pane_search_is_exact(m.outputs, Probe::At(c), 0);
        match m.pane(Probe::At(c)) {
            Some(x) => {
                assert(m.outputs[x].full.holds(c));
                if is_under(m, c, i) && x < i {
                    assert(!m.outputs[x].full.holds(c));
                }
                if is_under(m, c, i) && i < x {
                    assert(!m.outputs[i].meets(Probe::At(c)));
                }
            },
            None => {
                if is_under(m, c, i) {
                    assert(!m.outputs[i].meets(Probe::At(c)));
                }
            },
        }
    }
}

/// A window that opens with the cursor on a tile shares that tile with its
/// window, and lies on the cursor's side of its middle: along the longer side
/// of the tile, and before the other only where the cursor is before the
/// middle. Everything else on the desktop stays as it was.
pub proof fn windows_open_at_the_cursor(
    m: LayoutModel,
    toplevel: WindowSurface,
    c: Point,
    i: int,
    k: int,
)
    requires
        m.valid(),
        is_laid_out(m),
        is_under(m, c, i),
        has_roomy_tiles(m, i),
        0 <= k < tiles_of(m.outputs[i]).len(),
        tiles_of(m.outputs[i])[k].rect.holds(c),
        can_be_divided(tiles_of(m.outputs[i])[k].rect, m.gaps.inner as int),
    ensures
        ({
            let after = m.inserting(toplevel, Some(c));
            let cell = tiles_of(m.outputs[i])[k].rect;
            &&& same_but_tiles(m, after, i)
            &&& shared_at(
                tiles_of(m.outputs[i]),
                tiles_of(after.outputs[i]),
                k,
                Window { toplevel, rect: cell, fill: FillMode::Normal },
                in_leading_half(cell, c),
                m.gaps.inner as int,
            )
        }),
{
    landing_is_where_it_opens(m, Some(c), i);
    let w = Window { toplevel, rect: m.tile_bounds(i), fill: FillMode::Normal };
    tiling_changes_one_workspace(m, i, w, Some(c));
    laid_out_trees_stay(m, i);
    let t = m.outputs[i].current().tree.unwrap();
    an_insertion_shares_the_tile_under_it(t, w, m.tile_bounds(i), c, m.gaps.inner as int, k);
    reveal(shares);
}

/// A window that opens with no cursor, or with the cursor off the tiles' area,
/// shares the last tile of its output and comes after its window.
pub proof fn windows_open_beside_the_last_tile(
    m: LayoutModel,
    toplevel: WindowSurface,
    cursor: Option<Point>,
    i: int,
)
    requires
        m.valid(),
        is_laid_out(m),
        opens_on(m, cursor, i),
        cursor matches Some(c) ==> !m.tile_bounds(i).holds(c),
        has_roomy_tiles(m, i),
        tiles_of(m.outputs[i]).len() > 0,
        can_be_divided(tiles_of(m.outputs[i]).last().rect, m.gaps.inner as int),
    ensures
        ({
            let after = m.inserting(toplevel, cursor);
            let before = tiles_of(m.outputs[i]);
            &&& same_but_tiles(m, after, i)
            &&& shared_at(
                before,
                tiles_of(after.outputs[i]),
                before.len() - 1,
                Window { toplevel, rect: before.last().rect, fill: FillMode::Normal },
                false,
                m.gaps.inner as int,
            )
        }),
{
    landing_is_where_it_opens(m, cursor, i);
    let w = Window { toplevel, rect: m.tile_bounds(i), fill: FillMode::Normal };
    tiling_changes_one_workspace(m, i, w, cursor);
    laid_out_trees_stay(m, i);
    let t = m.outputs[i].current().tree.unwrap();
    an_insertion_without_a_cursor_shares_the_last_tile(
        t,
        w,
        m.tile_bounds(i),
        cursor,
        m.gaps.inner as int,
    );
    reveal(shares);
}

/// Whether a rectangle is a work area less the outer gap on all four sides.
pub open spec fn is_inset(r: Rect, work: Rect, outer: int) -> bool {
    &&& r.loc.x == work.loc.x + gap_of(outer)
    &&& r.loc.y == work.loc.y + gap_of(outer)
    &&& r.loc.x + r.size.w + gap_of(outer) == work.loc.x + work.size.w
    &&& r.loc.y + r.size.h + gap_of(outer) == work.loc.y + work.size.h
}

/// The first window of a workspace covers all of the work area but the outer
/// gap.
pub proof fn the_first_window_covers_the_work_area(
    m: LayoutModel,
    toplevel: WindowSurface,
    cursor: Option<Point>,
    i: int,
)
    requires
        m.valid(),
        is_laid_out(m),
        opens_on(m, cursor, i),
        tiles_of(m.outputs[i]).len() == 0,
        m.outputs[i].bounds.loc.x + m.outputs[i].bounds.size.w <= i32::MAX,
        m.outputs[i].bounds.loc.y + m.outputs[i].bounds.size.h <= i32::MAX,
        m.outputs[i].bounds.size.w > 2 * gap_of(m.gaps.outer as int),
        m.outputs[i].bounds.size.h > 2 * gap_of(m.gaps.outer as int),
    ensures
        ({
            let after = m.inserting(toplevel, cursor);
            let now = tiles_of(after.outputs[i]);
            &&& same_but_tiles(m, after, i)
            &&& now.len() == 1
            &&& now[0].toplevel == toplevel
            &&& now[0].fill == FillMode::Normal
            &&& is_inset(now[0].rect, m.outputs[i].bounds, m.gaps.outer as int)
        }),
{
    landing_is_where_it_opens(m, cursor, i);
    let w = Window { toplevel, rect: m.tile_bounds(i), fill: FillMode::Normal };
    tiling_changes_one_workspace(m, i, w, cursor);
    if let Some(t) = m.outputs[i].current().tree {
        tree_search_agrees_with_leaves(t, 0);
    }
}

/// Whether what an output shows is the same but for its tiles.
pub open spec fn shows_the_same_floats(a: PaneModel, b: PaneModel) -> bool {
    &&& b.name == a.name
    &&& b.full == a.full
    &&& b.bounds == a.bounds
    &&& b.current().floating == a.current().floating
}

pub(crate) proof fn tidied_outputs_show_the_same(p: PaneModel, gaps: crate::desktop::Gaps)
    requires
        p.valid(),
    ensures
        p.tidied().valid(),
        p.tidied().laid_out(gaps).valid(),
        p.tidied().laid_out(gaps).current() == p.laid_out(gaps).current(),
        shows_the_same_floats(p, p.tidied().laid_out(gaps)),
{
    tidying_keeps_the_active_workspace(p);
}

pub(crate) proof fn drops_land_under_the_cursor(m: LayoutModel, c: Point, middle: Point, i: int)
    requires
        is_under(m, c, i),
    ensures
        m.drop_target(c, middle) == Some(i),
{
    landing_is_where_it_opens(m, Some(c), i);
    pane_search_is_exact(m.outputs, Probe::At(c), 0);
    if m.pane(Probe::At(c)).is_none() {
        assert(!m.outputs[i].meets(Probe::At(c)));
    }
}

proof fn dropping_a_tile(m: LayoutModel, c: Point, i: int)
    requires
        m.valid(),
        is_laid_out(m),
        is_under(m, c, i),
        m.in_transit matches Some(t) && t.source == DragSource::Tiled,
    ensures
        ({
            let after = m.landing_drag(c);
            let b = m.tile_bounds(i);
            let inner = m.gaps.inner as int;
            &&& after.in_transit.is_none()
            &&& after.outputs.len() == m.outputs.len()
            &&& shows_the_same_floats(m.outputs[i], after.outputs[i])
            &&& forall|j: int|
                0 <= j < m.outputs.len() && j != i ==> (#[trigger] after.outputs[j]).current()
                    == m.outputs[j].current()
            &&& after.outputs[i].current().tree == Some(
                placed(
                    match m.outputs[i].current().tree {
                        None => Node::Leaf(m.in_transit.unwrap().window),
                        Some(t) => inserted(t, m.in_transit.unwrap().window, b, Some(c), inner),
                    },
                    b,
                    inner,
                ),
            )
        }),
{
    let t = m.in_transit.unwrap();
    let free = LayoutModel { in_transit: None, ..m };
    assert(is_laid_out(free)) by {
        assert forall|j: int| 0 <= j < free.outputs.len() implies (#[trigger] free.outputs[j]).laid_out(
            free.gaps,
        ) == free.outputs[j] by {
            laid_out_trees_stay(m, j);
        }
    }
    assert(is_under(free, c, i));
    assert(free.valid()) by {
        assert forall|j: int| 0 <= j < free.outputs.len() implies (#[trigger] free.outputs[j]).valid() by {
            assert(m.outputs[j].valid());
        }
    }
    drops_land_under_the_cursor(free, c, t.window.rect.middle(), i);
    tiling_changes_one_workspace(free, i, t.window, Some(c));
    let put = free.tiling(i, t.window, Some(c));
    let here = put.tidying(i);
    let after = m.landing_drag(c);
    assert forall|j: int| 0 <= j < m.outputs.len() implies (#[trigger] after.outputs[j]).current()
        == put.reflowed().outputs[j].current() && shows_the_same_floats(
        put.outputs[j],
        after.outputs[j],
    ) by {
        assert(m.outputs[j].valid());
        assert(put.outputs[j].valid());
        tidied_outputs_show_the_same(put.outputs[j], m.gaps);
        if t.source_output as int == j && j != i {
            assert(here.outputs[j] == put.outputs[j]);
        }
    }
}

/// A dragged tile that is dropped on another tile shares that tile with its
/// window and lies on the cursor's side of its middle, just as if it had been
/// opened there. All other tiles stay as they were, on every output.
pub proof fn dropped_tiles_land_at_the_cursor(m: LayoutModel, c: Point, i: int, k: int)
    requires
        m.valid(),
        is_laid_out(m),
        is_under(m, c, i),
        m.in_transit matches Some(t) && t.source == DragSource::Tiled,
        has_roomy_tiles(m, i),
        0 <= k < tiles_of(m.outputs[i]).len(),
        tiles_of(m.outputs[i])[k].rect.holds(c),
        can_be_divided(tiles_of(m.outputs[i])[k].rect, m.gaps.inner as int),
    ensures
        ({
            let after = m.landing_drag(c);
            let cell = tiles_of(m.outputs[i])[k].rect;
            &&& after.in_transit.is_none()
            &&& after.outputs.len() == m.outputs.len()
            &&& shows_the_same_floats(m.outputs[i], after.outputs[i])
            &&& forall|j: int|
                0 <= j < m.outputs.len() && j != i ==> (#[trigger] after.outputs[j]).current()
                    == m.outputs[j].current()
            &&& shared_at(
                tiles_of(m.outputs[i]),
                tiles_of(after.outputs[i]),
                k,
                m.in_transit.unwrap().window,
                in_leading_half(cell, c),
                m.gaps.inner as int,
            )
        }),
{
    dropping_a_tile(m, c, i);
    laid_out_trees_stay(m, i);
    let t = m.outputs[i].current().tree.unwrap();
    an_insertion_shares_the_tile_under_it(
        t,
        m.in_transit.unwrap().window,
        m.tile_bounds(i),
        c,
        m.gaps.inner as int,
        k,
    );
    reveal(shares);
}

/// A dragged tile that is dropped on an output without tiles covers all of its
/// work area but the outer gap.
pub proof fn a_tile_dropped_on_an_empty_output_covers_it(m: LayoutModel, c: Point, i: int)
    requires
        m.valid(),
        is_laid_out(m),
        is_under(m, c, i),
        m.in_transit matches Some(t) && t.source == DragSource::Tiled,
        tiles_of(m.outputs[i]).len() == 0,
        m.outputs[i].bounds.loc.x + m.outputs[i].bounds.size.w <= i32::MAX,
        m.outputs[i].bounds.loc.y + m.outputs[i].bounds.size.h <= i32::MAX,
        m.outputs[i].bounds.size.w > 2 * gap_of(m.gaps.outer as int),
        m.outputs[i].bounds.size.h > 2 * gap_of(m.gaps.outer as int),
    ensures
        ({
            let now = tiles_of(m.landing_drag(c).outputs[i]);
            &&& now.len() == 1
            &&& now[0].toplevel == m.in_transit.unwrap().window.toplevel
            &&& is_inset(now[0].rect, m.outputs[i].bounds, m.gaps.outer as int)
        }),
{
    dropping_a_tile(m, c, i);
    if let Some(t) = m.outputs[i].current().tree {
        tree_search_agrees_with_leaves(t, 0);
    }
}

} // verus!
