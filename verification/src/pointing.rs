//! What lies under a point: the window that the pointer finds there is the one
//! that is seen there.

use vstd::prelude::*;

use crate::desktop::{
    last_filled, pane_search_is_exact, topmost_at, tree_windows, LayoutModel, Placement, Probe,
};
use crate::geometry::{Point, Rect};
use crate::laws::is_laid_out;
use crate::placing::{has_roomy_tiles, is_under};
use crate::tree::{
    leaf_under, leaves, placed, tiles_never_overlap, Node,
};
use crate::window::{FillMode, SurfaceId, Window};

verus! {

/// How an output that rests is drawn, bottom first.
pub open spec fn drawn_on(m: LayoutModel, i: int, focused: Option<SurfaceId>) -> Seq<Placement> {
    m.outputs[i].current().placements(focused, m.outputs[i].area(), m.deco, m.mode)
}

/// Whether a window is drawn as the entry at `j`, in that rectangle.
pub open spec fn is_entry(drawn: Seq<Placement>, j: int, w: Window, rect: Rect) -> bool {
    0 <= j < drawn.len() && drawn[j].surface == w.id() && drawn[j].cell_rect == rect
}

proof fn the_topmost_is_the_last(ws: Seq<Window>, pos: Point, n: int)
    requires
        0 <= n <= ws.len(),
    ensures
        match topmost_at(ws, pos, n) {
            None => forall|j: int| 0 <= j < n ==> !(#[trigger] ws[j]).rect.holds(pos),
            Some(w) => exists|j: int|
                {
                    &&& 0 <= j < n
                    &&& #[trigger] ws[j] == w
                    &&& w.rect.holds(pos)
                    &&& forall|k: int| j < k < n ==> !(#[trigger] ws[k]).rect.holds(pos)
                },
        },
    decreases n,
{
    if n > 0 {
        the_topmost_is_the_last(ws, pos, n - 1);
        if ws[n - 1].rect.holds(pos) {
            assert(ws[n - 1] == topmost_at(ws, pos, n).unwrap());
        } else if let Some(w) = topmost_at(ws, pos, n - 1) {
            let j = choose|j: int|
                {
                    &&& 0 <= j < n - 1
                    &&& #[trigger] ws[j] == w
                    &&& w.rect.holds(pos)
                    &&& forall|k: int| j < k < n - 1 ==> !(#[trigger] ws[k]).rect.holds(pos)
                };
            assert(ws[j] == w);
        }
    }
}

proof fn the_last_filled_is_last(ws: Seq<Window>, fill: FillMode, n: int)
    requires
        0 <= n <= ws.len(),
    ensures
        match last_filled(ws, fill, n) {
            None => forall|j: int| 0 <= j < n ==> (#[trigger] ws[j]).fill != fill,
            Some(w) => exists|j: int|
                {
                    &&& 0 <= j < n
                    &&& #[trigger] ws[j] == w
                    &&& w.fill == fill
                    &&& forall|k: int| j < k < n ==> (#[trigger] ws[k]).fill != fill
                },
        },
    decreases n,
{
    if n > 0 {
        the_last_filled_is_last(ws, fill, n - 1);
        if ws[n - 1].fill == fill {
            assert(ws[n - 1] == last_filled(ws, fill, n).unwrap());
        } else if let Some(w) = last_filled(ws, fill, n - 1) {
            let j = choose|j: int|
                {
                    &&& 0 <= j < n - 1
                    &&& #[trigger] ws[j] == w
                    &&& w.fill == fill
                    &&& forall|k: int| j < k < n - 1 ==> (#[trigger] ws[k]).fill != fill
                };
            assert(ws[j] == w);
        }
    }
}

proof fn a_leaf_is_found_where_there_is_one(t: Node, pos: Point)
    ensures
        match leaf_under(t, pos) {
            None => forall|j: int| 0 <= j < leaves(t).len() ==> !(#[trigger] leaves(t)[j]).rect.holds(pos),
            Some(w) => w.rect.holds(pos) && exists|j: int|
                0 <= j < leaves(t).len() && #[trigger] leaves(t)[j] == w,
        },
    decreases t,
{
    match t {
        Node::Leaf(w) => {
            assert(leaves(t)[0] == w);
        },
        Node::Split { axis: _, ratio: _, first, second } => {
            a_leaf_is_found_where_there_is_one(*first, pos);
            a_leaf_is_found_where_there_is_one(*second, pos);
            let (a, b) = (leaves(*first), leaves(*second));
            if let Some(w) = leaf_under(*first, pos) {
                let j = choose|j: int| 0 <= j < a.len() && #[trigger] a[j] == w;
                assert(leaves(t)[j] == w);
            } else if let Some(w) = leaf_under(*second, pos) {
                let j = choose|j: int| 0 <= j < b.len() && #[trigger] b[j] == w;
                assert(leaves(t)[a.len() + j] == w);
            } else {
                assert forall|j: int| 0 <= j < leaves(t).len() implies !(#[trigger] leaves(
                    t,
                )[j]).rect.holds(pos) by {
                    if j < a.len() {
                        assert(leaves(t)[j] == a[j]);
                    } else {
                        assert(leaves(t)[j] == b[j - a.len()]);
                    }
                }
            }
        },
    }
}

proof fn pointing_at_an_output(m: LayoutModel, pos: Point, i: int)
    requires
        m.valid(),
        is_under(m, pos, i),
    ensures
        m.window_at(pos) == m.outputs[i].current().window_at(pos, m.outputs[i].area()),
        m.outputs[i].valid(),
{
    pane_search_is_exact(m.outputs, Probe::At(pos), 0);
    match m.pane(Probe::At(pos)) {
        None => {
            assert(!m.outputs[i].meets(Probe::At(pos)));
        },
        Some(x) => {
            assert(m.outputs[x].full.holds(pos));
            if x < i {
                assert(!m.outputs[x].full.holds(pos));
            }
            if i < x {
                assert(!m.outputs[i].meets(Probe::At(pos)));
            }
        },
    }
}

proof fn an_entry(m: LayoutModel, i: int, focused: Option<SurfaceId>, k: int)
    requires
        0 <= k < drawn_on(m, i, focused).len(),
    ensures
        ({
            let ws = m.outputs[i].current();
            let n = tree_windows(ws.tree).len() as int;
            let w = if k < n {
                tree_windows(ws.tree)[k]
            } else {
                ws.floating[k - n]
            };
            &&& drawn_on(m, i, focused).len() == n + ws.floating.len()
            &&& ws.windows()[k] == w
            &&& drawn_on(m, i, focused)[k].surface == w.id()
            &&& drawn_on(m, i, focused)[k].fill == w.fill
            &&& w.fill == FillMode::Normal ==> drawn_on(m, i, focused)[k].cell_rect == w.rect
        }),
{
}

proof fn nothing_fills_the_output(m: LayoutModel, pos: Point, focused: Option<SurfaceId>, i: int)
    requires
        forall|k: int|
            0 <= k < drawn_on(m, i, focused).len() ==> (#[trigger] drawn_on(m, i, focused)[k]).fill
                == FillMode::Normal,
    ensures
        ({
            let ws = m.outputs[i].current();
            let top = topmost_at(ws.floating, pos, ws.floating.len() as int);
            ws.window_at(pos, m.outputs[i].area()) == (if top.is_some() {
                Some((top.unwrap(), top.unwrap().rect))
            } else {
                match ws.tree {
                    None => None,
                    Some(t) => match leaf_under(t, pos) {
                        None => None,
                        Some(w) => Some((w, w.rect)),
                    },
                }
            })
        }),
{
    let all = m.outputs[i].current().windows();
    the_last_filled_is_last(all, FillMode::Fullscreen, all.len() as int);
    the_last_filled_is_last(all, FillMode::Maximized, all.len() as int);
    if let Some(w) = last_filled(all, FillMode::Fullscreen, all.len() as int) {
        let j = choose|j: int|
            0 <= j < all.len() && #[trigger] all[j] == w && w.fill == FillMode::Fullscreen;
        assert(drawn_on(m, i, focused)[j].fill == FillMode::Normal);
        an_entry(m, i, focused, j);
    }
    if let Some(w) = last_filled(all, FillMode::Maximized, all.len() as int) {
        let j = choose|j: int|
            0 <= j < all.len() && #[trigger] all[j] == w && w.fill == FillMode::Maximized;
        assert(drawn_on(m, i, focused)[j].fill == FillMode::Normal);
        an_entry(m, i, focused, j);
    }
}

/// Whether what was found at a point is what is seen there: the entry drawn
/// last of all that have the point, or nothing where none has it.
pub open spec fn is_what_is_seen(
    drawn: Seq<Placement>,
    pos: Point,
    found: Option<(Window, Rect)>,
) -> bool {
    if found.is_none() {
        forall|k: int| 0 <= k < drawn.len() ==> !(#[trigger] drawn[k]).cell_rect.holds(pos)
    } else {
        exists|j: int|
            #[trigger] is_topmost(drawn, pos, j, found.unwrap().0, found.unwrap().1)
    }
}

/// Whether a window is drawn as the entry at `j`, in a rectangle that has the
/// point, and no entry drawn after it has the point.
pub open spec fn is_topmost(
    drawn: Seq<Placement>,
    pos: Point,
    j: int,
    w: Window,
    rect: Rect,
) -> bool {
    &&& is_entry(drawn, j, w, rect)
    &&& rect.holds(pos)
    &&& forall|k: int| j < k < drawn.len() ==> !(#[trigger] drawn[k]).cell_rect.holds(pos)
}

proof fn the_topmost_is_seen(drawn: Seq<Placement>, pos: Point, j: int, w: Window)
    requires
        is_topmost(drawn, pos, j, w, w.rect),
    ensures
        is_what_is_seen(drawn, pos, Some((w, w.rect))),
{
    let found = Some((w, w.rect));
    assert(is_topmost(drawn, pos, j, found.unwrap().0, found.unwrap().1));
}

proof fn no_float_is_there(m: LayoutModel, pos: Point, focused: Option<SurfaceId>, i: int, from: int)
    requires
        0 <= from <= m.outputs[i].current().floating.len(),
        forall|k: int|
            from <= k < m.outputs[i].current().floating.len() ==> !(
            #[trigger] m.outputs[i].current().floating[k]).rect.holds(pos),
        forall|k: int|
            0 <= k < drawn_on(m, i, focused).len() ==> (#[trigger] drawn_on(m, i, focused)[k]).fill
                == FillMode::Normal,
    ensures
        forall|k: int|
            tree_windows(m.outputs[i].current().tree).len() + from <= k < drawn_on(
                m,
                i,
                focused,
            ).len() ==> !(#[trigger] drawn_on(m, i, focused)[k]).cell_rect.holds(pos),
{
    let f = m.outputs[i].current().floating;
    let n = tree_windows(m.outputs[i].current().tree).len() as int;
    let drawn = drawn_on(m, i, focused);
    assert forall|k: int| n + from <= k < drawn.len() implies !(
    #[trigger] drawn[k]).cell_rect.holds(pos) by {
        an_entry(m, i, focused, k);
        assert(drawn[k].fill == FillMode::Normal);
        assert(!f[k - n].rect.holds(pos));
    }
}

proof fn the_topmost_float_is_on_top(
    m: LayoutModel,
    pos: Point,
    focused: Option<SurfaceId>,
    i: int,
) -> (j: int)
    requires
        topmost_at(
            m.outputs[i].current().floating,
            pos,
            m.outputs[i].current().floating.len() as int,
        ).is_some(),
        forall|k: int|
            0 <= k < drawn_on(m, i, focused).len() ==> (#[trigger] drawn_on(m, i, focused)[k]).fill
                == FillMode::Normal,
    ensures
        is_topmost(
            drawn_on(m, i, focused),
            pos,
            j,
            topmost_at(
                m.outputs[i].current().floating,
                pos,
                m.outputs[i].current().floating.len() as int,
            ).unwrap(),
            topmost_at(
                m.outputs[i].current().floating,
                pos,
                m.outputs[i].current().floating.len() as int,
            ).unwrap().rect,
        ),
{
    let f = m.outputs[i].current().floating;
    let n = tree_windows(m.outputs[i].current().tree).len() as int;
    let drawn = drawn_on(m, i, focused);
    the_topmost_is_the_last(f, pos, f.len() as int);
    let w = topmost_at(f, pos, f.len() as int).unwrap();
    let j = choose|j: int|
        {
            &&& 0 <= j < f.len()
            &&& #[trigger] f[j] == w
            &&& w.rect.holds(pos)
            &&& forall|k: int| j < k < f.len() ==> !(#[trigger] f[k]).rect.holds(pos)
        };
    an_entry(m, i, focused, n + j);
    assert(drawn[n + j].fill == FillMode::Normal);
    no_float_is_there(m, pos, focused, i, j + 1);
    n + j
}

/// Where no window fills the output, the window found at a point is the one
/// drawn last of all that have the point, in the rectangle it is drawn in: no
/// window that is drawn later has the point. None is found only where no window
/// is drawn.
pub proof fn the_pointer_finds_the_topmost_window(
    m: LayoutModel,
    pos: Point,
    focused: Option<SurfaceId>,
    i: int,
)
    requires
        m.valid(),
        is_laid_out(m),
        is_under(m, pos, i),
        has_roomy_tiles(m, i),
        forall|k: int|
            0 <= k < drawn_on(m, i, focused).len() ==> (#[trigger] drawn_on(m, i, focused)[k]).fill
                == FillMode::Normal,
    ensures
        is_what_is_seen(drawn_on(m, i, focused), pos, m.window_at(pos)),
{
    pointing_at_an_output(m, pos, i);
    nothing_fills_the_output(m, pos, focused, i);
    let p = m.outputs[i];
    let ws = p.current();
    let n = tree_windows(ws.tree).len() as int;
    let drawn = drawn_on(m, i, focused);
    let top = topmost_at(ws.floating, pos, ws.floating.len() as int);
    if top.is_some() {
        let j = the_topmost_float_is_on_top(m, pos, focused, i);
        the_topmost_is_seen(drawn, pos, j, top.unwrap());
    } else {
        the_topmost_is_the_last(ws.floating, pos, ws.floating.len() as int);
        no_float_is_there(m, pos, focused, i, 0);
        if let Some(t) = ws.tree {
            let (b, inner) = (m.tile_bounds(i), m.gaps.inner as int);
            assert(p.laid_out(m.gaps) == p);
            assert(p.laid_out(m.gaps).workspaces[p.active] == p.workspaces[p.active]);
            assert(placed(t, b, inner) == t);
            a_leaf_is_found_where_there_is_one(t, pos);
            let l = leaves(t);
            match leaf_under(t, pos) {
                None => {
                    assert forall|k: int| 0 <= k < drawn.len() implies !(
                    #[trigger] drawn[k]).cell_rect.holds(pos) by {
                        if k < n {
                            an_entry(m, i, focused, k);
                            assert(drawn[k].fill == FillMode::Normal);
                            assert(!l[k].rect.holds(pos));
                        }
                    }
                    assert(is_what_is_seen(drawn, pos, m.window_at(pos)));
                },
                Some(w) => {
                    let j = choose|j: int| 0 <= j < l.len() && #[trigger] l[j] == w;
                    an_entry(m, i, focused, j);
                    assert(drawn[j].fill == FillMode::Normal);
                    assert(is_entry(drawn, j, w, w.rect));
                    assert forall|k: int| j < k < drawn.len() implies !(
                    #[trigger] drawn[k]).cell_rect.holds(pos) by {
                        if k < n {
                            an_entry(m, i, focused, k);
                            assert(drawn[k].fill == FillMode::Normal);
                            tiles_never_overlap(t, b, inner, j, k, pos);
                        }
                    }
                    the_topmost_is_seen(drawn, pos, j, w);
                },
            }
        } else {
            assert(n == 0);
            assert(is_what_is_seen(drawn, pos, m.window_at(pos)));
        }
    }
}

/// Where windows fill their output, the one drawn last of the fullscreen ones
/// is found anywhere on the output, and covers all of it; without any
/// fullscreen one, the last of the maximized ones, which covers the work area.
pub proof fn the_pointer_finds_the_window_that_fills_the_output(
    m: LayoutModel,
    pos: Point,
    focused: Option<SurfaceId>,
    i: int,
    fill: FillMode,
    x: int,
)
    requires
        m.valid(),
        is_under(m, pos, i),
        fill != FillMode::Normal,
        0 <= x < drawn_on(m, i, focused).len(),
        drawn_on(m, i, focused)[x].fill == fill,
        fill == FillMode::Maximized ==> forall|k: int|
            0 <= k < drawn_on(m, i, focused).len() ==> (#[trigger] drawn_on(m, i, focused)[k]).fill
                != FillMode::Fullscreen,
    ensures
        ({
            let drawn = drawn_on(m, i, focused);
            &&& m.window_at(pos) matches Some((w, rect))
            &&& rect == (if fill == FillMode::Fullscreen {
                m.outputs[i].full
            } else {
                m.outputs[i].bounds
            })
            &&& exists|j: int|
                {
                    &&& #[trigger] is_entry(drawn, j, w, rect)
                    &&& drawn[j].fill == fill
                    &&& forall|k: int| j < k < drawn.len() ==> (#[trigger] drawn[k]).fill != fill
                }
        }),
{
    pointing_at_an_output(m, pos, i);
    let all = m.outputs[i].current().windows();
    let drawn = drawn_on(m, i, focused);
    the_last_filled_is_last(all, FillMode::Fullscreen, all.len() as int);
    the_last_filled_is_last(all, FillMode::Maximized, all.len() as int);
    an_entry(m, i, focused, x);
    if fill == FillMode::Maximized {
        if let Some(w) = last_filled(all, FillMode::Fullscreen, all.len() as int) {
            let j = choose|j: int| 0 <= j < all.len() && #[trigger] all[j] == w;
            an_entry(m, i, focused, j);
        }
    }
    let (w, rect) = m.window_at(pos).unwrap();
    let j = choose|j: int|
        {
            &&& 0 <= j < all.len()
            &&& #[trigger] all[j] == w
            &&& w.fill == fill
            &&& forall|k: int| j < k < all.len() ==> (#[trigger] all[k]).fill != fill
        };
    assert(is_entry(drawn, j, w, rect));
    assert forall|k: int| j < k < drawn.len() implies (#[trigger] drawn[k]).fill != fill by {
        an_entry(m, i, focused, k);
        assert(all[k].fill != fill);
    }
}

} // verus!
