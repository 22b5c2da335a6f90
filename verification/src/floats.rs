//! Where floating windows are: when a tile is made to float and back, when a
//! dialog opens, and when one is moved, dropped or drawn in another size.

use vstd::prelude::*;

use crate::desktop::{
    dialog_rect, float_rect, pane_search_is_exact, ClientFacts, DragSource, LayoutModel, Probe,
};
use crate::geometry::{Point, Rect, Size};
use crate::laws::is_laid_out;
use crate::placing::{
    can_be_divided, has_roomy_tiles, in_leading_half, is_under, shared_at, tiles_of,
};
use crate::tree::{position_of, search_is_exact};
use crate::window::{Deco, FillMode, SurfaceId};

verus! {

/// Whether a length sits in the middle of another: as far from either end, but
/// for a pixel.
pub open spec fn is_centred(at: int, len: int, outer_at: int, outer_len: int) -> bool {
    -1 <= (at - outer_at) - (outer_at + outer_len - at - len) <= 1
}

/// Whether a length is seven tenths of another, rounded down.
pub open spec fn is_seven_tenths(len: int, of: int) -> bool {
    10 * len <= 7 * of < 10 * len + 10
}

/// Whether a side of a tile can float at seven tenths without meeting a limit
/// of the client, the size of the work area or its near edge.
pub open spec fn floats_freely(
    tile_at: int,
    tile_len: int,
    least: int,
    greatest: int,
    work_at: int,
    work_len: int,
) -> bool {
    &&& tile_len >= 0
    &&& 10 * least <= 7 * tile_len - 9
    &&& 7 * tile_len <= 10 * greatest
    &&& 7 * tile_len <= 10 * work_len
    &&& work_at <= tile_at
    &&& tile_at + tile_len <= i32::MAX
}

/// A tile that is made to float is seven tenths as large and keeps its middle,
/// in each direction in which no limit is in its way.
pub proof fn floated_tiles_keep_their_middle(tile: Rect, limits: (Size, Size), work: Rect)
    ensures
        floats_freely(
            tile.loc.x as int,
            tile.size.w as int,
            limits.0.w as int,
            limits.1.w as int,
            work.loc.x as int,
            work.size.w as int,
        ) ==> {
            let r = float_rect(tile, limits, work);
            &&& is_seven_tenths(r.size.w as int, tile.size.w as int)
            &&& is_centred(
                r.loc.x as int,
                r.size.w as int,
                tile.loc.x as int,
                tile.size.w as int,
            )
        },
        floats_freely(
            tile.loc.y as int,
            tile.size.h as int,
            limits.0.h as int,
            limits.1.h as int,
            work.loc.y as int,
            work.size.h as int,
        ) ==> {
            let r = float_rect(tile, limits, work);
            &&& is_seven_tenths(r.size.h as int, tile.size.h as int)
            &&& is_centred(
                r.loc.y as int,
                r.size.h as int,
                tile.loc.y as int,
                tile.size.h as int,
            )
        },
{
}

/// A floated tile has a size that its client allows, wherever the two limits
/// agree with each other and the work area is not smaller than they ask.
pub proof fn floated_tiles_respect_their_limits(tile: Rect, limits: (Size, Size), work: Rect)
    ensures
        limits.0.w <= limits.1.w && limits.0.w <= work.size.w ==> limits.0.w <= float_rect(
            tile,
            limits,
            work,
        ).size.w <= limits.1.w,
        limits.0.h <= limits.1.h && limits.0.h <= work.size.h ==> limits.0.h <= float_rect(
            tile,
            limits,
            work,
        ).size.h <= limits.1.h,
{
}

/// The cells that a client allows are those whose content it allows: at least
/// its least size and at most its greatest, where it has declared any.
pub proof fn limits_are_those_of_the_content(deco: Deco, facts: ClientFacts, content: Size)
    requires
        deco.border >= 0,
        deco.titlebar >= 0,
        content.is_positive(),
        content.w + 2 * deco.border <= i32::MAX,
        content.h + deco.titlebar + 2 * deco.border <= i32::MAX,
        facts.hints().0.w + 2 * deco.border <= i32::MAX,
        facts.hints().0.h + deco.titlebar + 2 * deco.border <= i32::MAX,
        facts.hints().1.w + 2 * deco.border <= i32::MAX,
        facts.hints().1.h + deco.titlebar + 2 * deco.border <= i32::MAX,
    ensures
        ({
            let (least, greatest) = crate::desktop::cell_limits(
                deco,
                facts.hints().0,
                facts.hints().1,
            );
            let w = content.w + 2 * deco.border;
            let h = content.h + deco.titlebar + 2 * deco.border;
            &&& least.w <= w <==> facts.hints().0.w <= 0 || facts.hints().0.w <= content.w
            &&& least.h <= h <==> facts.hints().0.h <= 0 || facts.hints().0.h <= content.h
            &&& w <= greatest.w <==> facts.hints().1.w <= 0 || content.w <= facts.hints().1.w
            &&& h <= greatest.h <==> facts.hints().1.h <= 0 || content.h <= facts.hints().1.h
        }),
{
}

/// A dialog is put in the middle of the work area. It gets the content size it
/// wishes for where that fits there and its limits allow it, and a third of the
/// work area where it has no wish.
pub proof fn dialogs_open_in_the_middle(
    wish: Size,
    deco: Deco,
    limits: (Size, Size),
    work: Rect,
)
    requires
        work.size.is_positive(),
        deco.border >= 0,
        deco.titlebar >= 0,
        work.loc.x + work.size.w <= i32::MAX,
        work.loc.y + work.size.h <= i32::MAX,
        wish.w + 2 * deco.border <= i32::MAX,
        wish.h + deco.titlebar + 2 * deco.border <= i32::MAX,
    ensures
        ({
            let r = dialog_rect(wish, deco, limits, work);
            let w = wish.w + 2 * deco.border;
            let h = wish.h + deco.titlebar + 2 * deco.border;
            &&& 0 <= r.size.w <= work.size.w ==> is_centred(
                r.loc.x as int,
                r.size.w as int,
                work.loc.x as int,
                work.size.w as int,
            )
            &&& 0 <= r.size.h <= work.size.h ==> is_centred(
                r.loc.y as int,
                r.size.h as int,
                work.loc.y as int,
                work.size.h as int,
            )
            &&& wish.w > 0 && limits.0.w <= w <= limits.1.w && w <= work.size.w ==> r.size.w == w
            &&& wish.h > 0 && limits.0.h <= h <= limits.1.h && h <= work.size.h ==> r.size.h == h
            &&& wish.w <= 0 && 3 * limits.0.w <= work.size.w - 2 && work.size.w <= 3 * limits.1.w
                ==> 3 * r.size.w <= work.size.w < 3 * r.size.w + 3
            &&& wish.h <= 0 && 3 * limits.0.h <= work.size.h - 2 && work.size.h <= 3 * limits.1.h
                ==> 3 * r.size.h <= work.size.h < 3 * r.size.h + 3
        }),
{
}

/// A dialog that is larger than the work area is cut to it, unless its client
/// does not allow that.
pub proof fn large_dialogs_are_cut_to_the_work_area(
    wish: Size,
    deco: Deco,
    limits: (Size, Size),
    work: Rect,
)
    ensures
        limits.0.w <= work.size.w && work.size.w >= 0 ==> dialog_rect(wish, deco, limits, work).size.w <= work.size.w,
        limits.0.h <= work.size.h && work.size.h >= 0 ==> dialog_rect(wish, deco, limits, work).size.h <= work.size.h,
{
}

/// A floating window that is made to tile shares the tile under its middle with
/// the window that is there, on its own side of the middle of that tile. All
/// other tiles stay as they were, and so do the other floating windows.
pub proof fn floats_tile_where_they_are(
    m: LayoutModel,
    s: SurfaceId,
    facts: ClientFacts,
    i: int,
    k: int,
)
    requires
        m.valid(),
        is_laid_out(m),
        m.pane(Probe::Tiled(s)).is_none(),
        m.pane(Probe::Floating(s)) == Some(i),
        has_roomy_tiles(m, i),
        0 <= k < tiles_of(m.outputs[i]).len(),
        tiles_of(m.outputs[i])[k].rect.holds(m.outputs[i].current().float(s).rect.middle()),
        can_be_divided(tiles_of(m.outputs[i])[k].rect, m.gaps.inner as int),
    ensures
        ({
            let (after, done) = m.toggling_floating(s, facts);
            let ws = m.outputs[i].current();
            let cell = tiles_of(m.outputs[i])[k].rect;
            &&& done
            &&& ws.float(s).id() == s
            &&& exists|x: int|
                0 <= x < ws.floating.len() && #[trigger] ws.floating[x] == ws.float(s)
                    && after.outputs[i].current().floating == ws.floating.remove(x)
            &&& forall|j: int|
                0 <= j < m.outputs.len() && j != i ==> #[trigger] after.outputs[j] == m.outputs[j]
            &&& shared_at(
                tiles_of(m.outputs[i]),
                tiles_of(after.outputs[i]),
                k,
                ws.float(s),
                in_leading_half(cell, ws.float(s).rect.middle()),
                m.gaps.inner as int,
            )
        }),
{
    pane_search_is_exact(m.outputs, Probe::Floating(s), 0);
    let ws = m.outputs[i].current();
    search_is_exact(ws.floating, s, 0);
    let x = position_of(ws.floating, s).unwrap();
    let w = ws.float(s);
    let c = w.rect.middle();
    let base = m.with_current(i, ws.unfloating(s));
    assert(m.outputs[i].valid());
    crate::laws::changing_floats_keeps_the_layout(m, i, ws.unfloating(s));
    assert(base.valid()) by {
        assert forall|j: int| 0 <= j < base.outputs.len() implies (#[trigger] base.outputs[j]).valid() by {
            assert(m.outputs[j].valid());
        }
    }
    crate::placing::tiling_changes_one_workspace(base, i, w, Some(c));
    crate::placing::laid_out_trees_stay(base, i);
    let t = ws.tree.unwrap();
    assert(base.outputs[i].current().tree == ws.tree);
    crate::placing::an_insertion_shares_the_tile_under_it(
        t,
        w,
        m.tile_bounds(i),
        c,
        m.gaps.inner as int,
        k,
    );
    reveal(crate::placing::shares);
    assert(ws.floating[x] == w);
    let after = m.toggling_floating(s, facts).0;
    assert(after.outputs[i].current().floating == ws.floating.remove(x));
    assert forall|j: int| 0 <= j < m.outputs.len() && j != i implies #[trigger] after.outputs[j]
        == m.outputs[j] by {
        assert(after.outputs[j] == base.outputs[j]);
    }
}

/// A tile that is made to float lies above all other floating windows, which
/// stay as they were.
pub proof fn floated_tiles_lie_on_top(m: LayoutModel, s: SurfaceId, facts: ClientFacts, i: int)
    requires
        m.valid(),
        m.pane(Probe::Tiled(s)) == Some(i),
    ensures
        ({
            let (after, done) = m.toggling_floating(s, facts);
            let before = m.outputs[i].current().floating;
            let now = after.outputs[i].current().floating;
            let tile = m.outputs[i].current().tile(s);
            &&& done
            &&& now.len() == before.len() + 1
            &&& forall|j: int| 0 <= j < before.len() ==> #[trigger] now[j] == before[j]
            &&& now.last().toplevel == tile.toplevel
            &&& now.last().fill == tile.fill
            &&& now.last().rect == float_rect(
                tile.rect,
                m.limits_of(tile, facts),
                m.outputs[i].bounds,
            )
        }),
{
    pane_search_is_exact(m.outputs, Probe::Tiled(s), 0);
    assert(m.outputs[i].valid());
}

/// Whether two desktops differ in nothing but one floating window that an
/// output shows.
pub open spec fn same_but_one_float(a: LayoutModel, b: LayoutModel, i: int, x: int) -> bool {
    &&& b.outputs.len() == a.outputs.len()
    &&& forall|j: int| 0 <= j < a.outputs.len() && j != i ==> #[trigger] b.outputs[j] == a.outputs[j]
    &&& b.outputs[i].active == a.outputs[i].active
    &&& b.outputs[i].workspaces.len() == a.outputs[i].workspaces.len()
    &&& forall|y: int|
        0 <= y < a.outputs[i].workspaces.len() && y != a.outputs[i].active
            ==> #[trigger] b.outputs[i].workspaces[y] == a.outputs[i].workspaces[y]
    &&& b.outputs[i].current().tree == a.outputs[i].current().tree
    &&& b.outputs[i].current().floating.len() == a.outputs[i].current().floating.len()
    &&& forall|y: int|
        0 <= y < a.outputs[i].current().floating.len() && y != x
            ==> #[trigger] b.outputs[i].current().floating[y] == a.outputs[i].current().floating[y]
}

/// A floating window that is moved or resized has the rectangle it was given,
/// and nothing else changes.
pub proof fn floats_go_where_they_are_put(
    m: LayoutModel,
    s: SurfaceId,
    rect: Rect,
    edges: crate::tree::ResizeEdges,
    i: int,
    x: int,
)
    requires
        m.valid(),
        m.pane(Probe::Floating(s)) == Some(i),
        0 <= x < m.outputs[i].current().floating.len(),
        m.outputs[i].current().floating[x].id() == s,
        forall|y: int|
            0 <= y < x ==> (#[trigger] m.outputs[i].current().floating[y]).id() != s,
    ensures
        ({
            let after = m.moving_float(s, rect);
            let (was, now) = (
                m.outputs[i].current().floating[x],
                after.outputs[i].current().floating[x],
            );
            &&& same_but_one_float(m, after, i, x)
            &&& now.rect == rect
            &&& now.toplevel == was.toplevel
            &&& now.fill == was.fill
            &&& m.resizing(s, rect, edges) == after
        }),
{
    pane_search_is_exact(m.outputs, Probe::Floating(s), 0);
    assert(m.outputs[i].valid());
    search_is_exact(m.outputs[i].current().floating, s, 0);
    let f = m.outputs[i].current().floating;
    let at = position_of(f, s).unwrap();
    assert(f[at].id() == s);
    assert(at == x) by {
        if x < at {
            assert(f[x].id() != s);
        }
    }
}

/// A dragged floating window that is dropped on an output stays where it was
/// dragged to, above all floating windows of that output. Its tiles and all
/// other outputs show what they showed.
pub proof fn dropped_floats_lie_on_top(m: LayoutModel, c: Point, i: int)
    requires
        m.valid(),
        is_laid_out(m),
        is_under(m, c, i),
        m.in_transit matches Some(t) && t.source == DragSource::Floating,
    ensures
        ({
            let after = m.landing_drag(c);
            &&& after.in_transit.is_none()
            &&& after.outputs.len() == m.outputs.len()
            &&& after.outputs[i].current().tree == m.outputs[i].current().tree
            &&& after.outputs[i].current().floating == m.outputs[i].current().floating.push(
                m.in_transit.unwrap().window,
            )
            &&& forall|j: int|
                0 <= j < m.outputs.len() && j != i ==> (#[trigger] after.outputs[j]).current()
                    == m.outputs[j].current()
        }),
{
    let t = m.in_transit.unwrap();
    let free = LayoutModel { in_transit: None, ..m };
    assert(is_under(free, c, i));
    crate::placing::drops_land_under_the_cursor(free, c, t.window.rect.middle(), i);
    let top = free.outputs[i].current().floating_on_top(t.window);
    let put = free.with_current(i, top).telling(m.float_message(t.window, free.outputs[i].area()));
    let here = put.tidying(i);
    let after = m.landing_drag(c);
    assert forall|j: int| 0 <= j < m.outputs.len() implies (#[trigger] after.outputs[j]).current()
        == put.outputs[j].current() by {
        crate::placing::laid_out_trees_stay(m, j);
        assert(put.outputs[j].valid());
        crate::placing::tidied_outputs_show_the_same(put.outputs[j], m.gaps);
        if t.source_output as int == j && j != i {
            assert(here.outputs[j] == put.outputs[j]);
        }
        let p = put.outputs[j];
        assert(p.laid_out(m.gaps).current() == p.current().laid_out(
            m.tile_bounds(j),
            m.gaps.inner as int,
        ));
        assert(p.current().tree == m.outputs[j].current().tree);
        assert(p.current().laid_out(m.tile_bounds(j), m.gaps.inner as int) =~= p.current());
    }
}

/// A window that is lifted has the rectangle that the drag starts from, and it
/// is the one that was on show.
pub proof fn lifted_windows_keep_their_rectangle(m: LayoutModel, s: SurfaceId, i: int)
    requires
        m.valid(),
        m.in_transit.is_none(),
        m.pane(Probe::Shown(s)) == Some(i),
        !m.is_filled(s),
        i <= usize::MAX,
    ensures
        ({
            let (after, rect) = m.lifting(s);
            let ws = m.outputs[i].current();
            let w = if ws.tiles(s) {
                ws.tile(s)
            } else {
                ws.float(s)
            };
            &&& rect == Some(w.rect)
            &&& after.in_transit matches Some(t)
            &&& t.window == w
            &&& t.source_output == i
            &&& t.source == (if ws.tiles(s) {
                DragSource::Tiled
            } else {
                DragSource::Floating
            })
        }),
{
    pane_search_is_exact(m.outputs, Probe::Shown(s), 0);
}

/// The window in transit is where the drag put it, and is drawn above all
/// others.
pub proof fn the_window_in_transit_follows_on_top(
    m: LayoutModel,
    rect: Rect,
    focused: Option<SurfaceId>,
    slides: Seq<Option<crate::desktop::SlideOffsets>>,
)
    requires
        m.in_transit.is_some(),
    ensures
        ({
            let after = m.carrying(rect);
            let drawn = after.placements(focused, slides);
            &&& after.outputs == m.outputs
            &&& after.in_transit matches Some(t)
            &&& t.window.rect == rect
            &&& t.window.toplevel == m.in_transit.unwrap().window.toplevel
            &&& t.source == m.in_transit.unwrap().source
            &&& t.source_output == m.in_transit.unwrap().source_output
            &&& drawn.len() > 0
            &&& drawn.last().surface == t.window.id()
            &&& drawn.last().cell_rect == rect
            &&& drawn.last().floating
        }),
{
}

/// A native floating window that its client draws in another size gets the cell
/// whose content has that size, at the same place, where the output is large
/// enough for it.
pub proof fn cells_follow_what_clients_draw(
    m: LayoutModel,
    s: SurfaceId,
    content: Size,
    i: int,
    x: int,
)
    requires
        m.valid(),
        m.pane(Probe::Floating(s)) == Some(i),
        0 <= x < m.outputs[i].current().floating.len(),
        m.outputs[i].current().floating[x].id() == s,
        forall|y: int|
            0 <= y < x ==> (#[trigger] m.outputs[i].current().floating[y]).id() != s,
        m.outputs[i].current().floating[x].fill == FillMode::Normal,
        m.outputs[i].current().floating[x].toplevel is Xdg,
        content.is_positive(),
        m.deco.border >= 0,
        m.deco.titlebar >= 0,
        content.w + 2 * m.deco.border <= m.outputs[i].full.size.w,
        content.h + m.deco.titlebar + 2 * m.deco.border <= m.outputs[i].full.size.h,
    ensures
        ({
            let (after, changed) = m.reconciling(s, content);
            let (was, now) = (
                m.outputs[i].current().floating[x],
                after.outputs[i].current().floating[x],
            );
            &&& same_but_one_float(m, after, i, x)
            &&& now.rect.loc == was.rect.loc
            &&& now.rect.size.w == content.w + 2 * m.deco.border
            &&& now.rect.size.h == content.h + m.deco.titlebar + 2 * m.deco.border
            &&& changed == (now.rect != was.rect)
            &&& now.toplevel == was.toplevel
        }),
{
    pane_search_is_exact(m.outputs, Probe::Floating(s), 0);
    assert(m.outputs[i].valid());
    search_is_exact(m.outputs[i].current().floating, s, 0);
    let f = m.outputs[i].current().floating;
    let at = position_of(f, s).unwrap();
    assert(f[at].id() == s);
    assert(at == x) by {
        if x < at {
            assert(f[x].id() != s);
        }
    }
}

} // verus!
