//! What goes into a frame and what follows from it: the surfaces that are
//! drawn, when it was shown, and which clients are told to use buffers that the
//! display can show by itself.

use vstd::prelude::*;
use vstd::string::*;
use std::collections::HashSet;

use crate::desktop::{LayoutModel, Placement, SlideOffsets};
use crate::geometry::Rect;
use crate::layers::{
    layer_placements, snapshot_layer_placements, LayerBucket, LayerPlacement, LayerSurface,
    OutputRect,
};
use crate::layout::Layout;
use crate::popups::{
    menus_of, popup_parents, self_placed, snapshot_popup_placements, OverrideWindow, PopupFacts,
    PopupPlacement,
};
use crate::redraw::{all_without_cursor, cursor_plan, some_with_cursor, CaptureWish, CursorPlan};
use crate::screenshot::{of_output, wishes, InternalCapture, Screenshots};
use crate::window::{FillMode, SurfaceId};

verus! {

/// Everything that is drawn.
#[derive(Debug)]
pub struct FrameContents {
    pub placements: Vec<Placement>,
    pub layers: Vec<LayerPlacement>,
    pub popups: Vec<PopupPlacement>,
}

/// What is drawn of a scene: all of it, or on a locked session only the lock
/// screen of the output, over all of it.
pub fn frame_contents(
    locked: bool,
    lock: Option<(SurfaceId, Rect)>,
    placements: Vec<Placement>,
    layers: Vec<LayerPlacement>,
    popups: Vec<PopupPlacement>,
) -> (r: FrameContents)
    ensures
        !locked ==> r.placements@ == placements@ && r.layers@ == layers@ && r.popups@ == popups@,
        locked ==> r.placements@.len() == 0 && r.popups@.len() == 0 && r.layers@ == (match lock {
            None => Seq::empty(),
            Some((surface, rect)) => seq![
                LayerPlacement { surface, rect, layer: LayerBucket::Overlay },
            ],
        }),
{
    if !locked {
        return FrameContents { placements, layers, popups };
    }
    let mut over: Vec<LayerPlacement> = Vec::new();
    if let Some((surface, rect)) = lock {
        over.push(LayerPlacement { surface, rect, layer: LayerBucket::Overlay });
    }
    assert(over@ =~= (match lock {
        None => Seq::empty(),
        Some((surface, rect)) => seq![
            LayerPlacement { surface, rect, layer: LayerBucket::Overlay },
        ],
    }));
    FrameContents { placements: Vec::new(), layers: over, popups: Vec::new() }
}

/// The size that a lock screen is told to have on an output.
pub fn lock_size(rect: Rect) -> (r: (u32, u32))
    ensures
        r.0 == (if rect.size.w < 0 {
            0
        } else {
            rect.size.w as int
        }),
        r.1 == (if rect.size.h < 0 {
            0
        } else {
            rect.size.h as int
        }),
{
    let w: u32 = if rect.size.w < 0 {
        0
    } else {
        rect.size.w as u32
    };
    let h: u32 = if rect.size.h < 0 {
        0
    } else {
        rect.size.h as u32
    };
    (w, h)
}

/// The clock by which the display says when a frame was shown.
#[derive(Debug, Clone, Copy, PartialEq, Eq, Structural)]
pub enum ShownAt {
    /// The one that clients go by, in nanoseconds.
    Monotonic(u64),
    /// One that may be set.
    Realtime,
}

/// When a frame was shown, and how well that is known.
#[derive(Debug, Clone, Copy, PartialEq, Eq, Structural)]
pub struct Presented {
    /// In nanoseconds.
    pub time: u64,
    pub sequence: u32,
    pub vsync: bool,
    pub hw_clock: bool,
    pub hw_completion: bool,
}

/// When a frame was shown: by the display where it says so in the clients'
/// clock, else now.
pub fn present_info(meta: Option<(ShownAt, u32)>, now: u64) -> (r: Presented)
    ensures
        r.vsync,
        r == (match meta {
            Some((ShownAt::Monotonic(time), sequence)) => Presented {
                time,
                sequence,
                vsync: true,
                hw_clock: true,
                hw_completion: true,
            },
            Some((ShownAt::Realtime, sequence)) => Presented {
                time: now,
                sequence,
                vsync: true,
                hw_clock: false,
                hw_completion: false,
            },
            None => Presented {
                time: now,
                sequence: 0,
                vsync: true,
                hw_clock: false,
                hw_completion: false,
            },
        }),
{
    match meta {
        Some((ShownAt::Monotonic(time), sequence)) => Presented {
            time,
            sequence,
            vsync: true,
            hw_clock: true,
            hw_completion: true,
        },
        Some((ShownAt::Realtime, sequence)) => Presented {
            time: now,
            sequence,
            vsync: true,
            hw_clock: false,
            hw_completion: false,
        },
        None => Presented {
            time: now,
            sequence: 0,
            vsync: true,
            hw_clock: false,
            hw_completion: false,
        },
    }
}

/// What a client is told of the buffers it had best use.
#[derive(Debug, Clone, Copy, PartialEq, Eq, Structural)]
pub struct Feedback {
    pub surface: SurfaceId,
    /// Whether buffers that the display can show by itself.
    pub scanout: bool,
}

/// The surfaces that were once told to use buffers that the display can show
/// by itself, after the first `n` windows were looked at.
pub open spec fn told_scanout(
    given: Set<SurfaceId>,
    ps: Seq<Placement>,
    rect: Rect,
    n: int,
) -> Set<SurfaceId>
    decreases n,
{
    if n <= 0 {
        given
    } else {
        let before = told_scanout(given, ps, rect, n - 1);
        if ps[n - 1].cell_rect.meets(rect) && ps[n - 1].fill == FillMode::Fullscreen {
            before.insert(ps[n - 1].surface)
        } else {
            before
        }
    }
}

/// What the clients of the first `n` windows are told.
pub open spec fn feedbacks(
    given: Set<SurfaceId>,
    ps: Seq<Placement>,
    rect: Rect,
    n: int,
) -> Seq<Feedback>
    decreases n,
{
    if n <= 0 {
        Seq::empty()
    } else {
        let before = feedbacks(given, ps, rect, n - 1);
        let p = ps[n - 1];
        if p.cell_rect.meets(rect) {
            before.push(
                Feedback {
                    surface: p.surface,
                    scanout: told_scanout(given, ps, rect, n).contains(p.surface),
                },
            )
        } else {
            before
        }
    }
}

/// The surfaces that were once told to use buffers that the display can show
/// by itself. They keep to them, so that leaving fullscreen does not make
/// their clients start over.
pub struct ScanoutFeedback {
    given: HashSet<u64>,
}

impl ScanoutFeedback {
    /// The surfaces.
    pub closed spec fn given(self) -> Set<SurfaceId> {
        self.given@
    }

    /// No surface was told.
    pub fn new() -> (r: ScanoutFeedback)
        ensures
            r.given() == Set::<SurfaceId>::empty(),
    {
        ScanoutFeedback { given: HashSet::new() }
    }

    /// What the clients of the windows on an output are told.
    pub fn sync_scanout_feedback(&mut self, placements: &Vec<Placement>, rect: Rect) -> (r: Vec<
        Feedback,
    >)
        ensures
            final(self).given() == told_scanout(
                old(self).given(),
                placements@,
                rect,
                placements@.len() as int,
            ),
            r@ == feedbacks(old(self).given(), placements@, rect, placements@.len() as int),
    {
        let mut out: Vec<Feedback> = Vec::new();
        let mut i: usize = 0;
        while i < placements.len()
            invariant
                i <= placements@.len(),
                self.given() == told_scanout(old(self).given(), placements@, rect, i as int),
                out@ =~= feedbacks(old(self).given(), placements@, rect, i as int),
            decreases placements@.len() - i,
        {
            broadcast use vstd::std_specs::hash::group_hash_axioms;

            let p = placements[i];
            if p.cell_rect.overlaps(rect) {
                if p.fill == FillMode::Fullscreen {
                    self.given.insert(p.surface);
                }
                let scanout = self.given.contains(&p.surface);
                out.push(Feedback { surface: p.surface, scanout });
            }
            i += 1;
        }
        out
    }
}

/// A surface that was once told to use such buffers is always told so again.
pub proof fn scanout_feedback_is_kept(
    given: Set<SurfaceId>,
    ps: Seq<Placement>,
    rect: Rect,
    n: int,
    surface: SurfaceId,
)
    requires
        given.contains(surface),
    ensures
        told_scanout(given, ps, rect, n).contains(surface),
    decreases n,
{
    if n > 0 {
        scanout_feedback_is_kept(given, ps, rect, n - 1, surface);
    }
}

/// A display pipeline and the output it drives.
#[derive(Debug)]
pub struct Pipeline {
    pub crtc: u32,
    pub output: Option<String>,
}

/// The pipelines among the first `n` that show no fullscreen window.
pub open spec fn without_fullscreen(
    m: LayoutModel,
    ps: Seq<Pipeline>,
    n: int,
) -> Seq<u32>
    decreases n,
{
    if n <= 0 {
        Seq::empty()
    } else {
        let before = without_fullscreen(m, ps, n - 1);
        let covered = match ps[n - 1].output {
            None => false,
            Some(name) => m.fullscreen_on(name@).is_some(),
        };
        if covered {
            before
        } else {
            before.push(ps[n - 1].crtc)
        }
    }
}

/// The pipelines that show no fullscreen window, and so have to be drawn even
/// where no client asks for it.
pub fn nonfullscreen(layout: &Layout, pipelines: &Vec<Pipeline>) -> (r: Vec<u32>)
    requires
        layout@.valid(),
    ensures
        r@ == without_fullscreen(layout@, pipelines@, pipelines@.len() as int),
{
    let mut out: Vec<u32> = Vec::new();
    let mut i: usize = 0;
    while i < pipelines.len()
        invariant
            i <= pipelines@.len(),
            layout@.valid(),
            out@ =~= without_fullscreen(layout@, pipelines@, i as int),
        decreases pipelines@.len() - i,
    {
        let covered = match &pipelines[i].output {
            None => false,
            Some(name) => layout.output_has_fullscreen(name.as_str()),
        };
        if !covered {
            out.push(pipelines[i].crtc);
        }
        i += 1;
    }
    out
}

/// What a frame of an output is made from.
pub struct FrameInputs<'a> {
    /// The output, where the pipeline drives one, and where it is.
    pub output: Option<&'a str>,
    pub output_rect: Option<Rect>,
    /// The present moment and how long slides take, in milliseconds; without
    /// durations slides are switched off.
    pub now: u64,
    pub durations: Option<&'a Vec<u64>>,
    /// How far running slides have come.
    pub slides: &'a Vec<Option<SlideOffsets>>,
    /// What has the keyboard.
    pub focused: Option<SurfaceId>,
    pub layers: &'a Vec<LayerSurface>,
    pub outputs: &'a Vec<OutputRect>,
    pub primary: Rect,
    /// The width of window borders.
    pub border: i32,
    pub popups: &'a Vec<PopupFacts>,
    pub overrides: &'a Vec<OverrideWindow>,
    pub areas: &'a Vec<Rect>,
    pub session_locked: bool,
    /// The lock screen of the output.
    pub lock: Option<SurfaceId>,
    /// The pictures that clients ask for.
    pub copies: &'a Vec<CaptureWish>,
    /// Whether a client holds the pointer in place.
    pub pointer_locked: bool,
}

/// A frame.
#[derive(Debug)]
pub struct FramePlan {
    pub contents: FrameContents,
    pub feedback: Vec<Feedback>,
    /// The pictures that the session takes of it.
    pub captures: Vec<InternalCapture>,
    pub cursor: CursorPlan,
}

/// The wishes of pictures that the session takes.
pub open spec fn own_wishes(cs: Seq<InternalCapture>) -> Seq<CaptureWish> {
    Seq::new(cs.len(), |i: int| CaptureWish { cursor: cs[i].show_cursor })
}

fn wishes_of(cs: &Vec<InternalCapture>) -> (r: Vec<CaptureWish>)
    ensures
        r@ == own_wishes(cs@),
{
    let mut out: Vec<CaptureWish> = Vec::new();
    let mut i: usize = 0;
    while i < cs.len()
        invariant
            i <= cs@.len(),
            out@ =~= own_wishes(cs@).take(i as int),
        decreases cs@.len() - i,
    {
        out.push(CaptureWish { cursor: cs[i].show_cursor });
        i += 1;
    }
    assert(out@ =~= own_wishes(cs@));
    out
}

/// Everything that would be drawn on an unlocked session.
pub open spec fn scene_popups(
    placements: Seq<Placement>,
    layers: Seq<LayerPlacement>,
    f: FrameInputs,
) -> Seq<PopupPlacement> {
    let parents = popup_parents(placements, layers, f.border);
    menus_of(parents, f.popups@, f.areas@, parents.len() as int) + self_placed(
        f.overrides@,
        f.overrides@.len() as int,
    )
}

/// Sets up a frame: slides that have run their time end, clients are told of
/// buffers, the pictures asked of the output are taken out, and on a locked
/// session nothing but the lock screen is drawn.
pub fn render_crtc(
    layout: &mut Layout,
    shots: &mut Screenshots,
    scanout: &mut ScanoutFeedback,
    f: &FrameInputs,
) -> (r: FramePlan)
    requires
        old(layout)@.valid(),
    ensures
        final(layout)@.valid(),
        final(layout)@ == old(layout)@.ticking(
            f.now,
            match f.durations {
                None => None,
                Some(d) => Some(d@),
            },
        ),
        ({
            let drawn = final(layout)@.placements(f.focused, f.slides@);
            let over = layer_placements(f.layers@, f.outputs@, f.primary);
            let n = drawn.len() as int;
            let told = f.output.is_some() && f.output_rect.is_some();
            &&& f.session_locked ==> r.contents.placements@.len() == 0
                && r.contents.popups@.len() == 0 && r.contents.layers@ == (match (
                f.output,
                f.lock,
                f.output_rect,
            ) {
                (Some(_), Some(surface), Some(rect)) => seq![
                    LayerPlacement { surface, rect, layer: LayerBucket::Overlay },
                ],
                _ => Seq::empty(),
            })
            &&& !f.session_locked ==> r.contents.placements@ == drawn && r.contents.layers@ == over
                && r.contents.popups@ == scene_popups(drawn, over, *f)
            &&& r.feedback@ == (if told {
                feedbacks(old(scanout).given(), drawn, f.output_rect.unwrap(), n)
            } else {
                Seq::empty()
            })
            &&& final(scanout).given() == (if told {
                told_scanout(old(scanout).given(), drawn, f.output_rect.unwrap(), n)
            } else {
                old(scanout).given()
            })
        }),
        ({
            let waiting = wishes(old(shots).pending@);
            let n = waiting.len() as int;
            match f.output {
                None => r.captures@.len() == 0 && *final(shots) == *old(shots),
                Some(name) => wishes(r.captures@) == of_output(waiting, name@, true, n) && wishes(
                    final(shots).pending@,
                ) == of_output(waiting, name@, false, n) && final(shots).session
                    == old(shots).session,
            }
        }),
        r.cursor.hide == (f.pointer_locked || all_without_cursor(f.copies@) || all_without_cursor(
            own_wishes(r.captures@),
        )),
        r.cursor.compose == (some_with_cursor(f.copies@) || some_with_cursor(
            own_wishes(r.captures@),
        )),
{
    layout.tick_transitions(f.now, f.durations);
    let placements = layout.placements(f.focused, f.slides);
    let layers = snapshot_layer_placements(f.layers, f.outputs, f.primary);
    let popups = snapshot_popup_placements(
        &placements,
        &layers,
        f.border,
        f.areas,
        f.popups,
        f.overrides,
    );
    let feedback: Vec<Feedback> = match (f.output, f.output_rect) {
        (Some(_), Some(rect)) => scanout.sync_scanout_feedback(&placements, rect),
        _ => Vec::new(),
    };
    let lock = match (f.output, f.lock, f.output_rect) {
        (Some(_), Some(surface), Some(rect)) => Some((surface, rect)),
        _ => None,
    };
    let contents = frame_contents(f.session_locked, lock, placements, layers, popups);
    let captures: Vec<InternalCapture> = match f.output {
        None => Vec::new(),
        Some(name) => shots.take_for_output(name),
    };
    let own = wishes_of(&captures);
    let cursor = cursor_plan(f.pointer_locked, f.copies, &own);
    FramePlan { contents, feedback, captures, cursor }
}

/// A surface is told to use buffers that the display can show by itself only if
/// it was told so before or is fullscreen on this output now.
pub proof fn only_fullscreen_windows_are_told(
    given: Set<SurfaceId>,
    ps: Seq<Placement>,
    rect: Rect,
    n: int,
    surface: SurfaceId,
)
    requires
        0 <= n <= ps.len(),
    ensures
        told_scanout(given, ps, rect, n).contains(surface) <==> given.contains(surface) || exists|
            i: int,
        |
            0 <= i < n && (#[trigger] ps[i]).surface == surface && ps[i].fill
                == FillMode::Fullscreen && ps[i].cell_rect.meets(rect),
    decreases n,
{
    if n > 0 {
        only_fullscreen_windows_are_told(given, ps, rect, n - 1, surface);
        let p = ps[n - 1];
        if exists|i: int|
            0 <= i < n && (#[trigger] ps[i]).surface == surface && ps[i].fill
                == FillMode::Fullscreen && ps[i].cell_rect.meets(rect) {
            let i = choose|i: int|
                0 <= i < n && (#[trigger] ps[i]).surface == surface && ps[i].fill
                    == FillMode::Fullscreen && ps[i].cell_rect.meets(rect);
            if i < n - 1 {
                assert(ps[i].surface == surface);
            }
        }
        if p.surface == surface && p.fill == FillMode::Fullscreen && p.cell_rect.meets(rect) {
            assert(ps[n - 1].surface == surface);
        }
    }
}

/// The client of every window on the output is told something, and a fullscreen
/// one is told to use buffers that the display can show by itself. Windows that
/// are not on the output are not told of it.
pub proof fn windows_on_the_output_are_told(
    given: Set<SurfaceId>,
    ps: Seq<Placement>,
    rect: Rect,
    n: int,
    k: int,
)
    requires
        0 <= k < n <= ps.len(),
    ensures
        ps[k].cell_rect.meets(rect) ==> exists|j: int|
            0 <= j < feedbacks(given, ps, rect, n).len() && (#[trigger] feedbacks(
                given,
                ps,
                rect,
                n,
            )[j]).surface == ps[k].surface && (ps[k].fill == FillMode::Fullscreen ==> feedbacks(
                given,
                ps,
                rect,
                n,
            )[j].scanout),
        forall|j: int|
            0 <= j < feedbacks(given, ps, rect, n).len() ==> exists|i: int|
                0 <= i < n && (#[trigger] ps[i]).surface == (#[trigger] feedbacks(
                    given,
                    ps,
                    rect,
                    n,
                )[j]).surface && ps[i].cell_rect.meets(rect),
    decreases n,
{
    only_windows_on_the_output(given, ps, rect, n);
    let l = feedbacks(given, ps, rect, n);
    let before = feedbacks(given, ps, rect, n - 1);
    if ps[k].cell_rect.meets(rect) {
        if k == n - 1 {
            assert(l[l.len() - 1].surface == ps[k].surface);
        } else {
            windows_on_the_output_are_told(given, ps, rect, n - 1, k);
            let j = choose|j: int|
                0 <= j < before.len() && (#[trigger] before[j]).surface == ps[k].surface && (
                ps[k].fill == FillMode::Fullscreen ==> before[j].scanout);
            assert(l[j] == before[j]);
        }
    }
}

proof fn only_windows_on_the_output(given: Set<SurfaceId>, ps: Seq<Placement>, rect: Rect, n: int)
    requires
        0 <= n <= ps.len(),
    ensures
        forall|j: int|
            0 <= j < feedbacks(given, ps, rect, n).len() ==> exists|i: int|
                0 <= i < n && (#[trigger] ps[i]).surface == (#[trigger] feedbacks(
                    given,
                    ps,
                    rect,
                    n,
                )[j]).surface && ps[i].cell_rect.meets(rect),
    decreases n,
{
    if n > 0 {
        only_windows_on_the_output(given, ps, rect, n - 1);
        let l = feedbacks(given, ps, rect, n);
        let before = feedbacks(given, ps, rect, n - 1);
        assert forall|j: int| 0 <= j < l.len() implies exists|i: int|
            0 <= i < n && (#[trigger] ps[i]).surface == (#[trigger] l[j]).surface
                && ps[i].cell_rect.meets(rect) by {
            if j < before.len() {
                assert(l[j] == before[j]);
                let i = choose|i: int|
                    0 <= i < n - 1 && (#[trigger] ps[i]).surface == before[j].surface
                        && ps[i].cell_rect.meets(rect);
                assert(ps[i].surface == l[j].surface);
            } else {
                assert(ps[n - 1].surface == l[j].surface);
            }
        }
    }
}

/// The pipelines that are drawn without being asked are just those on whose
/// output no fullscreen window is on show.
pub proof fn covered_pipelines_are_left_alone(m: LayoutModel, ps: Seq<Pipeline>, n: int, k: int)
    requires
        0 <= k < n <= ps.len(),
        forall|a: int, b: int|
            0 <= a < b < ps.len() ==> (#[trigger] ps[a]).crtc != (#[trigger] ps[b]).crtc,
    ensures
        without_fullscreen(m, ps, n).contains(ps[k].crtc) <==> !(ps[k].output.is_some()
            && m.fullscreen_on(ps[k].output.unwrap()@).is_some()),
    decreases n,
{
    let l = without_fullscreen(m, ps, n);
    let before = without_fullscreen(m, ps, n - 1);
    let last = ps[n - 1];
    let covered = last.output.is_some() && m.fullscreen_on(last.output.unwrap()@).is_some();
    if k < n - 1 {
        covered_pipelines_are_left_alone(m, ps, n - 1, k);
        assert(ps[k].crtc != last.crtc);
        if before.contains(ps[k].crtc) {
            let j = choose|j: int| 0 <= j < before.len() && before[j] == ps[k].crtc;
            assert(l[j] == before[j]);
        }
        if l.contains(ps[k].crtc) {
            let j = choose|j: int| 0 <= j < l.len() && l[j] == ps[k].crtc;
            assert(before[j] == l[j]);
        }
    } else {
        only_earlier_pipelines(m, ps, n - 1, last.crtc);
        if !covered {
            assert(l[l.len() - 1] == last.crtc);
        }
    }
}

proof fn only_earlier_pipelines(m: LayoutModel, ps: Seq<Pipeline>, n: int, crtc: u32)
    requires
        0 <= n <= ps.len(),
        forall|a: int| 0 <= a < n ==> (#[trigger] ps[a]).crtc != crtc,
    ensures
        !without_fullscreen(m, ps, n).contains(crtc),
    decreases n,
{
    if n > 0 {
        only_earlier_pipelines(m, ps, n - 1, crtc);
        let l = without_fullscreen(m, ps, n);
        let before = without_fullscreen(m, ps, n - 1);
        if l.contains(crtc) {
            let j = choose|j: int| 0 <= j < l.len() && l[j] == crtc;
            if j < before.len() {
                assert(before[j] == crtc);
            } else {
                assert(ps[n - 1].crtc == crtc);
            }
        }
    }
}

} // verus!
