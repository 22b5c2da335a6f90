//! Screenshots: the selection of a region, window or output, the pictures that
//! it asks of the next frames, and what of them is kept.
//!
//! The cursor is measured in 256ths of a pixel, as clients are told it; scales
//! are in 120ths.

use vstd::prelude::*;
use vstd::string::*;

use crate::config::{ScreenshotBind, ScreenshotMode};
use crate::desktop::LayoutModel;
use crate::geometry::{clip, clipped, larger, max32, min32, smaller, Point, Rect, Size};
use crate::layout::Layout;
use crate::lists::reversed;
use crate::text::same;

verus! {

/// A place in 256ths of a pixel.
#[derive(Debug, Clone, Copy, PartialEq, Eq, Structural)]
pub struct FinePoint {
    pub x: i32,
    pub y: i32,
}

/// A fraction rounded to the nearest whole number, halves away from zero.
pub open spec fn nearest(num: int, den: int) -> int {
    if num >= 0 {
        (2 * num + den) / (2 * den)
    } else {
        -((2 * (-num) + den) / (2 * den))
    }
}

fn whole_pixels(v: i64) -> (r: i64)
    requires
        -0x1_0000_0000 <= v <= 0x1_0000_0000,
    ensures
        r == nearest(v as int, 256),
        -0x200_0000 <= r <= 0x200_0000,
{
    if v >= 0 {
        (2 * v + 256) / 512
    } else {
        -((2 * (-v) + 256) / 512)
    }
}

impl FinePoint {
    /// The nearest pixel.
    pub open spec fn pixel(self) -> Point {
        Point { x: nearest(self.x as int, 256) as i32, y: nearest(self.y as int, 256) as i32 }
    }

    /// The nearest pixel.
    pub fn cursor_point(self) -> (r: Point)
        ensures
            r == self.pixel(),
    {
        Point { x: whole_pixels(self.x as i64) as i32, y: whole_pixels(self.y as i64) as i32 }
    }
}

/// The rectangle between two corners, each measure rounded by itself.
pub open spec fn between(a: FinePoint, b: FinePoint) -> Rect {
    let x0 = smaller(a.x as int, b.x as int);
    let y0 = smaller(a.y as int, b.y as int);
    Rect {
        loc: Point { x: nearest(x0, 256) as i32, y: nearest(y0, 256) as i32 },
        size: Size {
            w: nearest(larger(a.x as int, b.x as int) - x0, 256) as i32,
            h: nearest(larger(a.y as int, b.y as int) - y0, 256) as i32,
        },
    }
}

/// The rectangle between two corners.
pub fn rect_from_corners(a: FinePoint, b: FinePoint) -> (r: Rect)
    ensures
        r == between(a, b),
{
    let x0: i32 = min32(a.x, b.x);
    let y0: i32 = min32(a.y, b.y);
    let w: i64 = max32(a.x, b.x) as i64 - x0 as i64;
    let h: i64 = max32(a.y, b.y) as i64 - y0 as i64;
    Rect {
        loc: Point { x: whole_pixels(x0 as i64) as i32, y: whole_pixels(y0 as i64) as i32 },
        size: Size { w: whole_pixels(w) as i32, h: whole_pixels(h) as i32 },
    }
}

/// It does not matter which corner a selection begins at.
pub proof fn corners_can_be_swapped(a: FinePoint, b: FinePoint)
    ensures
        between(a, b) == between(b, a),
{
}

/// An output as it is drawn.
#[derive(Debug)]
pub struct OutputGeometry {
    pub name: String,
    /// Where it is on the desktop.
    pub compositor: Rect,
    /// How many pixels it has.
    pub mode_size: Size,
    /// Pixels for each 120 units of the desktop.
    pub scale: u32,
}

/// The first output at or after `from` that has a point.
pub open spec fn output_at_from(os: Seq<OutputGeometry>, p: Point, from: int) -> Option<int>
    decreases os.len() - from,
{
    if from < 0 || from >= os.len() {
        None
    } else if os[from].compositor.holds(p) {
        Some(from)
    } else {
        output_at_from(os, p, from + 1)
    }
}

fn output_at(os: &Vec<OutputGeometry>, p: Point) -> (r: Option<usize>)
    ensures
        match r {
            None => output_at_from(os@, p, 0).is_none(),
            Some(i) => i < os@.len() && output_at_from(os@, p, 0) == Some(i as int),
        },
{
    let mut i: usize = 0;
    while i < os.len()
        invariant
            i <= os@.len(),
            output_at_from(os@, p, 0) == output_at_from(os@, p, i as int),
        decreases os@.len() - i,
    {
        if os[i].compositor.contains(p) {
            return Some(i);
        }
        i += 1;
    }
    None
}

/// A measure of the desktop in pixels, within what can be counted.
pub open spec fn scaled(v: int, scale: u32) -> i32 {
    clipped(nearest(v * scale, 120))
}

fn scale_by(v: i64, scale: u32) -> (r: i32)
    requires
        -0x1_0000_0000 <= v <= 0x1_0000_0000,
    ensures
        r == scaled(v as int, scale),
{
    assert(-0x1_0000_0000_0000_0000 <= v * scale <= 0x1_0000_0000_0000_0000)
        by (nonlinear_arith)
        requires
            -0x1_0000_0000 <= v <= 0x1_0000_0000,
            0 <= scale <= 0xffff_ffff,
    ;
    let n: i128 = v as i128 * scale as i128;
    let q: i128 = if n >= 0 {
        (2 * n + 120) / 240
    } else {
        -((2 * (-n) + 120) / 240)
    };
    if q < i32::MIN as i128 {
        i32::MIN
    } else if q > i32::MAX as i128 {
        i32::MAX
    } else {
        q as i32
    }
}

/// A rectangle of the desktop in the pixels of an output.
pub open spec fn physical(rect: Rect, origin: Point, scale: u32) -> Rect {
    Rect {
        loc: Point {
            x: scaled(rect.loc.x - origin.x, scale),
            y: scaled(rect.loc.y - origin.y, scale),
        },
        size: Size {
            w: scaled(rect.size.w as int, scale),
            h: scaled(rect.size.h as int, scale),
        },
    }
}

/// A rectangle of the desktop in the pixels of an output.
pub fn compositor_rect_to_physical(rect: Rect, origin: Point, scale: u32) -> (r: Rect)
    ensures
        r == physical(rect, origin, scale),
{
    Rect {
        loc: Point {
            x: scale_by(rect.loc.x as i64 - origin.x as i64, scale),
            y: scale_by(rect.loc.y as i64 - origin.y as i64, scale),
        },
        size: Size {
            w: scale_by(rect.size.w as i64, scale),
            h: scale_by(rect.size.h as i64, scale),
        },
    }
}

/// Without scaling a rectangle is only moved.
pub proof fn unscaled_rectangles_are_only_moved(rect: Rect, origin: Point)
    requires
        i32::MIN <= rect.loc.x - origin.x <= i32::MAX,
        i32::MIN <= rect.loc.y - origin.y <= i32::MAX,
    ensures
        physical(rect, origin, 120).size == rect.size,
        physical(rect, origin, 120).loc.x == rect.loc.x - origin.x,
        physical(rect, origin, 120).loc.y == rect.loc.y - origin.y,
{
}

/// What two rectangles have in common.
pub open spec fn common(a: Rect, b: Rect) -> Rect {
    let x0 = larger(a.loc.x as int, b.loc.x as int);
    let y0 = larger(a.loc.y as int, b.loc.y as int);
    let x1 = smaller(a.loc.x + a.size.w, b.loc.x + b.size.w);
    let y1 = smaller(a.loc.y + a.size.h, b.loc.y + b.size.h);
    Rect {
        loc: Point { x: x0 as i32, y: y0 as i32 },
        size: Size { w: clipped(x1 - x0), h: clipped(y1 - y0) },
    }
}

fn intersection(a: Rect, b: Rect) -> (r: Option<Rect>)
    ensures
        r == (if a.meets(b) {
            Some(common(a, b))
        } else {
            None
        }),
{
    if !a.overlaps(b) {
        return None;
    }
    let x0: i32 = max32(a.loc.x, b.loc.x);
    let y0: i32 = max32(a.loc.y, b.loc.y);
    let ax: i64 = a.loc.x as i64 + a.size.w as i64;
    let bx: i64 = b.loc.x as i64 + b.size.w as i64;
    let ay: i64 = a.loc.y as i64 + a.size.h as i64;
    let by: i64 = b.loc.y as i64 + b.size.h as i64;
    let x1: i64 = if ax < bx {
        ax
    } else {
        bx
    };
    let y1: i64 = if ay < by {
        ay
    } else {
        by
    };
    Some(
        Rect {
            loc: Point { x: x0, y: y0 },
            size: Size { w: clip(x1 - x0 as i64), h: clip(y1 - y0 as i64) },
        },
    )
}

/// What two rectangles have in common lies on both.
pub proof fn common_part_is_on_both(a: Rect, b: Rect, p: Point)
    requires
        a.meets(b),
        a.size.is_positive(),
        b.size.is_positive(),
    ensures
        common(a, b).holds(p) <==> a.holds(p) && b.holds(p),
{
}

/// The output a rectangle is taken of: the one at the point where its
/// selection began, if it began at one, else at its middle, else at its corner.
pub open spec fn shot_output(rect: Rect, begun: Option<Point>, os: Seq<OutputGeometry>) -> Option<
    int,
> {
    let at_start = match begun {
        Some(p) => output_at_from(os, p, 0),
        None => None,
    };
    if at_start.is_some() {
        at_start
    } else if output_at_from(os, rect.middle(), 0).is_some() {
        output_at_from(os, rect.middle(), 0)
    } else {
        output_at_from(os, rect.loc, 0)
    }
}

/// The output of which a rectangle is taken, and the pixels of it. None where
/// there is no such output, or where nothing of it is left there.
pub open spec fn shot_of(rect: Rect, begun: Option<Point>, os: Seq<OutputGeometry>) -> Option<
    (int, Rect),
> {
    match shot_output(rect, begun, os) {
        None => None,
        Some(i) => if !rect.meets(os[i].compositor) {
            None
        } else {
            let r = physical(
                common(rect, os[i].compositor),
                os[i].compositor.loc,
                os[i].scale,
            );
            if r.size.w < 1 || r.size.h < 1 {
                None
            } else {
                Some((i, r))
            }
        },
    }
}

fn aim(rect: Rect, begun: Option<Point>, os: &Vec<OutputGeometry>) -> (r: Option<(usize, Rect)>)
    ensures
        match r {
            None => shot_of(rect, begun, os@).is_none(),
            Some((i, region)) => i < os@.len() && shot_of(rect, begun, os@) == Some(
                (i as int, region),
            ),
        },
{
    let at_start: Option<usize> = match begun {
        Some(p) => output_at(os, p),
        None => None,
    };
    let at: Option<usize> = match at_start {
        Some(i) => Some(i),
        None => match output_at(os, rect.center()) {
            Some(i) => Some(i),
            None => output_at(os, rect.loc),
        },
    };
    match at {
        None => None,
        Some(i) => match intersection(rect, os[i].compositor) {
            None => None,
            Some(part) => {
                let region = compositor_rect_to_physical(
                    part,
                    os[i].compositor.loc,
                    os[i].scale,
                );
                if region.size.w < 1 || region.size.h < 1 {
                    None
                } else {
                    Some((i, region))
                }
            },
        },
    }
}

/// What a picture is for.
#[derive(Debug)]
pub enum CapturePurpose {
    /// To stand still under the selection.
    Freeze,
    /// To be kept.
    Finalize { bind: ScreenshotBind },
}

/// A picture that is asked of the next frame of an output.
#[derive(Debug)]
pub struct InternalCapture {
    pub output: String,
    pub region: Rect,
    pub show_cursor: bool,
    pub purpose: CapturePurpose,
}

/// A picture that is asked for, as it reads.
#[verifier::ext_equal]
pub struct CaptureModel {
    pub output: Seq<char>,
    pub region: Rect,
    pub show_cursor: bool,
    pub purpose: CapturePurpose,
}

impl View for InternalCapture {
    type V = CaptureModel;

    open spec fn view(&self) -> CaptureModel {
        CaptureModel {
            output: self.output@,
            region: self.region,
            show_cursor: self.show_cursor,
            purpose: self.purpose,
        }
    }
}

/// The pictures that are asked for, as they read.
pub open spec fn wishes(cs: Seq<InternalCapture>) -> Seq<CaptureModel> {
    Seq::new(cs.len(), |i: int| cs[i]@)
}

/// An output as it looked when the selection began.
#[derive(Debug)]
pub struct FrozenFrame {
    pub output: String,
    pub bytes: Vec<u8>,
    pub width: u32,
    pub height: u32,
}

/// The frame of an output at or after `from`.
pub open spec fn frame_from(fs: Seq<FrozenFrame>, name: Seq<char>, from: int) -> Option<int>
    decreases fs.len() - from,
{
    if from < 0 || from >= fs.len() {
        None
    } else if fs[from].output@ == name {
        Some(from)
    } else {
        frame_from(fs, name, from + 1)
    }
}

/// The selection that is under way.
#[derive(Debug)]
pub struct ScreenshotState {
    pub bind: ScreenshotBind,
    /// The corner at which the selection began.
    pub anchor: Option<FinePoint>,
    /// The outputs as they looked when the selection began.
    pub frozen: Vec<FrozenFrame>,
}

impl ScreenshotState {
    /// What is selected: from the corner to the cursor, or the window under
    /// the cursor.
    pub open spec fn selected(self, m: LayoutModel, cursor: FinePoint) -> Option<Rect> {
        match self.bind.mode {
            ScreenshotMode::Region => match self.anchor {
                None => None,
                Some(a) => Some(between(a, cursor)),
            },
            ScreenshotMode::Window => match m.window_at(cursor.pixel()) {
                None => None,
                Some((_, rect)) => Some(rect),
            },
            ScreenshotMode::Output => None,
        }
    }

    /// Where the drag of a region began.
    pub open spec fn begun(self) -> Option<Point> {
        match (self.bind.mode, self.anchor) {
            (ScreenshotMode::Region, Some(a)) => Some(a.pixel()),
            _ => None,
        }
    }

    fn drag_start(&self) -> (r: Option<Point>)
        ensures
            r == self.begun(),
    {
        match (self.bind.mode, self.anchor) {
            (ScreenshotMode::Region, Some(a)) => Some(a.cursor_point()),
            _ => None,
        }
    }

    /// Whether the selection is one that a release or a confirmation takes.
    pub open spec fn is_taken(self, confirmed: bool) -> bool {
        match self.bind.mode {
            ScreenshotMode::Region => self.anchor.is_some(),
            ScreenshotMode::Window => confirmed,
            ScreenshotMode::Output => false,
        }
    }
}

/// The screenshot that is being made, and the pictures it waits for.
#[derive(Debug)]
pub struct Screenshots {
    pub session: Option<ScreenshotState>,
    pub pending: Vec<InternalCapture>,
}

/// What the start of a screenshot leads to.
#[derive(Debug, Clone, Copy, PartialEq, Eq, Structural)]
pub enum ShotStart {
    /// Another one is under way.
    Busy,
    /// No output is under the cursor.
    NoOutput,
    /// The output under the cursor is taken with its next frame.
    Captured,
    /// A selection begins: its overlay is shown at once, or once the frames
    /// that stand still under it are there.
    Selecting { overlay: bool },
}

/// What became of a selection.
#[derive(Debug)]
pub enum ShotStep {
    /// It goes on as it was.
    Nothing,
    /// It goes on and is drawn anew.
    Overlay,
    /// It is given up.
    Cancelled,
    /// It is taken with the next frame.
    Queued,
    /// It is cut out of a frame that stood still.
    Encode { frame: FrozenFrame, region: Rect, bind: ScreenshotBind },
    /// There is no such frame, and so no screenshot.
    NoFrame,
}

/// The pictures that a selection asks of the first `n` outputs.
pub open spec fn freezes(os: Seq<OutputGeometry>, show_cursor: bool, n: int) -> Seq<CaptureModel> {
    Seq::new(
        n as nat,
        |i: int|
            CaptureModel {
                output: os[i].name@,
                region: Rect { loc: Point::zero(), size: os[i].mode_size },
                show_cursor,
                purpose: CapturePurpose::Freeze,
            },
    )
}

/// The pictures among the first `n` that are to be kept.
pub open spec fn to_keep(cs: Seq<CaptureModel>, n: int) -> Seq<CaptureModel>
    decreases n,
{
    if n <= 0 {
        Seq::empty()
    } else if cs[n - 1].purpose is Finalize {
        to_keep(cs, n - 1).push(cs[n - 1])
    } else {
        to_keep(cs, n - 1)
    }
}

/// The pictures among the first `n` that are of an output, or that are not.
pub open spec fn of_output(cs: Seq<CaptureModel>, name: Seq<char>, mine: bool, n: int) -> Seq<
    CaptureModel,
>
    decreases n,
{
    if n <= 0 {
        Seq::empty()
    } else if (cs[n - 1].output == name) == mine {
        of_output(cs, name, mine, n - 1).push(cs[n - 1])
    } else {
        of_output(cs, name, mine, n - 1)
    }
}

/// What taking a rectangle leads to. What was dragged out is cut to the output
/// on which the drag began.
pub open spec fn taken(
    old_s: Screenshots,
    new_s: Screenshots,
    step: ShotStep,
    rect: Rect,
    os: Seq<OutputGeometry>,
) -> bool {
    match old_s.session {
        None => step is Nothing && new_s == old_s,
        Some(session) => match shot_of(rect, session.begun(), os) {
            None => step is Cancelled && new_s.session.is_none() && new_s.pending@.len() == 0,
            Some((i, region)) => {
                let kept = to_keep(wishes(old_s.pending@), old_s.pending@.len() as int);
                &&& new_s.session.is_none()
                &&& if session.bind.freeze {
                    &&& wishes(new_s.pending@) == kept
                    &&& match frame_from(session.frozen@, os[i].name@, 0) {
                        None => step is NoFrame,
                        Some(k) => step == (ShotStep::Encode {
                            frame: session.frozen@[k],
                            region,
                            bind: session.bind,
                        }),
                    }
                } else {
                    &&& step is Queued
                    &&& wishes(new_s.pending@) == kept.push(
                        CaptureModel {
                            output: os[i].name@,
                            region,
                            show_cursor: session.bind.show_cursor,
                            purpose: CapturePurpose::Finalize { bind: session.bind },
                        },
                    )
                }
            },
        },
    }
}

/// What a selection that is taken leads to: one without an area is given up.
pub open spec fn finalized(
    old_s: Screenshots,
    new_s: Screenshots,
    step: ShotStep,
    m: LayoutModel,
    cursor: FinePoint,
    os: Seq<OutputGeometry>,
) -> bool {
    let session = old_s.session.unwrap();
    match session.selected(m, cursor) {
        None => step is Cancelled && new_s.session.is_none() && new_s.pending@.len() == 0,
        Some(rect) => if session.bind.mode == ScreenshotMode::Region && (rect.size.w < 1
            || rect.size.h < 1) {
            step is Cancelled && new_s.session.is_none() && new_s.pending@.len() == 0
        } else {
            taken(old_s, new_s, step, rect, os)
        },
    }
}

impl Screenshots {
    /// No screenshot is under way.
    pub fn new() -> (r: Screenshots)
        ensures
            r.session.is_none(),
            r.pending@.len() == 0,
    {
        Screenshots { session: None, pending: Vec::new() }
    }

    /// Begins a screenshot.
    pub fn start(
        &mut self,
        bind: &ScreenshotBind,
        cursor: FinePoint,
        outputs: &Vec<OutputGeometry>,
    ) -> (r: ShotStart)
        ensures
            old(self).session.is_some() ==> r == ShotStart::Busy && *final(self) == *old(self),
            old(self).session.is_none() && bind.mode == ScreenshotMode::Output ==> (
            match output_at_from(outputs@, cursor.pixel(), 0) {
                None => r == ShotStart::NoOutput && *final(self) == *old(self),
                Some(i) => r == ShotStart::Captured && final(self).session.is_none() && wishes(
                    final(self).pending@,
                ) == wishes(old(self).pending@).push(
                    CaptureModel {
                        output: outputs@[i].name@,
                        region: Rect { loc: Point::zero(), size: outputs@[i].mode_size },
                        show_cursor: bind.show_cursor,
                        purpose: CapturePurpose::Finalize { bind: *bind },
                    },
                ),
            }),
            old(self).session.is_none() && bind.mode != ScreenshotMode::Output ==> {
                &&& r == (ShotStart::Selecting { overlay: !bind.freeze })
                &&& final(self).session matches Some(s) && s.bind == *bind && s.anchor.is_none()
                    && s.frozen@.len() == 0
                &&& wishes(final(self).pending@) == wishes(old(self).pending@) + (if bind.freeze {
                    freezes(outputs@, bind.show_cursor, outputs@.len() as int)
                } else {
                    Seq::empty()
                })
            },
    {
        if self.session.is_some() {
            return ShotStart::Busy;
        }
        let ghost before = self.pending@;
        if bind.mode == ScreenshotMode::Output {
            return match output_at(outputs, cursor.cursor_point()) {
                None => ShotStart::NoOutput,
                Some(i) => {
                    self.pending.push(
                        InternalCapture {
                            output: outputs[i].name.clone(),
                            region: Rect { loc: Point { x: 0, y: 0 }, size: outputs[i].mode_size },
                            show_cursor: bind.show_cursor,
                            purpose: CapturePurpose::Finalize { bind: bind.copy() },
                        },
                    );
                    assert(wishes(self.pending@) =~= wishes(before).push(
                        self.pending@[before.len() as int]@,
                    ));
                    ShotStart::Captured
                },
            };
        }
        self.session = Some(
            ScreenshotState { bind: bind.copy(), anchor: None, frozen: Vec::new() },
        );
        if bind.freeze {
            let ghost begun = self.session;
            let ghost all = freezes(outputs@, bind.show_cursor, outputs@.len() as int);
            let mut i: usize = 0;
            while i < outputs.len()
                invariant
                    i <= outputs@.len(),
                    self.session == begun,
                    all == freezes(outputs@, bind.show_cursor, outputs@.len() as int),
                    wishes(self.pending@) =~= wishes(before) + all.take(i as int),
                decreases outputs@.len() - i,
            {
                let ghost earlier = self.pending@;
                self.pending.push(
                    InternalCapture {
                        output: outputs[i].name.clone(),
                        region: Rect { loc: Point { x: 0, y: 0 }, size: outputs[i].mode_size },
                        show_cursor: bind.show_cursor,
                        purpose: CapturePurpose::Freeze,
                    },
                );
                assert(wishes(self.pending@) =~= wishes(earlier).push(
                    self.pending@[earlier.len() as int]@,
                ));
                assert(all.take(i + 1) =~= all.take(i as int).push(all[i as int]));
                i += 1;
            }
            assert(all.take(i as int) =~= all);
        }
        ShotStart::Selecting { overlay: !bind.freeze }
    }

    /// Gives the screenshot up, with every picture it waits for.
    pub fn cancel_screenshot(&mut self)
        ensures
            final(self).session.is_none(),
            final(self).pending@.len() == 0,
    {
        self.session = None;
        self.pending = Vec::new();
    }

    /// Ends the selection; pictures that are to be kept are still taken.
    pub fn end_screenshot(&mut self)
        ensures
            final(self).session.is_none(),
            wishes(final(self).pending@) == to_keep(
                wishes(old(self).pending@),
                old(self).pending@.len() as int,
            ),
    {
        self.session = None;
        let mut rest: Vec<InternalCapture> = Vec::new();
        std::mem::swap(&mut rest, &mut self.pending);
        let ghost all = rest@;
        let mut todo = reversed(rest);
        let ghost n = todo@.len() as int;
        while todo.len() > 0
            invariant
                self.session.is_none(),
                todo@.len() <= n,
                n == all.len(),
                forall|k: int| 0 <= k < todo@.len() ==> #[trigger] todo@[k] == all[n - 1 - k],
                wishes(self.pending@) =~= to_keep(wishes(all), n - todo@.len()),
            decreases todo@.len(),
        {
            let ghost done = n - todo@.len();
            let ghost kept = self.pending@;
            let c = todo.pop().unwrap();
            assert(c == all[done]);
            assert(wishes(all)[done] == c@);
            let keep = match &c.purpose {
                CapturePurpose::Freeze => false,
                CapturePurpose::Finalize { bind: _ } => true,
            };
            if keep {
                self.pending.push(c);
                assert(wishes(self.pending@) =~= wishes(kept).push(c@));
            }
            assert(n - todo@.len() == done + 1);
        }
    }

    /// What is selected.
    pub fn current_screenshot_selection(&self, layout: &Layout, cursor: FinePoint) -> (r: Option<
        Rect,
    >)
        requires
            layout@.valid(),
        ensures
            r == (match self.session {
                None => None,
                Some(s) => s.selected(layout@, cursor),
            }),
    {
        match &self.session {
            None => None,
            Some(s) => match s.bind.mode {
                ScreenshotMode::Region => match s.anchor {
                    None => None,
                    Some(a) => Some(rect_from_corners(a, cursor)),
                },
                ScreenshotMode::Window => match layout.window_at(cursor.cursor_point()) {
                    None => None,
                    Some((_, rect)) => Some(rect),
                },
                ScreenshotMode::Output => None,
            },
        }
    }

    fn finalize_compositor_rect(&mut self, rect: Rect, outputs: &Vec<OutputGeometry>) -> (r:
        ShotStep)
        ensures
            taken(*old(self), *final(self), r, rect, outputs@),
    {
        let begun = match &self.session {
            None => {
                return ShotStep::Nothing;
            },
            Some(session) => session.drag_start(),
        };
        let (i, region) = match aim(rect, begun, outputs) {
            None => {
                self.cancel_screenshot();
                return ShotStep::Cancelled;
            },
            Some(t) => t,
        };
        let mut session: Option<ScreenshotState> = None;
        std::mem::swap(&mut session, &mut self.session);
        let ScreenshotState { bind, anchor: _, frozen } = session.unwrap();
        self.end_screenshot();
        if bind.freeze {
            let mut frames = frozen;
            match find_frame(&frames, outputs[i].name.as_str()) {
                None => ShotStep::NoFrame,
                Some(k) => {
                    let frame = frames.swap_remove(k);
                    ShotStep::Encode { frame, region, bind }
                },
            }
        } else {
            let ghost kept = self.pending@;
            self.pending.push(
                InternalCapture {
                    output: outputs[i].name.clone(),
                    region,
                    show_cursor: bind.show_cursor,
                    purpose: CapturePurpose::Finalize { bind },
                },
            );
            assert(wishes(self.pending@) =~= wishes(kept).push(self.pending@[kept.len() as int]@));
            ShotStep::Queued
        }
    }

    fn finalize(&mut self, layout: &Layout, cursor: FinePoint, outputs: &Vec<OutputGeometry>) -> (r:
        ShotStep)
        requires
            layout@.valid(),
            old(self).session.is_some(),
        ensures
            finalized(*old(self), *final(self), r, layout@, cursor, outputs@),
    {
        let region = match &self.session {
            None => false,
            Some(s) => s.bind.mode == ScreenshotMode::Region,
        };
        match self.current_screenshot_selection(layout, cursor) {
            None => {
                self.cancel_screenshot();
                ShotStep::Cancelled
            },
            Some(rect) => {
                if region && (rect.size.w < 1 || rect.size.h < 1) {
                    self.cancel_screenshot();
                    ShotStep::Cancelled
                } else {
                    self.finalize_compositor_rect(rect, outputs)
                }
            },
        }
    }

    /// The left button goes down: a region begins, a window is taken.
    pub fn screenshot_pointer_press(
        &mut self,
        layout: &Layout,
        cursor: FinePoint,
        outputs: &Vec<OutputGeometry>,
    ) -> (r: ShotStep)
        requires
            layout@.valid(),
        ensures
            match old(self).session {
                None => r is Nothing && *final(self) == *old(self),
                Some(s) => match s.bind.mode {
                    ScreenshotMode::Region => r is Overlay && *final(self) == (Screenshots {
                        session: Some(ScreenshotState { anchor: Some(cursor), ..s }),
                        ..*old(self)
                    }),
                    ScreenshotMode::Window => finalized(
                        *old(self),
                        *final(self),
                        r,
                        layout@,
                        cursor,
                        outputs@,
                    ),
                    ScreenshotMode::Output => r is Nothing && *final(self) == *old(self),
                },
            },
    {
        let mode = match &self.session {
            None => {
                return ShotStep::Nothing;
            },
            Some(s) => s.bind.mode,
        };
        match mode {
            ScreenshotMode::Region => {
                let mut session: Option<ScreenshotState> = None;
                std::mem::swap(&mut session, &mut self.session);
                let ScreenshotState { bind, anchor: _, frozen } = session.unwrap();
                self.session = Some(ScreenshotState { bind, anchor: Some(cursor), frozen });
                ShotStep::Overlay
            },
            ScreenshotMode::Window => self.finalize(layout, cursor, outputs),
            ScreenshotMode::Output => ShotStep::Nothing,
        }
    }

    /// The left button goes up: the region that was begun is taken.
    pub fn screenshot_pointer_release(
        &mut self,
        layout: &Layout,
        cursor: FinePoint,
        outputs: &Vec<OutputGeometry>,
    ) -> (r: ShotStep)
        requires
            layout@.valid(),
        ensures
            if old(self).session.is_some() && old(self).session.unwrap().is_taken(false) {
                finalized(*old(self), *final(self), r, layout@, cursor, outputs@)
            } else {
                r is Nothing && *final(self) == *old(self)
            },
    {
        let take = match &self.session {
            None => false,
            Some(s) => s.bind.mode == ScreenshotMode::Region && s.anchor.is_some(),
        };
        if take {
            self.finalize(layout, cursor, outputs)
        } else {
            ShotStep::Nothing
        }
    }

    /// The selection is confirmed by a key: the region that was begun, or the
    /// window under the cursor, is taken.
    pub fn confirm_screenshot_region(
        &mut self,
        layout: &Layout,
        cursor: FinePoint,
        outputs: &Vec<OutputGeometry>,
    ) -> (r: ShotStep)
        requires
            layout@.valid(),
        ensures
            if old(self).session.is_some() && old(self).session.unwrap().is_taken(true) {
                finalized(*old(self), *final(self), r, layout@, cursor, outputs@)
            } else {
                r is Nothing && *final(self) == *old(self)
            },
    {
        let take = match &self.session {
            None => false,
            Some(s) => match s.bind.mode {
                ScreenshotMode::Region => s.anchor.is_some(),
                ScreenshotMode::Window => true,
                ScreenshotMode::Output => false,
            },
        };
        if take {
            self.finalize(layout, cursor, outputs)
        } else {
            ShotStep::Nothing
        }
    }

    /// Takes out the pictures that are asked of an output.
    pub fn take_for_output(&mut self, name: &str) -> (r: Vec<InternalCapture>)
        ensures
            final(self).session == old(self).session,
            wishes(r@) == of_output(
                wishes(old(self).pending@),
                name@,
                true,
                old(self).pending@.len() as int,
            ),
            wishes(final(self).pending@) == of_output(
                wishes(old(self).pending@),
                name@,
                false,
                old(self).pending@.len() as int,
            ),
    {
        let mut rest: Vec<InternalCapture> = Vec::new();
        std::mem::swap(&mut rest, &mut self.pending);
        let ghost all = rest@;
        let mut mine: Vec<InternalCapture> = Vec::new();
        let mut todo = reversed(rest);
        let ghost n = todo@.len() as int;
        while todo.len() > 0
            invariant
                self.session == old(self).session,
                todo@.len() <= n,
                n == all.len(),
                forall|k: int| 0 <= k < todo@.len() ==> #[trigger] todo@[k] == all[n - 1 - k],
                wishes(mine@) =~= of_output(wishes(all), name@, true, n - todo@.len()),
                wishes(self.pending@) =~= of_output(wishes(all), name@, false, n - todo@.len()),
            decreases todo@.len(),
        {
            let ghost done = n - todo@.len();
            let ghost (had, left) = (mine@, self.pending@);
            let c = todo.pop().unwrap();
            assert(c == all[done]);
            assert(wishes(all)[done] == c@);
            if same(c.output.as_str(), name) {
                mine.push(c);
                assert(wishes(mine@) =~= wishes(had).push(c@));
            } else {
                self.pending.push(c);
                assert(wishes(self.pending@) =~= wishes(left).push(c@));
            }
            assert(n - todo@.len() == done + 1);
        }
        mine
    }

    /// Takes in a frame of an output that is to stand still. Says whether the
    /// overlay is to be shown: once no other frame is waited for.
    pub fn freeze(&mut self, frame: FrozenFrame) -> (r: bool)
        ensures
            r == !(exists|i: int|
                0 <= i < old(self).pending@.len() && #[trigger] old(self).pending@[i].purpose
                    is Freeze),
            final(self).pending@ == old(self).pending@,
            match (old(self).session, final(self).session) {
                (None, None) => true,
                (Some(a), Some(b)) => {
                    &&& b.bind == a.bind
                    &&& b.anchor == a.anchor
                    &&& frame_of(b.frozen@, frame.output@) == Some(frame)
                    &&& forall|n: Seq<char>| #![auto]
                        n != frame.output@ ==> frame_of(b.frozen@, n) == frame_of(a.frozen@, n)
                },
                _ => false,
            },
    {
        let more = self.awaits_freeze();
        let mut session: Option<ScreenshotState> = None;
        std::mem::swap(&mut session, &mut self.session);
        if let Some(s) = session {
            let ScreenshotState { bind, anchor, frozen } = s;
            let mut frames = frozen;
            keep_frame(&mut frames, frame);
            self.session = Some(ScreenshotState { bind, anchor, frozen: frames });
        }
        !more
    }

    fn awaits_freeze(&self) -> (r: bool)
        ensures
            r == (exists|i: int|
                0 <= i < self.pending@.len() && #[trigger] self.pending@[i].purpose is Freeze),
    {
        let mut i: usize = 0;
        while i < self.pending.len()
            invariant
                i <= self.pending@.len(),
                forall|k: int| 0 <= k < i ==> !(#[trigger] self.pending@[k].purpose is Freeze),
            decreases self.pending@.len() - i,
        {
            let freeze = match &self.pending[i].purpose {
                CapturePurpose::Freeze => true,
                CapturePurpose::Finalize { bind: _ } => false,
            };
            if freeze {
                assert(self.pending@[i as int].purpose is Freeze);
                return true;
            }
            i += 1;
        }
        false
    }
}

/// The frame of an output.
pub open spec fn frame_of(fs: Seq<FrozenFrame>, name: Seq<char>) -> Option<FrozenFrame> {
    match frame_from(fs, name, 0) {
        None => None,
        Some(i) => Some(fs[i]),
    }
}

proof fn frame_is_first(fs: Seq<FrozenFrame>, name: Seq<char>, from: int)
    requires
        0 <= from <= fs.len(),
    ensures
        match frame_from(fs, name, from) {
            Some(i) => from <= i < fs.len() && fs[i].output@ == name && forall|j: int|
                from <= j < i ==> #[trigger] fs[j].output@ != name,
            None => forall|j: int| from <= j < fs.len() ==> #[trigger] fs[j].output@ != name,
        },
    decreases fs.len() - from,
{
    if from < fs.len() && fs[from].output@ != name {
        frame_is_first(fs, name, from + 1);
    }
}

fn find_frame(fs: &Vec<FrozenFrame>, name: &str) -> (r: Option<usize>)
    ensures
        match r {
            None => frame_from(fs@, name@, 0).is_none(),
            Some(i) => i < fs@.len() && frame_from(fs@, name@, 0) == Some(i as int),
        },
{
    let mut i: usize = 0;
    while i < fs.len()
        invariant
            i <= fs@.len(),
            frame_from(fs@, name@, 0) == frame_from(fs@, name@, i as int),
        decreases fs@.len() - i,
    {
        if same(fs[i].output.as_str(), name) {
            return Some(i);
        }
        i += 1;
    }
    None
}

fn keep_frame(fs: &mut Vec<FrozenFrame>, frame: FrozenFrame)
    ensures
        frame_of(final(fs)@, frame.output@) == Some(frame),
        forall|n: Seq<char>| #![auto]
            n != frame.output@ ==> frame_of(final(fs)@, n) == frame_of(old(fs)@, n),
{
    let ghost before = fs@;
    let ghost name = frame.output@;
    proof {
        frame_is_first(before, name, 0);
    }
    match find_frame(fs, frame.output.as_str()) {
        None => {
            fs.push(frame);
            assert(fs@[before.len() as int] == frame);
        },
        Some(i) => {
            fs.set(i, frame);
            assert(fs@[i as int] == frame);
            assert(forall|j: int| 0 <= j < i ==> #[trigger] fs@[j] == before[j]);
        },
    }
    proof {
        frame_is_first(fs@, name, 0);
        assert forall|n: Seq<char>| n != name implies #[trigger] frame_of(fs@, n) == frame_of(
            before,
            n,
        ) by {
            frame_is_first(before, n, 0);
            frame_is_first(fs@, n, 0);
            if let Some(i) = frame_from(before, n, 0) {
                assert(fs@[i].output@ == n);
            }
            if let Some(i) = frame_from(fs@, n, 0) {
                assert(fs@[i].output@ == n);
                assert(before[i].output@ == n);
            }
        }
    }
}

/// No picture is lost or taken twice: those of an output and the others make
/// up all of them.
pub proof fn captures_are_dealt_out_once(cs: Seq<CaptureModel>, name: Seq<char>, n: int)
    requires
        0 <= n <= cs.len(),
    ensures
        of_output(cs, name, true, n).len() + of_output(cs, name, false, n).len() == n,
        of_output(cs, name, true, n).to_multiset().add(
            of_output(cs, name, false, n).to_multiset(),
        ) =~= cs.take(n).to_multiset(),
    decreases n,
{
    broadcast use vstd::seq_lib::group_to_multiset_ensures;

    if n > 0 {
        captures_are_dealt_out_once(cs, name, n - 1);
        assert(cs.take(n) =~= cs.take(n - 1).push(cs[n - 1]));
    } else {
        assert(cs.take(0) =~= Seq::<CaptureModel>::empty());
    }
}

/// What a finished picture is for.
#[derive(Debug)]
pub enum CaptureStep {
    /// It could not be read.
    Nothing,
    /// It stands still under the selection.
    Freeze { frame: FrozenFrame },
    /// It is kept whole.
    Encode { frame: FrozenFrame, region: Rect, bind: ScreenshotBind },
}

/// What becomes of a picture that was asked for: one that could not be read,
/// or whose sides cannot be counted, is dropped.
pub fn complete_internal_capture(cap: InternalCapture, read: Option<(Vec<u8>, u32, u32)>) -> (r:
    CaptureStep)
    ensures
        match read {
            None => r is Nothing,
            Some((bytes, width, height)) => if width > i32::MAX || height > i32::MAX {
                r is Nothing
            } else {
                let frame = FrozenFrame { output: cap.output, bytes, width, height };
                match cap.purpose {
                    CapturePurpose::Freeze => r == (CaptureStep::Freeze { frame }),
                    CapturePurpose::Finalize { bind } => r == (CaptureStep::Encode {
                        frame,
                        region: Rect {
                            loc: Point::zero(),
                            size: Size { w: width as i32, h: height as i32 },
                        },
                        bind,
                    }),
                }
            },
        },
{
    match read {
        None => CaptureStep::Nothing,
        Some((bytes, width, height)) => {
            if width > 0x7fff_ffff || height > 0x7fff_ffff {
                return CaptureStep::Nothing;
            }
            let InternalCapture { output, region: _, show_cursor: _, purpose } = cap;
            let frame = FrozenFrame { output, bytes, width, height };
            match purpose {
                CapturePurpose::Freeze => CaptureStep::Freeze { frame },
                CapturePurpose::Finalize { bind } => CaptureStep::Encode {
                    frame,
                    region: Rect {
                        loc: Point { x: 0, y: 0 },
                        size: Size { w: width as i32, h: height as i32 },
                    },
                    bind,
                },
            }
        },
    }
}

/// A rounded fraction is at most half away from what it stands for, and halves
/// are rounded away from zero.
pub proof fn rounding_takes_the_nearest(num: int, den: int)
    requires
        den > 0,
    ensures
        -den <= 2 * (den * nearest(num, den) - num) <= den,
        2 * (den * nearest(num, den) - num) == den ==> num >= 0,
        2 * (den * nearest(num, den) - num) == -den ==> num <= 0,
{
    let a = if num >= 0 {
        2 * num + den
    } else {
        2 * (-num) + den
    };
    let q = a / (2 * den);
    assert(2 * den * q <= a < 2 * den * q + 2 * den) by (nonlinear_arith)
        requires
            q == a / (2 * den),
            den > 0,
    ;
    let r = nearest(num, den);
    assert(2 * den * q == 2 * (den * q)) by (nonlinear_arith);
    if num >= 0 {
        assert(den * r == den * q);
    } else {
        assert(den * r == -(den * q)) by (nonlinear_arith)
            requires
                r == -q,
        ;
    }
}

/// Whether a whole number of pixels is the nearest to a number of 256ths.
pub open spec fn is_nearest_pixel(pixels: int, fine: int) -> bool {
    -128 <= 256 * pixels - fine <= 128
}

/// A region reaches from the nearer of its two corners over the distance
/// between them, in each direction, to the nearest pixel.
pub proof fn regions_reach_from_corner_to_corner(a: FinePoint, b: FinePoint)
    ensures
        ({
            let r = between(a, b);
            &&& a.x <= b.x ==> is_nearest_pixel(r.loc.x as int, a.x as int) && is_nearest_pixel(
                r.size.w as int,
                b.x - a.x,
            )
            &&& b.x <= a.x ==> is_nearest_pixel(r.loc.x as int, b.x as int) && is_nearest_pixel(
                r.size.w as int,
                a.x - b.x,
            )
            &&& a.y <= b.y ==> is_nearest_pixel(r.loc.y as int, a.y as int) && is_nearest_pixel(
                r.size.h as int,
                b.y - a.y,
            )
            &&& b.y <= a.y ==> is_nearest_pixel(r.loc.y as int, b.y as int) && is_nearest_pixel(
                r.size.h as int,
                a.y - b.y,
            )
            &&& r.size.w >= 0
            &&& r.size.h >= 0
        }),
{
    rounding_takes_the_nearest(a.x as int, 256);
    rounding_takes_the_nearest(b.x as int, 256);
    rounding_takes_the_nearest(a.y as int, 256);
    rounding_takes_the_nearest(b.y as int, 256);
    rounding_takes_the_nearest(a.x - b.x, 256);
    rounding_takes_the_nearest(b.x - a.x, 256);
    rounding_takes_the_nearest(a.y - b.y, 256);
    rounding_takes_the_nearest(b.y - a.y, 256);
}

/// The pixel of the cursor is the nearest to it.
pub proof fn the_cursor_is_on_the_nearest_pixel(c: FinePoint)
    ensures
        is_nearest_pixel(c.pixel().x as int, c.x as int),
        is_nearest_pixel(c.pixel().y as int, c.y as int),
{
    rounding_takes_the_nearest(c.x as int, 256);
    rounding_takes_the_nearest(c.y as int, 256);
}

/// Whether a number of pixels is the nearest to a number of desktop units at a
/// scale in 120ths.
pub open spec fn is_scaled(pixels: int, units: int, scale: u32) -> bool {
    -60 <= 120 * pixels - units * scale <= 60
}

/// A rectangle of the desktop lies as many pixels from the corner of its output
/// as the scale makes of its distance, and has as many as it makes of its size.
pub proof fn rectangles_are_scaled_to_pixels(rect: Rect, origin: Point, scale: u32)
    requires
        i32::MIN < nearest((rect.loc.x - origin.x) * scale, 120) < i32::MAX,
        i32::MIN < nearest((rect.loc.y - origin.y) * scale, 120) < i32::MAX,
        i32::MIN < nearest(rect.size.w * scale, 120) < i32::MAX,
        i32::MIN < nearest(rect.size.h * scale, 120) < i32::MAX,
    ensures
        ({
            let r = physical(rect, origin, scale);
            &&& is_scaled(r.loc.x as int, rect.loc.x - origin.x, scale)
            &&& is_scaled(r.loc.y as int, rect.loc.y - origin.y, scale)
            &&& is_scaled(r.size.w as int, rect.size.w as int, scale)
            &&& is_scaled(r.size.h as int, rect.size.h as int, scale)
        }),
{
    rounding_takes_the_nearest((rect.loc.x - origin.x) * scale, 120);
    rounding_takes_the_nearest((rect.loc.y - origin.y) * scale, 120);
    rounding_takes_the_nearest(rect.size.w * scale, 120);
    rounding_takes_the_nearest(rect.size.h * scale, 120);
}

proof fn the_first_output_is_found(os: Seq<OutputGeometry>, p: Point, from: int)
    requires
        0 <= from <= os.len(),
    ensures
        match output_at_from(os, p, from) {
            None => forall|j: int| from <= j < os.len() ==> !(#[trigger] os[j]).compositor.holds(p),
            Some(i) => from <= i < os.len() && os[i].compositor.holds(p) && forall|j: int|
                from <= j < i ==> !(#[trigger] os[j]).compositor.holds(p),
        },
    decreases os.len() - from,
{
    if from < os.len() && !os[from].compositor.holds(p) {
        the_first_output_is_found(os, p, from + 1);
    }
}

/// A dragged region is taken of the output on which the drag began, even where
/// it ends on another. Without scaling its pixels are just those of the region
/// that are on that output.
pub proof fn dragged_regions_are_taken_where_they_began(
    rect: Rect,
    begun: Point,
    os: Seq<OutputGeometry>,
    i: int,
    p: Point,
)
    requires
        0 <= i < os.len(),
        os[i].compositor.holds(begun),
        forall|j: int| 0 <= j < i ==> !(#[trigger] os[j]).compositor.holds(begun),
        rect.size.is_positive(),
    ensures
        shot_of(rect, Some(begun), os) matches Some(t) ==> t.0 == i && rect.meets(os[i].compositor)
            && t.1.size.is_positive(),
        ({
            let q = Point {
                x: clipped(p.x + os[i].compositor.loc.x),
                y: clipped(p.y + os[i].compositor.loc.y),
            };
            &&& os[i].scale == 120 && rect.meets(os[i].compositor) && q.x == p.x
                + os[i].compositor.loc.x && q.y == p.y + os[i].compositor.loc.y ==> (
            shot_of(rect, Some(begun), os) matches Some(t) && (t.1.holds(p) <==> rect.holds(q)
                && os[i].compositor.holds(q)))
        }),
{
    the_first_output_is_found(os, begun, 0);
    let found = output_at_from(os, begun, 0).unwrap();
    assert(output_at_from(os, begun, 0) == Some(i)) by {
        if output_at_from(os, begun, 0).is_none() {
            assert(!os[i].compositor.holds(begun));
        }
        if found < i {
            assert(!os[found].compositor.holds(begun));
        }
        if found > i {
            assert(!os[i].compositor.holds(begun));
        }
    }
    let area = os[i].compositor;
    if rect.meets(area) {
        let c = common(rect, area);
        assert(0 <= c.loc.x - area.loc.x <= i32::MAX);
        assert(0 <= c.loc.y - area.loc.y <= i32::MAX);
        unscaled_rectangles_are_only_moved(c, area.loc);
    }
}

/// A rectangle that was not dragged out is taken of the output at its middle.
pub proof fn windows_are_taken_of_the_output_at_their_middle(
    rect: Rect,
    os: Seq<OutputGeometry>,
    i: int,
)
    requires
        0 <= i < os.len(),
        os[i].compositor.holds(rect.middle()),
        forall|j: int| 0 <= j < i ==> !(#[trigger] os[j]).compositor.holds(rect.middle()),
    ensures
        shot_of(rect, None, os) matches Some(t) ==> t.0 == i,
        shot_output(rect, None, os) == Some(i),
{
    let m = rect.middle();
    the_first_output_is_found(os, m, 0);
    let found = output_at_from(os, m, 0).unwrap();
    if output_at_from(os, m, 0).is_none() {
        assert(!os[i].compositor.holds(m));
    }
    if found < i {
        assert(!os[found].compositor.holds(m));
    }
    if found > i {
        assert(!os[i].compositor.holds(m));
    }
}

/// Ending a selection keeps every picture that is to be kept, and no other.
pub proof fn pictures_to_keep_are_kept(cs: Seq<CaptureModel>, n: int, k: int)
    requires
        0 <= k < n <= cs.len(),
    ensures
        to_keep(cs, n).contains(cs[k]) <==> cs[k].purpose is Finalize,
        forall|j: int| 0 <= j < to_keep(cs, n).len() ==> (#[trigger] to_keep(cs, n)[j]).purpose is Finalize,
    decreases n,
{
    let l = to_keep(cs, n);
    let before = to_keep(cs, n - 1);
    only_pictures_to_keep(cs, n);
    only_pictures_to_keep(cs, n - 1);
    if cs[k].purpose is Finalize {
        if k == n - 1 {
            assert(l[l.len() - 1] == cs[k]);
        } else {
            pictures_to_keep_are_kept(cs, n - 1, k);
            let j = choose|j: int| 0 <= j < before.len() && before[j] == cs[k];
            assert(l[j] == cs[k]);
        }
    } else if l.contains(cs[k]) {
        let j = choose|j: int| 0 <= j < l.len() && l[j] == cs[k];
        assert(l[j].purpose is Finalize);
    }
}

proof fn only_pictures_to_keep(cs: Seq<CaptureModel>, n: int)
    ensures
        forall|j: int| 0 <= j < to_keep(cs, n).len() ==> (#[trigger] to_keep(cs, n)[j]).purpose is Finalize,
    decreases n,
{
    if n > 0 {
        only_pictures_to_keep(cs, n - 1);
    }
}

/// A selection that is taken and does not stand still asks for one more
/// picture, of the selected pixels, with the cursor if it was asked for. One
/// that stands still is cut out of the frame of its output. Either way the
/// selection is over.
pub proof fn selections_are_taken_as_they_were_asked_for(
    before: Screenshots,
    after: Screenshots,
    step: ShotStep,
    rect: Rect,
    os: Seq<OutputGeometry>,
)
    requires
        before.session.is_some(),
        taken(before, after, step, rect, os),
    ensures
        after.session.is_none(),
        shot_of(rect, before.session.unwrap().begun(), os).is_none() ==> step is Cancelled
            && after.pending@.len() == 0,
        shot_of(rect, before.session.unwrap().begun(), os) matches Some(t) ==> {
            let b = before.session.unwrap().bind;
            &&& !b.freeze ==> {
                let w = wishes(after.pending@).last();
                &&& step is Queued
                &&& after.pending@.len() > 0
                &&& w.output == os[t.0].name@
                &&& w.region == t.1
                &&& w.show_cursor == b.show_cursor
                &&& w.purpose == (CapturePurpose::Finalize { bind: b })
            }
            &&& b.freeze ==> match step {
                ShotStep::Encode { frame, region, bind } => frame.output@ == os[t.0].name@ && region
                    == t.1 && bind == b && before.session.unwrap().frozen@.contains(frame),
                ShotStep::NoFrame => forall|j: int|
                    0 <= j < before.session.unwrap().frozen@.len()
                        ==> #[trigger] before.session.unwrap().frozen@[j].output@ != os[t.0].name@,
                _ => false,
            }
        },
{
    if let Some(t) = shot_of(rect, before.session.unwrap().begun(), os) {
        frame_is_first(before.session.unwrap().frozen@, os[t.0].name@, 0);
        let kept = to_keep(wishes(before.pending@), before.pending@.len() as int);
        assert(wishes(after.pending@).len() == after.pending@.len());
    }
}

/// A region is selected from where the drag began to the cursor, and only once
/// one has begun; a window is selected as soon as the cursor is on it, in the
/// rectangle it covers.
pub proof fn selections_follow_the_cursor(st: ScreenshotState, m: LayoutModel, cursor: FinePoint)
    ensures
        st.bind.mode == ScreenshotMode::Region ==> (st.selected(m, cursor).is_some()
            <==> st.anchor.is_some()),
        st.bind.mode == ScreenshotMode::Region && st.anchor.is_some() ==> st.selected(m, cursor)
            == Some(between(st.anchor.unwrap(), cursor)) && st.begun() == Some(
            st.anchor.unwrap().pixel(),
        ) && st.is_taken(false) && st.is_taken(true),
        st.bind.mode == ScreenshotMode::Region && st.anchor.is_none() ==> !st.is_taken(false)
            && !st.is_taken(true),
        st.bind.mode == ScreenshotMode::Window ==> st.begun().is_none() && !st.is_taken(false)
            && st.is_taken(true) && (st.selected(m, cursor).is_some() <==> m.window_at(
            cursor.pixel(),
        ).is_some()),
        st.bind.mode == ScreenshotMode::Window && m.window_at(cursor.pixel()).is_some()
            ==> st.selected(m, cursor) == Some(m.window_at(cursor.pixel()).unwrap().1),
{
}

/// The pictures of an output are those that were asked of it, and the others
/// are all the rest.
pub proof fn pictures_are_told_apart_by_their_output(
    cs: Seq<CaptureModel>,
    name: Seq<char>,
    n: int,
    c: CaptureModel,
)
    requires
        0 <= n <= cs.len(),
    ensures
        of_output(cs, name, true, n).contains(c) <==> c.output == name && exists|i: int|
            0 <= i < n && #[trigger] cs[i] == c,
        of_output(cs, name, false, n).contains(c) <==> c.output != name && exists|i: int|
            0 <= i < n && #[trigger] cs[i] == c,
    decreases n,
{
    if n > 0 {
        pictures_are_told_apart_by_their_output(cs, name, n - 1, c);
        crate::lists::pushing_adds_one_item(of_output(cs, name, true, n - 1), cs[n - 1], c);
        crate::lists::pushing_adds_one_item(of_output(cs, name, false, n - 1), cs[n - 1], c);
    }
}

/// A selection that comes to nothing ends the screenshot without a picture:
/// where nothing is selected, or a region without a whole pixel. Any other is
/// taken.
pub proof fn empty_selections_are_given_up(
    old_s: Screenshots,
    new_s: Screenshots,
    step: ShotStep,
    m: LayoutModel,
    cursor: FinePoint,
    os: Seq<OutputGeometry>,
)
    requires
        old_s.session.is_some(),
        finalized(old_s, new_s, step, m, cursor, os),
    ensures
        new_s.session.is_none(),
        ({
            let session = old_s.session.unwrap();
            match session.selected(m, cursor) {
                None => step is Cancelled && new_s.pending@.len() == 0,
                Some(rect) => {
                    let region = session.bind.mode == ScreenshotMode::Region;
                    &&& region && (rect.size.w <= 0 || rect.size.h <= 0) ==> step is Cancelled
                        && new_s.pending@.len() == 0
                    &&& !region || (rect.size.w >= 1 && rect.size.h >= 1) ==> taken(
                        old_s,
                        new_s,
                        step,
                        rect,
                        os,
                    )
                },
            }
        }),
{
}

/// A selection that is on no output is given up; one on an output that stands
/// still is cut from its frame; any other waits for the next frame of the
/// output, and pictures that were to be kept are still taken.
pub proof fn selections_become_pictures(
    old_s: Screenshots,
    new_s: Screenshots,
    step: ShotStep,
    rect: Rect,
    os: Seq<OutputGeometry>,
)
    requires
        old_s.session.is_some(),
        taken(old_s, new_s, step, rect, os),
    ensures
        ({
            let session = old_s.session.unwrap();
            match shot_of(rect, session.begun(), os) {
                None => step is Cancelled && new_s.pending@.len() == 0,
                Some((i, region)) => {
                    &&& !session.bind.freeze ==> step is Queued && new_s.pending@.len() > 0 && {
                        let wish = wishes(new_s.pending@).last();
                        wish.output == os[i].name@ && wish.region == region && wish.show_cursor
                            == session.bind.show_cursor && wish.purpose is Finalize
                    }
                    &&& session.bind.freeze ==> match frame_of(session.frozen@, os[i].name@) {
                        None => step is NoFrame,
                        Some(frame) => step == (ShotStep::Encode {
                            frame,
                            region,
                            bind: session.bind,
                        }),
                    }
                },
            }
        }),
{
    assert(wishes(new_s.pending@).len() == new_s.pending@.len());
}

/// The frame that is kept of an output is the first of its name.
pub proof fn the_first_frame_of_an_output_counts(fs: Seq<FrozenFrame>, name: Seq<char>)
    ensures
        match frame_of(fs, name) {
            None => forall|i: int| 0 <= i < fs.len() ==> (#[trigger] fs[i]).output@ != name,
            Some(f) => exists|k: int|
                0 <= k < fs.len() && #[trigger] fs[k] == f && f.output@ == name && forall|i: int|
                    0 <= i < k ==> (#[trigger] fs[i]).output@ != name,
        },
{
    frame_search(fs, name, 0);
    match frame_from(fs, name, 0) {
        None => {},
        Some(k) => {
            assert(fs[k] == fs[k]);
        },
    }
}

proof fn frame_search(fs: Seq<FrozenFrame>, name: Seq<char>, from: int)
    requires
        0 <= from,
    ensures
        match frame_from(fs, name, from) {
            None => forall|i: int| from <= i < fs.len() ==> (#[trigger] fs[i]).output@ != name,
            Some(k) => from <= k < fs.len() && fs[k].output@ == name && forall|i: int|
                from <= i < k ==> (#[trigger] fs[i]).output@ != name,
        },
    decreases fs.len() - from,
{
    if from < fs.len() && fs[from].output@ != name {
        frame_search(fs, name, from + 1);
    }
}

} // verus!
