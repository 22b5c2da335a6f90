//! When outputs are drawn: only after something changed, and never while the
//! frame before is still on its way to the screen.

use vstd::prelude::*;
use vstd::string::*;
use std::collections::HashMap;

use crate::desktop::Probe;
use crate::layout::Layout;
use crate::window::SurfaceId;

verus! {

/// The state of the drawing of one output.
#[derive(Debug, Clone, Copy, PartialEq, Eq, Structural)]
pub enum RedrawState {
    /// Nothing to do.
    Idle,
    /// A frame will be drawn in this turn of the event loop.
    Scheduled,
    /// A frame is on its way; `dirty` if something changed since.
    WaitingForVblank { dirty: bool },
}

/// The state after something changed.
pub open spec fn triggered(s: RedrawState) -> RedrawState {
    match s {
        RedrawState::Idle => RedrawState::Scheduled,
        RedrawState::Scheduled => RedrawState::Scheduled,
        RedrawState::WaitingForVblank { dirty: _ } => RedrawState::WaitingForVblank {
            dirty: true,
        },
    }
}

/// The state of an output in a table, idle where it has none.
pub open spec fn state_of(m: Map<u32, RedrawState>, crtc: u32) -> RedrawState {
    if m.dom().contains(crtc) {
        m[crtc]
    } else {
        RedrawState::Idle
    }
}

/// The states after something changed on the first `n` outputs of a list.
pub open spec fn queued(m: Map<u32, RedrawState>, crtcs: Seq<u32>, n: int) -> Map<
    u32,
    RedrawState,
>
    decreases n,
{
    if n <= 0 {
        m
    } else {
        let before = queued(m, crtcs, n - 1);
        before.insert(crtcs[n - 1], triggered(state_of(before, crtcs[n - 1])))
    }
}

/// Those of the first `n` outputs of a list whose drawing has to be put on the
/// event loop.
pub open spec fn scheduled(m: Map<u32, RedrawState>, crtcs: Seq<u32>, n: int) -> Seq<u32>
    decreases n,
{
    if n <= 0 {
        Seq::empty()
    } else if state_of(queued(m, crtcs, n - 1), crtcs[n - 1]) == RedrawState::Idle {
        scheduled(m, crtcs, n - 1).push(crtcs[n - 1])
    } else {
        scheduled(m, crtcs, n - 1)
    }
}

/// The states with nothing to do on the first `n` outputs of a list.
pub open spec fn rested(m: Map<u32, RedrawState>, crtcs: Seq<u32>, n: int) -> Map<
    u32,
    RedrawState,
>
    decreases n,
{
    if n <= 0 {
        m
    } else {
        rested(m, crtcs, n - 1).insert(crtcs[n - 1], RedrawState::Idle)
    }
}

/// The scene number after `n` changes; past the largest it starts over.
pub open spec fn advanced(epoch: u64, n: int) -> u64
    decreases n,
{
    if n <= 0 {
        epoch
    } else if advanced(epoch, n - 1) == u64::MAX {
        0
    } else {
        (advanced(epoch, n - 1) + 1) as u64
    }
}

/// The drawing of all outputs, by CRTC.
pub struct RedrawTable {
    states: HashMap<u32, RedrawState>,
    epoch: u64,
}

impl RedrawTable {
    /// The states by CRTC.
    pub closed spec fn states(self) -> Map<u32, RedrawState> {
        self.states@
    }

    /// A number that changes with everything that may change the scene.
    pub closed spec fn scene(self) -> u64 {
        self.epoch
    }

    /// No output yet.
    pub fn new() -> (r: RedrawTable)
        ensures
            r.states() == Map::<u32, RedrawState>::empty(),
            r.scene() == 1,
    {
        RedrawTable { states: HashMap::new(), epoch: 1 }
    }

    /// The scene number.
    pub fn scene_epoch(&self) -> (r: u64)
        ensures
            r == self.scene(),
    {
        self.epoch
    }

    fn get(&self, crtc: u32) -> (r: RedrawState)
        ensures
            r == state_of(self.states(), crtc),
    {
        broadcast use vstd::std_specs::hash::group_hash_axioms;

        match self.states.get(&crtc) {
            None => RedrawState::Idle,
            Some(s) => *s,
        }
    }

    fn put(&mut self, crtc: u32, s: RedrawState)
        ensures
            final(self).states() == old(self).states().insert(crtc, s),
            final(self).scene() == old(self).scene(),
    {
        broadcast use vstd::std_specs::hash::group_hash_axioms;

        self.states.insert(crtc, s);
    }

    /// Takes note that an output has to be drawn anew; says whether its
    /// drawing has to be put on the event loop.
    pub fn queue_redraw(&mut self, crtc: u32) -> (r: bool)
        ensures
            r == (state_of(old(self).states(), crtc) == RedrawState::Idle),
            final(self).states() == old(self).states().insert(
                crtc,
                triggered(state_of(old(self).states(), crtc)),
            ),
            final(self).scene() == advanced(old(self).scene(), 1),
    {
        reveal_with_fuel(advanced, 2);
        self.epoch = if self.epoch == u64::MAX {
            0
        } else {
            self.epoch + 1
        };
        match self.get(crtc) {
            RedrawState::Idle => {
                self.put(crtc, RedrawState::Scheduled);
                true
            },
            RedrawState::Scheduled => {
                self.put(crtc, RedrawState::Scheduled);
                false
            },
            RedrawState::WaitingForVblank { dirty: _ } => {
                self.put(crtc, RedrawState::WaitingForVblank { dirty: true });
                false
            },
        }
    }

    /// Takes note that every one of the outputs has to be drawn anew; gives
    /// those whose drawing has to be put on the event loop.
    pub fn queue_redraw_all(&mut self, crtcs: &Vec<u32>) -> (r: Vec<u32>)
        ensures
            final(self).states() == queued(old(self).states(), crtcs@, crtcs@.len() as int),
            r@ == scheduled(old(self).states(), crtcs@, crtcs@.len() as int),
            final(self).scene() == advanced(old(self).scene(), crtcs@.len() as int),
    {
        let mut out: Vec<u32> = Vec::new();
        let mut i: usize = 0;
        while i < crtcs.len()
            invariant
                i <= crtcs@.len(),
                self.states() == queued(old(self).states(), crtcs@, i as int),
                out@ =~= scheduled(old(self).states(), crtcs@, i as int),
                self.scene() == advanced(old(self).scene(), i as int),
            decreases crtcs@.len() - i,
        {
            proof {
                reveal_with_fuel(advanced, 2);
            }
            if self.queue_redraw(crtcs[i]) {
                out.push(crtcs[i]);
            }
            i += 1;
        }
        out
    }

    /// The session has the displays back: no frame is on its way any more, and
    /// every output has to be drawn anew. Gives those whose drawing has to be
    /// put on the event loop.
    pub fn activate(&mut self, crtcs: &Vec<u32>) -> (r: Vec<u32>)
        ensures
            ({
                let n = crtcs@.len() as int;
                let idle = rested(old(self).states(), crtcs@, n);
                &&& final(self).states() == queued(idle, crtcs@, n)
                &&& r@ == scheduled(idle, crtcs@, n)
                &&& final(self).scene() == advanced(old(self).scene(), n)
            }),
    {
        let mut i: usize = 0;
        while i < crtcs.len()
            invariant
                i <= crtcs@.len(),
                self.states() == rested(old(self).states(), crtcs@, i as int),
                self.scene() == old(self).scene(),
            decreases crtcs@.len() - i,
        {
            self.reset(crtcs[i]);
            i += 1;
        }
        self.queue_redraw_all(crtcs)
    }

    /// Takes note of a drawn frame: `Some` tells whether something still moves,
    /// `None` that no frame could be drawn, so that none is on its way.
    pub fn rendered(&mut self, crtc: u32, outcome: Option<bool>)
        ensures
            final(self).states() == old(self).states().insert(
                crtc,
                match outcome {
                    Some(moving) => RedrawState::WaitingForVblank { dirty: moving },
                    None => RedrawState::Idle,
                },
            ),
            final(self).scene() == old(self).scene(),
    {
        match outcome {
            Some(moving) => self.put(crtc, RedrawState::WaitingForVblank { dirty: moving }),
            None => self.put(crtc, RedrawState::Idle),
        }
    }

    /// Takes note that a frame has reached the screen; says whether the next
    /// one has to be drawn at once.
    pub fn vblank(&mut self, crtc: u32) -> (r: bool)
        ensures
            r == (old(self).states().dom().contains(crtc) && old(self).states()[crtc] == (
            RedrawState::WaitingForVblank { dirty: true })),
            final(self).states() == (if r {
                old(self).states()
            } else {
                old(self).states().insert(crtc, RedrawState::Idle)
            }),
            final(self).scene() == old(self).scene(),
    {
        match self.get(crtc) {
            RedrawState::WaitingForVblank { dirty: true } => true,
            _ => {
                self.put(crtc, RedrawState::Idle);
                false
            },
        }
    }

    /// Forgets a frame that was on its way, as when the session comes back or
    /// an output is brought up.
    pub fn reset(&mut self, crtc: u32)
        ensures
            final(self).states() == old(self).states().insert(crtc, RedrawState::Idle),
            final(self).scene() == old(self).scene(),
    {
        self.put(crtc, RedrawState::Idle);
    }

    /// Takes note of an output whose first frame is on its way.
    pub fn prime(&mut self, crtc: u32)
        ensures
            final(self).states() == old(self).states().insert(
                crtc,
                RedrawState::WaitingForVblank { dirty: true },
            ),
            final(self).scene() == old(self).scene(),
    {
        self.put(crtc, RedrawState::WaitingForVblank { dirty: true });
    }

    /// Forgets an output that is gone.
    pub fn forget(&mut self, crtc: u32)
        ensures
            final(self).states() == old(self).states().remove(crtc),
            final(self).scene() == old(self).scene(),
    {
        broadcast use vstd::std_specs::hash::group_hash_axioms;

        self.states.remove(&crtc);
    }
}

/// A change is never lost: whatever the state, after it the output is either
/// about to be drawn, or will be drawn as soon as the frame on its way has
/// arrived.
pub proof fn changes_are_never_lost(s: RedrawState)
    ensures
        triggered(s) == RedrawState::Scheduled || triggered(s) == (RedrawState::WaitingForVblank {
            dirty: true,
        }),
{
}

/// Further changes before the frame is drawn change nothing.
pub proof fn changes_are_drawn_together(s: RedrawState)
    ensures
        triggered(triggered(s)) == triggered(s),
        triggered(s) != RedrawState::Idle,
{
}

/// Which outputs a commit of a surface redraws.
#[derive(Debug)]
pub enum RedrawTarget {
    /// None: a fullscreen window hides it.
    Nothing,
    /// The output of a name.
    Output(String),
    /// Every output without a fullscreen window.
    NonFullscreen,
}

/// Which outputs a commit of a surface redraws: that of its window unless
/// another window is fullscreen there; that of its layer unless a window is
/// fullscreen there; and for any other surface all outputs without one.
pub fn queue_redraw_for_surface(
    layout: &Layout,
    root: SurfaceId,
    layer_output: Option<&str>,
) -> (r: RedrawTarget)
    requires
        layout@.valid(),
    ensures
        match layout@.pane(Probe::Shown(root)) {
            Some(i) => {
                let name = layout@.outputs[i].name;
                let other = layout@.fullscreen_on(name).is_some() && layout@.fullscreen_on(
                    name,
                ).unwrap().id() != root;
                if other {
                    r is Nothing
                } else {
                    r matches RedrawTarget::Output(n) && n@ == name
                }
            },
            None => match layer_output {
                Some(name) => if layout@.fullscreen_on(name@).is_some() {
                    r is Nothing
                } else {
                    r matches RedrawTarget::Output(n) && n@ == name@
                },
                None => r is NonFullscreen,
            },
        },
{
    if let Some(name) = layout.output_of(root) {
        if layout.output_fullscreen_other_than(name.as_str(), root) {
            return RedrawTarget::Nothing;
        }
        return RedrawTarget::Output(name);
    }
    if let Some(name) = layer_output {
        if layout.output_has_fullscreen(name) {
            return RedrawTarget::Nothing;
        }
        return RedrawTarget::Output(name.to_owned());
    }
    RedrawTarget::NonFullscreen
}

/// A picture that is asked for of a frame.
#[derive(Debug, Clone, Copy, PartialEq, Eq, Structural)]
pub struct CaptureWish {
    /// Whether the pointer is to be in it.
    pub cursor: bool,
}

/// Whether every wish leaves the pointer out, of at least one.
pub open spec fn all_without_cursor(ws: Seq<CaptureWish>) -> bool {
    ws.len() > 0 && forall|i: int| 0 <= i < ws.len() ==> !(#[trigger] ws[i]).cursor
}

/// Whether some wish has the pointer in.
pub open spec fn some_with_cursor(ws: Seq<CaptureWish>) -> bool {
    exists|i: int| 0 <= i < ws.len() && (#[trigger] ws[i]).cursor
}

fn any_with_cursor(ws: &Vec<CaptureWish>) -> (r: bool)
    ensures
        r == some_with_cursor(ws@),
{
    let mut i: usize = 0;
    while i < ws.len()
        invariant
            i <= ws@.len(),
            forall|k: int| 0 <= k < i ==> !(#[trigger] ws@[k]).cursor,
        decreases ws@.len() - i,
    {
        if ws[i].cursor {
            assert(ws@[i as int].cursor);
            return true;
        }
        i += 1;
    }
    false
}

/// How the pointer is drawn in a frame.
#[derive(Debug, Clone, Copy, PartialEq, Eq, Structural)]
pub struct CursorPlan {
    /// Leave it out.
    pub hide: bool,
    /// Draw it into the picture even though the hardware shows it as well.
    pub compose: bool,
}

/// How the pointer is drawn in a frame of which clients and the compositor ask
/// for pictures: left out while a client holds it, or where all pictures of
/// one kind leave it out; drawn in where any picture has it in.
pub fn cursor_plan(
    pointer_locked: bool,
    clients: &Vec<CaptureWish>,
    own: &Vec<CaptureWish>,
) -> (r: CursorPlan)
    ensures
        r.hide == (pointer_locked || all_without_cursor(clients@) || all_without_cursor(own@)),
        r.compose == (some_with_cursor(clients@) || some_with_cursor(own@)),
{
    let a = any_with_cursor(clients);
    let b = any_with_cursor(own);
    CursorPlan {
        hide: pointer_locked || (clients.len() > 0 && !a) || (own.len() > 0 && !b),
        compose: a || b,
    }
}

/// A change on a list of outputs reaches every one of them: none of them is left
/// idle or with a frame on its way that does not know of it. Outputs that are
/// not in the list stay as they are.
pub proof fn changes_reach_every_output(m: Map<u32, RedrawState>, crtcs: Seq<u32>, n: int, crtc: u32)
    requires
        0 <= n <= crtcs.len(),
    ensures
        (exists|i: int| 0 <= i < n && #[trigger] crtcs[i] == crtc) ==> {
            ||| state_of(queued(m, crtcs, n), crtc) == RedrawState::Scheduled
            ||| state_of(queued(m, crtcs, n), crtc) == (RedrawState::WaitingForVblank {
                dirty: true,
            })
        },
        (forall|i: int| 0 <= i < n ==> #[trigger] crtcs[i] != crtc) ==> state_of(
            queued(m, crtcs, n),
            crtc,
        ) == state_of(m, crtc),
    decreases n,
{
    if n > 0 {
        changes_reach_every_output(m, crtcs, n - 1, crtc);
        if crtcs[n - 1] != crtc {
            if exists|i: int| 0 <= i < n && #[trigger] crtcs[i] == crtc {
                let i = choose|i: int| 0 <= i < n && #[trigger] crtcs[i] == crtc;
                assert(0 <= i < n - 1 && crtcs[i] == crtc);
            }
        }
    }
}

/// The outputs whose drawing is put on the event loop are those of the list that
/// were idle, each once. One with a frame on its way is drawn when that arrives.
pub proof fn idle_outputs_are_put_on_the_loop(
    m: Map<u32, RedrawState>,
    crtcs: Seq<u32>,
    n: int,
    crtc: u32,
)
    requires
        0 <= n <= crtcs.len(),
    ensures
        scheduled(m, crtcs, n).contains(crtc) <==> state_of(m, crtc) == RedrawState::Idle && exists|
            i: int,
        |
            0 <= i < n && #[trigger] crtcs[i] == crtc,
        forall|a: int, b: int|
            0 <= a < b < scheduled(m, crtcs, n).len() ==> #[trigger] scheduled(m, crtcs, n)[a]
                != #[trigger] scheduled(m, crtcs, n)[b],
    decreases n,
{
    if n > 0 {
        idle_outputs_are_put_on_the_loop(m, crtcs, n - 1, crtc);
        idle_outputs_are_put_on_the_loop(m, crtcs, n - 1, crtcs[n - 1]);
        changes_reach_every_output(m, crtcs, n - 1, crtcs[n - 1]);
        let (l, before) = (scheduled(m, crtcs, n), scheduled(m, crtcs, n - 1));
        let last = crtcs[n - 1];
        if state_of(queued(m, crtcs, n - 1), last) == RedrawState::Idle {
            assert(l =~= before.push(last));
            assert(!before.contains(last)) by {
                if before.contains(last) {
                    let i = choose|i: int| 0 <= i < n - 1 && #[trigger] crtcs[i] == last;
                    assert(crtcs[i] == last);
                }
            }
            if state_of(m, last) != RedrawState::Idle {
                assert(exists|i: int| 0 <= i < n - 1 && #[trigger] crtcs[i] == last);
            }
            if before.contains(crtc) {
                let j = choose|j: int| 0 <= j < before.len() && before[j] == crtc;
                assert(l[j] == crtc);
            }
            if crtc == last {
                assert(l[l.len() - 1] == crtc);
                assert(crtcs[n - 1] == crtc);
            }
            if l.contains(crtc) && crtc != last {
                let j = choose|j: int| 0 <= j < l.len() && l[j] == crtc;
                assert(before[j] == crtc);
            }
            assert forall|a: int, b: int| 0 <= a < b < l.len() implies #[trigger] l[a]
                != #[trigger] l[b] by {
                if b == l.len() - 1 {
                    assert(before[a] == l[a]);
                    assert(before.contains(before[a]));
                } else {
                    assert(before[a] == l[a] && before[b] == l[b]);
                }
            }
        } else {
            assert(l =~= before);
            if crtc == last && state_of(m, last) == RedrawState::Idle {
                if forall|i: int| 0 <= i < n - 1 ==> #[trigger] crtcs[i] != last {
                    assert(false);
                }
                let i = choose|i: int| 0 <= i < n - 1 && #[trigger] crtcs[i] == last;
                assert(crtcs[i] == crtc);
            }
        }
        if exists|i: int| 0 <= i < n && #[trigger] crtcs[i] == crtc {
            let i = choose|i: int| 0 <= i < n && #[trigger] crtcs[i] == crtc;
            if i < n - 1 {
                assert(0 <= i < n - 1 && crtcs[i] == crtc);
            }
        }
    }
}

/// Everything that may change the scene changes its number.
pub proof fn changes_change_the_scene_number(epoch: u64)
    ensures
        advanced(epoch, 1) != epoch,
        epoch < u64::MAX ==> advanced(epoch, 1) == epoch + 1,
{
    reveal_with_fuel(advanced, 2);
}

/// The pointer is in some picture where one of the wishes has it in, and out of
/// all where there are wishes and none has; without wishes neither.
pub proof fn wishes_decide_on_the_pointer(ws: Seq<CaptureWish>, i: int)
    ensures
        0 <= i < ws.len() && ws[i].cursor ==> some_with_cursor(ws) && !all_without_cursor(ws),
        ws.len() > 0 ==> all_without_cursor(ws) == !some_with_cursor(ws),
        ws.len() == 0 ==> !some_with_cursor(ws) && !all_without_cursor(ws),
{
}

} // verus!
