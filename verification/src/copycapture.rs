//! Copies of outputs for clients: the sessions, the buffers they must have,
//! and the frames that wait for an output to be drawn.

use vstd::prelude::*;
use vstd::string::*;

use crate::geometry::{Point, Rect, Size};
use crate::lists::{pushing_adds_one_item, reversed};
use crate::text::same;

verus! {

/// A pixel format and a way to lay it out in memory.
#[derive(Debug, Clone, Copy, PartialEq, Eq, Structural)]
pub struct Format {
    pub code: u32,
    pub modifier: u64,
}

/// A pixel format of shared memory.
#[derive(Debug, Clone, Copy, PartialEq, Eq, Structural)]
pub enum ShmFormat {
    /// With alpha.
    Argb8888,
    /// Without: the alpha byte means nothing.
    Xrgb8888,
}

/// What buffers of device memory must be like.
#[derive(Debug)]
pub struct DeviceConstraints {
    /// The device to share with.
    pub device: u64,
    pub code: u32,
    /// The ways to lay the pixel format out.
    pub modifiers: Vec<u64>,
}

/// What a client's buffers must be like.
#[derive(Debug)]
pub struct BufferConstraints {
    pub size: Size,
    /// The pixel formats of shared memory.
    pub shm: Vec<ShmFormat>,
    /// None without a device to share with.
    pub dma: Option<DeviceConstraints>,
}

/// The layouts of one pixel format among the first `n` formats.
pub open spec fn layouts_of(formats: Seq<Format>, code: u32, n: int) -> Seq<u64>
    decreases n,
{
    if n <= 0 {
        Seq::empty()
    } else if formats[n - 1].code == code {
        layouts_of(formats, code, n - 1).push(formats[n - 1].modifier)
    } else {
        layouts_of(formats, code, n - 1)
    }
}

/// What the buffers for an output must be like: its size, the one format of
/// shared memory that frames are read in, and where there is a device the
/// layouts of the pixel format that can be drawn to. None where there is no
/// such output. No format with alpha is offered, for no alpha is written.
pub fn copy_capture_constraints_for(
    size: Option<Size>,
    device: Option<u64>,
    formats: &Vec<Format>,
    code: u32,
) -> (r: Option<BufferConstraints>)
    ensures
        r.is_some() == size.is_some(),
        r matches Some(c) ==> {
            &&& Some(c.size) == size
            &&& c.shm@ == seq![ShmFormat::Xrgb8888]
            &&& c.dma.is_some() == device.is_some()
            &&& c.dma matches Some(d) ==> {
                &&& Some(d.device) == device
                &&& d.code == code
                &&& d.modifiers@ == layouts_of(formats@, code, formats@.len() as int)
            }
        },
{
    let s = match size {
        None => {
            return None;
        },
        Some(s) => s,
    };
    let mut shm: Vec<ShmFormat> = Vec::new();
    shm.push(ShmFormat::Xrgb8888);
    assert(shm@ =~= seq![ShmFormat::Xrgb8888]);
    let device: u64 = match device {
        None => {
            return Some(BufferConstraints { size: s, shm, dma: None });
        },
        Some(d) => d,
    };
    let mut modifiers: Vec<u64> = Vec::new();
    let mut i: usize = 0;
    while i < formats.len()
        invariant
            i <= formats@.len(),
            modifiers@ =~= layouts_of(formats@, code, i as int),
        decreases formats@.len() - i,
    {
        if formats[i].code == code {
            modifiers.push(formats[i].modifier);
        }
        i += 1;
    }
    Some(BufferConstraints { size: s, shm, dma: Some(DeviceConstraints { device, code, modifiers }) })
}

/// Why a copy failed.
#[derive(Debug, Clone, Copy, PartialEq, Eq, Structural)]
pub enum FailureReason {
    Unknown,
    /// The buffer is not as it must be.
    BufferConstraints,
    /// There is nothing to copy any more.
    Stopped,
}

/// A client's standing wish for copies of an output.
#[derive(Debug)]
pub struct CaptureSession {
    pub key: u64,
    pub output: Option<String>,
    /// The size that its buffers were last told to have.
    pub size: Option<Size>,
}

/// A session as it reads.
#[verifier::ext_equal]
pub struct SessionModel {
    pub key: u64,
    pub output: Option<Seq<char>>,
    pub size: Option<Size>,
}

impl View for CaptureSession {
    type V = SessionModel;

    open spec fn view(&self) -> SessionModel {
        SessionModel {
            key: self.key,
            output: match self.output {
                None => None,
                Some(n) => Some(n@),
            },
            size: self.size,
        }
    }
}

/// A frame that waits for its output to be drawn.
#[derive(Debug)]
pub struct PendingCopyFrame {
    pub output: String,
    pub frame: u64,
    /// The size of its buffer, where that can be told.
    pub buffer: Option<Size>,
    pub overlay_cursor: bool,
}

/// A frame as it reads.
#[verifier::ext_equal]
pub struct FrameModel {
    pub output: Seq<char>,
    pub frame: u64,
    pub buffer: Option<Size>,
    pub overlay_cursor: bool,
}

impl View for PendingCopyFrame {
    type V = FrameModel;

    open spec fn view(&self) -> FrameModel {
        FrameModel {
            output: self.output@,
            frame: self.frame,
            buffer: self.buffer,
            overlay_cursor: self.overlay_cursor,
        }
    }
}

/// The frames that wait, as they read.
pub open spec fn frames_view(fs: Seq<PendingCopyFrame>) -> Seq<FrameModel> {
    Seq::new(fs.len(), |i: int| fs[i]@)
}

/// The sessions, as they read.
pub open spec fn sessions_view(ss: Seq<CaptureSession>) -> Seq<SessionModel> {
    Seq::new(ss.len(), |i: int| ss[i]@)
}

/// The frames among the first `n` that are not of an output.
pub open spec fn frames_elsewhere(fs: Seq<FrameModel>, name: Seq<char>, n: int) -> Seq<FrameModel>
    decreases n,
{
    if n <= 0 {
        Seq::empty()
    } else if fs[n - 1].output != name {
        frames_elsewhere(fs, name, n - 1).push(fs[n - 1])
    } else {
        frames_elsewhere(fs, name, n - 1)
    }
}

/// Whether a frame can be filled from an output of a size.
pub open spec fn fits(f: FrameModel, size: Option<Size>) -> bool {
    size.is_some() && f.buffer == size
}

/// The frames among the first `n` that can be filled from an output.
pub open spec fn frames_due(fs: Seq<FrameModel>, name: Seq<char>, size: Option<Size>, n: int) -> Seq<
    FrameModel,
>
    decreases n,
{
    if n <= 0 {
        Seq::empty()
    } else if fs[n - 1].output == name && fits(fs[n - 1], size) {
        frames_due(fs, name, size, n - 1).push(fs[n - 1])
    } else {
        frames_due(fs, name, size, n - 1)
    }
}

/// The frames among the first `n` that are of an output and cannot be filled.
pub open spec fn frames_failed(
    fs: Seq<FrameModel>,
    name: Seq<char>,
    size: Option<Size>,
    n: int,
) -> Seq<u64>
    decreases n,
{
    if n <= 0 {
        Seq::empty()
    } else if fs[n - 1].output == name && !fits(fs[n - 1], size) {
        frames_failed(fs, name, size, n - 1).push(fs[n - 1].frame)
    } else {
        frames_failed(fs, name, size, n - 1)
    }
}

/// The frames among the first `n` but for one.
pub open spec fn frames_but(fs: Seq<FrameModel>, frame: u64, n: int) -> Seq<FrameModel>
    decreases n,
{
    if n <= 0 {
        Seq::empty()
    } else if fs[n - 1].frame != frame {
        frames_but(fs, frame, n - 1).push(fs[n - 1])
    } else {
        frames_but(fs, frame, n - 1)
    }
}

/// The sessions among the first `n` but for one.
pub open spec fn sessions_but(ss: Seq<SessionModel>, key: u64, n: int) -> Seq<SessionModel>
    decreases n,
{
    if n <= 0 {
        Seq::empty()
    } else if ss[n - 1].key != key {
        sessions_but(ss, key, n - 1).push(ss[n - 1])
    } else {
        sessions_but(ss, key, n - 1)
    }
}

/// An output and the size of its picture.
#[derive(Debug)]
pub struct OutputSize {
    pub name: String,
    pub size: Size,
}

/// The size of the output of a name at or after `from`.
pub open spec fn size_from(outputs: Seq<OutputSize>, name: Seq<char>, from: int) -> Option<Size>
    decreases outputs.len() - from,
{
    if from < 0 || from >= outputs.len() {
        None
    } else if outputs[from].name@ == name {
        Some(outputs[from].size)
    } else {
        size_from(outputs, name, from + 1)
    }
}

fn size_of(outputs: &Vec<OutputSize>, name: &str) -> (r: Option<Size>)
    ensures
        r == size_from(outputs@, name@, 0),
{
    let mut i: usize = 0;
    while i < outputs.len()
        invariant
            i <= outputs@.len(),
            size_from(outputs@, name@, 0) == size_from(outputs@, name@, i as int),
        decreases outputs@.len() - i,
    {
        if same(outputs[i].name.as_str(), name) {
            return Some(outputs[i].size);
        }
        i += 1;
    }
    None
}

/// The size that a session's output has now.
pub open spec fn size_now(s: SessionModel, outputs: Seq<OutputSize>) -> Option<Size> {
    match s.output {
        None => None,
        Some(n) => size_from(outputs, n, 0),
    }
}

/// What a change of the outputs means to a session.
#[derive(Debug, Clone, Copy, PartialEq, Eq, Structural)]
pub enum SessionChange {
    /// Its buffers must have another size.
    Resized { key: u64, size: Size },
    /// Its output is gone.
    Stopped { gone: u64 },
}

/// The sessions among the first `n` whose outputs are still there, with their
/// sizes.
pub open spec fn sessions_kept(ss: Seq<SessionModel>, outputs: Seq<OutputSize>, n: int) -> Seq<
    SessionModel,
>
    decreases n,
{
    if n <= 0 {
        Seq::empty()
    } else {
        let rest = sessions_kept(ss, outputs, n - 1);
        match size_now(ss[n - 1], outputs) {
            None => rest,
            Some(size) => rest.push(SessionModel { size: Some(size), ..ss[n - 1] }),
        }
    }
}

/// What clients among the first `n` are told.
pub open spec fn session_changes(ss: Seq<SessionModel>, outputs: Seq<OutputSize>, n: int) -> Seq<
    SessionChange,
>
    decreases n,
{
    if n <= 0 {
        Seq::empty()
    } else {
        let rest = session_changes(ss, outputs, n - 1);
        match size_now(ss[n - 1], outputs) {
            None => rest.push(SessionChange::Stopped { gone: ss[n - 1].key }),
            Some(size) => if ss[n - 1].size == Some(size) {
                rest
            } else {
                rest.push(SessionChange::Resized { key: ss[n - 1].key, size })
            },
        }
    }
}

fn same_size(a: Option<Size>, b: Size) -> (r: bool)
    ensures
        r == (a == Some(b)),
{
    match a {
        None => false,
        Some(s) => s == b,
    }
}

/// What an output's drawing means to the frames that waited for it.
#[derive(Debug)]
pub struct Drained {
    /// Those that it fills.
    pub due: Vec<PendingCopyFrame>,
    /// Those that it cannot fill.
    pub failed: Vec<u64>,
    pub reason: FailureReason,
}

/// How a frame was read.
#[derive(Debug, Clone, Copy, PartialEq, Eq, Structural)]
pub enum CopyOutcome {
    /// Straight into the client's buffer.
    Direct,
    /// Into memory, from which it was or was not copied.
    Copied { written: bool },
    Failed,
}

/// How the content of a buffer is turned.
#[derive(Debug, Clone, Copy, PartialEq, Eq, Structural)]
pub enum Transform {
    Normal,
    Quarter,
    Half,
    ThreeQuarters,
    Flipped,
    FlippedQuarter,
    FlippedHalf,
    FlippedThreeQuarters,
}

/// What a client is told of a frame.
#[derive(Debug, PartialEq, Eq)]
pub enum Completion {
    Success { transform: Transform, damage: Option<Vec<Rect>> },
    Failure { reason: FailureReason },
}

impl Completion {
    /// Whether a client is told that all of a buffer of this size is new, the
    /// right way up. Nothing is said of what is new where the size is not known.
    pub open spec fn is_whole(self, buffer: Option<Size>) -> bool {
        &&& self matches Completion::Success { transform, damage }
        &&& transform == Transform::Normal
        &&& match buffer {
            None => damage.is_none(),
            Some(size) => damage.is_some() && damage.unwrap()@ == seq![
                Rect { loc: Point { x: 0, y: 0 }, size },
            ],
        }
    }
}

fn whole(buffer: Option<Size>) -> (r: Completion)
    ensures
        r.is_whole(buffer),
{
    let damage = match buffer {
        None => None,
        Some(size) => {
            let mut rects: Vec<Rect> = Vec::new();
            rects.push(Rect::new(Point::new(0, 0), size));
            assert(rects@ =~= seq![Rect { loc: Point { x: 0, y: 0 }, size }]);
            Some(rects)
        },
    };
    Completion::Success { transform: Transform::Normal, damage }
}

/// What the client is told of a frame that was read. All of the buffer counts
/// as damaged: a client that looks for damage would take none for no change.
pub fn complete_copy_frame(pending: &PendingCopyFrame, outcome: CopyOutcome) -> (r: Completion)
    ensures
        match outcome {
            CopyOutcome::Direct => r.is_whole(pending.buffer),
            CopyOutcome::Copied { written: true } => r.is_whole(pending.buffer),
            CopyOutcome::Copied { written: false } => r == (Completion::Failure {
                reason: FailureReason::BufferConstraints,
            }),
            CopyOutcome::Failed => r == (Completion::Failure { reason: FailureReason::Unknown }),
        },
{
    match outcome {
        CopyOutcome::Direct => whole(pending.buffer),
        CopyOutcome::Copied { written } => {
            if written {
                whole(pending.buffer)
            } else {
                Completion::Failure { reason: FailureReason::BufferConstraints }
            }
        },
        CopyOutcome::Failed => Completion::Failure { reason: FailureReason::Unknown },
    }
}

/// All sessions and all frames that wait.
#[derive(Debug)]
pub struct CopyCapture {
    pub sessions: Vec<CaptureSession>,
    pub frames: Vec<PendingCopyFrame>,
    pub next_key: u64,
}

impl CopyCapture {
    /// Every session's key was given out, and none twice.
    pub open spec fn valid(self) -> bool {
        &&& forall|i: int|
            0 <= i < self.sessions@.len() ==> #[trigger] self.sessions@[i].key < self.next_key
        &&& forall|i: int, j: int|
            0 <= i < j < self.sessions@.len() ==> #[trigger] self.sessions@[i].key
                != #[trigger] self.sessions@[j].key
    }

    /// Nothing is copied.
    pub fn new() -> (r: CopyCapture)
        ensures
            r.sessions@.len() == 0,
            r.frames@.len() == 0,
            r.next_key == 0,
            r.valid(),
    {
        CopyCapture { sessions: Vec::new(), frames: Vec::new(), next_key: 0 }
    }

    /// Takes a session in and gives it a key.
    pub fn new_session(&mut self, output: Option<String>, size: Option<Size>) -> (r: u64)
        requires
            old(self).valid(),
            old(self).next_key < u64::MAX,
        ensures
            r == old(self).next_key,
            final(self).next_key == old(self).next_key + 1,
            final(self).sessions@ == old(self).sessions@.push(
                CaptureSession { key: r, output, size },
            ),
            final(self).frames == old(self).frames,
            final(self).valid(),
    {
        let key: u64 = self.next_key;
        self.next_key = key + 1;
        self.sessions.push(CaptureSession { key, output, size });
        key
    }

    /// Takes a session out.
    pub fn session_destroyed(&mut self, key: u64)
        requires
            old(self).valid(),
        ensures
            sessions_view(final(self).sessions@) == sessions_but(
                sessions_view(old(self).sessions@),
                key,
                old(self).sessions@.len() as int,
            ),
            final(self).frames == old(self).frames,
            final(self).next_key == old(self).next_key,
            final(self).valid(),
    {
        let mut rest: Vec<CaptureSession> = Vec::new();
        std::mem::swap(&mut rest, &mut self.sessions);
        let ghost all = rest@;
        let ghost ss = sessions_view(all);
        let mut todo = reversed(rest);
        let ghost n = todo@.len() as int;
        while todo.len() > 0
            invariant
                old(self).valid(),
                all == old(self).sessions@,
                ss == sessions_view(all),
                todo@.len() <= n,
                n == all.len(),
                forall|k: int| 0 <= k < todo@.len() ==> #[trigger] todo@[k] == all[n - 1 - k],
                sessions_view(self.sessions@) =~= sessions_but(ss, key, n - todo@.len()),
                self.frames == old(self).frames,
                self.next_key == old(self).next_key,
                self.valid(),
                forall|i: int|
                    0 <= i < self.sessions@.len() ==> exists|j: int|
                        0 <= j < n - todo@.len() && #[trigger] self.sessions@[i].key
                            == #[trigger] all[j].key,
            decreases todo@.len(),
        {
            let ghost done = n - todo@.len();
            let ghost had = self.sessions@;
            let s = todo.pop().unwrap();
            assert(s == all[done]);
            assert(ss[done] == s@);
            if s.key != key {
                self.sessions.push(s);
                assert(sessions_view(self.sessions@) =~= sessions_view(had).push(s@));
                assert forall|i: int| 0 <= i < self.sessions@.len() implies exists|j: int|
                    0 <= j < done + 1 && #[trigger] self.sessions@[i].key == #[trigger] all[j].key by {
                    if i == had.len() {
                        assert(self.sessions@[i].key == all[done].key);
                    } else {
                        assert(self.sessions@[i].key == had[i].key);
                    }
                }
            }
            assert(n - todo@.len() == done + 1);
        }
    }

    /// Follows a change of the outputs: sessions whose output is gone end, and
    /// the others are told of new sizes.
    pub fn refresh_copy_capture_constraints(&mut self, outputs: &Vec<OutputSize>) -> (r: Vec<
        SessionChange,
    >)
        ensures
            r@ == session_changes(
                sessions_view(old(self).sessions@),
                outputs@,
                old(self).sessions@.len() as int,
            ),
            sessions_view(final(self).sessions@) == sessions_kept(
                sessions_view(old(self).sessions@),
                outputs@,
                old(self).sessions@.len() as int,
            ),
            final(self).frames == old(self).frames,
            final(self).next_key == old(self).next_key,
            old(self).valid() ==> final(self).valid(),
    {
        let mut rest: Vec<CaptureSession> = Vec::new();
        std::mem::swap(&mut rest, &mut self.sessions);
        let ghost all = rest@;
        let ghost ss = sessions_view(all);
        let mut out: Vec<SessionChange> = Vec::new();
        let mut todo = reversed(rest);
        let ghost n = todo@.len() as int;
        while todo.len() > 0
            invariant
                ss == sessions_view(all),
                todo@.len() <= n,
                n == all.len(),
                forall|k: int| 0 <= k < todo@.len() ==> #[trigger] todo@[k] == all[n - 1 - k],
                out@ =~= session_changes(ss, outputs@, n - todo@.len()),
                sessions_view(self.sessions@) =~= sessions_kept(ss, outputs@, n - todo@.len()),
                self.frames == old(self).frames,
                self.next_key == old(self).next_key,
                all == old(self).sessions@,
                old(self).valid() ==> self.valid(),
                forall|i: int|
                    0 <= i < self.sessions@.len() ==> exists|j: int|
                        0 <= j < n - todo@.len() && #[trigger] self.sessions@[i].key
                            == #[trigger] all[j].key,
            decreases todo@.len(),
        {
            let ghost done = n - todo@.len();
            let ghost had = self.sessions@;
            let s = todo.pop().unwrap();
            assert(s == all[done]);
            assert(ss[done] == s@);
            let now = match &s.output {
                None => None,
                Some(name) => size_of(outputs, name.as_str()),
            };
            match now {
                None => {
                    out.push(SessionChange::Stopped { gone: s.key });
                },
                Some(size) => {
                    if !same_size(s.size, size) {
                        out.push(SessionChange::Resized { key: s.key, size });
                    }
                    let kept = CaptureSession { key: s.key, output: s.output, size: Some(size) };
                    self.sessions.push(kept);
                    assert(sessions_view(self.sessions@) =~= sessions_view(had).push(kept@));
                    assert forall|i: int| 0 <= i < self.sessions@.len() implies exists|j: int|
                        0 <= j < done + 1 && #[trigger] self.sessions@[i].key
                            == #[trigger] all[j].key by {
                        if i == had.len() {
                            assert(self.sessions@[i].key == all[done].key);
                        } else {
                            assert(self.sessions@[i].key == had[i].key);
                        }
                    }
                },
            }
            assert(n - todo@.len() == done + 1);
        }
        out
    }

    /// Takes a frame in. `output` is that of its session, `drawable` whether a
    /// buffer in device memory can be drawn to, `connected` whether the output
    /// is there.
    pub fn frame(
        &mut self,
        output: Option<&str>,
        frame: u64,
        buffer: Option<Size>,
        drawable: Option<bool>,
        connected: bool,
        overlay_cursor: bool,
    ) -> (r: Option<FailureReason>)
        ensures
            r == (if output.is_none() {
                Some(FailureReason::Stopped)
            } else if drawable == Some(false) {
                Some(FailureReason::BufferConstraints)
            } else if !connected {
                Some(FailureReason::Stopped)
            } else {
                None
            }),
            final(self).sessions == old(self).sessions,
            final(self).next_key == old(self).next_key,
            r.is_some() ==> final(self).frames == old(self).frames,
            r.is_none() ==> frames_view(final(self).frames@) == frames_view(
                old(self).frames@,
            ).push(FrameModel { output: output.unwrap()@, frame, buffer, overlay_cursor }),
    {
        let name = match output {
            None => {
                return Some(FailureReason::Stopped);
            },
            Some(n) => n,
        };
        if let Some(d) = drawable {
            if !d {
                return Some(FailureReason::BufferConstraints);
            }
        }
        if !connected {
            return Some(FailureReason::Stopped);
        }
        let ghost had = self.frames@;
        self.frames.push(
            PendingCopyFrame { output: name.to_owned(), frame, buffer, overlay_cursor },
        );
        assert(frames_view(self.frames@) =~= frames_view(had).push(
            self.frames@[had.len() as int]@,
        ));
        None
    }

    /// Takes a frame out that the client no longer wants.
    pub fn frame_aborted(&mut self, frame: u64)
        ensures
            frames_view(final(self).frames@) == frames_but(
                frames_view(old(self).frames@),
                frame,
                old(self).frames@.len() as int,
            ),
            final(self).sessions == old(self).sessions,
            final(self).next_key == old(self).next_key,
    {
        let mut rest: Vec<PendingCopyFrame> = Vec::new();
        std::mem::swap(&mut rest, &mut self.frames);
        let ghost all = rest@;
        let ghost fs = frames_view(all);
        let mut todo = reversed(rest);
        let ghost n = todo@.len() as int;
        while todo.len() > 0
            invariant
                fs == frames_view(all),
                todo@.len() <= n,
                n == all.len(),
                forall|k: int| 0 <= k < todo@.len() ==> #[trigger] todo@[k] == all[n - 1 - k],
                frames_view(self.frames@) =~= frames_but(fs, frame, n - todo@.len()),
                self.sessions == old(self).sessions,
                self.next_key == old(self).next_key,
            decreases todo@.len(),
        {
            let ghost done = n - todo@.len();
            let ghost had = self.frames@;
            let f = todo.pop().unwrap();
            assert(f == all[done]);
            assert(fs[done] == f@);
            if f.frame != frame {
                self.frames.push(f);
                assert(frames_view(self.frames@) =~= frames_view(had).push(f@));
            }
            assert(n - todo@.len() == done + 1);
        }
    }

    /// Takes out the frames of an output that is about to be drawn. Those
    /// whose buffers have another size than the output have failed, and all of
    /// them if the output is gone.
    pub fn drain_copy_frames(&mut self, output: &str, size: Option<Size>) -> (r: Drained)
        ensures
            ({
                let fs = frames_view(old(self).frames@);
                let n = fs.len() as int;
                &&& frames_view(r.due@) == frames_due(fs, output@, size, n)
                &&& r.failed@ == frames_failed(fs, output@, size, n)
                &&& frames_view(final(self).frames@) == frames_elsewhere(fs, output@, n)
            }),
            r.reason == (if size.is_none() {
                FailureReason::Stopped
            } else {
                FailureReason::BufferConstraints
            }),
            final(self).sessions == old(self).sessions,
            final(self).next_key == old(self).next_key,
    {
        let mut rest: Vec<PendingCopyFrame> = Vec::new();
        std::mem::swap(&mut rest, &mut self.frames);
        let ghost all = rest@;
        let ghost fs = frames_view(all);
        let mut due: Vec<PendingCopyFrame> = Vec::new();
        let mut failed: Vec<u64> = Vec::new();
        let mut todo = reversed(rest);
        let ghost n = todo@.len() as int;
        while todo.len() > 0
            invariant
                fs == frames_view(all),
                todo@.len() <= n,
                n == all.len(),
                forall|k: int| 0 <= k < todo@.len() ==> #[trigger] todo@[k] == all[n - 1 - k],
                frames_view(due@) =~= frames_due(fs, output@, size, n - todo@.len()),
                failed@ =~= frames_failed(fs, output@, size, n - todo@.len()),
                frames_view(self.frames@) =~= frames_elsewhere(fs, output@, n - todo@.len()),
                self.sessions == old(self).sessions,
                self.next_key == old(self).next_key,
            decreases todo@.len(),
        {
            let ghost done = n - todo@.len();
            let ghost (had, left) = (due@, self.frames@);
            let f = todo.pop().unwrap();
            assert(f == all[done]);
            assert(fs[done] == f@);
            if same(f.output.as_str(), output) {
                let ok = match size {
                    None => false,
                    Some(s) => same_size(f.buffer, s),
                };
                if ok {
                    due.push(f);
                    assert(frames_view(due@) =~= frames_view(had).push(f@));
                } else {
                    failed.push(f.frame);
                }
            } else {
                self.frames.push(f);
                assert(frames_view(self.frames@) =~= frames_view(left).push(f@));
            }
            assert(n - todo@.len() == done + 1);
        }
        Drained {
            due,
            failed,
            reason: if size.is_none() {
                FailureReason::Stopped
            } else {
                FailureReason::BufferConstraints
            },
        }
    }
}

/// Every frame is filled, failed or kept waiting, and only one of these.
pub proof fn every_frame_is_answered_or_kept(
    fs: Seq<FrameModel>,
    name: Seq<char>,
    size: Option<Size>,
    n: int,
)
    requires
        0 <= n <= fs.len(),
    ensures
        frames_due(fs, name, size, n).len() + frames_failed(fs, name, size, n).len()
            + frames_elsewhere(fs, name, n).len() == n,
    decreases n,
{
    if n > 0 {
        every_frame_is_answered_or_kept(fs, name, size, n - 1);
    }
}

/// A frame that is filled has a buffer of the output's size.
pub proof fn filled_frames_fit(
    fs: Seq<FrameModel>,
    name: Seq<char>,
    size: Option<Size>,
    n: int,
    i: int,
)
    requires
        0 <= n <= fs.len(),
        0 <= i < frames_due(fs, name, size, n).len(),
    ensures
        frames_due(fs, name, size, n)[i].output == name,
        size.is_some(),
        frames_due(fs, name, size, n)[i].buffer == size,
    decreases n,
{
    if n > 0 {
        let rest = frames_due(fs, name, size, n - 1);
        if i < rest.len() {
            filled_frames_fit(fs, name, size, n - 1, i);
        }
    }
}

/// The layouts that are offered are those in which the device can draw the
/// pixel format.
pub proof fn every_layout_of_the_format_is_offered(
    formats: Seq<Format>,
    code: u32,
    n: int,
    modifier: u64,
)
    requires
        0 <= n <= formats.len(),
    ensures
        layouts_of(formats, code, n).contains(modifier) <==> exists|i: int|
            0 <= i < n && (#[trigger] formats[i]).code == code && formats[i].modifier == modifier,
    decreases n,
{
    if n > 0 {
        every_layout_of_the_format_is_offered(formats, code, n - 1, modifier);
        pushing_adds_one_item(
            layouts_of(formats, code, n - 1),
            formats[n - 1].modifier,
            modifier,
        );
    }
}

/// A frame that its client takes back no longer waits; all others do.
pub proof fn frames_taken_back_do_not_wait(fs: Seq<FrameModel>, frame: u64, n: int, f: FrameModel)
    requires
        0 <= n <= fs.len(),
    ensures
        frames_but(fs, frame, n).contains(f) <==> f.frame != frame && exists|i: int|
            0 <= i < n && #[trigger] fs[i] == f,
    decreases n,
{
    if n > 0 {
        frames_taken_back_do_not_wait(fs, frame, n - 1, f);
        pushing_adds_one_item(frames_but(fs, frame, n - 1), fs[n - 1], f);
    }
}

/// A session that ends is gone; all others stay.
pub proof fn ended_sessions_are_gone(ss: Seq<SessionModel>, key: u64, n: int, s: SessionModel)
    requires
        0 <= n <= ss.len(),
    ensures
        sessions_but(ss, key, n).contains(s) <==> s.key != key && exists|i: int|
            0 <= i < n && #[trigger] ss[i] == s,
    decreases n,
{
    if n > 0 {
        ended_sessions_are_gone(ss, key, n - 1, s);
        pushing_adds_one_item(sessions_but(ss, key, n - 1), ss[n - 1], s);
    }
}

/// When an output was drawn, the frames that waited for it and whose buffers
/// have its size are filled, the others that waited for it fail, and those of
/// other outputs wait on.
pub proof fn frames_are_settled_by_their_output(
    fs: Seq<FrameModel>,
    name: Seq<char>,
    size: Size,
    n: int,
    i: int,
)
    requires
        0 <= i < n <= fs.len(),
    ensures
        fs[i].output == name && fs[i].buffer == Some(size) ==> frames_due(
            fs,
            name,
            Some(size),
            n,
        ).contains(fs[i]),
        fs[i].output == name && fs[i].buffer != Some(size) ==> frames_failed(
            fs,
            name,
            Some(size),
            n,
        ).contains(fs[i].frame),
        fs[i].output == name ==> frames_failed(fs, name, None, n).contains(fs[i].frame),
        fs[i].output != name ==> frames_elsewhere(fs, name, n).contains(fs[i]),
    decreases n,
{
    let last = fs[n - 1];
    pushing_adds_one_item(frames_due(fs, name, Some(size), n - 1), last, fs[i]);
    pushing_adds_one_item(frames_failed(fs, name, Some(size), n - 1), last.frame, fs[i].frame);
    pushing_adds_one_item(frames_failed(fs, name, None, n - 1), last.frame, fs[i].frame);
    pushing_adds_one_item(frames_elsewhere(fs, name, n - 1), last, fs[i]);
    if i < n - 1 {
        frames_are_settled_by_their_output(fs, name, size, n - 1, i);
    }
}

/// Frames wait on only for other outputs, and only frames of the output are
/// filled.
pub proof fn only_frames_of_the_output_are_settled(
    fs: Seq<FrameModel>,
    name: Seq<char>,
    size: Option<Size>,
    n: int,
    f: FrameModel,
)
    requires
        0 <= n <= fs.len(),
    ensures
        frames_elsewhere(fs, name, n).contains(f) ==> f.output != name,
        frames_due(fs, name, size, n).contains(f) ==> f.output == name && f.buffer == size
            && size.is_some(),
    decreases n,
{
    if n > 0 {
        only_frames_of_the_output_are_settled(fs, name, size, n - 1, f);
        pushing_adds_one_item(frames_elsewhere(fs, name, n - 1), fs[n - 1], f);
        pushing_adds_one_item(frames_due(fs, name, size, n - 1), fs[n - 1], f);
    }
}

/// The size of an output is that of the first of its name.
pub proof fn the_first_output_of_a_name_counts(outputs: Seq<OutputSize>, i: int, from: int)
    requires
        0 <= from <= i < outputs.len(),
        forall|k: int| from <= k < i ==> (#[trigger] outputs[k]).name@ != outputs[i].name@,
    ensures
        size_from(outputs, outputs[i].name@, from) == Some(outputs[i].size),
    decreases i - from,
{
    if from < i {
        the_first_output_of_a_name_counts(outputs, i, from + 1);
    }
}

/// An output that is not listed has no size.
pub proof fn lost_outputs_have_no_size(outputs: Seq<OutputSize>, name: Seq<char>, from: int)
    requires
        0 <= from,
        forall|k: int| from <= k < outputs.len() ==> (#[trigger] outputs[k]).name@ != name,
    ensures
        size_from(outputs, name, from).is_none(),
    decreases outputs.len() - from,
{
    if from < outputs.len() {
        lost_outputs_have_no_size(outputs, name, from + 1);
    }
}

/// A session whose output is gone ends, and its client is told; one whose
/// output has another size goes on with it, and its client is told; any other
/// goes on as it is.
pub proof fn sessions_follow_their_outputs(
    ss: Seq<SessionModel>,
    outputs: Seq<OutputSize>,
    n: int,
    i: int,
)
    requires
        0 <= i < n <= ss.len(),
    ensures
        ({
            let kept = sessions_kept(ss, outputs, n);
            let told = session_changes(ss, outputs, n);
            match size_now(ss[i], outputs) {
                None => told.contains(SessionChange::Stopped { gone: ss[i].key }),
                Some(size) => {
                    &&& kept.contains(
                        SessionModel { key: ss[i].key, output: ss[i].output, size: Some(size) },
                    )
                    &&& ss[i].size != Some(size) ==> told.contains(
                        SessionChange::Resized { key: ss[i].key, size },
                    )
                },
            }
        }),
    decreases n,
{
    let kept = sessions_kept(ss, outputs, n - 1);
    let told = session_changes(ss, outputs, n - 1);
    if i < n - 1 {
        sessions_follow_their_outputs(ss, outputs, n - 1, i);
    }
    let stopped = SessionChange::Stopped { gone: ss[i].key };
    let last_stopped = SessionChange::Stopped { gone: ss[n - 1].key };
    pushing_adds_one_item(told, last_stopped, stopped);
    match size_now(ss[i], outputs) {
        None => {
            match size_now(ss[n - 1], outputs) {
                None => {},
                Some(now) => {
                    pushing_adds_one_item(
                        told,
                        SessionChange::Resized { key: ss[n - 1].key, size: now },
                        stopped,
                    );
                },
            }
        },
        Some(size) => {
            let resized = SessionChange::Resized { key: ss[i].key, size };
            let session = SessionModel { key: ss[i].key, output: ss[i].output, size: Some(size) };
            pushing_adds_one_item(told, last_stopped, resized);
            match size_now(ss[n - 1], outputs) {
                None => {},
                Some(now) => {
                    pushing_adds_one_item(
                        told,
                        SessionChange::Resized { key: ss[n - 1].key, size: now },
                        resized,
                    );
                    pushing_adds_one_item(
                        kept,
                        SessionModel { size: Some(now), ..ss[n - 1] },
                        session,
                    );
                },
            }
        },
    }
}

/// Sessions go on only with outputs that are there, in the size they have, and
/// nobody is told of a session that goes on as it was.
pub proof fn lost_sessions_do_not_go_on(
    ss: Seq<SessionModel>,
    outputs: Seq<OutputSize>,
    n: int,
    s: SessionModel,
)
    requires
        0 <= n <= ss.len(),
    ensures
        sessions_kept(ss, outputs, n).contains(s) ==> s.size.is_some() && size_now(s, outputs)
            == s.size,
        (forall|i: int|
            0 <= i < n ==> (#[trigger] ss[i]).size.is_some() && size_now(ss[i], outputs)
                == ss[i].size) ==> session_changes(ss, outputs, n).len() == 0,
    decreases n,
{
    if n > 0 {
        lost_sessions_do_not_go_on(ss, outputs, n - 1, s);
        match size_now(ss[n - 1], outputs) {
            None => {},
            Some(now) => {
                pushing_adds_one_item(
                    sessions_kept(ss, outputs, n - 1),
                    SessionModel { size: Some(now), ..ss[n - 1] },
                    s,
                );
            },
        }
    }
}

/// A frame that was read is told upright and as damaged all over, where the
/// size of its buffer is known.
pub proof fn read_frames_are_damaged_all_over(c: Completion, size: Size)
    ensures
        c.is_whole(Some(size)) ==> (c matches Completion::Success { transform, damage } && transform
            == Transform::Normal && (damage matches Some(d) && d@.len() == 1 && d@[0].loc.x == 0
            && d@[0].loc.y == 0 && d@[0].size == size)),
        c.is_whole(None) ==> (c matches Completion::Success { transform, damage } && transform
            == Transform::Normal && damage.is_none()),
{
}

} // verus!
