//! The compositor's copy of the clipboard and of the primary selection, so
//! that what was copied outlives the program it was copied from.
//!
//! Each new selection gets an epoch. Its contents are read in pieces, and only
//! stored if no newer selection has come in the meantime.

use vstd::prelude::*;
use vstd::string::*;

use crate::text::{same, texts};

verus! {

/// The most that is read for one selection, over all its types.
pub const MAX_CACHE_BYTES: usize = 134217728;

/// Which of the two selections.
#[derive(Debug, Clone, Copy, PartialEq, Eq, Structural)]
pub enum SelectionTarget {
    Clipboard,
    Primary,
}

/// The contents of one type of a selection.
#[derive(Debug)]
pub struct MimeData {
    pub mime: String,
    pub bytes: Vec<u8>,
}

/// The contents by type. A type that was put in twice has its last contents.
pub open spec fn contents(list: Seq<MimeData>) -> Map<Seq<char>, Seq<u8>>
    decreases list.len(),
{
    if list.len() == 0 {
        Map::empty()
    } else {
        contents(list.drop_last()).insert(list.last().mime@, list.last().bytes@)
    }
}

proof fn contents_push(list: Seq<MimeData>, m: MimeData)
    ensures
        contents(list.push(m)) == contents(list).insert(m.mime@, m.bytes@),
{
    assert(list.push(m).drop_last() =~= list);
}

proof fn contents_tail(list: Seq<MimeData>, from: int, mime: Seq<char>)
    requires
        0 <= from <= list.len(),
        forall|k: int| from <= k < list.len() ==> (#[trigger] list[k]).mime@ != mime,
    ensures
        contents(list).dom().contains(mime) == contents(list.take(from)).dom().contains(mime),
        contents(list).dom().contains(mime) ==> contents(list)[mime] == contents(
            list.take(from),
        )[mime],
    decreases list.len() - from,
{
    if from == list.len() {
        assert(list.take(from) =~= list);
    } else {
        assert(list[list.len() - 1].mime@ != mime);
        assert(list.drop_last().take(from) =~= list.take(from));
        contents_tail(list.drop_last(), from, mime);
    }
}

fn copied(bytes: &Vec<u8>) -> (r: Vec<u8>)
    ensures
        r@ == bytes@,
{
    let mut out: Vec<u8> = Vec::new();
    let mut i: usize = 0;
    while i < bytes.len()
        invariant
            i <= bytes@.len(),
            out@ =~= bytes@.take(i as int),
        decreases bytes@.len() - i,
    {
        out.push(bytes[i]);
        i += 1;
    }
    assert(out@ =~= bytes@);
    out
}

/// What the compositor keeps of one selection.
#[verifier::ext_equal]
pub struct SelectionModel {
    /// The contents by type, if any are kept.
    pub cache: Option<Map<Seq<char>, Seq<u8>>>,
    /// How many selections there have been.
    pub epoch: u64,
}

/// What the compositor keeps of both selections.
pub struct Selections {
    clipboard: Option<Vec<MimeData>>,
    primary: Option<Vec<MimeData>>,
    clipboard_epoch: u64,
    primary_epoch: u64,
}

spec fn cache_of(c: Option<Vec<MimeData>>) -> Option<Map<Seq<char>, Seq<u8>>> {
    match c {
        None => None,
        Some(v) => Some(contents(v@)),
    }
}

impl Selections {
    /// One of the selections.
    pub closed spec fn of(self, ty: SelectionTarget) -> SelectionModel {
        match ty {
            SelectionTarget::Clipboard => SelectionModel {
                cache: cache_of(self.clipboard),
                epoch: self.clipboard_epoch,
            },
            SelectionTarget::Primary => SelectionModel {
                cache: cache_of(self.primary),
                epoch: self.primary_epoch,
            },
        }
    }

    /// Whether the other selection than `ty` is the same in both.
    pub open spec fn leaves_other(self, before: Selections, ty: SelectionTarget) -> bool {
        forall|other: SelectionTarget| other != ty ==> #[trigger] self.of(other) == before.of(other)
    }

    /// Nothing kept, nothing seen.
    pub fn new() -> (r: Selections)
        ensures
            forall|ty: SelectionTarget| #[trigger]
                r.of(ty) == (SelectionModel { cache: None, epoch: 0 }),
    {
        Selections { clipboard: None, primary: None, clipboard_epoch: 0, primary_epoch: 0 }
    }

    fn bump(&mut self, ty: SelectionTarget) -> (r: u64)
        requires
            old(self).of(ty).epoch < u64::MAX,
        ensures
            r == old(self).of(ty).epoch + 1,
            final(self).of(ty) == (SelectionModel { epoch: r, ..old(self).of(ty) }),
            final(self).leaves_other(*old(self), ty),
    {
        match ty {
            SelectionTarget::Clipboard => {
                self.clipboard_epoch = self.clipboard_epoch + 1;
                self.clipboard_epoch
            },
            SelectionTarget::Primary => {
                self.primary_epoch = self.primary_epoch + 1;
                self.primary_epoch
            },
        }
    }

    /// The epoch of a selection.
    pub fn epoch(&self, ty: SelectionTarget) -> (r: u64)
        ensures
            r == self.of(ty).epoch,
    {
        match ty {
            SelectionTarget::Clipboard => self.clipboard_epoch,
            SelectionTarget::Primary => self.primary_epoch,
        }
    }

    /// Forgets the contents of a selection.
    pub fn clear(&mut self, ty: SelectionTarget)
        ensures
            final(self).of(ty) == (SelectionModel { cache: None, ..old(self).of(ty) }),
            final(self).leaves_other(*old(self), ty),
    {
        match ty {
            SelectionTarget::Clipboard => {
                self.clipboard = None;
            },
            SelectionTarget::Primary => {
                self.primary = None;
            },
        }
    }

    /// Keeps the contents of a selection.
    pub fn store(&mut self, ty: SelectionTarget, cache: Vec<MimeData>)
        ensures
            final(self).of(ty) == (SelectionModel {
                cache: Some(contents(cache@)),
                ..old(self).of(ty)
            }),
            final(self).leaves_other(*old(self), ty),
    {
        match ty {
            SelectionTarget::Clipboard => {
                self.clipboard = Some(cache);
            },
            SelectionTarget::Primary => {
                self.primary = Some(cache);
            },
        }
    }

    /// Keeps an image that the compositor itself put on a selection, under one
    /// type.
    pub fn set_image(&mut self, ty: SelectionTarget, mime: String, bytes: Vec<u8>)
        ensures
            final(self).of(ty) == (SelectionModel {
                cache: Some(Map::empty().insert(mime@, bytes@)),
                ..old(self).of(ty)
            }),
            final(self).leaves_other(*old(self), ty),
    {
        let mut list: Vec<MimeData> = Vec::new();
        list.push(MimeData { mime, bytes });
        proof {
            contents_push(Seq::empty(), list@[0]);
            assert(list@ =~= Seq::<MimeData>::empty().push(list@[0]));
        }
        self.store(ty, list);
    }

    /// The contents that are kept of a selection in one type.
    pub fn cached_bytes(&self, ty: SelectionTarget, mime: &str) -> (r: Option<Vec<u8>>)
        ensures
            r.is_some() == (self.of(ty).cache matches Some(m) && m.dom().contains(mime@)),
            r matches Some(b) ==> b@ == self.of(ty).cache.unwrap()[mime@],
    {
        let cache = match ty {
            SelectionTarget::Clipboard => &self.clipboard,
            SelectionTarget::Primary => &self.primary,
        };
        match cache {
            None => None,
            Some(list) => {
                let mut n: usize = list.len();
                while n > 0
                    invariant
                        n <= list@.len(),
                        self.of(ty).cache == Some(contents(list@)),
                        forall|k: int| n <= k < list@.len() ==> (#[trigger] list@[k]).mime@ != mime@,
                    decreases n,
                {
                    if same(list[n - 1].mime.as_str(), mime) {
                        proof {
                            contents_tail(list@, n as int, mime@);
                            assert(list@.take(n as int).drop_last() =~= list@.take(n - 1));
                            assert(list@.take(n as int).last() == list@[n - 1]);
                        }
                        return Some(copied(&list[n - 1].bytes));
                    }
                    n -= 1;
                }
                proof {
                    contents_tail(list@, 0, mime@);
                    assert(list@.take(0) =~= Seq::<MimeData>::empty());
                }
                None
            },
        }
    }
}

/// What a new selection leads to.
#[derive(Debug, Clone, Copy, PartialEq, Eq, Structural)]
pub enum NewSelection {
    /// It is empty; nothing is kept.
    Cleared,
    /// Its contents are to be read under this epoch.
    Read { epoch: u64 },
}

/// Takes note of a new selection with the given types; none where it was taken
/// back.
pub fn on_new_selection(
    selections: &mut Selections,
    ty: SelectionTarget,
    mimes: Option<&Vec<String>>,
) -> (r: NewSelection)
    requires
        old(selections).of(ty).epoch < u64::MAX,
    ensures
        ({
            let epoch = (old(selections).of(ty).epoch + 1) as u64;
            let some = mimes.is_some() && mimes.unwrap()@.len() > 0;
            &&& r == (if some {
                NewSelection::Read { epoch }
            } else {
                NewSelection::Cleared
            })
            &&& final(selections).of(ty) == (SelectionModel {
                cache: if some {
                    old(selections).of(ty).cache
                } else {
                    None
                },
                epoch,
            })
        }),
        final(selections).leaves_other(*old(selections), ty),
{
    let epoch: u64 = selections.bump(ty);
    let some = match mimes {
        None => false,
        Some(m) => m.len() > 0,
    };
    if !some {
        selections.clear(ty);
        return NewSelection::Cleared;
    }
    NewSelection::Read { epoch }
}

/// The reading of one selection, type by type.
pub struct InProgress {
    ty: SelectionTarget,
    epoch: u64,
    mimes: Vec<String>,
    data: Vec<MimeData>,
    remaining: usize,
    total: usize,
    aborted: bool,
}

/// The reading of one selection.
#[verifier::ext_equal]
pub struct ReadModel {
    pub ty: SelectionTarget,
    pub epoch: u64,
    pub mimes: Seq<Seq<char>>,
    pub data: Map<Seq<char>, Seq<u8>>,
    pub remaining: nat,
    pub total: nat,
    pub aborted: bool,
}

impl ReadModel {
    /// The reading after one more type was read.
    pub open spec fn after(self, mime: Seq<char>, buf: Seq<u8>) -> ReadModel {
        ReadModel {
            data: if self.aborted {
                self.data
            } else {
                self.data.insert(mime, buf)
            },
            remaining: if self.remaining > 0 {
                (self.remaining - 1) as nat
            } else {
                0
            },
            ..self
        }
    }

    /// Whether the type that is being read is the last one.
    pub open spec fn is_last(self) -> bool {
        self.remaining <= 1
    }

    /// Whether what was read of the present selection comes to nothing: it was
    /// too much, or there was nothing in it.
    pub open spec fn is_dropped(self, current: SelectionModel) -> bool {
        current.epoch == self.epoch && (self.aborted || self.total == 0)
    }

    /// Whether what was read is kept: it is still what is selected.
    pub open spec fn is_stored(self, current: SelectionModel) -> bool {
        !self.aborted && current.epoch == self.epoch && self.total > 0
    }

    /// The selection after one more type was read.
    pub open spec fn selection_after(
        self,
        current: SelectionModel,
        mime: Seq<char>,
        buf: Seq<u8>,
    ) -> SelectionModel {
        if !self.is_last() {
            current
        } else if self.is_dropped(current) {
            SelectionModel { cache: None, ..current }
        } else if self.is_stored(current) {
            SelectionModel { cache: Some(self.after(mime, buf).data), ..current }
        } else {
            current
        }
    }
}

/// What was copied is what can be pasted: once the last type is read, each
/// type gives back what was read of it.
pub proof fn what_was_copied_can_be_pasted(
    read: ReadModel,
    current: SelectionModel,
    mime: Seq<char>,
    buf: Seq<u8>,
    other: Seq<char>,
)
    requires
        read.is_last(),
        read.is_stored(current),
    ensures
        ({
            let cache = read.selection_after(current, mime, buf).cache;
            &&& cache.is_some()
            &&& cache.unwrap().dom().contains(mime)
            &&& cache.unwrap()[mime] == buf
            &&& other != mime && read.data.dom().contains(other) ==> cache.unwrap().dom().contains(
                other,
            ) && cache.unwrap()[other] == read.data[other]
        }),
{
}

/// What was read of a selection that has been replaced meanwhile leaves the
/// newer one as it is.
pub proof fn newer_selections_are_not_overwritten(
    read: ReadModel,
    current: SelectionModel,
    mime: Seq<char>,
    buf: Seq<u8>,
)
    requires
        current.epoch != read.epoch,
    ensures
        read.selection_after(current, mime, buf) == current,
{
}

impl View for InProgress {
    type V = ReadModel;

    closed spec fn view(&self) -> ReadModel {
        ReadModel {
            ty: self.ty,
            epoch: self.epoch,
            mimes: texts(self.mimes@),
            data: contents(self.data@),
            remaining: self.remaining as nat,
            total: self.total as nat,
            aborted: self.aborted,
        }
    }
}

/// What to do after a piece was read.
#[derive(Debug, Clone, Copy, PartialEq, Eq, Structural)]
pub enum ReadStep {
    /// Keep the piece and read on.
    Keep,
    /// The selection is too large; stop reading this type.
    TooLarge,
}

/// What to do when a type is done.
#[derive(Debug)]
pub enum ReadEnd {
    /// Other types are still being read.
    Waiting,
    /// A newer selection has come; leave everything.
    Superseded,
    /// Nothing usable was read; the kept contents are gone.
    Dropped,
    /// The contents are kept, and the compositor offers these types itself.
    Stored { mimes: Vec<String> },
}

impl InProgress {
    /// Starts reading a selection; none where a newer one has come already.
    pub fn start(selections: &Selections, ty: SelectionTarget, epoch: u64, mimes: Vec<String>) -> (r:
        Option<InProgress>)
        ensures
            r.is_some() == (selections.of(ty).epoch == epoch),
            r matches Some(p) ==> p@ == (ReadModel {
                ty,
                epoch,
                mimes: texts(mimes@),
                data: Map::empty(),
                remaining: 0,
                total: 0,
                aborted: false,
            }),
    {
        if selections.epoch(ty) != epoch {
            return None;
        }
        Some(
            InProgress {
                ty,
                epoch,
                mimes,
                data: Vec::new(),
                remaining: 0,
                total: 0,
                aborted: false,
            },
        )
    }

    /// Takes note of how many types could be asked for; with none the kept
    /// contents are gone. Says whether there is anything to wait for.
    pub fn expect(&mut self, selections: &mut Selections, started: usize) -> (r: bool)
        ensures
            r == (started > 0),
            final(self)@ == (if started > 0 {
                ReadModel { remaining: started as nat, ..old(self)@ }
            } else {
                old(self)@
            }),
            started > 0 ==> *final(selections) == *old(selections),
            started == 0 ==> final(selections).of(old(self)@.ty) == (SelectionModel {
                cache: None,
                ..old(selections).of(old(self)@.ty)
            }),
            final(selections).leaves_other(*old(selections), old(self)@.ty),
    {
        if started == 0 {
            selections.clear(self.ty);
            return false;
        }
        self.remaining = started;
        true
    }

    /// Takes note of a piece of `n` bytes that was read.
    pub fn received(&mut self, n: usize) -> (r: ReadStep)
        requires
            old(self)@.total + n <= usize::MAX,
        ensures
            r == (if old(self)@.total + n > MAX_CACHE_BYTES {
                ReadStep::TooLarge
            } else {
                ReadStep::Keep
            }),
            final(self)@ == (ReadModel {
                total: old(self)@.total + n as nat,
                aborted: old(self)@.aborted || r == ReadStep::TooLarge,
                ..old(self)@
            }),
    {
        self.total = self.total + n;
        if self.total > MAX_CACHE_BYTES {
            self.aborted = true;
            ReadStep::TooLarge
        } else {
            ReadStep::Keep
        }
    }

    /// Ends the reading of one type, and with the last one the reading of the
    /// selection.
    pub fn finish_mime(&mut self, selections: &mut Selections, mime: String, buf: Vec<u8>) -> (r:
        ReadEnd)
        ensures
            ({
                let before = old(self)@;
                let current = old(selections).of(before.ty);
                &&& final(self)@ == before.after(mime@, buf@)
                &&& final(selections).leaves_other(*old(selections), before.ty)
                &&& (r is Waiting <==> final(self)@.remaining > 0)
                &&& (r is Superseded <==> before.is_last() && current.epoch != before.epoch)
                &&& (r is Dropped <==> before.is_last() && before.is_dropped(current))
                &&& (r is Stored <==> before.is_last() && before.is_stored(current))
                &&& (r matches ReadEnd::Stored { mimes } ==> texts(mimes@) == before.mimes)
                &&& final(selections).of(before.ty) == before.selection_after(
                    current,
                    mime@,
                    buf@,
                )
            }),
    {
        if !self.aborted {
            let ghost was = self.data@;
            let m = MimeData { mime, bytes: buf };
            self.data.push(m);
            proof {
                contents_push(was, m);
            }
        }
        if self.remaining > 0 {
            self.remaining = self.remaining - 1;
        }
        if self.remaining > 0 {
            return ReadEnd::Waiting;
        }
        if selections.epoch(self.ty) != self.epoch {
            return ReadEnd::Superseded;
        }
        if self.aborted || self.total == 0 {
            selections.clear(self.ty);
            return ReadEnd::Dropped;
        }
        let cache = self.copy_data();
        let mimes = self.copy_mimes();
        selections.store(self.ty, cache);
        ReadEnd::Stored { mimes }
    }

    fn copy_data(&self) -> (r: Vec<MimeData>)
        ensures
            contents(r@) == self@.data,
    {
        let mut out: Vec<MimeData> = Vec::new();
        let mut i: usize = 0;
        assert(self.data@.take(0) =~= Seq::<MimeData>::empty());
        while i < self.data.len()
            invariant
                i <= self.data@.len(),
                contents(out@) == contents(self.data@.take(i as int)),
            decreases self.data@.len() - i,
        {
            let m = MimeData {
                mime: self.data[i].mime.clone(),
                bytes: copied(&self.data[i].bytes),
            };
            let ghost was = out@;
            out.push(m);
            proof {
                contents_push(was, m);
                assert(self.data@.take(i + 1).drop_last() =~= self.data@.take(i as int));
            }
            i += 1;
        }
        assert(self.data@.take(i as int) =~= self.data@);
        out
    }

    fn copy_mimes(&self) -> (r: Vec<String>)
        ensures
            texts(r@) == self@.mimes,
    {
        let mut out: Vec<String> = Vec::new();
        let mut i: usize = 0;
        while i < self.mimes.len()
            invariant
                i <= self.mimes@.len(),
                texts(out@) =~= texts(self.mimes@).take(i as int),
            decreases self.mimes@.len() - i,
        {
            let ghost was = texts(out@);
            out.push(self.mimes[i].clone());
            assert(texts(out@) =~= was.push(self.mimes@[i as int]@));
            i += 1;
        }
        assert(texts(out@) =~= texts(self.mimes@));
        out
    }
}

/// What to do after a try to write a part of kept contents to a reader.
#[derive(Debug, Clone, Copy, PartialEq, Eq, Structural)]
pub enum SendStep {
    /// Everything is written, or nothing more can be.
    Done,
    /// The reader is full; go on when it has room.
    Wait,
    /// Write the contents from this position on.
    Write { from: usize },
}

/// The outcome of a try to write.
#[derive(Debug, Clone, Copy, PartialEq, Eq, Structural)]
pub enum WriteOutcome {
    /// This many bytes were written.
    Wrote(usize),
    /// The reader has no room.
    Full,
    /// The try was interrupted.
    Interrupted,
    /// The reader is gone.
    Failed,
}

/// What to do first to write kept contents of a length to a reader.
pub fn start_send(len: usize) -> (r: SendStep)
    ensures
        r == (if len == 0 {
            SendStep::Done
        } else {
            SendStep::Write { from: 0 }
        }),
{
    if len == 0 {
        SendStep::Done
    } else {
        SendStep::Write { from: 0 }
    }
}

/// What to do next after the bytes before `offset` were written and a try to
/// write the rest had the given outcome.
pub fn next_send(len: usize, offset: usize, outcome: WriteOutcome) -> (r: SendStep)
    requires
        offset <= len,
        outcome matches WriteOutcome::Wrote(n) ==> offset + n <= len,
    ensures
        r == (match outcome {
            WriteOutcome::Wrote(n) => if n == 0 || offset + n == len {
                SendStep::Done
            } else {
                SendStep::Write { from: (offset + n) as usize }
            },
            WriteOutcome::Full => SendStep::Wait,
            WriteOutcome::Interrupted => if offset == len {
                SendStep::Done
            } else {
                SendStep::Write { from: offset }
            },
            WriteOutcome::Failed => SendStep::Done,
        }),
{
    match outcome {
        WriteOutcome::Wrote(n) => if n == 0 || offset + n == len {
            SendStep::Done
        } else {
            SendStep::Write { from: offset + n }
        },
        WriteOutcome::Full => SendStep::Wait,
        WriteOutcome::Interrupted => if offset == len {
            SendStep::Done
        } else {
            SendStep::Write { from: offset }
        },
        WriteOutcome::Failed => SendStep::Done,
    }
}

/// The types of a selection are read one by one: before the last one nothing
/// changes but their count, and what was read so far.
pub proof fn types_are_read_one_by_one(
    read: ReadModel,
    current: SelectionModel,
    mime: Seq<char>,
    buf: Seq<u8>,
)
    requires
        read.remaining > 1,
    ensures
        read.selection_after(current, mime, buf) == current,
        read.after(mime, buf).remaining + 1 == read.remaining,
        !read.aborted ==> read.after(mime, buf).data == read.data.insert(mime, buf),
        read.after(mime, buf).total == read.total,
        read.after(mime, buf).aborted == read.aborted,
        read.after(mime, buf).epoch == read.epoch,
{
}

/// Once the last type of what is still selected was read, everything that was
/// read is kept; nothing where it was too much or where nothing was in it.
pub proof fn the_last_type_settles_the_selection(
    read: ReadModel,
    current: SelectionModel,
    mime: Seq<char>,
    buf: Seq<u8>,
)
    requires
        read.remaining <= 1,
        read.epoch == current.epoch,
    ensures
        ({
            let left = read.selection_after(current, mime, buf);
            &&& left.epoch == current.epoch
            &&& read.aborted ==> left.cache.is_none()
            &&& read.total == 0 ==> left.cache.is_none()
            &&& !read.aborted && read.total > 0 ==> left.cache == Some(read.data.insert(mime, buf))
        }),
{
}

/// A type that is listed has the contents of its last entry, and no other type
/// has any.
pub proof fn the_last_contents_of_a_type_count(list: Seq<MimeData>, i: int, mime: Seq<char>)
    requires
        0 <= i < list.len(),
        forall|k: int| i < k < list.len() ==> (#[trigger] list[k]).mime@ != list[i].mime@,
    ensures
        contents(list).dom().contains(list[i].mime@),
        contents(list)[list[i].mime@] == list[i].bytes@,
        (forall|k: int| 0 <= k < list.len() ==> (#[trigger] list[k]).mime@ != mime)
            ==> !contents(list).dom().contains(mime),
{
    contents_tail(list, i + 1, list[i].mime@);
    assert(list.take(i + 1).last() == list[i]);
    if forall|k: int| 0 <= k < list.len() ==> (#[trigger] list[k]).mime@ != mime {
        contents_tail(list, 0, mime);
        assert(list.take(0) =~= Seq::<MimeData>::empty());
    }
}

} // verus!
