//! Which connectors are driven, in which mode and through which CRTC, and the
//! order in which graphics cards are tried.

use vstd::prelude::*;
use vstd::string::*;

use crate::paths::{alike, in_order, insert_in_order, parts_of, path_parts};
use crate::text::{chars_of, is_listed, listed, texts};

verus! {

/// A display mode as a connector offers it.
#[derive(Debug, Clone, Copy, PartialEq, Eq, Structural)]
pub struct ModeInfo {
    pub width: u16,
    pub height: u16,
    pub millihertz: u32,
    /// Whether the display prefers it.
    pub preferred: bool,
}

/// How a mode is sent out.
#[derive(Debug, Clone, Copy, PartialEq, Eq, Structural)]
pub struct Timing {
    /// The pixel clock, in kilohertz.
    pub clock: u32,
    /// The length of a line and the number of lines, with what is not shown.
    pub htotal: u16,
    pub vtotal: u16,
    /// How often each line is sent; zero counts as once.
    pub vscan: u16,
    /// Whether a frame is sent in two halves.
    pub interlaced: bool,
    /// Whether each line is sent twice.
    pub doubled: bool,
}

impl Timing {
    /// The pixels in a frame, with what is not shown and what is sent again.
    pub open spec fn frame(self) -> int {
        let repeats: int = if self.doubled {
            2
        } else {
            1
        };
        let scans: int = if self.vscan > 1 {
            self.vscan as int
        } else {
            1
        };
        self.htotal * self.vtotal * repeats * scans
    }

    /// The refresh rate in thousandths of a hertz, rounded to the nearest; zero
    /// where a frame has no pixels.
    pub open spec fn rate(self) -> int {
        let pixels: int = if self.interlaced {
            2_000_000 * self.clock
        } else {
            1_000_000 * self.clock
        };
        if self.frame() == 0 {
            0
        } else {
            (pixels + self.frame() / 2) / self.frame()
        }
    }

    /// The refresh rate in thousandths of a hertz, as far as it can be told.
    pub fn millihertz(&self) -> (r: u32)
        ensures
            r == (if self.rate() > u32::MAX {
                u32::MAX as int
            } else {
                self.rate()
            }),
    {
        assert(0 <= self.htotal * self.vtotal <= 0xffff * 0xffff) by (nonlinear_arith);
        let area: u64 = self.htotal as u64 * self.vtotal as u64;
        let lines: u64 = if self.doubled {
            2 * area
        } else {
            area
        };
        let scans: u64 = if self.vscan > 1 {
            self.vscan as u64
        } else {
            1
        };
        assert(0 <= lines * scans <= 2 * 0xffff * 0xffff * 0xffff) by (nonlinear_arith)
            requires
                0 <= lines <= 2 * 0xffff * 0xffff,
                0 <= scans <= 0xffff,
        ;
        let frame: u64 = lines * scans;
        if frame == 0 {
            return 0;
        }
        let pixels: u64 = if self.interlaced {
            2_000_000 * self.clock as u64
        } else {
            1_000_000 * self.clock as u64
        };
        let rate: u64 = (pixels + frame / 2) / frame;
        if rate > u32::MAX as u64 {
            u32::MAX
        } else {
            rate as u32
        }
    }
}

/// A mode as the configuration names it.
#[derive(Debug, Clone, Copy, PartialEq, Eq, Structural)]
pub struct RequestedMode {
    pub width: u32,
    pub height: u32,
    pub millihertz: u32,
}

/// Whether a mode is the one asked for.
pub open spec fn is_requested(m: ModeInfo, q: RequestedMode) -> bool {
    m.width == q.width && m.height == q.height && m.millihertz == q.millihertz
}

/// The first mode at or after `from` that is the one asked for.
pub open spec fn requested_from(ms: Seq<ModeInfo>, q: RequestedMode, from: int) -> Option<int>
    decreases ms.len() - from,
{
    if from < 0 || from >= ms.len() {
        None
    } else if is_requested(ms[from], q) {
        Some(from)
    } else {
        requested_from(ms, q, from + 1)
    }
}

/// The first preferred mode at or after `from`.
pub open spec fn preferred_from(ms: Seq<ModeInfo>, from: int) -> Option<int>
    decreases ms.len() - from,
{
    if from < 0 || from >= ms.len() {
        None
    } else if ms[from].preferred {
        Some(from)
    } else {
        preferred_from(ms, from + 1)
    }
}

/// The mode to drive: the one asked for where it is offered, else the first
/// preferred one, else the first.
pub open spec fn chosen_mode(ms: Seq<ModeInfo>, requested: Option<RequestedMode>) -> Option<int> {
    let asked = match requested {
        Some(q) => requested_from(ms, q, 0),
        None => None,
    };
    if asked.is_some() {
        asked
    } else if preferred_from(ms, 0).is_some() {
        preferred_from(ms, 0)
    } else if ms.len() > 0 {
        Some(0)
    } else {
        None
    }
}

/// An index that may be missing, as a mathematical integer.
pub open spec fn index_of(i: Option<usize>) -> Option<int> {
    match i {
        None => None,
        Some(i) => Some(i as int),
    }
}

/// The mode to drive a connector in.
pub fn pick_mode(modes: &Vec<ModeInfo>, requested: Option<RequestedMode>) -> (r: Option<usize>)
    ensures
        index_of(r) == chosen_mode(modes@, requested),
        r.is_some() == (modes@.len() > 0),
        r.is_some() ==> r.unwrap() < modes@.len(),
{
    if let Some(q) = requested {
        let mut i: usize = 0;
        while i < modes.len()
            invariant
                i <= modes@.len(),
                requested == Some(q),
                requested_from(modes@, q, 0) == requested_from(modes@, q, i as int),
            decreases modes@.len() - i,
        {
            let m = modes[i];
            if m.width as u32 == q.width && m.height as u32 == q.height && m.millihertz
                == q.millihertz {
                return Some(i);
            }
            i += 1;
        }
    }
    let mut i: usize = 0;
    while i < modes.len()
        invariant
            i <= modes@.len(),
            requested matches Some(q) ==> requested_from(modes@, q, 0).is_none(),
            preferred_from(modes@, 0) == preferred_from(modes@, i as int),
        decreases modes@.len() - i,
    {
        if modes[i].preferred {
            return Some(i);
        }
        i += 1;
    }
    if modes.len() > 0 {
        Some(0)
    } else {
        None
    }
}

/// The first CRTC of a list that is free.
pub open spec fn free_in(crtcs: Seq<u32>, used: Seq<u32>, from: int) -> Option<u32>
    decreases crtcs.len() - from,
{
    if from < 0 || from >= crtcs.len() {
        None
    } else if !used.contains(crtcs[from]) {
        Some(crtcs[from])
    } else {
        free_in(crtcs, used, from + 1)
    }
}

/// The first free CRTC of the encoders from `from` on.
pub open spec fn free_from(encoders: Seq<Vec<u32>>, used: Seq<u32>, from: int) -> Option<u32>
    decreases encoders.len() - from,
{
    if from < 0 || from >= encoders.len() {
        None
    } else {
        match free_in(encoders[from]@, used, 0) {
            Some(c) => Some(c),
            None => free_from(encoders, used, from + 1),
        }
    }
}

/// The CRTC for a connector: the one it is on where that is free, else the
/// first free one that one of its encoders can use.
pub open spec fn chosen_crtc(
    current: Option<u32>,
    encoders: Seq<Vec<u32>>,
    used: Seq<u32>,
) -> Option<u32> {
    match current {
        Some(c) if !used.contains(c) => Some(c),
        _ => free_from(encoders, used, 0),
    }
}

fn is_used(used: &Vec<u32>, crtc: u32) -> (r: bool)
    ensures
        r == used@.contains(crtc),
{
    let mut i: usize = 0;
    while i < used.len()
        invariant
            i <= used@.len(),
            forall|k: int| 0 <= k < i ==> used@[k] != crtc,
        decreases used@.len() - i,
    {
        if used[i] == crtc {
            assert(used@[i as int] == crtc);
            return true;
        }
        i += 1;
    }
    false
}

fn find_free(crtcs: &Vec<u32>, used: &Vec<u32>) -> (r: Option<u32>)
    ensures
        r == free_in(crtcs@, used@, 0),
{
    let mut i: usize = 0;
    while i < crtcs.len()
        invariant
            i <= crtcs@.len(),
            free_in(crtcs@, used@, 0) == free_in(crtcs@, used@, i as int),
        decreases crtcs@.len() - i,
    {
        if !is_used(used, crtcs[i]) {
            return Some(crtcs[i]);
        }
        i += 1;
    }
    None
}

/// The CRTC for a connector. `encoders` has the CRTCs that each readable
/// encoder of the connector can use.
pub fn pick_unused_crtc(current: Option<u32>, encoders: &Vec<Vec<u32>>, used: &Vec<u32>) -> (r:
    Option<u32>)
    ensures
        r == chosen_crtc(current, encoders@, used@),
{
    if let Some(c) = current {
        if !is_used(used, c) {
            return Some(c);
        }
    }
    let mut i: usize = 0;
    while i < encoders.len()
        invariant
            i <= encoders@.len(),
            current matches Some(c) ==> used@.contains(c),
            free_from(encoders@, used@, 0) == free_from(encoders@, used@, i as int),
        decreases encoders@.len() - i,
    {
        if let Some(c) = find_free(&encoders[i], used) {
            return Some(c);
        }
        i += 1;
    }
    None
}

proof fn free_crtcs_are_free(crtcs: Seq<u32>, used: Seq<u32>, from: int)
    ensures
        free_in(crtcs, used, from) matches Some(c) ==> !used.contains(c),
    decreases crtcs.len() - from,
{
    if 0 <= from < crtcs.len() && used.contains(crtcs[from]) {
        free_crtcs_are_free(crtcs, used, from + 1);
    }
}

proof fn free_from_is_free(encoders: Seq<Vec<u32>>, used: Seq<u32>, from: int)
    ensures
        free_from(encoders, used, from) matches Some(c) ==> !used.contains(c),
    decreases encoders.len() - from,
{
    if 0 <= from < encoders.len() {
        free_crtcs_are_free(encoders[from]@, used, 0);
        free_from_is_free(encoders, used, from + 1);
    }
}

/// No connector is put on a CRTC that is in use.
pub proof fn chosen_crtcs_are_free(current: Option<u32>, encoders: Seq<Vec<u32>>, used: Seq<u32>)
    ensures
        chosen_crtc(current, encoders, used) matches Some(c) ==> !used.contains(c),
{
    free_from_is_free(encoders, used, 0);
}

/// A connector as the card reports it.
#[derive(Debug)]
pub struct ConnectorInfo {
    pub name: String,
    pub connected: bool,
    pub modes: Vec<ModeInfo>,
    pub current_crtc: Option<u32>,
    pub encoders: Vec<Vec<u32>>,
}

/// The mode and the CRTC of an output.
pub open spec fn output_choice(
    c: ConnectorInfo,
    requested: Option<RequestedMode>,
    used: Seq<u32>,
) -> Option<(int, u32)> {
    match (chosen_mode(c.modes@, requested), chosen_crtc(c.current_crtc, c.encoders@, used)) {
        (Some(m), Some(crtc)) => Some((m, crtc)),
        _ => None,
    }
}

/// The mode and the CRTC of an output; none where it has no mode or no CRTC is
/// left for it.
pub fn build_output(c: &ConnectorInfo, requested: Option<RequestedMode>, used: &Vec<u32>) -> (r:
    Option<(usize, u32)>)
    ensures
        r.is_some() == output_choice(*c, requested, used@).is_some(),
        r.is_some() ==> r.unwrap().0 == output_choice(*c, requested, used@).unwrap().0
            && r.unwrap().1 == output_choice(*c, requested, used@).unwrap().1
            && r.unwrap().0 < c.modes@.len() && !used@.contains(r.unwrap().1),
{
    proof {
        chosen_crtcs_are_free(c.current_crtc, c.encoders@, used@);
    }
    match pick_mode(&c.modes, requested) {
        None => None,
        Some(m) => match pick_unused_crtc(c.current_crtc, &c.encoders, used) {
            None => None,
            Some(crtc) => Some((m, crtc)),
        },
    }
}

/// What to do with a connector during a scan.
#[derive(Debug, Clone, Copy, PartialEq, Eq, Structural)]
pub enum ScanStep {
    /// Nothing is plugged in.
    Absent,
    /// It is driven already.
    Known,
    /// It has no mode, or no CRTC is left.
    Unusable,
    /// Bring it up.
    Build { mode: usize, crtc: u32 },
}

/// A walk over the connectors of a card.
pub struct Scan {
    existing: Vec<String>,
    used: Vec<u32>,
    connected: Vec<String>,
}

impl Scan {
    /// The CRTCs that are taken.
    pub closed spec fn used_crtcs(self) -> Seq<u32> {
        self.used@
    }

    /// The outputs that were driven before the walk.
    pub closed spec fn known(self) -> Seq<String> {
        self.existing@
    }

    /// The connectors found plugged in so far.
    pub closed spec fn found(self) -> Seq<Seq<char>> {
        texts(self.connected@)
    }

    /// Starts a walk with the outputs that are driven and their CRTCs.
    pub fn new(existing: Vec<String>, used: Vec<u32>) -> (r: Scan)
        ensures
            r.known() == existing@,
            r.used_crtcs() == used@,
            r.found() == Seq::<Seq<char>>::empty(),
    {
        let connected: Vec<String> = Vec::new();
        assert(texts(connected@) =~= Seq::<Seq<char>>::empty());
        Scan { existing, used, connected }
    }

    /// Looks at the next connector.
    pub fn visit(&mut self, c: &ConnectorInfo, requested: Option<RequestedMode>) -> (r: ScanStep)
        ensures
            final(self).known() == old(self).known(),
            final(self).used_crtcs() == old(self).used_crtcs(),
            final(self).found() == (if c.connected {
                old(self).found().push(c.name@)
            } else {
                old(self).found()
            }),
            match output_choice(*c, requested, old(self).used_crtcs()) {
                _ if !c.connected => r == ScanStep::Absent,
                _ if listed(old(self).known(), c.name@) => r == ScanStep::Known,
                None => r == ScanStep::Unusable,
                Some((m, crtc)) => r == (ScanStep::Build { mode: m as usize, crtc })
                    && !old(self).used_crtcs().contains(crtc),
            },
    {
        if !c.connected {
            return ScanStep::Absent;
        }
        let ghost before = texts(self.connected@);
        self.connected.push(c.name.clone());
        assert(texts(self.connected@) =~= before.push(c.name@));
        if is_listed(&self.existing, c.name.as_str()) {
            return ScanStep::Known;
        }
        match build_output(c, requested, &self.used) {
            None => ScanStep::Unusable,
            Some((mode, crtc)) => ScanStep::Build { mode, crtc },
        }
    }

    /// Takes note that an output was brought up on a CRTC.
    pub fn built(&mut self, crtc: u32)
        ensures
            final(self).known() == old(self).known(),
            final(self).found() == old(self).found(),
            final(self).used_crtcs() == old(self).used_crtcs().push(crtc),
    {
        self.used.push(crtc);
    }

    /// The connectors that were found plugged in.
    pub fn into_connected(self) -> (r: Vec<String>)
        ensures
            texts(r@) == self.found(),
    {
        self.connected
    }
}

/// Whether a path is of a card that can show something: its last part is a name
/// that starts with `card`. Render nodes do not.
pub open spec fn is_card(path: Seq<char>) -> bool {
    let parts = path_parts(path);
    parts.len() > 0 && is_card_name(parts.last())
}

/// Whether a name starts with `card`.
pub open spec fn is_card_name(name: Seq<char>) -> bool {
    name.len() >= 4 && name[0] == 'c' && name[1] == 'a' && name[2] == 'r' && name[3] == 'd'
}

/// The cards among the first `n` paths.
pub open spec fn cards(paths: Seq<Seq<char>>, n: int) -> Seq<Seq<char>>
    decreases n,
{
    if n <= 0 {
        Seq::empty()
    } else if is_card(paths[n - 1]) {
        cards(paths, n - 1).push(paths[n - 1])
    } else {
        cards(paths, n - 1)
    }
}

fn starts_with_card(name: &Vec<char>) -> (r: bool)
    ensures
        r == is_card_name(name@),
{
    name.len() >= 4 && name[0] == 'c' && name[1] == 'a' && name[2] == 'r' && name[3] == 'd'
}

fn names_card(path: &str) -> (r: bool)
    ensures
        r == is_card(path@),
{
    let parts = parts_of(path);
    if parts.len() == 0 {
        return false;
    }
    let last: usize = parts.len() - 1;
    assert(texts(parts@).last() == parts@[last as int]@);
    starts_with_card(&chars_of(parts[last].as_str()))
}

/// The graphics cards among the device paths, in path order; none where there
/// is no card. Paths with the same parts stay in the order they came in.
pub fn drm_card_paths(devices: &Vec<String>) -> (r: Option<Vec<String>>)
    ensures
        r.is_some() == (cards(texts(devices@), devices@.len() as int).len() > 0),
        r matches Some(v) ==> {
            let found = cards(texts(devices@), devices@.len() as int);
            &&& in_order(texts(v@))
            &&& texts(v@).to_multiset() == found.to_multiset()
            &&& forall|parts: Seq<Seq<char>>| #[trigger]
                alike(texts(v@), parts) == alike(found, parts)
        },
{
    let mut list: Vec<String> = Vec::new();
    let mut i: usize = 0;
    assert(texts(list@) =~= cards(texts(devices@), 0));
    while i < devices.len()
        invariant
            i <= devices@.len(),
            in_order(texts(list@)),
            texts(list@).to_multiset() == cards(texts(devices@), i as int).to_multiset(),
            list@.len() == cards(texts(devices@), i as int).len(),
            forall|parts: Seq<Seq<char>>| #[trigger]
                alike(texts(list@), parts) == alike(cards(texts(devices@), i as int), parts),
        decreases devices@.len() - i,
    {
        if names_card(devices[i].as_str()) {
            let ghost c = cards(texts(devices@), i as int);
            let ghost p = devices@[i as int]@;
            let ghost was = texts(list@);
            proof {
                c.to_multiset_ensures();
                assert(c.push(p).to_multiset() =~= c.to_multiset().insert(p));
            }
            insert_in_order(&mut list, devices[i].clone());
            assert forall|parts: Seq<Seq<char>>| #[trigger]
                alike(texts(list@), parts) == alike(c.push(p), parts) by {
                assert(alike(was, parts) == alike(c, parts));
                assert(was.push(p).drop_last() =~= was);
                assert(c.push(p).drop_last() =~= c);
            }
        }
        i += 1;
    }
    if list.len() == 0 {
        None
    } else {
        Some(list)
    }
}

/// A mode is driven that is the one asked for, where it is offered; else one
/// that is preferred, where there is one; else the first. Of several, the
/// first counts.
pub proof fn modes_are_chosen_by_what_is_asked_for(
    ms: Seq<ModeInfo>,
    requested: Option<RequestedMode>,
    i: int,
)
    requires
        0 <= i < ms.len(),
    ensures
        offers(ms, requested, i) && (forall|k: int| 0 <= k < i ==> !offers(ms, requested, k))
            ==> chosen_mode(ms, requested) == Some(i),
        (forall|k: int| 0 <= k < ms.len() ==> !offers(ms, requested, k)) && ms[i].preferred && (
        forall|k: int| 0 <= k < i ==> !(#[trigger] ms[k]).preferred) ==> chosen_mode(ms, requested)
            == Some(i),
        (forall|k: int| 0 <= k < ms.len() ==> !offers(ms, requested, k)) && (forall|k: int|
            0 <= k < ms.len() ==> !(#[trigger] ms[k]).preferred) ==> chosen_mode(ms, requested)
            == Some(0int),
{
    preferred_search(ms, 0);
    if requested.is_some() {
        let q = requested.unwrap();
        requested_search(ms, q, 0);
        assert forall|k: int| 0 <= k < ms.len() implies #[trigger] offers(ms, requested, k)
            == is_requested(ms[k], q) by {
        }
        match requested_from(ms, q, 0) {
            None => {},
            Some(k) => {
                assert(offers(ms, requested, k));
            },
        }
    } else {
        assert(!offers(ms, requested, i));
    }
}

/// Whether a mode has the size and the rate that are asked for.
pub open spec fn offers(ms: Seq<ModeInfo>, requested: Option<RequestedMode>, k: int) -> bool {
    requested matches Some(q) && ms[k].width == q.width && ms[k].height == q.height
        && ms[k].millihertz == q.millihertz
}

proof fn requested_search(ms: Seq<ModeInfo>, q: RequestedMode, from: int)
    requires
        0 <= from,
    ensures
        match requested_from(ms, q, from) {
            None => forall|k: int| from <= k < ms.len() ==> !is_requested(#[trigger] ms[k], q),
            Some(i) => from <= i < ms.len() && is_requested(ms[i], q) && forall|k: int|
                from <= k < i ==> !is_requested(#[trigger] ms[k], q),
        },
    decreases ms.len() - from,
{
    if from < ms.len() && !is_requested(ms[from], q) {
        requested_search(ms, q, from + 1);
    }
}

proof fn preferred_search(ms: Seq<ModeInfo>, from: int)
    requires
        0 <= from,
    ensures
        match preferred_from(ms, from) {
            None => forall|k: int| from <= k < ms.len() ==> !(#[trigger] ms[k]).preferred,
            Some(i) => from <= i < ms.len() && ms[i].preferred && forall|k: int|
                from <= k < i ==> !(#[trigger] ms[k]).preferred,
        },
    decreases ms.len() - from,
{
    if from < ms.len() && !ms[from].preferred {
        preferred_search(ms, from + 1);
    }
}

/// A connector stays on its CRTC where that is free. Else it gets one that one
/// of its encoders can use and that is free; it gets none only where all of
/// these are taken.
pub proof fn connectors_stay_where_they_are(
    current: Option<u32>,
    encoders: Seq<Vec<u32>>,
    used: Seq<u32>,
    e: int,
    k: int,
)
    ensures
        current matches Some(c) && !used.contains(c) ==> chosen_crtc(current, encoders, used)
            == current,
        0 <= e < encoders.len() && 0 <= k < encoders[e]@.len() && !used.contains(encoders[e]@[k])
            ==> chosen_crtc(current, encoders, used).is_some(),
        0 <= e < encoders.len() && 0 <= k < encoders[e]@.len() && !used.contains(encoders[e]@[k])
            && (current matches Some(c) ==> used.contains(c)) && (forall|j: int|
            0 <= j < k ==> used.contains(#[trigger] encoders[e]@[j])) && (forall|f: int, j: int|
            0 <= f < e && 0 <= j < encoders[f]@.len() ==> used.contains(
                #[trigger] encoders[f]@[j],
            )) ==> chosen_crtc(current, encoders, used) == Some(encoders[e]@[k]),
{
    if 0 <= e < encoders.len() && 0 <= k < encoders[e]@.len() && !used.contains(encoders[e]@[k]) {
        free_is_found(encoders, used, 0, e, k);
    }
}

proof fn free_in_is_found(crtcs: Seq<u32>, used: Seq<u32>, from: int, k: int)
    requires
        0 <= from <= k < crtcs.len(),
        !used.contains(crtcs[k]),
    ensures
        free_in(crtcs, used, from).is_some(),
        (forall|j: int| from <= j < k ==> used.contains(#[trigger] crtcs[j])) ==> free_in(
            crtcs,
            used,
            from,
        ) == Some(crtcs[k]),
    decreases k - from,
{
    if from < k && used.contains(crtcs[from]) {
        free_in_is_found(crtcs, used, from + 1, k);
    }
}

proof fn none_is_free(crtcs: Seq<u32>, used: Seq<u32>, from: int)
    requires
        0 <= from,
        forall|j: int| from <= j < crtcs.len() ==> used.contains(#[trigger] crtcs[j]),
    ensures
        free_in(crtcs, used, from).is_none(),
    decreases crtcs.len() - from,
{
    if from < crtcs.len() {
        none_is_free(crtcs, used, from + 1);
    }
}

proof fn free_is_found(encoders: Seq<Vec<u32>>, used: Seq<u32>, from: int, e: int, k: int)
    requires
        0 <= from <= e < encoders.len(),
        0 <= k < encoders[e]@.len(),
        !used.contains(encoders[e]@[k]),
    ensures
        free_from(encoders, used, from).is_some(),
        (forall|j: int| 0 <= j < k ==> used.contains(#[trigger] encoders[e]@[j])) && (forall|
            f: int,
            j: int,
        |
            from <= f < e && 0 <= j < encoders[f]@.len() ==> used.contains(
                #[trigger] encoders[f]@[j],
            )) ==> free_from(encoders, used, from) == Some(encoders[e]@[k]),
    decreases e - from,
{
    if from == e {
        free_in_is_found(encoders[e]@, used, 0, k);
    } else {
        free_is_found(encoders, used, from + 1, e, k);
        if forall|f: int, j: int|
            from <= f < e && 0 <= j < encoders[f]@.len() ==> used.contains(
                #[trigger] encoders[f]@[j],
            ) {
            let first = encoders[from]@;
            assert forall|j: int| 0 <= j < first.len() implies used.contains(#[trigger] first[j]) by {
                assert(used.contains(encoders[from]@[j]));
            }
            none_is_free(first, used, 0);
        }
    }
}

/// An output is driven exactly where it has a mode and a CRTC is left for it.
pub proof fn outputs_need_a_mode_and_a_crtc(
    c: ConnectorInfo,
    requested: Option<RequestedMode>,
    used: Seq<u32>,
)
    ensures
        output_choice(c, requested, used).is_some() <==> c.modes@.len() > 0 && chosen_crtc(
            c.current_crtc,
            c.encoders@,
            used,
        ).is_some(),
        output_choice(c, requested, used) matches Some((m, crtc)) ==> chosen_mode(
            c.modes@,
            requested,
        ) == Some(m) && chosen_crtc(c.current_crtc, c.encoders@, used) == Some(crtc),
{
    preferred_search(c.modes@, 0);
    if requested.is_some() {
        requested_search(c.modes@, requested.unwrap(), 0);
    }
}

/// The refresh rate in thousandths of a hertz is the nearest to what the clock
/// gives: the pixels of a frame times the rate are a thousand thousand times
/// the clock, twice that for interlaced modes, up to half a frame.
pub proof fn refresh_rates_are_rounded(t: Timing)
    requires
        t.frame() > 0,
    ensures
        ({
            let pixels: int = t.clock * 1_000_000 * (if t.interlaced {
                2int
            } else {
                1int
            });
            &&& 2 * t.rate() * t.frame() <= 2 * pixels + t.frame()
            &&& 2 * t.rate() * t.frame() + t.frame() >= 2 * pixels - 1
        }),
{
    let f = t.frame();
    let pixels: int = if t.interlaced {
        2_000_000 * t.clock
    } else {
        1_000_000 * t.clock
    };
    let q = (pixels + f / 2) / f;
    assert(q * f <= pixels + f / 2 < q * f + f) by (nonlinear_arith)
        requires
            f > 0,
            q == (pixels + f / 2) / f,
    ;
    assert(2 * q * f == 2 * (q * f)) by (nonlinear_arith);
}

/// A frame has as many pixels as its lines and columns make: twice that where
/// lines are doubled, and again as often as each is scanned.
pub proof fn frames_count_repeated_lines(t: Timing)
    ensures
        !t.doubled && t.vscan <= 1 ==> t.frame() == t.htotal * t.vtotal,
        t.doubled && t.vscan <= 1 ==> t.frame() == 2 * (t.htotal * t.vtotal),
        !t.doubled && t.vscan > 1 ==> t.frame() == t.vscan * (t.htotal * t.vtotal),
        t.doubled && t.vscan > 1 ==> t.frame() == 2 * (t.vscan * (t.htotal * t.vtotal)),
{
    let a = t.htotal * t.vtotal;
    let v = t.vscan as int;
    assert(a * 1 * 1 == a && a * 2 * 1 == 2 * a && a * 1 * v == v * a && a * 2 * v == 2 * (v * a))
        by (nonlinear_arith);
}

/// A path names a card where its last part starts with the word, wherever it
/// lies.
pub proof fn cards_are_known_by_their_name(dir: Seq<char>, rest: Seq<char>)
    requires
        forall|j: int| 0 <= j < rest.len() ==> #[trigger] rest[j] != '/',
    ensures
        is_card(dir.push('/') + (seq!['c', 'a', 'r', 'd'] + rest)),
{
    let name = seq!['c', 'a', 'r', 'd'] + rest;
    assert(name[0] == 'c' && name[1] == 'a' && name[2] == 'r' && name[3] == 'd');
    assert forall|j: int| 0 <= j < name.len() implies #[trigger] name[j] != '/' by {
        if j >= 4 {
            assert(name[j] == rest[j - 4]);
        }
    }
    assert(name.len() != seq!['.'].len());
    crate::paths::parts_stand_between_slashes(dir, name, name);
    let path = dir.push('/') + name;
    let parts = path_parts(path);
    assert(parts.last() == name);
}

/// The cards are those of the paths that name one.
pub proof fn every_card_is_kept(paths: Seq<Seq<char>>, n: int, path: Seq<char>)
    requires
        0 <= n <= paths.len(),
    ensures
        cards(paths, n).contains(path) <==> is_card(path) && paths.take(n).contains(path),
    decreases n,
{
    let all = cards(paths, n);
    let some = paths.take(n);
    if n > 0 {
        every_card_is_kept(paths, n - 1, path);
        let before = cards(paths, n - 1);
        let few = paths.take(n - 1);
        assert(some[n - 1] == paths[n - 1]);
        if before.contains(path) {
            let i = choose|i: int| 0 <= i < before.len() && before[i] == path;
            assert(all[i] == path);
        }
        if few.contains(path) {
            let i = choose|i: int| 0 <= i < few.len() && few[i] == path;
            assert(some[i] == path);
        }
        if all.contains(path) {
            let i = choose|i: int| 0 <= i < all.len() && all[i] == path;
            if i < before.len() {
                assert(before[i] == path);
            }
        }
        if is_card(path) && some.contains(path) {
            let i = choose|i: int| 0 <= i < some.len() && some[i] == path;
            if i < n - 1 {
                assert(few[i] == path);
            } else {
                assert(all.last() == path);
            }
        }
    }
}

/// A name is that of a card exactly where its first four letters are the word.
pub proof fn other_names_are_no_cards(name: Seq<char>)
    ensures
        is_card_name(name) <==> name.len() >= 4 && name.take(4) == seq!['c', 'a', 'r', 'd'],
{
    if name.len() >= 4 {
        let word = seq!['c', 'a', 'r', 'd'];
        assert(name.take(4)[0] == name[0] && name.take(4)[1] == name[1] && name.take(4)[2]
            == name[2] && name.take(4)[3] == name[3]);
        if is_card_name(name) {
            assert(name.take(4) =~= word);
        }
    }
}

} // verus!
