//! Colour management: what clients may say of their pictures' colours, and
//! what they are told of the outputs'.

use vstd::prelude::*;
use vstd::string::*;
use std::collections::HashMap;

use crate::config::MonitorsConfig;
use crate::window::SurfaceId;

verus! {

/// How bright the white of plain content is unless an output says otherwise,
/// in candela per square metre.
pub const DEFAULT_SDR_REFERENCE_WHITE: u32 = 203;

/// A set of named primary colours; those that nothing depends on go by their
/// protocol number.
#[derive(Debug, Clone, Copy, PartialEq, Eq, Structural)]
pub enum Primaries {
    Srgb,
    Bt2020,
    DisplayP3,
    Other(u32),
}

/// A named transfer function; those that nothing depends on go by their
/// protocol number.
#[derive(Debug, Clone, Copy, PartialEq, Eq, Structural)]
pub enum TransferFunction {
    Bt1886,
    Gamma22,
    ExtLinear,
    Srgb,
    St2084Pq,
    Hlg,
    Other(u32),
}

/// How the colours of a picture are fitted into those of an output.
#[derive(Debug, Clone, Copy, PartialEq, Eq, Structural)]
pub enum RenderIntent {
    Perceptual,
    Relative,
    Other(u32),
}

/// How a picture's values stand for light.
#[derive(Debug, Clone, Copy, PartialEq, Eq, Structural)]
pub enum Encoding {
    /// Gamma-encoded, within the usual range.
    Sdr,
    /// Perceptually quantised.
    Pq,
    /// Linear, beyond the usual range.
    Scrgb,
}

/// What is known of a picture's colours. The least luminance is in
/// ten-thousandths of a candela per square metre, the others in whole ones.
#[derive(Debug, Clone, Copy, PartialEq, Eq, Structural)]
pub struct ImageDescription {
    pub primaries: Primaries,
    pub tf: TransferFunction,
    pub min_lum: u32,
    pub max_lum: u32,
    pub reference_lum: u32,
    pub max_cll: Option<u32>,
    pub max_fall: Option<u32>,
}

impl ImageDescription {
    /// A description without light levels of its own.
    pub open spec fn plain(
        primaries: Primaries,
        tf: TransferFunction,
        min_lum: u32,
        max_lum: u32,
        reference_lum: u32,
    ) -> ImageDescription {
        ImageDescription {
            primaries,
            tf,
            min_lum,
            max_lum,
            reference_lum,
            max_cll: None,
            max_fall: None,
        }
    }

    /// Plain content.
    pub fn srgb(reference_lum: u32) -> (r: ImageDescription)
        ensures
            r == ImageDescription::plain(
                Primaries::Srgb,
                TransferFunction::Srgb,
                2,
                80,
                reference_lum,
            ),
    {
        ImageDescription {
            primaries: Primaries::Srgb,
            tf: TransferFunction::Srgb,
            min_lum: 2,
            max_lum: 80,
            reference_lum,
            max_cll: None,
            max_fall: None,
        }
    }

    /// High dynamic range content for an output of this peak.
    pub fn pq_bt2020(reference_lum: u32, max_lum: u32) -> (r: ImageDescription)
        ensures
            r == ImageDescription::plain(
                Primaries::Bt2020,
                TransferFunction::St2084Pq,
                5,
                max_lum,
                reference_lum,
            ),
    {
        ImageDescription {
            primaries: Primaries::Bt2020,
            tf: TransferFunction::St2084Pq,
            min_lum: 5,
            max_lum,
            reference_lum,
            max_cll: None,
            max_fall: None,
        }
    }

    /// The BT.2100 colours of Windows programs.
    pub fn windows_bt2100() -> (r: ImageDescription)
        ensures
            r == ImageDescription::plain(
                Primaries::Bt2020,
                TransferFunction::St2084Pq,
                0,
                10_000,
                203,
            ),
    {
        ImageDescription {
            primaries: Primaries::Bt2020,
            tf: TransferFunction::St2084Pq,
            min_lum: 0,
            max_lum: 10_000,
            reference_lum: 203,
            max_cll: None,
            max_fall: None,
        }
    }

    /// The scRGB colours of Windows programs.
    pub fn windows_scrgb() -> (r: ImageDescription)
        ensures
            r == ImageDescription::plain(
                Primaries::Srgb,
                TransferFunction::ExtLinear,
                0,
                10_000,
                203,
            ),
    {
        ImageDescription {
            primaries: Primaries::Srgb,
            tf: TransferFunction::ExtLinear,
            min_lum: 0,
            max_lum: 10_000,
            reference_lum: 203,
            max_cll: None,
            max_fall: None,
        }
    }

    /// How the values stand for light.
    pub open spec fn encoded(self) -> Encoding {
        match self.tf {
            TransferFunction::St2084Pq => Encoding::Pq,
            TransferFunction::Hlg => Encoding::Pq,
            TransferFunction::ExtLinear => Encoding::Scrgb,
            _ => Encoding::Sdr,
        }
    }

    /// How the values stand for light.
    pub fn encoding(&self) -> (r: Encoding)
        ensures
            r == self.encoded(),
    {
        match self.tf {
            TransferFunction::St2084Pq => Encoding::Pq,
            TransferFunction::Hlg => Encoding::Pq,
            TransferFunction::ExtLinear => Encoding::Scrgb,
            _ => Encoding::Sdr,
        }
    }

    /// Whether the picture goes beyond the usual range.
    pub fn is_hdr(&self) -> (r: bool)
        ensures
            r == (self.encoded() != Encoding::Sdr),
    {
        self.encoding() != Encoding::Sdr
    }
}

/// A description and the number it goes by.
#[derive(Debug, Clone, Copy, PartialEq, Eq, Structural)]
pub struct Identity {
    pub id: u32,
    pub desc: ImageDescription,
}

/// The first registration of a description at or after `from`.
pub open spec fn registered(items: Seq<Identity>, desc: ImageDescription, from: int) -> Option<int>
    decreases items.len() - from,
{
    if from < 0 || from >= items.len() {
        None
    } else if items[from].desc == desc {
        Some(from)
    } else {
        registered(items, desc, from + 1)
    }
}

/// The number that comes `n`th, counted from one and round again.
pub open spec fn nth_identity(n: int) -> int {
    n % 0x1_0000_0000
}

/// The numbers that descriptions go by, so that clients can tell whether two
/// are the same.
#[derive(Debug)]
pub struct IdentityRegistry {
    next: u32,
    items: Vec<Identity>,
}

impl IdentityRegistry {
    /// What is registered, in order.
    pub closed spec fn items(self) -> Seq<Identity> {
        self.items@
    }

    /// The numbers were given out in turn, and no description twice.
    pub closed spec fn valid(self) -> bool {
        &&& self.next == nth_identity(self.items@.len() as int)
        &&& forall|i: int|
            0 <= i < self.items@.len() ==> #[trigger] self.items@[i].id == nth_identity(i + 1)
        &&& forall|i: int, j: int|
            0 <= i < j < self.items@.len() ==> #[trigger] self.items@[i].desc
                != #[trigger] self.items@[j].desc
    }

    /// Nothing is registered.
    pub fn new() -> (r: IdentityRegistry)
        ensures
            r.items().len() == 0,
            r.valid(),
    {
        IdentityRegistry { next: 0, items: Vec::new() }
    }

    /// The number of a description, which is registered if it is new.
    pub fn identity_for(&mut self, desc: &ImageDescription) -> (r: u32)
        requires
            old(self).valid(),
        ensures
            final(self).valid(),
            match registered(old(self).items(), *desc, 0) {
                Some(i) => r == old(self).items()[i].id && final(self).items()
                    == old(self).items(),
                None => r == nth_identity(old(self).items().len() as int + 1) && final(self).items()
                    == old(self).items().push(Identity { id: r, desc: *desc }),
            },
    {
        let mut i: usize = 0;
        while i < self.items.len()
            invariant
                i <= self.items@.len(),
                self.valid(),
                *self == *old(self),
                registered(self.items@, *desc, 0) == registered(self.items@, *desc, i as int),
                forall|k: int| 0 <= k < i ==> #[trigger] self.items@[k].desc != *desc,
            decreases self.items@.len() - i,
        {
            if self.items[i].desc == *desc {
                return self.items[i].id;
            }
            i += 1;
        }
        self.next = if self.next == u32::MAX {
            0
        } else {
            self.next + 1
        };
        let id: u32 = self.next;
        self.items.push(Identity { id, desc: *desc });
        id
    }
}

proof fn registration_is_first(items: Seq<Identity>, desc: ImageDescription, from: int)
    requires
        0 <= from <= items.len(),
    ensures
        match registered(items, desc, from) {
            Some(i) => from <= i < items.len() && items[i].desc == desc,
            None => forall|j: int| from <= j < items.len() ==> #[trigger] items[j].desc != desc,
        },
    decreases items.len() - from,
{
    if from < items.len() && items[from].desc != desc {
        registration_is_first(items, desc, from + 1);
    }
}

proof fn registration_stays(
    items: Seq<Identity>,
    desc: ImageDescription,
    more: Identity,
    from: int,
)
    requires
        0 <= from <= items.len(),
        registered(items, desc, from).is_some(),
    ensures
        registered(items.push(more), desc, from) == registered(items, desc, from),
    decreases items.len() - from,
{
    if from < items.len() && items[from].desc != desc {
        registration_stays(items, desc, more, from + 1);
    }
}

/// A description keeps its number, whatever is registered after it.
pub proof fn identities_are_stable(items: Seq<Identity>, desc: ImageDescription, more: Identity)
    requires
        registered(items, desc, 0).is_some(),
    ensures
        ({
            let i = registered(items, desc, 0).unwrap();
            &&& registered(items.push(more), desc, 0) == Some(i)
            &&& items.push(more)[i] == items[i]
        }),
{
    registration_is_first(items, desc, 0);
    registration_stays(items, desc, more, 0);
}

/// Two descriptions go by the same number only if they are the same, as long
/// as not all numbers have been given out.
pub proof fn identities_tell_descriptions_apart(
    r: IdentityRegistry,
    a: ImageDescription,
    b: ImageDescription,
)
    requires
        r.valid(),
        r.items().len() <= u32::MAX,
        registered(r.items(), a, 0).is_some(),
        registered(r.items(), b, 0).is_some(),
    ensures
        r.items()[registered(r.items(), a, 0).unwrap()].id == r.items()[registered(
            r.items(),
            b,
            0,
        ).unwrap()].id <==> a == b,
{
    registration_is_first(r.items(), a, 0);
    registration_is_first(r.items(), b, 0);
}

/// Asked for a description again, a registry gives the same number and takes
/// nothing new in: what a client is told of a surface is the number of the
/// description that it then gets.
pub proof fn asking_again_gives_the_same_number(
    before: IdentityRegistry,
    between: IdentityRegistry,
    after: IdentityRegistry,
    desc: ImageDescription,
    first: u32,
    second: u32,
)
    requires
        registration(before, between, desc, first),
        registration(between, after, desc, second),
    ensures
        first == second,
        after.items() == between.items(),
{
    registration_is_first(before.items(), desc, 0);
    registration_is_first(between.items(), desc, 0);
    if registered(before.items(), desc, 0).is_none() {
        let n = before.items().len() as int;
        assert(between.items()[n].desc == desc);
        let k = registered(between.items(), desc, 0).unwrap();
        assert(k == n) by {
            if k < n {
                assert(between.items()[k] == before.items()[k]);
            }
        }
    }
}

/// What an image description object stands for.
#[derive(Debug, Clone, Copy, PartialEq, Eq, Structural)]
pub struct ImageDescriptionData {
    pub desc: ImageDescription,
    /// Whether the client may ask what it says.
    pub allow_info: bool,
}

/// Whether an object of this protocol version is told that it is ready by the
/// later form of the event.
pub fn uses_later_events(version: u32) -> (r: bool)
    ensures
        r == (version >= 2),
{
    version >= 2
}

/// The event that a description is ready, with its number in one word or two.
#[derive(Debug, Clone, Copy, PartialEq, Eq, Structural)]
pub enum ReadyEvent {
    Ready { identity: u32 },
    Ready2 { identity_hi: u32, identity_lo: u32 },
}

/// The event that a description is ready, in a protocol version.
pub open spec fn ready_event(version: u32, identity: u32) -> ReadyEvent {
    if version >= 2 {
        ReadyEvent::Ready2 { identity_hi: 0, identity_lo: identity }
    } else {
        ReadyEvent::Ready { identity }
    }
}

/// The event that a description is ready, in a protocol version.
pub fn send_ready(version: u32, identity: u32) -> (r: ReadyEvent)
    ensures
        r == ready_event(version, identity),
{
    if uses_later_events(version) {
        ReadyEvent::Ready2 { identity_hi: 0, identity_lo: identity }
    } else {
        ReadyEvent::Ready { identity }
    }
}

/// A description with its number, and the event that tells the client.
#[derive(Debug, Clone, Copy, PartialEq, Eq, Structural)]
pub struct DescriptionReply {
    pub data: ImageDescriptionData,
    pub identity: u32,
    pub event: ReadyEvent,
}

/// That a description goes by a number after a registry was asked for it.
pub open spec fn registration(
    before: IdentityRegistry,
    after: IdentityRegistry,
    desc: ImageDescription,
    id: u32,
) -> bool {
    match registered(before.items(), desc, 0) {
        Some(i) => id == before.items()[i].id && after.items() == before.items(),
        None => id == nth_identity(before.items().len() as int + 1) && after.items()
            == before.items().push(Identity { id, desc }),
    }
}

/// Offers a description that the client may ask about.
pub fn offer_description(
    registry: &mut IdentityRegistry,
    desc: ImageDescription,
    version: u32,
) -> (r: DescriptionReply)
    requires
        old(registry).valid(),
    ensures
        final(registry).valid(),
        r.data == (ImageDescriptionData { desc, allow_info: true }),
        registration(*old(registry), *final(registry), desc, r.identity),
        r.event == ready_event(version, r.identity),
{
    let identity: u32 = registry.identity_for(&desc);
    DescriptionReply {
        data: ImageDescriptionData { desc, allow_info: true },
        identity,
        event: send_ready(version, identity),
    }
}

/// What a client asks of the manager.
#[derive(Debug, Clone, Copy, PartialEq, Eq, Structural)]
pub enum ManagerRequest {
    /// The scRGB description of Windows programs.
    CreateWindowsScrgb,
    /// The BT.2100 description of Windows programs.
    CreateWindowsBt2100,
    /// A description by reference.
    GetImageDescription,
    /// A description by profile.
    CreateIccCreator,
}

/// What a client gets from the manager.
#[derive(Debug, Clone, Copy, PartialEq, Eq, Structural)]
pub enum ManagerReply {
    /// A description with its number.
    Ready(DescriptionReply),
    /// A description that has failed: such are not supported.
    Unsupported { data: ImageDescriptionData },
    /// A protocol error: the feature is not supported.
    UnsupportedFeature,
}

/// Answers a request to the manager. `preferred` is the description of the
/// primary output.
pub fn manager_request(
    registry: &mut IdentityRegistry,
    request: ManagerRequest,
    preferred: ImageDescription,
    version: u32,
) -> (r: ManagerReply)
    requires
        old(registry).valid(),
    ensures
        final(registry).valid(),
        match request {
            ManagerRequest::CreateWindowsScrgb => r matches ManagerReply::Ready(d)
                && d.data.desc == ImageDescription::plain(
                Primaries::Srgb,
                TransferFunction::ExtLinear,
                0,
                10_000,
                203,
            ) && !d.data.allow_info && registration(
                *old(registry),
                *final(registry),
                d.data.desc,
                d.identity,
            ) && d.event == ready_event(version, d.identity),
            ManagerRequest::CreateWindowsBt2100 => r matches ManagerReply::Ready(d)
                && d.data.desc == ImageDescription::plain(
                Primaries::Bt2020,
                TransferFunction::St2084Pq,
                0,
                10_000,
                203,
            ) && !d.data.allow_info && registration(
                *old(registry),
                *final(registry),
                d.data.desc,
                d.identity,
            ) && d.event == ready_event(version, d.identity),
            ManagerRequest::GetImageDescription => r == (ManagerReply::Unsupported {
                data: ImageDescriptionData { desc: preferred, allow_info: false },
            }) && final(registry).items() == old(registry).items(),
            ManagerRequest::CreateIccCreator => r == ManagerReply::UnsupportedFeature && final(registry).items() == old(registry).items(),
        },
{
    let desc = match request {
        ManagerRequest::CreateWindowsScrgb => ImageDescription::windows_scrgb(),
        ManagerRequest::CreateWindowsBt2100 => ImageDescription::windows_bt2100(),
        ManagerRequest::GetImageDescription => {
            return ManagerReply::Unsupported {
                data: ImageDescriptionData { desc: preferred, allow_info: false },
            };
        },
        ManagerRequest::CreateIccCreator => {
            return ManagerReply::UnsupportedFeature;
        },
    };
    let identity: u32 = registry.identity_for(&desc);
    ManagerReply::Ready(
        DescriptionReply {
            data: ImageDescriptionData { desc, allow_info: false },
            identity,
            event: send_ready(version, identity),
        },
    )
}

/// What the manager can do.
#[derive(Debug, Clone, Copy, PartialEq, Eq, Structural)]
pub enum Feature {
    Parametric,
    SetPrimaries,
    SetTfPower,
    SetLuminances,
    SetMasteringDisplayPrimaries,
    ExtendedTargetVolume,
    WindowsScrgb,
    WindowsBt2100,
}

/// What the manager can do in a protocol version.
pub open spec fn features(version: u32) -> Seq<Feature> {
    let base = seq![
        Feature::Parametric,
        Feature::SetPrimaries,
        Feature::SetTfPower,
        Feature::SetLuminances,
        Feature::SetMasteringDisplayPrimaries,
        Feature::ExtendedTargetVolume,
        Feature::WindowsScrgb,
    ];
    if version >= 3 {
        base.push(Feature::WindowsBt2100)
    } else {
        base
    }
}

/// What the manager can do in a protocol version.
pub fn supported_features(version: u32) -> (r: Vec<Feature>)
    ensures
        r@ == features(version),
{
    let mut out: Vec<Feature> = Vec::new();
    out.push(Feature::Parametric);
    out.push(Feature::SetPrimaries);
    out.push(Feature::SetTfPower);
    out.push(Feature::SetLuminances);
    out.push(Feature::SetMasteringDisplayPrimaries);
    out.push(Feature::ExtendedTargetVolume);
    out.push(Feature::WindowsScrgb);
    if version >= 3 {
        out.push(Feature::WindowsBt2100);
    }
    assert(out@ =~= features(version));
    out
}

/// The transfer functions that clients of a protocol version may name.
pub open spec fn transfer_functions(version: u32) -> Seq<TransferFunction> {
    let base = seq![
        TransferFunction::Bt1886,
        TransferFunction::Gamma22,
        TransferFunction::ExtLinear,
        TransferFunction::St2084Pq,
        TransferFunction::Hlg,
    ];
    if version < 2 {
        base.push(TransferFunction::Srgb)
    } else {
        base
    }
}

/// The transfer functions that clients of a protocol version may name.
pub fn supported_tfs(version: u32) -> (r: Vec<TransferFunction>)
    ensures
        r@ == transfer_functions(version),
{
    let mut out: Vec<TransferFunction> = Vec::new();
    out.push(TransferFunction::Bt1886);
    out.push(TransferFunction::Gamma22);
    out.push(TransferFunction::ExtLinear);
    out.push(TransferFunction::St2084Pq);
    out.push(TransferFunction::Hlg);
    if version < 2 {
        out.push(TransferFunction::Srgb);
    }
    assert(out@ =~= transfer_functions(version));
    out
}

/// The colours of an output: high dynamic range with a peak of 1000 where it
/// is switched on, else plain.
pub open spec fn output_colours(m: MonitorsConfig, name: Option<Seq<char>>) -> ImageDescription {
    let settings = match name {
        None => None,
        Some(n) => m.settings(n),
    };
    let reference: u32 = match settings {
        Some(s) => match s.sdr_reference_white {
            Some(w) => w,
            None => DEFAULT_SDR_REFERENCE_WHITE,
        },
        None => DEFAULT_SDR_REFERENCE_WHITE,
    };
    if settings.is_some() && settings.unwrap().hdr {
        ImageDescription::plain(
            Primaries::Bt2020,
            TransferFunction::St2084Pq,
            5,
            1000,
            reference,
        )
    } else {
        ImageDescription::plain(Primaries::Srgb, TransferFunction::Srgb, 2, 80, reference)
    }
}

/// The colours of an output.
pub fn output_image_description_by_name(monitors: &MonitorsConfig, name: Option<&str>) -> (r:
    ImageDescription)
    ensures
        r == output_colours(
            *monitors,
            match name {
                None => None,
                Some(n) => Some(n@),
            },
        ),
{
    let settings = match name {
        None => None,
        Some(n) => monitors.get(n),
    };
    match settings {
        None => ImageDescription::srgb(DEFAULT_SDR_REFERENCE_WHITE),
        Some(s) => {
            let reference: u32 = match s.sdr_reference_white {
                Some(w) => w,
                None => DEFAULT_SDR_REFERENCE_WHITE,
            };
            if s.hdr {
                ImageDescription::pq_bt2020(reference, 1000)
            } else {
                ImageDescription::srgb(reference)
            }
        },
    }
}

/// The colours that surfaces had best use: those of the primary output.
pub open spec fn preferred_colours(m: MonitorsConfig) -> ImageDescription {
    output_colours(
        m,
        match m.primary {
            None => None,
            Some(p) => Some(p@),
        },
    )
}

/// The colours that surfaces had best use: those of the primary output.
pub fn preferred_image_description(monitors: &MonitorsConfig) -> (r: ImageDescription)
    ensures
        r == preferred_colours(*monitors),
{
    match &monitors.primary {
        None => output_image_description_by_name(monitors, None),
        Some(p) => output_image_description_by_name(monitors, Some(p.as_str())),
    }
}

/// One request to a builder of descriptions. A name is missing where the
/// protocol does not know it.
#[derive(Debug, Clone, Copy, PartialEq, Eq, Structural)]
pub enum ParamsRequest {
    SetTfNamed { tf: Option<TransferFunction> },
    SetTfPower,
    SetPrimariesNamed { primaries: Option<Primaries> },
    SetPrimaries,
    SetLuminances { min_lum: u32, max_lum: u32, reference_lum: u32 },
    SetMaxCll { max_cll: u32 },
    SetMaxFall { max_fall: u32 },
    Create,
    /// Anything else.
    Ignored,
}

/// What a client did wrong.
#[derive(Debug, Clone, Copy, PartialEq, Eq, Structural)]
pub enum ParamsError {
    TfAlreadySet,
    PrimariesAlreadySet,
    InvalidTf,
    InvalidPrimariesNamed,
}

/// What a request leads to.
#[derive(Debug, Clone, Copy, PartialEq, Eq, Structural)]
pub enum ParamsReply {
    Nothing,
    Error(ParamsError),
    /// The description is made.
    Created(ImageDescription),
}

/// What a client has said of a description so far.
#[derive(Debug, Clone, Copy, PartialEq, Eq, Structural)]
pub struct ParamsBuilder {
    pub primaries: Option<Primaries>,
    pub tf: Option<TransferFunction>,
    pub min_lum: Option<u32>,
    pub max_lum: Option<u32>,
    pub reference_lum: Option<u32>,
    pub max_cll: Option<u32>,
    pub max_fall: Option<u32>,
}

/// A value, else another.
pub open spec fn given(v: Option<u32>, otherwise: u32) -> u32 {
    match v {
        None => otherwise,
        Some(v) => v,
    }
}

fn given_or(v: Option<u32>, otherwise: u32) -> (r: u32)
    ensures
        r == given(v, otherwise),
{
    match v {
        None => otherwise,
        Some(v) => v,
    }
}

/// The luminances of a transfer function where none are given: the least, the
/// greatest and that of white.
pub open spec fn usual_luminances(tf: TransferFunction) -> (u32, u32, u32) {
    match tf {
        TransferFunction::St2084Pq => (5, 10_000, 203),
        TransferFunction::Hlg => (5, 1000, 203),
        _ => (2, 80, 80),
    }
}

impl ParamsBuilder {
    /// Nothing is said yet.
    pub fn new() -> (r: ParamsBuilder)
        ensures
            r == (ParamsBuilder {
                primaries: None,
                tf: None,
                min_lum: None,
                max_lum: None,
                reference_lum: None,
                max_cll: None,
                max_fall: None,
            }),
    {
        ParamsBuilder {
            primaries: None,
            tf: None,
            min_lum: None,
            max_lum: None,
            reference_lum: None,
            max_cll: None,
            max_fall: None,
        }
    }

    /// The description made of what was said: plain where nothing was, with
    /// the usual luminances of its transfer function.
    pub open spec fn described(self) -> ImageDescription {
        let tf = match self.tf {
            None => TransferFunction::Srgb,
            Some(tf) => tf,
        };
        ImageDescription {
            primaries: match self.primaries {
                None => Primaries::Srgb,
                Some(p) => p,
            },
            tf,
            min_lum: given(self.min_lum, usual_luminances(tf).0),
            max_lum: given(self.max_lum, usual_luminances(tf).1),
            reference_lum: given(self.reference_lum, usual_luminances(tf).2),
            max_cll: self.max_cll,
            max_fall: self.max_fall,
        }
    }

    /// The builder after a request, and what the request leads to. The
    /// transfer function and the primaries can be set once; a power function
    /// counts as gamma 2.2, and primaries by coordinates as BT.2020.
    pub open spec fn after(self, request: ParamsRequest) -> (ParamsBuilder, ParamsReply) {
        match request {
            ParamsRequest::SetTfNamed { tf } => if self.tf.is_some() {
                (self, ParamsReply::Error(ParamsError::TfAlreadySet))
            } else if tf.is_none() {
                (self, ParamsReply::Error(ParamsError::InvalidTf))
            } else {
                (ParamsBuilder { tf, ..self }, ParamsReply::Nothing)
            },
            ParamsRequest::SetTfPower => if self.tf.is_some() {
                (self, ParamsReply::Error(ParamsError::TfAlreadySet))
            } else {
                (
                    ParamsBuilder { tf: Some(TransferFunction::Gamma22), ..self },
                    ParamsReply::Nothing,
                )
            },
            ParamsRequest::SetPrimariesNamed { primaries } => if self.primaries.is_some() {
                (self, ParamsReply::Error(ParamsError::PrimariesAlreadySet))
            } else if primaries.is_none() {
                (self, ParamsReply::Error(ParamsError::InvalidPrimariesNamed))
            } else {
                (ParamsBuilder { primaries, ..self }, ParamsReply::Nothing)
            },
            ParamsRequest::SetPrimaries => if self.primaries.is_some() {
                (self, ParamsReply::Error(ParamsError::PrimariesAlreadySet))
            } else {
                (
                    ParamsBuilder { primaries: Some(Primaries::Bt2020), ..self },
                    ParamsReply::Nothing,
                )
            },
            ParamsRequest::SetLuminances { min_lum, max_lum, reference_lum } => (
                ParamsBuilder {
                    min_lum: Some(min_lum),
                    max_lum: Some(max_lum),
                    reference_lum: Some(reference_lum),
                    ..self
                },
                ParamsReply::Nothing,
            ),
            ParamsRequest::SetMaxCll { max_cll } => (
                ParamsBuilder { max_cll: Some(max_cll), ..self },
                ParamsReply::Nothing,
            ),
            ParamsRequest::SetMaxFall { max_fall } => (
                ParamsBuilder { max_fall: Some(max_fall), ..self },
                ParamsReply::Nothing,
            ),
            ParamsRequest::Create => (self, ParamsReply::Created(self.described())),
            ParamsRequest::Ignored => (self, ParamsReply::Nothing),
        }
    }

    fn description(&self) -> (r: ImageDescription)
        ensures
            r == self.described(),
    {
        let tf = match self.tf {
            None => TransferFunction::Srgb,
            Some(tf) => tf,
        };
        let (min, max, reference): (u32, u32, u32) = match tf {
            TransferFunction::St2084Pq => (5, 10_000, DEFAULT_SDR_REFERENCE_WHITE),
            TransferFunction::Hlg => (5, 1000, DEFAULT_SDR_REFERENCE_WHITE),
            _ => (2, 80, 80),
        };
        ImageDescription {
            primaries: match self.primaries {
                None => Primaries::Srgb,
                Some(p) => p,
            },
            tf,
            min_lum: given_or(self.min_lum, min),
            max_lum: given_or(self.max_lum, max),
            reference_lum: given_or(self.reference_lum, reference),
            max_cll: self.max_cll,
            max_fall: self.max_fall,
        }
    }

    /// The description made of what was said, as the client gets it: it may
    /// ask about it.
    pub fn create(&self, registry: &mut IdentityRegistry, version: u32) -> (r: DescriptionReply)
        requires
            old(registry).valid(),
        ensures
            final(registry).valid(),
            r.data == (ImageDescriptionData { desc: self.described(), allow_info: true }),
            registration(*old(registry), *final(registry), r.data.desc, r.identity),
            r.event == ready_event(version, r.identity),
    {
        offer_description(registry, self.description(), version)
    }

    /// Takes a request in.
    pub fn request(&mut self, request: ParamsRequest) -> (r: ParamsReply)
        ensures
            (*final(self), r) == old(self).after(request),
    {
        match request {
            ParamsRequest::SetTfNamed { tf } => {
                if self.tf.is_some() {
                    return ParamsReply::Error(ParamsError::TfAlreadySet);
                }
                if tf.is_none() {
                    return ParamsReply::Error(ParamsError::InvalidTf);
                }
                self.tf = tf;
                ParamsReply::Nothing
            },
            ParamsRequest::SetTfPower => {
                if self.tf.is_some() {
                    return ParamsReply::Error(ParamsError::TfAlreadySet);
                }
                self.tf = Some(TransferFunction::Gamma22);
                ParamsReply::Nothing
            },
            ParamsRequest::SetPrimariesNamed { primaries } => {
                if self.primaries.is_some() {
                    return ParamsReply::Error(ParamsError::PrimariesAlreadySet);
                }
                if primaries.is_none() {
                    return ParamsReply::Error(ParamsError::InvalidPrimariesNamed);
                }
                self.primaries = primaries;
                ParamsReply::Nothing
            },
            ParamsRequest::SetPrimaries => {
                if self.primaries.is_some() {
                    return ParamsReply::Error(ParamsError::PrimariesAlreadySet);
                }
                self.primaries = Some(Primaries::Bt2020);
                ParamsReply::Nothing
            },
            ParamsRequest::SetLuminances { min_lum, max_lum, reference_lum } => {
                self.min_lum = Some(min_lum);
                self.max_lum = Some(max_lum);
                self.reference_lum = Some(reference_lum);
                ParamsReply::Nothing
            },
            ParamsRequest::SetMaxCll { max_cll } => {
                self.max_cll = Some(max_cll);
                ParamsReply::Nothing
            },
            ParamsRequest::SetMaxFall { max_fall } => {
                self.max_fall = Some(max_fall);
                ParamsReply::Nothing
            },
            ParamsRequest::Create => {
                ParamsReply::Created(self.description())
            },
            ParamsRequest::Ignored => ParamsReply::Nothing,
        }
    }
}

/// A refused request leaves the builder as it was.
pub proof fn refused_requests_change_nothing(b: ParamsBuilder, request: ParamsRequest)
    requires
        b.after(request).1 is Error,
    ensures
        b.after(request).0 == b,
{
}

/// Once the transfer function is set no request changes it, and so with the
/// primaries.
pub proof fn what_is_set_stays_set(b: ParamsBuilder, request: ParamsRequest)
    ensures
        b.tf.is_some() ==> b.after(request).0.tf == b.tf,
        b.primaries.is_some() ==> b.after(request).0.primaries == b.primaries,
{
}

/// The order in which a client says the different things does not matter.
pub proof fn order_of_parameters_does_not_matter(
    b: ParamsBuilder,
    tf: TransferFunction,
    primaries: Primaries,
    lum: (u32, u32, u32),
)
    ensures
        ({
            let t = ParamsRequest::SetTfNamed { tf: Some(tf) };
            let p = ParamsRequest::SetPrimariesNamed { primaries: Some(primaries) };
            let l = ParamsRequest::SetLuminances {
                min_lum: lum.0,
                max_lum: lum.1,
                reference_lum: lum.2,
            };
            &&& b.after(t).0.after(p).0 == b.after(p).0.after(t).0
            &&& b.after(t).0.after(l).0 == b.after(l).0.after(t).0
            &&& b.after(p).0.after(l).0 == b.after(l).0.after(p).0
        }),
{
}

/// The event that tells which description goes with a surface best: the later
/// form has the number in two words, of which the high one is always zero.
#[derive(Debug, Clone, Copy, PartialEq, Eq, Structural)]
pub enum PreferredEvent {
    PreferredChanged { identity: u32 },
    PreferredChanged2 { identity_hi: u32, identity_lo: u32 },
}

/// The event that another description goes with a surface best, in a protocol
/// version.
pub open spec fn preferred_event(version: u32, identity: u32) -> PreferredEvent {
    if version >= 2 {
        PreferredEvent::PreferredChanged2 { identity_hi: 0, identity_lo: identity }
    } else {
        PreferredEvent::PreferredChanged { identity }
    }
}

/// The description that goes with a surface best, with its number, and the
/// event that tells the client.
#[derive(Debug, Clone, Copy, PartialEq, Eq, Structural)]
pub struct SurfaceFeedback {
    pub desc: ImageDescription,
    pub identity: u32,
    pub event: PreferredEvent,
}

/// What a client is told when it asks for a surface's feedback: the number of
/// the colours of the primary output.
pub fn get_surface_feedback(
    registry: &mut IdentityRegistry,
    monitors: &MonitorsConfig,
    version: u32,
) -> (r: SurfaceFeedback)
    requires
        old(registry).valid(),
    ensures
        final(registry).valid(),
        r.desc == preferred_colours(*monitors),
        registration(*old(registry), *final(registry), r.desc, r.identity),
        r.event == preferred_event(version, r.identity),
{
    let desc = preferred_image_description(monitors);
    let identity: u32 = registry.identity_for(&desc);
    let event = if uses_later_events(version) {
        PreferredEvent::PreferredChanged2 { identity_hi: 0, identity_lo: identity }
    } else {
        PreferredEvent::PreferredChanged { identity }
    };
    SurfaceFeedback { desc, identity, event }
}

/// The description that goes with a surface best, which is that of the primary
/// output: the client may ask about it.
pub fn get_preferred(registry: &mut IdentityRegistry, monitors: &MonitorsConfig, version: u32) -> (r:
    DescriptionReply)
    requires
        old(registry).valid(),
    ensures
        final(registry).valid(),
        r.data == (ImageDescriptionData { desc: preferred_colours(*monitors), allow_info: true }),
        registration(*old(registry), *final(registry), r.data.desc, r.identity),
        r.event == ready_event(version, r.identity),
{
    let desc = preferred_image_description(monitors);
    offer_description(registry, desc, version)
}

/// The description of an output: the client may ask about it. An output that
/// is gone has no name, and is described as one without settings.
pub fn get_output_description(
    registry: &mut IdentityRegistry,
    monitors: &MonitorsConfig,
    name: Option<&str>,
    version: u32,
) -> (r: DescriptionReply)
    requires
        old(registry).valid(),
    ensures
        final(registry).valid(),
        r.data == (ImageDescriptionData {
            desc: output_colours(
                *monitors,
                match name {
                    None => None,
                    Some(n) => Some(n@),
                },
            ),
            allow_info: true,
        }),
        registration(*old(registry), *final(registry), r.data.desc, r.identity),
        r.event == ready_event(version, r.identity),
{
    let desc = output_image_description_by_name(monitors, name);
    offer_description(registry, desc, version)
}

/// A piece of what a client is told of a description.
#[derive(Debug, Clone, Copy, PartialEq, Eq, Structural)]
pub enum InfoEvent {
    PrimariesNamed(Primaries),
    TfNamed(TransferFunction),
    Luminances { least: u32, greatest: u32, white: u32 },
    TargetLuminance { min_lum: u32, max_lum: u32 },
    TargetMaxCll(u32),
    TargetMaxFall(u32),
    Done,
}

/// What a client is told of a description.
pub open spec fn told_of(desc: ImageDescription) -> Seq<InfoEvent> {
    seq![
        InfoEvent::PrimariesNamed(desc.primaries),
        InfoEvent::TfNamed(desc.tf),
        InfoEvent::Luminances {
            least: desc.min_lum,
            greatest: desc.max_lum,
            white: desc.reference_lum,
        },
        InfoEvent::TargetLuminance { min_lum: desc.min_lum, max_lum: desc.max_lum },
    ] + (match desc.max_cll {
        None => seq![],
        Some(v) => seq![InfoEvent::TargetMaxCll(v)],
    }) + (match desc.max_fall {
        None => seq![],
        Some(v) => seq![InfoEvent::TargetMaxFall(v)],
    }) + seq![InfoEvent::Done]
}

/// What a client is told of a description; None where it may not ask.
pub fn get_information(data: &ImageDescriptionData) -> (r: Option<Vec<InfoEvent>>)
    ensures
        r.is_some() <==> data.allow_info,
        r.is_some() ==> r.unwrap()@ == told_of(data.desc),
{
    if !data.allow_info {
        return None;
    }
    let desc = data.desc;
    let mut out: Vec<InfoEvent> = Vec::new();
    out.push(InfoEvent::PrimariesNamed(desc.primaries));
    out.push(InfoEvent::TfNamed(desc.tf));
    out.push(
        InfoEvent::Luminances {
            least: desc.min_lum,
            greatest: desc.max_lum,
            white: desc.reference_lum,
        },
    );
    out.push(InfoEvent::TargetLuminance { min_lum: desc.min_lum, max_lum: desc.max_lum });
    if let Some(v) = desc.max_cll {
        out.push(InfoEvent::TargetMaxCll(v));
    }
    if let Some(v) = desc.max_fall {
        out.push(InfoEvent::TargetMaxFall(v));
    }
    out.push(InfoEvent::Done);
    assert(out@ =~= told_of(desc));
    Some(out)
}

/// The colours that a client has given a surface.
#[derive(Debug, Clone, Copy, PartialEq, Eq, Structural)]
pub struct SurfaceColor {
    pub image_description: ImageDescription,
    pub render_intent: RenderIntent,
}

/// What is wrong with the colours that a client gives a surface.
#[derive(Debug, Clone, Copy, PartialEq, Eq, Structural)]
pub enum SurfaceError {
    /// The description is not ready.
    ImageDescription,
    /// The intent is not known.
    RenderIntent,
}

/// The colours of all surfaces that have been given some.
pub struct SurfaceColors {
    surfaces: HashMap<u64, SurfaceColor>,
}

impl SurfaceColors {
    /// The colours by surface.
    pub closed spec fn colours(self) -> Map<SurfaceId, SurfaceColor> {
        self.surfaces@
    }

    /// Whether a surface has colours beyond the usual range.
    pub open spec fn glows(self, surface: SurfaceId) -> bool {
        self.colours().dom().contains(surface)
            && self.colours()[surface].image_description.encoded() != Encoding::Sdr
    }

    /// No surface has any.
    pub fn new() -> (r: SurfaceColors)
        ensures
            r.colours() == Map::<SurfaceId, SurfaceColor>::empty(),
    {
        SurfaceColors { surfaces: HashMap::new() }
    }

    /// Gives a surface colours. The description is missing where its object
    /// is not ready, the intent where the protocol does not know it.
    pub fn set_image_description(
        &mut self,
        surface: SurfaceId,
        data: Option<ImageDescriptionData>,
        intent: Option<RenderIntent>,
    ) -> (r: Result<(), SurfaceError>)
        ensures
            match (data, intent) {
                (None, _) => r == Err::<(), SurfaceError>(SurfaceError::ImageDescription)
                    && final(self).colours() == old(self).colours(),
                (_, None) => r == Err::<(), SurfaceError>(SurfaceError::RenderIntent) && final(self).colours() == old(self).colours(),
                (Some(d), Some(i)) => r.is_ok() && final(self).colours()
                    == old(self).colours().insert(
                    surface,
                    SurfaceColor { image_description: d.desc, render_intent: i },
                ),
            },
    {
        broadcast use vstd::std_specs::hash::group_hash_axioms;

        let d = match data {
            None => {
                return Err(SurfaceError::ImageDescription);
            },
            Some(d) => d,
        };
        let i = match intent {
            None => {
                return Err(SurfaceError::RenderIntent);
            },
            Some(i) => i,
        };
        self.surfaces.insert(
            surface,
            SurfaceColor { image_description: d.desc, render_intent: i },
        );
        Ok(())
    }

    /// Takes a surface's colours away.
    pub fn unset_image_description(&mut self, surface: SurfaceId)
        ensures
            final(self).colours() == old(self).colours().remove(surface),
    {
        broadcast use vstd::std_specs::hash::group_hash_axioms;

        self.surfaces.remove(&surface);
    }

    /// Whether a surface has colours beyond the usual range.
    pub fn is_hdr(&self, surface: SurfaceId) -> (r: bool)
        ensures
            r == self.glows(surface),
    {
        broadcast use vstd::std_specs::hash::group_hash_axioms;

        match self.surfaces.get(&surface) {
            None => false,
            Some(c) => c.image_description.is_hdr(),
        }
    }

    /// Whether any of the surfaces of a window has colours beyond the usual
    /// range.
    pub fn window_is_hdr(&self, tree: &Vec<SurfaceId>) -> (r: bool)
        ensures
            r == (exists|i: int| 0 <= i < tree@.len() && self.glows(#[trigger] tree@[i])),
    {
        let mut i: usize = 0;
        while i < tree.len()
            invariant
                i <= tree@.len(),
                forall|k: int| 0 <= k < i ==> !self.glows(#[trigger] tree@[k]),
            decreases tree@.len() - i,
        {
            if self.is_hdr(tree[i]) {
                assert(self.glows(tree@[i as int]));
                return true;
            }
            i += 1;
        }
        false
    }
}

/// A picture goes beyond the usual range exactly where its values are those of
/// a wide transfer function.
pub proof fn wide_functions_are_beyond_the_usual_range(d: ImageDescription)
    ensures
        d.encoded() == Encoding::Pq <==> d.tf == TransferFunction::St2084Pq || d.tf
            == TransferFunction::Hlg,
        d.encoded() == Encoding::Scrgb <==> d.tf == TransferFunction::ExtLinear,
{
}

/// A description is found where it is registered, at its first place.
pub proof fn registered_descriptions_are_found(
    items: Seq<Identity>,
    desc: ImageDescription,
    from: int,
)
    requires
        0 <= from,
    ensures
        match registered(items, desc, from) {
            None => forall|i: int| from <= i < items.len() ==> (#[trigger] items[i]).desc != desc,
            Some(k) => from <= k < items.len() && items[k].desc == desc && forall|i: int|
                from <= i < k ==> (#[trigger] items[i]).desc != desc,
        },
    decreases items.len() - from,
{
    if from < items.len() && items[from].desc != desc {
        registered_descriptions_are_found(items, desc, from + 1);
    }
}

/// An output that is set to high dynamic range has wide colours and up to a
/// thousand candelas; any other has plain ones. White is as bright as it is
/// set to be, and 203 candelas where it is not.
pub proof fn outputs_have_the_colours_they_are_set_to(m: MonitorsConfig, name: Seq<char>)
    ensures
        ({
            let d = output_colours(m, Some(name));
            &&& m.settings(name) matches Some(s) ==> {
                &&& s.hdr ==> d.primaries == Primaries::Bt2020 && d.tf == TransferFunction::St2084Pq
                    && d.max_lum == 1000 && d.min_lum == 5
                &&& !s.hdr ==> d.primaries == Primaries::Srgb && d.tf == TransferFunction::Srgb
                    && d.max_lum == 80 && d.min_lum == 2
                &&& s.sdr_reference_white matches Some(w) ==> d.reference_lum == w
                &&& s.sdr_reference_white.is_none() ==> d.reference_lum == 203
            }
            &&& m.settings(name).is_none() ==> d == output_colours(m, None)
            &&& d.max_cll.is_none() && d.max_fall.is_none()
        }),
        output_colours(m, None).primaries == Primaries::Srgb,
        output_colours(m, None).tf == TransferFunction::Srgb,
        output_colours(m, None).reference_lum == 203,
{
}

/// Surfaces had best use the colours of the primary output, and plain ones
/// where there is none.
pub proof fn surfaces_go_by_the_primary_output(m: MonitorsConfig)
    ensures
        m.primary matches Some(p) ==> preferred_colours(m) == output_colours(m, Some(p@)),
        m.primary.is_none() ==> preferred_colours(m) == output_colours(m, None),
{
}

/// What a client says of its colours counts; of what it does not say, plain
/// colours and the luminances that go with its transfer function.
pub proof fn what_is_not_said_is_as_usual(b: ParamsBuilder)
    ensures
        ({
            let d = b.described();
            &&& b.primaries matches Some(p) ==> d.primaries == p
            &&& b.primaries.is_none() ==> d.primaries == Primaries::Srgb
            &&& b.tf matches Some(t) ==> d.tf == t
            &&& b.tf.is_none() ==> d.tf == TransferFunction::Srgb
            &&& b.min_lum matches Some(v) ==> d.min_lum == v
            &&& b.max_lum matches Some(v) ==> d.max_lum == v
            &&& b.reference_lum matches Some(v) ==> d.reference_lum == v
            &&& d.max_cll == b.max_cll
            &&& d.max_fall == b.max_fall
            &&& b.max_lum.is_none() ==> d.max_lum == (if b.tf == Some(TransferFunction::St2084Pq) {
                10_000int
            } else if b.tf == Some(TransferFunction::Hlg) {
                1000int
            } else {
                80int
            })
            &&& b.min_lum.is_none() ==> d.min_lum == (if b.tf == Some(TransferFunction::St2084Pq)
                || b.tf == Some(TransferFunction::Hlg) {
                5int
            } else {
                2int
            })
            &&& b.reference_lum.is_none() ==> d.reference_lum == (if b.tf == Some(
                TransferFunction::St2084Pq,
            ) || b.tf == Some(TransferFunction::Hlg) {
                203int
            } else {
                80int
            })
        }),
{
}

/// Numbers are told in two halves from the second protocol version on; both
/// events say the same number.
pub proof fn numbers_are_told_in_the_way_of_the_version(version: u32, identity: u32)
    ensures
        version < 2 ==> ready_event(version, identity) == (ReadyEvent::Ready { identity })
            && preferred_event(version, identity) == (PreferredEvent::PreferredChanged { identity }),
        version >= 2 ==> ready_event(version, identity) == (ReadyEvent::Ready2 {
            identity_hi: 0,
            identity_lo: identity,
        }) && preferred_event(version, identity) == (PreferredEvent::PreferredChanged2 {
            identity_hi: 0,
            identity_lo: identity,
        }),
{
}

/// A description that is made says what its client set: the transfer function
/// and the primaries by name, gamma 2.2 for a power function, BT.2020 for
/// primaries by coordinates, the luminances and the peaks.
pub proof fn descriptions_say_what_was_set(
    b: ParamsBuilder,
    tf: TransferFunction,
    p: Primaries,
    least: u32,
    greatest: u32,
    white: u32,
)
    ensures
        b.after(ParamsRequest::Create).1 == ParamsReply::Created(b.described()),
        b.tf.is_none() ==> b.after(
            ParamsRequest::SetTfNamed { tf: Some(tf) },
        ).0.described().tf == tf,
        b.tf.is_none() ==> b.after(ParamsRequest::SetTfPower).0.described().tf
            == TransferFunction::Gamma22,
        b.primaries.is_none() ==> b.after(
            ParamsRequest::SetPrimariesNamed { primaries: Some(p) },
        ).0.described().primaries == p,
        b.primaries.is_none() ==> b.after(ParamsRequest::SetPrimaries).0.described().primaries
            == Primaries::Bt2020,
        b.tf.is_some() ==> b.after(ParamsRequest::SetTfPower).1 == ParamsReply::Error(
            ParamsError::TfAlreadySet,
        ),
        b.primaries.is_some() ==> b.after(ParamsRequest::SetPrimaries).1 == ParamsReply::Error(
            ParamsError::PrimariesAlreadySet,
        ),
        ({
            let d = b.after(
                ParamsRequest::SetLuminances {
                    min_lum: least,
                    max_lum: greatest,
                    reference_lum: white,
                },
            ).0.described();
            d.min_lum == least && d.max_lum == greatest && d.reference_lum == white
        }),
        b.after(ParamsRequest::SetMaxCll { max_cll: greatest }).0.described().max_cll == Some(
            greatest,
        ),
        b.after(ParamsRequest::SetMaxFall { max_fall: white }).0.described().max_fall == Some(white),
        b.after(ParamsRequest::Ignored).0 == b,
{
}

/// Later protocol versions can do more: from the third on, the colours of
/// BT.2100. Of transfer functions they name one less: sRGB only in the first.
pub proof fn versions_can_do_what_they_name(version: u32)
    ensures
        features(version).contains(Feature::WindowsBt2100) <==> version >= 3,
        transfer_functions(version).contains(TransferFunction::Srgb) <==> version < 2,
        features(version).contains(Feature::Parametric),
        transfer_functions(version).contains(TransferFunction::St2084Pq),
{
    let f = features(version);
    let t = transfer_functions(version);
    assert(f[0] == Feature::Parametric);
    assert(t[3] == TransferFunction::St2084Pq);
    if version >= 3 {
        assert(f[7] == Feature::WindowsBt2100);
    }
    if version < 2 {
        assert(t[5] == TransferFunction::Srgb);
    }
}

} // verus!
