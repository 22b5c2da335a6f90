//! High dynamic range output: the metadata a panel is driven with, and which
//! properties of a connector carry it.

use vstd::prelude::*;
use vstd::string::*;

use crate::text::same;

verus! {

/// The transfer function of SMPTE ST 2084.
pub const EOTF_SMPTE_ST2084: u8 = 2;

/// The number of the first kind of static metadata.
pub const STATIC_METADATA_TYPE_1: u8 = 0;

/// A colour coordinate in units of 1/50000.
#[derive(Debug, Clone, Copy, PartialEq, Eq, Structural)]
pub struct Chromaticity {
    pub x: u16,
    pub y: u16,
}

/// The static metadata of an HDMI info frame.
#[derive(Debug, Clone, Copy, PartialEq, Eq, Structural)]
pub struct HdrMetadataInfoframe {
    pub eotf: u8,
    pub metadata_type: u8,
    pub red: Chromaticity,
    pub green: Chromaticity,
    pub blue: Chromaticity,
    pub white_point: Chromaticity,
    pub max_display_mastering_luminance: u16,
    pub min_display_mastering_luminance: u16,
    pub max_cll: u16,
    pub max_fall: u16,
}

/// The metadata of an output.
#[derive(Debug, Clone, Copy, PartialEq, Eq, Structural)]
pub struct HdrOutputMetadata {
    pub metadata_type: u32,
    pub hdmi_metadata_type1: HdrMetadataInfoframe,
}

/// The metadata of an output that shows PQ in BT.2020 primaries, mastered at
/// up to 1000 nits, with unknown content levels.
pub fn pq_rec2020_metadata() -> (r: HdrOutputMetadata)
    ensures
        r == (HdrOutputMetadata {
            metadata_type: 0,
            hdmi_metadata_type1: HdrMetadataInfoframe {
                eotf: 2,
                metadata_type: 0,
                red: Chromaticity { x: 35400, y: 14600 },
                green: Chromaticity { x: 8500, y: 39850 },
                blue: Chromaticity { x: 6550, y: 2300 },
                white_point: Chromaticity { x: 15635, y: 16450 },
                max_display_mastering_luminance: 1000,
                min_display_mastering_luminance: 1,
                max_cll: 0,
                max_fall: 0,
            },
        }),
{
    HdrOutputMetadata {
        metadata_type: STATIC_METADATA_TYPE_1 as u32,
        hdmi_metadata_type1: HdrMetadataInfoframe {
            eotf: EOTF_SMPTE_ST2084,
            metadata_type: STATIC_METADATA_TYPE_1,
            red: Chromaticity { x: 35400, y: 14600 },
            green: Chromaticity { x: 8500, y: 39850 },
            blue: Chromaticity { x: 6550, y: 2300 },
            white_point: Chromaticity { x: 15635, y: 16450 },
            max_display_mastering_luminance: 1000,
            min_display_mastering_luminance: 1,
            max_cll: 0,
            max_fall: 0,
        },
    }
}

/// A value of an enumerated connector property.
#[derive(Debug)]
pub struct EnumEntry {
    pub name: String,
    pub value: u64,
}

/// A property of a connector; `values` only where it is an enumeration.
#[derive(Debug)]
pub struct ConnectorProperty {
    pub name: String,
    pub values: Option<Vec<EnumEntry>>,
}

/// How a connector carries high dynamic range.
#[derive(Debug, Clone, Copy, PartialEq, Eq, Structural)]
pub struct HdrPlan {
    /// The value of the colour space property for BT.2020.
    pub colorspace: Option<u64>,
    /// The bits per channel to ask for.
    pub max_bpc: Option<u64>,
}

/// What is known after the first `n` properties.
#[derive(Debug, Clone, Copy, PartialEq, Eq, Structural)]
pub struct HdrScan {
    pub has_metadata: bool,
    pub has_max_bpc: bool,
    pub colorspace: Option<u64>,
}

/// The value of the first entry named `BT2020_RGB` at or after `from`.
pub open spec fn bt2020_value(es: Seq<EnumEntry>, from: int) -> Option<u64>
    decreases es.len() - from,
{
    if from < 0 || from >= es.len() {
        None
    } else if es[from].name@ == "BT2020_RGB"@ {
        Some(es[from].value)
    } else {
        bt2020_value(es, from + 1)
    }
}

/// What the first `n` properties say. A later property of a name replaces an
/// earlier one; a colour space that is no enumeration says nothing.
pub open spec fn scanned(ps: Seq<ConnectorProperty>, n: int) -> HdrScan
    decreases n,
{
    if n <= 0 {
        HdrScan { has_metadata: false, has_max_bpc: false, colorspace: None }
    } else {
        let s = scanned(ps, n - 1);
        let p = ps[n - 1];
        if p.name@ == "HDR_OUTPUT_METADATA"@ {
            HdrScan { has_metadata: true, ..s }
        } else if p.name@ == "max bpc"@ {
            HdrScan { has_max_bpc: true, ..s }
        } else if p.name@ == "Colorspace"@ {
            match p.values {
                Some(es) => HdrScan { colorspace: bt2020_value(es@, 0), ..s },
                None => s,
            }
        } else {
            s
        }
    }
}

fn find_bt2020(es: &Vec<EnumEntry>) -> (r: Option<u64>)
    ensures
        r == bt2020_value(es@, 0),
{
    let mut i: usize = 0;
    while i < es.len()
        invariant
            i <= es@.len(),
            bt2020_value(es@, 0) == bt2020_value(es@, i as int),
        decreases es@.len() - i,
    {
        if same(es[i].name.as_str(), "BT2020_RGB") {
            return Some(es[i].value);
        }
        i += 1;
    }
    None
}

/// How a connector with the given properties carries high dynamic range; none
/// where it has no property for the metadata.
pub fn hdr_metadata(properties: &Vec<ConnectorProperty>) -> (r: Option<HdrPlan>)
    ensures
        ({
            let s = scanned(properties@, properties@.len() as int);
            r == (if s.has_metadata {
                Some(
                    HdrPlan {
                        colorspace: s.colorspace,
                        max_bpc: if s.has_max_bpc {
                            Some(10u64)
                        } else {
                            None
                        },
                    },
                )
            } else {
                None
            })
        }),
{
    let mut has_metadata = false;
    let mut has_max_bpc = false;
    let mut colorspace: Option<u64> = None;
    let mut i: usize = 0;
    while i < properties.len()
        invariant
            i <= properties@.len(),
            scanned(properties@, i as int) == (HdrScan { has_metadata, has_max_bpc, colorspace }),
        decreases properties@.len() - i,
    {
        let name = properties[i].name.as_str();
        if same(name, "HDR_OUTPUT_METADATA") {
            has_metadata = true;
        } else if same(name, "max bpc") {
            has_max_bpc = true;
        } else if same(name, "Colorspace") {
            if let Some(es) = &properties[i].values {
                colorspace = find_bt2020(es);
            }
        }
        i += 1;
    }
    if !has_metadata {
        return None;
    }
    Some(
        HdrPlan {
            colorspace,
            max_bpc: if has_max_bpc {
                Some(10)
            } else {
                None
            },
        },
    )
}

/// The colour space is the value of the first entry with its name.
pub proof fn the_first_colour_space_of_the_name_counts(es: Seq<EnumEntry>, from: int)
    requires
        0 <= from,
    ensures
        match bt2020_value(es, from) {
            None => forall|i: int| from <= i < es.len() ==> (#[trigger] es[i]).name@ != "BT2020_RGB"@,
            Some(v) => exists|i: int|
                from <= i < es.len() && (#[trigger] es[i]).name@ == "BT2020_RGB"@ && es[i].value == v
                    && forall|j: int|
                    from <= j < i ==> (#[trigger] es[j]).name@ != "BT2020_RGB"@,
        },
    decreases es.len() - from,
{
    if from < es.len() {
        if es[from].name@ == "BT2020_RGB"@ {
            assert(es[from].value == es[from].value);
        } else {
            the_first_colour_space_of_the_name_counts(es, from + 1);
        }
    }
}

/// A connector has what a property among the ones looked at is named after,
/// and the last colour space that lists its values decides.
pub proof fn connectors_have_what_their_properties_name(ps: Seq<ConnectorProperty>, n: int, k: int)
    requires
        0 <= n <= ps.len(),
    ensures
        scanned(ps, n).has_metadata <==> exists|i: int|
            0 <= i < n && (#[trigger] ps[i]).name@ == "HDR_OUTPUT_METADATA"@,
        scanned(ps, n).has_max_bpc <==> exists|i: int|
            0 <= i < n && (#[trigger] ps[i]).name@ == "max bpc"@,
        0 <= k < n && ps[k].name@ == "Colorspace"@ && ps[k].values.is_some() && (forall|i: int|
            k < i < n ==> !((#[trigger] ps[i]).name@ == "Colorspace"@ && ps[i].values.is_some()))
            ==> scanned(ps, n).colorspace == bt2020_value(ps[k].values.unwrap()@, 0),
        (forall|i: int|
            0 <= i < n ==> !((#[trigger] ps[i]).name@ == "Colorspace"@ && ps[i].values.is_some()))
            ==> scanned(ps, n).colorspace.is_none(),
    decreases n,
{
    reveal_strlit("HDR_OUTPUT_METADATA");
    reveal_strlit("max bpc");
    reveal_strlit("Colorspace");
    assert("HDR_OUTPUT_METADATA"@.len() == 19);
    assert("max bpc"@.len() == 7);
    assert("Colorspace"@.len() == 10);
    if n > 0 {
        let last = ps[n - 1];
        assert(last.name@.len() == last.name@.len());
        connectors_have_what_their_properties_name(ps, n - 1, k);
    }
}

} // verus!
