use libreland::hdr::{
    hdr_metadata, pq_rec2020_metadata, ConnectorProperty, EnumEntry, EOTF_SMPTE_ST2084,
};

fn property(name: &str, values: Option<Vec<(&str, u64)>>) -> ConnectorProperty {
    ConnectorProperty {
        name: name.to_owned(),
        values: values.map(|vs| {
            vs.iter()
                .map(|(n, v)| EnumEntry { name: n.to_string(), value: *v })
                .collect()
        }),
    }
}

#[test]
fn a_display_without_metadata_shows_no_hdr() {
    assert_eq!(hdr_metadata(&vec![property("max bpc", None)]), None);
    assert_eq!(hdr_metadata(&vec![]), None);
}

#[test]
fn the_properties_of_the_connector_are_used() {
    let plan = hdr_metadata(&vec![
        property("Colorspace", Some(vec![("Default", 0), ("BT2020_RGB", 9)])),
        property("HDR_OUTPUT_METADATA", None),
        property("max bpc", None),
    ])
    .unwrap();
    assert_eq!(plan.colorspace, Some(9));
    assert_eq!(plan.max_bpc, Some(10));
    let plan = hdr_metadata(&vec![
        property("HDR_OUTPUT_METADATA", None),
        property("Colorspace", Some(vec![("Default", 0)])),
    ])
    .unwrap();
    assert_eq!(plan.colorspace, None);
    assert_eq!(plan.max_bpc, None);
}

#[test]
fn the_metadata_names_the_colours() {
    let m = pq_rec2020_metadata();
    assert_eq!(m.hdmi_metadata_type1.eotf, EOTF_SMPTE_ST2084);
    assert_eq!((m.hdmi_metadata_type1.red.x, m.hdmi_metadata_type1.red.y), (35400, 14600));
    assert_eq!(m.hdmi_metadata_type1.max_display_mastering_luminance, 1000);
}
