use libreland::color_management::{
    get_information, get_output_description, get_preferred, get_surface_feedback, manager_request,
    output_image_description_by_name, preferred_image_description, send_ready,
    supported_features, supported_tfs, uses_later_events, DescriptionReply, Encoding, Feature,
    IdentityRegistry, ImageDescription, ImageDescriptionData, InfoEvent, ManagerReply,
    ManagerRequest, ParamsBuilder, ParamsError, ParamsReply, ParamsRequest, PreferredEvent,
    Primaries, ReadyEvent, RenderIntent, SurfaceColors, SurfaceError, SurfaceFeedback,
    TransferFunction,
};
use libreland::config::{MonitorsConfig, NamedOutput, OutputConfig};

#[test]
fn transfer_functions_decide_the_encoding() {
    assert_eq!(ImageDescription::srgb(203).encoding(), Encoding::Sdr);
    assert_eq!(ImageDescription::pq_bt2020(203, 1000).encoding(), Encoding::Pq);
    assert_eq!(ImageDescription::windows_scrgb().encoding(), Encoding::Scrgb);
    assert_eq!(ImageDescription::windows_bt2100().encoding(), Encoding::Pq);
    let hlg = ImageDescription { tf: TransferFunction::Hlg, ..ImageDescription::srgb(80) };
    assert_eq!(hlg.encoding(), Encoding::Pq);
    assert!(hlg.is_hdr());
    assert!(!ImageDescription::srgb(203).is_hdr());
    let srgb = ImageDescription::srgb(150);
    assert_eq!((srgb.min_lum, srgb.max_lum, srgb.reference_lum), (2, 80, 150));
    let pq = ImageDescription::pq_bt2020(150, 900);
    assert_eq!((pq.min_lum, pq.max_lum, pq.reference_lum), (5, 900, 150));
}

#[test]
fn equal_descriptions_share_their_identity() {
    let mut r = IdentityRegistry::new();
    let a = ImageDescription::srgb(203);
    let b = ImageDescription::srgb(204);
    assert_eq!(r.identity_for(&a), 1);
    assert_eq!(r.identity_for(&b), 2);
    assert_eq!(r.identity_for(&a), 1);
}

#[test]
fn parameters_are_set_once_and_have_defaults() {
    let mut b = ParamsBuilder::new();
    assert_eq!(
        b.request(ParamsRequest::SetTfNamed { tf: None }),
        ParamsReply::Error(ParamsError::InvalidTf)
    );
    assert_eq!(
        b.request(ParamsRequest::SetPrimariesNamed { primaries: None }),
        ParamsReply::Error(ParamsError::InvalidPrimariesNamed)
    );
    let pq = Some(TransferFunction::St2084Pq);
    assert_eq!(b.request(ParamsRequest::SetTfNamed { tf: pq }), ParamsReply::Nothing);
    assert_eq!(
        b.request(ParamsRequest::SetTfPower),
        ParamsReply::Error(ParamsError::TfAlreadySet)
    );
    assert_eq!(
        b.request(ParamsRequest::SetTfNamed { tf: None }),
        ParamsReply::Error(ParamsError::TfAlreadySet)
    );
    assert_eq!(b.request(ParamsRequest::SetPrimaries), ParamsReply::Nothing);
    assert_eq!(
        b.request(ParamsRequest::SetPrimaries),
        ParamsReply::Error(ParamsError::PrimariesAlreadySet)
    );
    b.request(ParamsRequest::SetMaxCll { max_cll: 900 });
    b.request(ParamsRequest::SetMaxFall { max_fall: 400 });
    b.request(ParamsRequest::Ignored);
    assert_eq!(
        b.request(ParamsRequest::Create),
        ParamsReply::Created(ImageDescription {
            primaries: Primaries::Bt2020,
            tf: TransferFunction::St2084Pq,
            min_lum: 5,
            max_lum: 10_000,
            reference_lum: 203,
            max_cll: Some(900),
            max_fall: Some(400),
        })
    );
    let mut plain = ParamsBuilder::new();
    let ParamsReply::Created(d) = plain.request(ParamsRequest::Create) else {
        panic!("not created");
    };
    assert_eq!(d, ImageDescription::srgb(80));
    let mut hlg = ParamsBuilder::new();
    hlg.request(ParamsRequest::SetTfNamed { tf: Some(TransferFunction::Hlg) });
    hlg.request(ParamsRequest::SetLuminances { min_lum: 1, max_lum: 2, reference_lum: 3 });
    let ParamsReply::Created(d) = hlg.request(ParamsRequest::Create) else {
        panic!("not created");
    };
    assert_eq!((d.min_lum, d.max_lum, d.reference_lum), (1, 2, 3));
    let mut power = ParamsBuilder::new();
    power.request(ParamsRequest::SetTfPower);
    let ParamsReply::Created(d) = power.request(ParamsRequest::Create) else {
        panic!("not created");
    };
    assert_eq!(d.tf, TransferFunction::Gamma22);
}

#[test]
fn the_manager_offers_what_a_version_has() {
    assert_eq!(supported_features(2).len(), 7);
    assert_eq!(supported_features(3).last(), Some(&Feature::WindowsBt2100));
    assert_eq!(supported_tfs(1).last(), Some(&TransferFunction::Srgb));
    assert_eq!(supported_tfs(2).len(), 5);
    assert!(uses_later_events(2));
    assert!(!uses_later_events(1));
}

#[test]
fn the_manager_answers() {
    let mut r = IdentityRegistry::new();
    let preferred = ImageDescription::srgb(203);
    let data = ImageDescriptionData { desc: ImageDescription::windows_scrgb(), allow_info: false };
    assert_eq!(
        manager_request(&mut r, ManagerRequest::CreateWindowsScrgb, preferred, 1),
        ManagerReply::Ready(DescriptionReply {
            data,
            identity: 1,
            event: ReadyEvent::Ready { identity: 1 },
        })
    );
    let data = ImageDescriptionData { desc: ImageDescription::windows_bt2100(), allow_info: false };
    assert_eq!(
        manager_request(&mut r, ManagerRequest::CreateWindowsBt2100, preferred, 3),
        ManagerReply::Ready(DescriptionReply {
            data,
            identity: 2,
            event: ReadyEvent::Ready2 { identity_hi: 0, identity_lo: 2 },
        })
    );
    let data = ImageDescriptionData { desc: preferred, allow_info: false };
    assert_eq!(
        manager_request(&mut r, ManagerRequest::GetImageDescription, preferred, 1),
        ManagerReply::Unsupported { data }
    );
    assert_eq!(
        manager_request(&mut r, ManagerRequest::CreateIccCreator, preferred, 1),
        ManagerReply::UnsupportedFeature
    );
}

#[test]
fn outputs_have_the_colours_they_are_set_to() {
    let hdr = OutputConfig { hdr: true, sdr_reference_white: Some(300), ..OutputConfig::default() };
    let m = MonitorsConfig {
        outputs: vec![NamedOutput { name: "DP-1".to_owned(), settings: hdr }],
        primary: Some("DP-1".to_owned()),
    };
    assert_eq!(
        output_image_description_by_name(&m, Some("DP-1")),
        ImageDescription::pq_bt2020(300, 1000)
    );
    assert_eq!(
        output_image_description_by_name(&m, Some("DP-2")),
        ImageDescription::srgb(203)
    );
    assert_eq!(output_image_description_by_name(&m, None), ImageDescription::srgb(203));
    assert_eq!(preferred_image_description(&m), ImageDescription::pq_bt2020(300, 1000));
    let none = MonitorsConfig { outputs: vec![], primary: None };
    assert_eq!(preferred_image_description(&none), ImageDescription::srgb(203));
}

#[test]
fn information_is_given_where_it_may_be() {
    let desc = ImageDescription { max_cll: Some(900), ..ImageDescription::pq_bt2020(203, 1000) };
    assert_eq!(get_information(&ImageDescriptionData { desc, allow_info: false }), None);
    assert_eq!(
        get_information(&ImageDescriptionData { desc, allow_info: true }),
        Some(vec![
            InfoEvent::PrimariesNamed(Primaries::Bt2020),
            InfoEvent::TfNamed(TransferFunction::St2084Pq),
            InfoEvent::Luminances { least: 5, greatest: 1000, white: 203 },
            InfoEvent::TargetLuminance { min_lum: 5, max_lum: 1000 },
            InfoEvent::TargetMaxCll(900),
            InfoEvent::Done,
        ])
    );
}

#[test]
fn surfaces_are_tagged() {
    let mut s = SurfaceColors::new();
    let hdr = ImageDescriptionData { desc: ImageDescription::pq_bt2020(203, 1000), allow_info: true };
    let intent = Some(RenderIntent::Perceptual);
    assert_eq!(
        s.set_image_description(1, None, intent),
        Err(SurfaceError::ImageDescription)
    );
    assert_eq!(
        s.set_image_description(1, Some(hdr), None),
        Err(SurfaceError::RenderIntent)
    );
    assert!(!s.is_hdr(1));
    assert_eq!(s.set_image_description(1, Some(hdr), intent), Ok(()));
    assert!(s.is_hdr(1));
    assert!(s.window_is_hdr(&vec![5, 1]));
    assert!(!s.window_is_hdr(&vec![5]));
    s.unset_image_description(1);
    assert!(!s.is_hdr(1));
}

/// The number that a client is told of a surface is that of the description it
/// then gets; it may ask about it, and about that of an output.
#[test]
fn clients_are_told_of_outputs_and_surfaces() {
    let hdr = OutputConfig { hdr: true, sdr_reference_white: Some(300), ..OutputConfig::default() };
    let m = MonitorsConfig {
        outputs: vec![NamedOutput { name: "DP-1".to_owned(), settings: hdr }],
        primary: Some("DP-1".to_owned()),
    };
    let mut r = IdentityRegistry::new();
    let desc = ImageDescription::pq_bt2020(300, 1000);
    let feedback = get_surface_feedback(&mut r, &m, 1);
    let event = PreferredEvent::PreferredChanged { identity: 1 };
    assert_eq!(feedback, SurfaceFeedback { desc, identity: 1, event });
    let event = PreferredEvent::PreferredChanged2 { identity_hi: 0, identity_lo: 1 };
    assert_eq!(get_surface_feedback(&mut r, &m, 2).event, event);
    let data = ImageDescriptionData { desc, allow_info: true };
    let event = ReadyEvent::Ready { identity: 1 };
    let reply = DescriptionReply { data, identity: 1, event };
    assert_eq!(get_preferred(&mut r, &m, 1), reply);
    assert_eq!(get_output_description(&mut r, &m, Some("DP-1"), 1), reply);
    let plain = ImageDescription::srgb(203);
    let other = get_output_description(&mut r, &m, Some("DP-2"), 2);
    assert_eq!(other.data, ImageDescriptionData { desc: plain, allow_info: true });
    assert_eq!(other.identity, 2);
    assert_eq!(other.event, ReadyEvent::Ready2 { identity_hi: 0, identity_lo: 2 });
    assert_eq!(get_output_description(&mut r, &m, None, 2), other);
}

#[test]
fn made_descriptions_get_a_number() {
    let mut r = IdentityRegistry::new();
    let mut b = ParamsBuilder::new();
    b.request(ParamsRequest::SetTfPower);
    let made = b.create(&mut r, 1);
    assert_eq!(b.request(ParamsRequest::Create), ParamsReply::Created(made.data.desc));
    assert!(made.data.allow_info);
    assert_eq!(made.identity, 1);
    assert_eq!(made.event, send_ready(1, 1));
    assert_eq!(ParamsBuilder::new().create(&mut r, 2).identity, 2);
    assert_eq!(b.create(&mut r, 2).identity, 1);
}
