use libreland::drm::{
    build_output, drm_card_paths, pick_mode, pick_unused_crtc, ConnectorInfo, ModeInfo,
    RequestedMode, Scan, ScanStep, Timing,
};

fn mode(width: u16, height: u16, hertz: u32, preferred: bool) -> ModeInfo {
    ModeInfo { width, height, millihertz: hertz * 1000, preferred }
}

#[test]
fn the_mode_asked_for_wins_where_it_is_offered() {
    let modes = vec![
        mode(1920, 1080, 60, false),
        mode(2560, 1440, 60, true),
        mode(2560, 1440, 144, false),
    ];
    let ask = |width, height, millihertz| Some(RequestedMode { width, height, millihertz });
    assert_eq!(pick_mode(&modes, ask(2560, 1440, 144_000)), Some(2));
    assert_eq!(pick_mode(&modes, ask(640, 480, 60_000)), Some(1));
    assert_eq!(pick_mode(&modes, None), Some(1));
    assert_eq!(pick_mode(&vec![mode(1, 1, 1, false)], None), Some(0));
    assert_eq!(pick_mode(&vec![], None), None);
}

/// Rates that differ by less than a hertz are told apart.
#[test]
fn refresh_rates_are_compared_in_millihertz() {
    let modes = vec![
        mode(3840, 2160, 60, true),
        mode(1920, 1080, 60, false),
        ModeInfo { width: 1920, height: 1080, millihertz: 59_940, preferred: false },
    ];
    let ask = |millihertz| Some(RequestedMode { width: 1920, height: 1080, millihertz });
    assert_eq!(pick_mode(&modes, ask(59_940)), Some(2));
    assert_eq!(pick_mode(&modes, ask(60_000)), Some(1));
    assert_eq!(pick_mode(&modes, ask(59_000)), Some(0));
}

#[test]
fn pipelines_are_not_shared() {
    let encoders = vec![vec![1, 2], vec![3]];
    assert_eq!(pick_unused_crtc(Some(2), &encoders, &vec![]), Some(2));
    assert_eq!(pick_unused_crtc(Some(2), &encoders, &vec![2]), Some(1));
    assert_eq!(pick_unused_crtc(None, &encoders, &vec![1, 2]), Some(3));
    assert_eq!(pick_unused_crtc(None, &encoders, &vec![1, 2, 3]), None);
}

fn connector(name: &str, connected: bool, modes: Vec<ModeInfo>) -> ConnectorInfo {
    ConnectorInfo {
        name: name.to_owned(),
        connected,
        modes,
        current_crtc: None,
        encoders: vec![vec![1, 2]],
    }
}

#[test]
fn connectors_are_looked_at_one_by_one() {
    let some = || vec![mode(1920, 1080, 60, true)];
    let c = connector("DP-1", true, some());
    assert_eq!(build_output(&c, None, &vec![1]), Some((0, 2)));
    let mut scan = Scan::new(vec!["DP-1".to_owned()], vec![1]);
    assert_eq!(scan.visit(&c, None), ScanStep::Known);
    assert_eq!(scan.visit(&connector("DP-2", false, some()), None), ScanStep::Absent);
    assert_eq!(scan.visit(&connector("DP-3", true, vec![]), None), ScanStep::Unusable);
    assert_eq!(
        scan.visit(&connector("DP-4", true, some()), None),
        ScanStep::Build { mode: 0, crtc: 2 }
    );
    scan.built(2);
    assert_eq!(scan.visit(&connector("DP-5", true, some()), None), ScanStep::Unusable);
    assert_eq!(scan.into_connected(), vec!["DP-1", "DP-3", "DP-4", "DP-5"]);
}

#[test]
fn cards_are_tried_in_order() {
    let devices = ["/dev/dri/card1", "/dev/dri/renderD128", "/dev/dri/card0"];
    let devices = devices.iter().map(|d| d.to_string()).collect();
    assert_eq!(
        drm_card_paths(&devices),
        Some(vec!["/dev/dri/card0".to_owned(), "/dev/dri/card1".to_owned()])
    );
    assert_eq!(drm_card_paths(&vec!["/dev/dri/renderD128".to_owned()]), None);
    let slashed = vec!["/dev/dri/card1/".to_owned()];
    assert_eq!(drm_card_paths(&slashed), Some(slashed.clone()));
}

fn paths(list: &[&str]) -> Vec<String> {
    list.iter().map(|p| p.to_string()).collect()
}

/// Separators that are repeated, and dots, are not parts of a path.
#[test]
fn card_paths_go_by_their_parts() {
    let devices = paths(&["/dev/dri//card1", "/dev/dri/card0"]);
    assert_eq!(
        drm_card_paths(&devices),
        Some(paths(&["/dev/dri/card0", "/dev/dri//card1"]))
    );
    let dotted = paths(&["/dev/dri/./card2", "/dev/dri/card10", "/dev/dri/card1/."]);
    assert_eq!(
        drm_card_paths(&dotted),
        Some(paths(&["/dev/dri/card1/.", "/dev/dri/card10", "/dev/dri/./card2"]))
    );
    assert_eq!(drm_card_paths(&paths(&["/dev/dri/card0/.."])), None);
    assert_eq!(drm_card_paths(&paths(&["/", ".", "", "/dev/card0/fb"])), None);
}

#[test]
fn where_a_path_starts_counts_first() {
    let devices = paths(&["card0", "../card0", "./card0", "/card0", "-/card0", "a/card", "a-/card"]);
    assert_eq!(
        drm_card_paths(&devices),
        Some(paths(&["/card0", "./card0", "../card0", "-/card0", "a/card", "a-/card", "card0"]))
    );
}

/// Paths with the same parts stay as they came.
#[test]
fn equal_card_paths_keep_their_order() {
    let devices = paths(&["/d//card1", "/d/card1/", "/d/card0", "/d/card1", "/d/./card1"]);
    assert_eq!(
        drm_card_paths(&devices),
        Some(paths(&["/d/card0", "/d//card1", "/d/card1/", "/d/card1", "/d/./card1"]))
    );
}

#[test]
fn card_paths_sort_as_std_sorts_them() {
    let devices = paths(&[
        "/dev/dri/card9", "/dev//dri/card10", "dev/card", "./dev/card", "../card", "/dev/card0/",
        "/dev/dri-x/card0", "/dev/dri/card\u{e9}", "/dev/dri/card\u{10000}", "/dev/dri/cardz",
        "/dev/dri/.card", "/dev/dri/card..", "/dev/dri/../card0", "/dev/dri/card0/..",
    ]);
    let mut expected: Vec<std::path::PathBuf> = devices
        .iter()
        .map(std::path::PathBuf::from)
        .filter(|p| {
            p.file_name().and_then(|n| n.to_str()).is_some_and(|n| n.starts_with("card"))
        })
        .collect();
    expected.sort();
    let got = drm_card_paths(&devices).unwrap();
    let got: Vec<std::path::PathBuf> = got.iter().map(std::path::PathBuf::from).collect();
    assert_eq!(got, expected);
}

#[test]
fn refresh_rates_come_from_the_timing() {
    let full = Timing {
        clock: 148_500,
        htotal: 2200,
        vtotal: 1125,
        vscan: 0,
        interlaced: false,
        doubled: false,
    };
    assert_eq!(full.millihertz(), 60_000);
    assert_eq!(Timing { clock: 148_352, ..full }.millihertz(), 59_940);
    assert_eq!(Timing { clock: 74_250, interlaced: true, ..full }.millihertz(), 60_000);
    assert_eq!(Timing { clock: 297_000, doubled: true, ..full }.millihertz(), 60_000);
    assert_eq!(Timing { vscan: 2, ..full }.millihertz(), 30_000);
    assert_eq!(Timing { vtotal: 0, ..full }.millihertz(), 0);
    assert_eq!(Timing { clock: u32::MAX, htotal: 1, vtotal: 1, ..full }.millihertz(), u32::MAX);
}
