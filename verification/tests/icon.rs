use libreland::icon::{
    icon_dirs, icon_size, load, name_candidates, pick_icon, resize, to_icon, Icon, Samples,
};

#[test]
fn a_reverse_dns_id_also_tries_its_last_segment() {
    let names = name_candidates("org.kde.dolphin");
    assert_eq!(names[0], "org.kde.dolphin");
    assert!(names.contains(&"dolphin".to_owned()));
}

#[test]
fn a_capitalised_id_also_tries_lowercase() {
    assert!(name_candidates("Alacritty").contains(&"alacritty".to_owned()));
}

/// A plain id yields exactly one candidate, with no duplicates to look up.
#[test]
fn a_simple_id_yields_one_candidate() {
    assert_eq!(name_candidates("kitty"), vec!["kitty".to_owned()]);
}

fn solid(w: u32, h: u32, px: [u8; 4]) -> Icon {
    Icon {
        rgba: px.repeat((w * h) as usize),
        width: w,
        height: h,
    }
}

/// Downscaling a solid icon keeps its colour exactly.
#[test]
fn downscaling_preserves_a_solid_colour() {
    let big = solid(64, 64, [200, 100, 50, 255]);
    let small = resize(&big, 16);
    assert_eq!(small.width, 16);
    assert_eq!(small.height, 16);
    for px in small.rgba.chunks_exact(4) {
        assert_eq!(px, [200, 100, 50, 255]);
    }
}

/// A fully transparent icon stays transparent and does not become a black
/// square.
#[test]
fn transparency_survives_resizing() {
    let clear = solid(32, 32, [0, 0, 0, 0]);
    assert!(resize(&clear, 8).rgba.chunks_exact(4).all(|p| p[3] == 0));
}

/// Upscaling and the same size are both in order and give the asked
/// dimensions.
#[test]
fn resizing_up_and_to_the_same_size_is_safe() {
    let small = solid(8, 8, [10, 20, 30, 255]);
    assert_eq!(resize(&small, 24).width, 24);
    assert_eq!(resize(&small, 8).rgba.len(), 8 * 8 * 4);
    assert_eq!(resize(&small, 1).rgba.len(), 4);
}

fn png_bytes(w: u32, h: u32, colour: png::ColorType, data: &[u8]) -> Vec<u8> {
    let mut out = Vec::new();
    let mut encoder = png::Encoder::new(&mut out, w, h);
    encoder.set_color(colour);
    encoder.set_depth(png::BitDepth::Eight);
    let mut writer = encoder.write_header().unwrap();
    writer.write_image_data(data).unwrap();
    writer.finish().unwrap();
    out
}

/// Each kind of picture becomes red, green, blue and alpha, the colours
/// multiplied by the alpha.
#[test]
fn pictures_are_decoded() {
    let pixels = [200, 100, 50, 128, 5, 6, 7, 255];
    let icon = load(&png_bytes(2, 1, png::ColorType::Rgba, &pixels)).unwrap();
    assert_eq!((icon.width, icon.height), (2, 1));
    assert_eq!(icon.rgba, vec![100, 50, 25, 128, 5, 6, 7, 255]);
    let icon = load(&png_bytes(1, 2, png::ColorType::Rgb, &[1, 2, 3, 4, 5, 6])).unwrap();
    assert_eq!(icon.rgba, vec![1, 2, 3, 255, 4, 5, 6, 255]);
    let icon = load(&png_bytes(2, 1, png::ColorType::Grayscale, &[9, 10])).unwrap();
    assert_eq!(icon.rgba, vec![9, 9, 9, 255, 10, 10, 10, 255]);
    let icon = load(&png_bytes(1, 1, png::ColorType::GrayscaleAlpha, &[9, 100])).unwrap();
    assert_eq!(icon.rgba, vec![3, 3, 3, 100]);
    assert!(load(&vec![1, 2, 3]).is_none());
    assert!(load(&vec![]).is_none());
}

/// Sixteen bits a sample are too many for an icon, and four too few.
#[test]
fn only_pictures_of_eight_bits_are_icons() {
    for (depth, data) in [(png::BitDepth::Sixteen, vec![1, 2]), (png::BitDepth::Four, vec![0x10])] {
        let mut out = Vec::new();
        let mut encoder = png::Encoder::new(&mut out, 1, 1);
        encoder.set_color(png::ColorType::Grayscale);
        encoder.set_depth(depth);
        let mut writer = encoder.write_header().unwrap();
        writer.write_image_data(&data).unwrap();
        writer.finish().unwrap();
        assert!(load(&out).is_none(), "{depth:?}");
    }
}

#[test]
fn raw_samples_become_an_icon() {
    let icon = to_icon(&vec![1, 2, 3], 1, 1, Samples::Rgb).unwrap();
    assert_eq!(icon.rgba, vec![1, 2, 3, 255]);
    let icon = to_icon(&vec![200, 100, 50, 0], 1, 1, Samples::Rgba).unwrap();
    assert_eq!(icon.rgba, vec![0, 0, 0, 0]);
    assert!(to_icon(&vec![1], 1, 1, Samples::Indexed).is_none());
    assert!(to_icon(&vec![], 0, 1, Samples::Rgb).is_none());
}

/// Transparent pixels do not darken their neighbours: a half clear pixel has
/// half the colour and half the alpha.
#[test]
fn colours_are_weighted_by_their_alpha() {
    let icon = Icon {
        rgba: vec![200, 100, 50, 255, 0, 0, 0, 0, 200, 100, 50, 255, 0, 0, 0, 0],
        width: 2,
        height: 2,
    };
    let one = resize(&icon, 1);
    assert_eq!(one.rgba, vec![100, 50, 25, 127]);
    // Nothing is smaller than one pixel.
    assert_eq!(resize(&icon, 0).width, 1);
}

#[test]
fn themes_are_looked_for_in_order() {
    assert_eq!(
        icon_dirs(Some("/home/a"), None, None),
        vec![
            "/home/a/.local/share/icons",
            "/home/a/.icons",
            "/usr/local/share/icons",
            "/usr/share/icons",
            "/usr/share/icons",
        ]
    );
    assert_eq!(
        icon_dirs(None, Some("/d"), Some("/x:/y/")),
        vec!["/d/icons", "/x/icons", "/y/icons", "/usr/share/icons"]
    );
}

#[test]
fn directories_name_their_size() {
    assert_eq!(icon_size("48x48"), Some(48));
    assert_eq!(icon_size("32"), Some(32));
    assert_eq!(icon_size("scalable"), None);
    assert_eq!(icon_size("x48"), None);
}

#[test]
fn the_nearest_icon_that_is_large_enough_is_picked() {
    assert_eq!(pick_icon(&vec![16, 64, 32, 48], 30), Some(2));
    assert_eq!(pick_icon(&vec![16, 24, 22], 30), Some(1));
    assert_eq!(pick_icon(&vec![32, 32], 32), Some(0));
    assert_eq!(pick_icon(&vec![], 32), None);
}

/// Scaling up takes the nearest pixel and mixes nothing, along one side too.
#[test]
fn scaling_up_mixes_no_colours() {
    let icon = Icon { rgba: vec![0, 0, 0, 255, 200, 200, 200, 255], width: 2, height: 1 };
    let row = [0, 0, 0, 255, 0, 0, 0, 255, 200, 200, 200, 255];
    assert_eq!(resize(&icon, 3).rgba, row.repeat(3));
    let tall = Icon {
        rgba: [10, 10, 10, 255, 30, 30, 30, 255, 50, 50, 50, 255, 70, 70, 70, 255].to_vec(),
        width: 1,
        height: 4,
    };
    let two = [20, 20, 20, 255, 20, 20, 20, 255, 60, 60, 60, 255, 60, 60, 60, 255];
    assert_eq!(resize(&tall, 2).rgba, two.to_vec());
}
