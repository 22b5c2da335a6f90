use libreland::cursor::{configured_size, load_cursor, pick_image, Picture, DEFAULT_SIZE};

/// A cursor file with one picture of four by four pixels.
fn file(size: u32, pixel: [u8; 4]) -> Vec<u8> {
    let mut out = b"Xcur".to_vec();
    for v in [16u32, 0x1_0000, 1, 0xfffd_0002, size, 28, 36, 0xfffd_0002, size, 1, 4, 4, 1, 2, 50] {
        out.extend(v.to_le_bytes());
    }
    for _ in 0..16 {
        out.extend(pixel);
    }
    out
}

#[test]
fn a_cursor_file_is_read() {
    let image = load_cursor(&file(24, [1, 2, 3, 128]), 32).unwrap();
    assert_eq!((image.width, image.height), (4, 4));
    assert_eq!((image.xhot, image.yhot), (1, 2));
    assert_eq!(image.nominal, 24);
    assert_eq!(image.rgba.len(), 64);
    assert_eq!(&image.rgba[0..4], &[1, 2, 3, 128]);
    assert!(load_cursor(&b"nothing".to_vec(), 32).is_none());
}

fn picture(size: u32, width: u32) -> Picture {
    Picture { size, width, height: 1, xhot: 0, yhot: 0, rgba: vec![0; 4] }
}

#[test]
fn the_nearest_size_is_picked() {
    let pick = |target| {
        pick_image(vec![picture(16, 1), picture(32, 2), picture(48, 3)], target).map(|i| i.width)
    };
    assert_eq!(pick(30), Some(2));
    assert_eq!(pick(100), Some(3));
    // Of two as near, the first.
    assert_eq!(pick(24), Some(1));
    assert!(pick_image(vec![], 24).is_none());
    assert!(pick_image(vec![picture(24, 0x8000_0000)], 24).is_none());
    assert_eq!(pick_image(vec![picture(0, 1)], 24).unwrap().nominal, 1);
}

#[test]
fn the_size_is_configured() {
    assert_eq!(configured_size(Some("32")), 32);
    assert_eq!(configured_size(Some("0")), DEFAULT_SIZE);
    assert_eq!(configured_size(Some("big")), DEFAULT_SIZE);
    assert_eq!(configured_size(None), 24);
}
