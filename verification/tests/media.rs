use libreland::media::{fit_within, pack};

#[test]
fn pictures_shrink_to_fit() {
    assert_eq!(fit_within(4000, 2000, 1000), (1000, 500));
    assert_eq!(fit_within(2000, 4000, 1000), (500, 1000));
    assert_eq!(fit_within(800, 600, 1000), (800, 600));
    assert_eq!(fit_within(800, 600, 0), (800, 600));
    assert_eq!(fit_within(0, 0, 1000), (1, 1));
    assert_eq!(fit_within(10_000, 1, 100), (100, 1));
}

#[test]
fn rows_are_packed() {
    let data = vec![1, 2, 3, 4, 9, 9, 5, 6, 7, 8, 9, 9];
    let f = pack(&data, 6, 1, 2);
    assert_eq!((f.width, f.height), (1, 2));
    assert_eq!(f.rgba, vec![1, 2, 3, 4, 5, 6, 7, 8]);
    assert!(pack(&vec![], 6, 1, 0).rgba.is_empty());
}
