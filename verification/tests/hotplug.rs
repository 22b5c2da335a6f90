use libreland::desktop::Gaps;
use libreland::geometry::{Point, Rect, Size};
use libreland::hotplug::{handle_drm_changed, missing_outputs};
use libreland::layout::Layout;
use libreland::window::{Deco, LayoutMode, WindowSurface};

fn names(list: &[&str]) -> Vec<String> {
    list.iter().map(|n| n.to_string()).collect()
}

#[test]
fn windows_of_a_missing_output_move_over() {
    let rect = |x| Rect::new(Point::new(x, 0), Size::new(1000, 600));
    let mut l = Layout::new(
        vec![("DP-1".to_owned(), rect(0)), ("DP-2".to_owned(), rect(1000))],
        Gaps { outer: 0, inner: 0 },
        Deco::none(),
        LayoutMode::Tiling,
    );
    l.insert(WindowSurface::Xdg(1), Some(Point::new(10, 10)));
    let gone = handle_drm_changed(&mut l, &names(&["DP-1", "DP-2"]), &names(&["DP-2", "DP-3"]));
    assert_eq!(gone, vec!["DP-1"]);
    assert_eq!(l.output_of(1), Some("DP-2".to_owned()));
    // With no other left the windows stay where they are.
    let gone = handle_drm_changed(&mut l, &names(&["DP-2"]), &names(&[]));
    assert_eq!(gone, vec!["DP-2"]);
    assert_eq!(l.output_of(1), Some("DP-2".to_owned()));
    assert!(missing_outputs(&names(&["A"]), &names(&["A", "B"])).is_empty());
}
