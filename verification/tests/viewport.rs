use bevy_cam_gizmo::viewport::{handle_resize, handle_resizes, recompute, ResizeEvent, ViewportRect};

fn primary(width: u32, height: u32) -> ResizeEvent {
    ResizeEvent { primary: true, width, height }
}

fn other(width: u32, height: u32) -> ResizeEvent {
    ResizeEvent { primary: false, width, height }
}

#[test]
fn recompute_for_1000_by_800() {
    let rect = recompute(1000, 800);
    assert_eq!(
        rect,
        ViewportRect { x: 833, y: 0, width: 200, height: 200, depth_near: 0, depth_far: 1 }
    );
}

#[test]
fn recompute_is_a_function_of_the_size() {
    assert_eq!(recompute(1000, 800), recompute(1000, 800));
    assert_eq!(recompute(1280, 720), recompute(1280, 720));
    assert_ne!(recompute(1000, 800), recompute(1002, 800));
}

#[test]
fn recompute_rounds_each_fraction_down() {
    let rect = recompute(7, 7);
    // 7/2 = 3, 7/3 = 2, 7/5 = 1, 7/4 = 1
    assert_eq!((rect.x, rect.y, rect.width, rect.height), (5, 0, 1, 1));
    let rect = recompute(1280, 720);
    assert_eq!((rect.x, rect.y, rect.width, rect.height), (640 + 426, 0, 256, 180));
}

#[test]
fn recompute_for_an_empty_window() {
    let rect = recompute(0, 0);
    assert_eq!((rect.x, rect.y, rect.width, rect.height), (0, 0, 0, 0));
    assert_eq!((rect.depth_near, rect.depth_far), (0, 1));
}

#[test]
fn recompute_for_the_largest_window() {
    let rect = recompute(u32::MAX, u32::MAX);
    assert_eq!(rect.x, 2147483647 + 1431655765);
    assert_eq!(rect.width, 858993459);
    assert_eq!(rect.height, 1073741823);
}

#[test]
fn viewport_reaches_past_the_right_edge() {
    let rect = recompute(1000, 800);
    assert_eq!(rect.x + rect.width, 1033);
}

#[test]
fn primary_resize_sets_the_viewport() {
    let mut viewport = None;
    handle_resize(&mut viewport, primary(1000, 800));
    assert_eq!(viewport, Some(recompute(1000, 800)));
}

#[test]
fn resize_twice_to_the_same_size_changes_nothing() {
    let mut viewport = None;
    handle_resize(&mut viewport, primary(1000, 800));
    let first = viewport;
    handle_resize(&mut viewport, primary(1000, 800));
    assert_eq!(viewport, first);
}

#[test]
fn resize_replaces_and_does_not_adjust() {
    let mut viewport = Some(ViewportRect {
        x: 1,
        y: 2,
        width: 3,
        height: 4,
        depth_near: 5,
        depth_far: 6,
    });
    handle_resize(&mut viewport, primary(500, 400));
    assert_eq!(
        viewport,
        Some(ViewportRect { x: 250 + 166, y: 0, width: 100, height: 100, depth_near: 0, depth_far: 1 })
    );
}

#[test]
fn resize_of_another_window_is_ignored() {
    let mut viewport = None;
    handle_resize(&mut viewport, other(1000, 800));
    assert_eq!(viewport, None);
    let mut viewport = Some(recompute(640, 480));
    handle_resize(&mut viewport, other(1000, 800));
    assert_eq!(viewport, Some(recompute(640, 480)));
}

#[test]
fn no_resize_events_no_change() {
    let mut viewport = Some(recompute(640, 480));
    handle_resizes(&mut viewport, &vec![]);
    assert_eq!(viewport, Some(recompute(640, 480)));
    let mut viewport: Option<ViewportRect> = None;
    handle_resizes(&mut viewport, &vec![]);
    assert_eq!(viewport, None);
}

#[test]
fn last_primary_resize_wins() {
    let mut viewport = None;
    handle_resizes(
        &mut viewport,
        &vec![primary(100, 100), other(5000, 5000), primary(1000, 800), other(1, 1)],
    );
    assert_eq!(viewport, Some(recompute(1000, 800)));
}

#[test]
fn only_other_windows_resized() {
    let mut viewport = Some(recompute(300, 200));
    handle_resizes(&mut viewport, &vec![other(5000, 5000), other(1, 1), other(1000, 800)]);
    assert_eq!(viewport, Some(recompute(300, 200)));
}
