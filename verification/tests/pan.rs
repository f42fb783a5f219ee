use bevy_cam_gizmo::pan::{KeyLatch, Pan};

#[test]
fn session_starts_in_key_mode() {
    assert_eq!(Pan::initial(), Pan::Keys);
    assert_eq!(Pan::default(), Pan::Keys);
}

#[test]
fn toggled_gives_the_other_mode() {
    assert_eq!(Pan::Keys.toggled(), Pan::Mouse);
    assert_eq!(Pan::Mouse.toggled(), Pan::Keys);
}

#[test]
fn toggling_twice_restores_the_mode() {
    assert_eq!(Pan::Keys.toggled().toggled(), Pan::Keys);
    assert_eq!(Pan::Mouse.toggled().toggled(), Pan::Mouse);
}

#[test]
fn advance_flips_only_on_an_edge() {
    assert_eq!(Pan::Keys.advance(false), Pan::Keys);
    assert_eq!(Pan::Keys.advance(true), Pan::Mouse);
    assert_eq!(Pan::Mouse.advance(false), Pan::Mouse);
    assert_eq!(Pan::Mouse.advance(true), Pan::Keys);
}

#[test]
fn new_latch_is_released() {
    assert!(!KeyLatch::new().down);
}

#[test]
fn latch_reports_the_press_edge_once() {
    let mut latch = KeyLatch::new();
    assert!(!latch.sample(false));
    assert!(latch.sample(true));
    assert!(latch.down);
    assert!(!latch.sample(true));
    assert!(!latch.sample(true));
    assert!(!latch.sample(false));
    assert!(!latch.down);
    assert!(latch.sample(true));
}

#[test]
fn held_toggle_key_toggles_once() {
    let mut latch = KeyLatch::new();
    let mut mode = Pan::initial();
    for _ in 0..5 {
        let edge = latch.sample(true);
        mode = mode.advance(edge);
    }
    assert_eq!(mode, Pan::Mouse);
}

#[test]
fn two_separate_presses_toggle_twice() {
    let mut latch = KeyLatch::new();
    let mut mode = Pan::initial();
    for down in [true, true, false, false, true, true] {
        let edge = latch.sample(down);
        mode = mode.advance(edge);
    }
    assert_eq!(mode, Pan::Keys);
}

#[test]
fn latch_that_starts_held_reports_no_edge() {
    let mut latch = KeyLatch { down: true };
    assert!(!latch.sample(true));
}
