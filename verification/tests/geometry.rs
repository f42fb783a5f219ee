use bevy_cam_gizmo::geometry::{
    blend_value, offset_angle, Rotation, Vec3i, DEGREE, FULL_WEIGHT, QUARTER_TURN, UNIT,
};

#[test]
fn units_of_the_geometry() {
    assert_eq!(UNIT, 1000);
    assert_eq!(DEGREE, 10);
    assert_eq!(QUARTER_TURN, 90 * DEGREE);
    assert_eq!(FULL_WEIGHT, 1000);
}

#[test]
fn vector_constructors() {
    assert_eq!(Vec3i::new(1, -2, 3), Vec3i { x: 1, y: -2, z: 3 });
    assert_eq!(Vec3i::origin(), Vec3i { x: 0, y: 0, z: 0 });
    assert_eq!(Rotation::new(450, -300), Rotation { yaw: 450, pitch: -300 });
    assert_eq!(Rotation::identity(), Rotation { yaw: 0, pitch: 0 });
}

#[test]
fn blend_halfway_up_and_down() {
    assert_eq!(blend_value(0, 100, 500), 50);
    assert_eq!(blend_value(100, 0, 500), 50);
    assert_eq!(blend_value(-100, 100, 250), -50);
    assert_eq!(blend_value(100, -100, 250), 50);
}

#[test]
fn blend_with_weight_zero_stays() {
    assert_eq!(blend_value(7, 1000, 0), 7);
    assert_eq!(blend_value(7, -1000, 0), 7);
}

#[test]
fn blend_with_full_weight_arrives() {
    assert_eq!(blend_value(7, 1000, 1000), 1000);
    assert_eq!(blend_value(7, -1000, 1000), -1000);
    assert_eq!(blend_value(i64::MIN, i64::MAX, 1000), i64::MAX);
    assert_eq!(blend_value(i64::MAX, i64::MIN, 1000), i64::MIN);
}

#[test]
fn blend_weight_above_full_counts_as_full() {
    assert_eq!(blend_value(0, 100, 1001), 100);
    assert_eq!(blend_value(0, 100, u16::MAX), 100);
}

#[test]
fn blend_rounds_the_step_towards_the_start() {
    // 3 * 500 / 1000 = 1.5, rounded to 1
    assert_eq!(blend_value(0, 3, 500), 1);
    assert_eq!(blend_value(0, -3, 500), -1);
    assert_eq!(blend_value(10, 13, 999), 12);
    assert_eq!(blend_value(0, 1, 999), 0);
}

#[test]
fn blend_over_the_whole_range() {
    assert_eq!(blend_value(i64::MIN, i64::MAX, 500), -1);
    assert_eq!(blend_value(i64::MAX, i64::MIN, 500), 0);
}

#[test]
fn rotation_blends_each_angle_on_its_own() {
    let from = Rotation::new(0, 100);
    let to = Rotation::new(900, -100);
    assert_eq!(from.blend_toward(to, 500), Rotation::new(450, 0));
    assert_eq!(from.blend_toward(to, 0), from);
    assert_eq!(from.blend_toward(to, 1000), to);
}

#[test]
fn offset_angle_adds_exactly() {
    assert_eq!(offset_angle(450, 900), Some(1350));
    assert_eq!(offset_angle(450, -900), Some(-450));
    assert_eq!(offset_angle(0, 0), Some(0));
}

#[test]
fn offset_angle_at_the_ends_of_the_range() {
    assert_eq!(offset_angle(i64::MAX, 0), Some(i64::MAX));
    assert_eq!(offset_angle(i64::MAX, 1), None);
    assert_eq!(offset_angle(i64::MIN, -1), None);
    assert_eq!(offset_angle(i64::MAX - 900, 900), Some(i64::MAX));
    assert_eq!(offset_angle(i64::MIN, u64::MAX as i128), Some(i64::MAX));
    assert_eq!(offset_angle(i64::MAX, -(u64::MAX as i128)), Some(i64::MIN));
    assert_eq!(offset_angle(i64::MIN, u64::MAX as i128 + 1), None);
    assert_eq!(offset_angle(0, i128::MAX), None);
    assert_eq!(offset_angle(0, i128::MIN), None);
}
