use bevy_cam_gizmo::driver::{
    Arm, Driver, DriverKind, Position, RigError, Smoothing, Transform, YawPitch,
};
use bevy_cam_gizmo::geometry::{Rotation, Vec3i};

fn start() -> Transform {
    Transform::identity()
}

#[test]
fn kind_names() {
    assert_eq!(DriverKind::Position.name(), "Position");
    assert_eq!(DriverKind::YawPitch.name(), "YawPitch");
    assert_eq!(DriverKind::Smoothing.name(), "Smoothing");
    assert_eq!(DriverKind::Arm.name(), "Arm");
}

#[test]
fn rig_error_messages_name_the_kind() {
    assert_eq!(
        RigError::DriverNotPresent(DriverKind::YawPitch).message(),
        "the rig holds no YawPitch driver"
    );
    assert_eq!(
        RigError::DriverNotPresent(DriverKind::Position).message(),
        "the rig holds no Position driver"
    );
    assert_eq!(
        RigError::DriverNotPresent(DriverKind::Smoothing).message(),
        "the rig holds no Smoothing driver"
    );
    assert_eq!(RigError::DriverNotPresent(DriverKind::Arm).message(), "the rig holds no Arm driver");
    assert_eq!(
        RigError::DuplicateDriver(DriverKind::Arm).message(),
        "a second Arm driver in one rig"
    );
    assert_eq!(
        RigError::DuplicateDriver(DriverKind::Position).message(),
        "a second Position driver in one rig"
    );
    assert_eq!(
        RigError::DuplicateDriver(DriverKind::YawPitch).message(),
        "a second YawPitch driver in one rig"
    );
    assert_eq!(
        RigError::DuplicateDriver(DriverKind::Smoothing).message(),
        "a second Smoothing driver in one rig"
    );
    assert_eq!(RigError::AngleOutOfRange.message(), "the turn carries an angle out of range");
}

#[test]
fn identity_transform() {
    let t = Transform::identity();
    assert_eq!(t.translation, Vec3i::new(0, 0, 0));
    assert_eq!(t.rotation, Rotation::new(0, 0));
    assert_eq!(t.arm, Vec3i::new(0, 0, 0));
    assert_eq!(t.arm_frame, Rotation::new(0, 0));
}

#[test]
fn yaw_pitch_from_whole_degrees() {
    let driver = YawPitch::new().yaw_degrees(45).pitch_degrees(-30);
    assert_eq!(driver, YawPitch { yaw: 450, pitch: -300 });
    assert_eq!(driver.rotation(), Rotation::new(450, -300));
    assert_eq!(YawPitch::new(), YawPitch { yaw: 0, pitch: 0 });
    assert_eq!(YawPitch::new().yaw_degrees(i32::MAX).yaw, 21474836470);
    assert_eq!(YawPitch::new().pitch_degrees(i32::MIN).pitch, -21474836480);
}

#[test]
fn yaw_pitch_from_rotation() {
    assert_eq!(
        YawPitch::from_rotation(Rotation::new(12, -34)),
        YawPitch { yaw: 12, pitch: -34 }
    );
}

#[test]
fn rotate_adds_exactly() {
    let mut driver = YawPitch::new().yaw_degrees(45).pitch_degrees(-30);
    assert_eq!(driver.rotate_yaw_pitch(900, 0), Ok(()));
    assert_eq!(driver, YawPitch { yaw: 1350, pitch: -300 });
    assert_eq!(driver.rotate_yaw_pitch(-100, -1000), Ok(()));
    assert_eq!(driver, YawPitch { yaw: 1250, pitch: -1300 });
}

#[test]
fn rotate_neither_wraps_nor_clamps() {
    let mut driver = YawPitch::new();
    for _ in 0..9 {
        assert_eq!(driver.rotate_yaw_pitch(900, 900), Ok(()));
    }
    assert_eq!(driver, YawPitch { yaw: 8100, pitch: 8100 });
}

#[test]
fn rotate_out_of_range_is_refused_whole() {
    let mut driver = YawPitch { yaw: i64::MAX - 5, pitch: 7 };
    assert_eq!(driver.rotate_yaw_pitch(6, 1), Err(RigError::AngleOutOfRange));
    assert_eq!(driver, YawPitch { yaw: i64::MAX - 5, pitch: 7 });
    assert_eq!(driver.rotate_yaw_pitch(1, i128::MIN), Err(RigError::AngleOutOfRange));
    assert_eq!(driver, YawPitch { yaw: i64::MAX - 5, pitch: 7 });
    assert_eq!(driver.rotate_yaw_pitch(5, -7), Ok(()));
    assert_eq!(driver, YawPitch { yaw: i64::MAX, pitch: 0 });
}

#[test]
fn smoother_snaps_on_its_first_update() {
    let mut smoother = Smoothing::new_rotation(1500);
    assert_eq!(smoother, Smoothing { time_constant_ms: 1500, current: None });
    let out = smoother.update(Rotation::new(900, -300), 100);
    assert_eq!(out, Rotation::new(900, -300));
    assert_eq!(smoother.current, Some(Rotation::new(900, -300)));
    assert_eq!(smoother.time_constant_ms, 1500);
}

#[test]
fn smoother_moves_by_the_weight() {
    let mut smoother = Smoothing { time_constant_ms: 1500, current: Some(Rotation::new(0, 0)) };
    let out = smoother.update(Rotation::new(1000, -1000), 250);
    assert_eq!(out, Rotation::new(250, -250));
    let out = smoother.update(Rotation::new(1000, -1000), 250);
    // a quarter of the remaining 750
    assert_eq!(out, Rotation::new(437, -437));
    assert_eq!(smoother.current, Some(Rotation::new(437, -437)));
    let out = smoother.update(Rotation::new(1000, -1000), 1000);
    assert_eq!(out, Rotation::new(1000, -1000));
    let out = smoother.update(Rotation::new(0, 0), 0);
    assert_eq!(out, Rotation::new(1000, -1000));
}

#[test]
fn driver_kinds() {
    assert_eq!(Driver::Position(Position::new(Vec3i::origin())).kind(), DriverKind::Position);
    assert_eq!(Driver::YawPitch(YawPitch::new()).kind(), DriverKind::YawPitch);
    assert_eq!(Driver::Smoothing(Smoothing::new_rotation(1)).kind(), DriverKind::Smoothing);
    assert_eq!(Driver::Arm(Arm::new(Vec3i::origin())).kind(), DriverKind::Arm);
}

#[test]
fn position_replaces_translation_and_drops_the_arm() {
    let incoming = Transform {
        translation: Vec3i::new(1, 2, 3),
        rotation: Rotation::new(10, 20),
        arm: Vec3i::new(4, 5, 6),
        arm_frame: Rotation::new(30, 40),
    };
    let mut driver = Driver::Position(Position::new(Vec3i::new(0, -5000, 0)));
    let out = driver.update(incoming, 1000);
    assert_eq!(
        out,
        Transform {
            translation: Vec3i::new(0, -5000, 0),
            rotation: Rotation::new(10, 20),
            arm: Vec3i::new(0, 0, 0),
            arm_frame: Rotation::new(0, 0),
        }
    );
    assert_eq!(driver, Driver::Position(Position::new(Vec3i::new(0, -5000, 0))));
}

#[test]
fn yaw_pitch_replaces_the_rotation_only() {
    let incoming = Transform {
        translation: Vec3i::new(1, 2, 3),
        rotation: Rotation::new(10, 20),
        arm: Vec3i::new(4, 5, 6),
        arm_frame: Rotation::new(30, 40),
    };
    let mut driver = Driver::YawPitch(YawPitch { yaw: 450, pitch: -300 });
    let out = driver.update(incoming, 0);
    assert_eq!(out, Transform { rotation: Rotation::new(450, -300), ..incoming });
    assert_eq!(driver, Driver::YawPitch(YawPitch { yaw: 450, pitch: -300 }));
}

#[test]
fn smoothing_damps_the_rotation_only() {
    let incoming = Transform {
        translation: Vec3i::new(1, 2, 3),
        rotation: Rotation::new(1000, 0),
        arm: Vec3i::new(4, 5, 6),
        arm_frame: Rotation::new(30, 40),
    };
    let mut driver =
        Driver::Smoothing(Smoothing { time_constant_ms: 9, current: Some(Rotation::new(0, 0)) });
    let out = driver.update(incoming, 500);
    assert_eq!(out, Transform { rotation: Rotation::new(500, 0), ..incoming });
    assert_eq!(
        driver,
        Driver::Smoothing(Smoothing { time_constant_ms: 9, current: Some(Rotation::new(500, 0)) })
    );
}

#[test]
fn arm_records_its_offset_and_the_rotation_in_force() {
    let incoming = Transform { rotation: Rotation::new(450, -300), ..start() };
    let mut driver = Driver::Arm(Arm::new(Vec3i::new(0, 0, 4000)));
    let out = driver.update(incoming, 1000);
    assert_eq!(
        out,
        Transform {
            translation: Vec3i::new(0, 0, 0),
            rotation: Rotation::new(450, -300),
            arm: Vec3i::new(0, 0, 4000),
            arm_frame: Rotation::new(450, -300),
        }
    );
}
