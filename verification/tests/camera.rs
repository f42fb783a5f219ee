use bevy_cam_gizmo::camera::{single, CameraRole, ConfigError};

#[test]
fn one_camera_of_each_role_is_found() {
    let cameras = vec![CameraRole::Main, CameraRole::Gizmo];
    assert_eq!(single(&cameras, CameraRole::Gizmo), Ok(1));
    assert_eq!(single(&cameras, CameraRole::Main), Ok(0));
}

#[test]
fn a_missing_camera_is_reported() {
    assert_eq!(single(&vec![], CameraRole::Gizmo), Err(ConfigError::CameraMissing(CameraRole::Gizmo)));
    let cameras = vec![CameraRole::Gizmo];
    assert_eq!(single(&cameras, CameraRole::Main), Err(ConfigError::CameraMissing(CameraRole::Main)));
    assert_eq!(single(&cameras, CameraRole::Gizmo), Ok(0));
}

#[test]
fn a_second_camera_of_a_role_is_reported() {
    let cameras = vec![CameraRole::Gizmo, CameraRole::Main, CameraRole::Gizmo];
    assert_eq!(
        single(&cameras, CameraRole::Gizmo),
        Err(ConfigError::CameraDuplicated(CameraRole::Gizmo))
    );
    assert_eq!(single(&cameras, CameraRole::Main), Ok(1));
    let cameras = vec![CameraRole::Main, CameraRole::Main, CameraRole::Main];
    assert_eq!(
        single(&cameras, CameraRole::Main),
        Err(ConfigError::CameraDuplicated(CameraRole::Main))
    );
    assert_eq!(
        single(&cameras, CameraRole::Gizmo),
        Err(ConfigError::CameraMissing(CameraRole::Gizmo))
    );
}

#[test]
fn config_error_messages_name_the_role() {
    assert_eq!(
        ConfigError::CameraMissing(CameraRole::Gizmo).message(),
        "no gizmo camera in the scene"
    );
    assert_eq!(
        ConfigError::CameraMissing(CameraRole::Main).message(),
        "no main camera in the scene"
    );
    assert_eq!(
        ConfigError::CameraDuplicated(CameraRole::Gizmo).message(),
        "more than one gizmo camera in the scene"
    );
    assert_eq!(
        ConfigError::CameraDuplicated(CameraRole::Main).message(),
        "more than one main camera in the scene"
    );
}
