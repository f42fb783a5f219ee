use bevy_cam_gizmo::geometry::Vec3i;
use bevy_cam_gizmo::gizmo::{
    Axis, CameraGizmo, ConePlacement, Direction, Rgba, CONE_DISTANCE, CONE_HEIGHT, CONE_RADIUS,
    CONE_SUBDIVISIONS,
};

#[test]
fn cone_mesh_constants() {
    assert_eq!(CONE_HEIGHT, 300);
    assert_eq!(CONE_RADIUS, 100);
    assert_eq!(CONE_SUBDIVISIONS, 32);
    assert_eq!(CONE_DISTANCE, 300);
}

#[test]
fn gizmo_pivot_is_five_units_down() {
    assert_eq!(CameraGizmo::pivot(), Vec3i::new(0, -5000, 0));
}

#[test]
fn the_six_cones() {
    let cones = CameraGizmo::cones();
    let expected = vec![
        ConePlacement {
            direction: Direction::new(Axis::X, true),
            translation: Vec3i::new(300, 0, 0),
            turn_axis: Axis::Z,
            quarter_turns: 1,
            color: Rgba { red: 10, green: 0, blue: 0, alpha: 5 },
        },
        ConePlacement {
            direction: Direction::new(Axis::X, false),
            translation: Vec3i::new(-300, 0, 0),
            turn_axis: Axis::Z,
            quarter_turns: -1,
            color: Rgba { red: 10, green: 4, blue: 4, alpha: 5 },
        },
        ConePlacement {
            direction: Direction::new(Axis::Y, true),
            translation: Vec3i::new(0, 300, 0),
            turn_axis: Axis::Z,
            quarter_turns: 2,
            color: Rgba { red: 0, green: 10, blue: 0, alpha: 5 },
        },
        ConePlacement {
            direction: Direction::new(Axis::Y, false),
            translation: Vec3i::new(0, -300, 0),
            turn_axis: Axis::X,
            quarter_turns: 0,
            color: Rgba { red: 4, green: 10, blue: 4, alpha: 5 },
        },
        ConePlacement {
            direction: Direction::new(Axis::Z, true),
            translation: Vec3i::new(0, 0, 300),
            turn_axis: Axis::X,
            quarter_turns: -1,
            color: Rgba { red: 0, green: 0, blue: 10, alpha: 5 },
        },
        ConePlacement {
            direction: Direction::new(Axis::Z, false),
            translation: Vec3i::new(0, 0, -300),
            turn_axis: Axis::X,
            quarter_turns: 1,
            color: Rgba { red: 4, green: 4, blue: 10, alpha: 5 },
        },
    ];
    assert_eq!(cones, expected);
}

#[test]
fn cone_by_direction_agrees_with_the_layout() {
    let cones = CameraGizmo::cones();
    for cone in &cones {
        assert_eq!(CameraGizmo::cone(cone.direction), *cone);
    }
}

fn turned_once(v: (i64, i64, i64), about: Axis) -> (i64, i64, i64) {
    match about {
        Axis::X => (v.0, -v.2, v.1),
        Axis::Y => (v.2, v.1, -v.0),
        Axis::Z => (-v.1, v.0, v.2),
    }
}

#[test]
fn every_cone_points_its_up_axis_at_the_pivot() {
    for cone in CameraGizmo::cones() {
        let mut up = (0, 1, 0);
        for _ in 0..(cone.quarter_turns as i64).rem_euclid(4) {
            up = turned_once(up, cone.turn_axis);
        }
        let t = cone.translation;
        assert_eq!((up.0 * -300, up.1 * -300, up.2 * -300), (t.x, t.y, t.z));
    }
}

#[test]
fn cone_colours_differ() {
    let cones = CameraGizmo::cones();
    for i in 0..cones.len() {
        for j in 0..cones.len() {
            if i != j {
                assert_ne!(cones[i].color, cones[j].color);
            }
        }
    }
}
