//! Orchestration of a two-camera rig with an orientation gizmo.
//!
//! A scene is drawn by a main camera; a small gizmo of six cones, drawn by a
//! second camera into a corner of the window, shows how the scene is turned.
//! This crate holds everything that is decided about the two cameras:
//!
//! - [`pan`]: the two-state pan mode and the press edges that flip it;
//! - [`driver`] and [`rig`]: the drivers a camera rig is built from, and the
//!   chain that folds them into one transform per update;
//! - [`coordinator`]: the per-frame update, which turns input into a turn of
//!   the gizmo rig and copies the gizmo's orientation to the main rig;
//! - [`viewport`]: the gizmo camera's viewport, recomputed on window resizes;
//! - [`camera`]: the lookup that insists on exactly one camera of each role;
//! - [`gizmo`]: where the six cones stand and how they are turned and coloured.
//!
//! All values are whole numbers: lengths in thousandths of a scene unit,
//! angles in tenths of a degree, blend weights and colour channels as
//! fractions of a fixed whole. Whatever needs trigonometry or an exponential
//! (the quaternion of an orientation, the arm turned into its frame, the decay
//! of a smoother over a frame's duration) is left to the caller, who hands in
//! and takes out plain numbers.

pub mod camera;
pub mod coordinator;
pub mod driver;
pub mod geometry;
pub mod gizmo;
pub mod pan;
pub mod rig;
pub mod viewport;

pub use camera::{CameraRole, ConfigError};
pub use coordinator::{Coordinator, Frame, FrameInput, Motion, UpdateError};
pub use driver::{Arm, Driver, DriverKind, Position, RigError, Smoothing, Transform, YawPitch};
pub use geometry::{Rotation, Vec3i};
pub use gizmo::CameraGizmo;
pub use pan::{KeyLatch, Pan};
pub use rig::{Rig, RigBuilder};
pub use viewport::{ResizeEvent, ViewportRect};
