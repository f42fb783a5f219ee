//! The drivers a rig is built from, and what each one contributes to the
//! transform that is handed down the chain.

use vstd::prelude::*;
use crate::geometry::{
    lemma_blend_bounds, offset_angle, Rotation, Vec3i, DEGREE, FULL_WEIGHT,
};

verus! {

/// The closed set of driver kinds.
#[derive(Clone, Copy, Debug, PartialEq, Eq, Structural, Hash)]
pub enum DriverKind {
    Position,
    YawPitch,
    Smoothing,
    Arm,
}

impl DriverKind {
    /// The kind's name as text.
    pub open spec fn label(self) -> Seq<char> {
        match self {
            DriverKind::Position => "Position"@,
            DriverKind::YawPitch => "YawPitch"@,
            DriverKind::Smoothing => "Smoothing"@,
            DriverKind::Arm => "Arm"@,
        }
    }

    /// The kind's name, for reports.
    pub fn name(self) -> (text: &'static str)
        ensures
            text@ == self.label(),
    {
        match self {
            DriverKind::Position => "Position",
            DriverKind::YawPitch => "YawPitch",
            DriverKind::Smoothing => "Smoothing",
            DriverKind::Arm => "Arm",
        }
    }
}

/// What can go wrong when a rig is built or one of its drivers is asked for.
#[derive(Clone, Copy, Debug, PartialEq, Eq, Structural, Hash)]
pub enum RigError {
    /// The rig holds no driver of the kind that was asked for.
    DriverNotPresent(DriverKind),
    /// A second driver of a kind that the rig already holds.
    DuplicateDriver(DriverKind),
    /// A turn would carry yaw or pitch out of the range of `i64`.
    AngleOutOfRange,
}

impl RigError {
    /// The error as a sentence.
    pub open spec fn text(self) -> Seq<char> {
        match self {
            RigError::DriverNotPresent(DriverKind::Position) => "the rig holds no Position driver"@,
            RigError::DriverNotPresent(DriverKind::YawPitch) => "the rig holds no YawPitch driver"@,
            RigError::DriverNotPresent(DriverKind::Smoothing) => "the rig holds no Smoothing driver"@,
            RigError::DriverNotPresent(DriverKind::Arm) => "the rig holds no Arm driver"@,
            RigError::DuplicateDriver(DriverKind::Position) => "a second Position driver in one rig"@,
            RigError::DuplicateDriver(DriverKind::YawPitch) => "a second YawPitch driver in one rig"@,
            RigError::DuplicateDriver(DriverKind::Smoothing) => "a second Smoothing driver in one rig"@,
            RigError::DuplicateDriver(DriverKind::Arm) => "a second Arm driver in one rig"@,
            RigError::AngleOutOfRange => "the turn carries an angle out of range"@,
        }
    }

    /// The error as a sentence that names the kind it is about.
    pub fn message(self) -> (text: &'static str)
        ensures
            text@ == self.text(),
    {
        match self {
            RigError::DriverNotPresent(DriverKind::Position) => "the rig holds no Position driver",
            RigError::DriverNotPresent(DriverKind::YawPitch) => "the rig holds no YawPitch driver",
            RigError::DriverNotPresent(DriverKind::Smoothing) => "the rig holds no Smoothing driver",
            RigError::DriverNotPresent(DriverKind::Arm) => "the rig holds no Arm driver",
            RigError::DuplicateDriver(DriverKind::Position) => "a second Position driver in one rig",
            RigError::DuplicateDriver(DriverKind::YawPitch) => "a second YawPitch driver in one rig",
            RigError::DuplicateDriver(DriverKind::Smoothing) => "a second Smoothing driver in one rig",
            RigError::DuplicateDriver(DriverKind::Arm) => "a second Arm driver in one rig",
            RigError::AngleOutOfRange => "the turn carries an angle out of range",
        }
    }
}

/// The pose a chain resolves to.
///
/// The camera stands at `translation` plus `arm`, the arm turned by
/// `arm_frame`, and looks along `rotation`. Turning the arm needs
/// trigonometry; that last step is left to whoever draws the camera.
#[derive(Clone, Copy, Debug, PartialEq, Eq, Structural, Hash)]
pub struct Transform {
    /// Where the pivot stands.
    pub translation: Vec3i,
    /// Where the camera looks.
    pub rotation: Rotation,
    /// The offset from the pivot, in the frame `arm_frame`.
    pub arm: Vec3i,
    /// The orientation that was in force when the arm was applied.
    pub arm_frame: Rotation,
}

impl Transform {
    /// The transform a chain starts from: at the origin, facing ahead, no arm.
    pub open spec fn start() -> Transform {
        Transform {
            translation: Vec3i::zero(),
            rotation: Rotation::level(),
            arm: Vec3i::zero(),
            arm_frame: Rotation::level(),
        }
    }

    /// The transform a chain starts from.
    pub fn identity() -> (t: Transform)
        ensures
            t == Transform::start(),
    {
        Transform {
            translation: Vec3i::origin(),
            rotation: Rotation::identity(),
            arm: Vec3i::origin(),
            arm_frame: Rotation::identity(),
        }
    }
}

/// Places the pivot. Set directly; contributes the translation only.
#[derive(Clone, Copy, Debug, PartialEq, Eq, Structural, Hash)]
pub struct Position {
    pub position: Vec3i,
}

impl Position {
    pub fn new(position: Vec3i) -> (driver: Position)
        ensures
            driver.position == position,
    {
        Position { position }
    }
}

/// Holds yaw and pitch, in tenths of a degree; contributes an absolute rotation.
#[derive(Clone, Copy, Debug, PartialEq, Eq, Structural, Hash)]
pub struct YawPitch {
    pub yaw: i64,
    pub pitch: i64,
}

impl YawPitch {
    /// Whether turning by `yaw` and `pitch` keeps both angles in range.
    pub open spec fn can_turn(self, yaw: int, pitch: int) -> bool {
        &&& i64::MIN <= self.yaw + yaw <= i64::MAX
        &&& i64::MIN <= self.pitch + pitch <= i64::MAX
    }

    /// The driver after turning by `yaw` and `pitch`.
    pub open spec fn turned(self, yaw: int, pitch: int) -> YawPitch
        recommends
            self.can_turn(yaw, pitch),
    {
        YawPitch { yaw: (self.yaw + yaw) as i64, pitch: (self.pitch + pitch) as i64 }
    }

    /// The orientation that the driver stands for.
    pub open spec fn facing(self) -> Rotation {
        Rotation { yaw: self.yaw, pitch: self.pitch }
    }

    /// A driver facing straight ahead.
    pub fn new() -> (driver: YawPitch)
        ensures
            driver == (YawPitch { yaw: 0, pitch: 0 }),
    {
        YawPitch { yaw: 0, pitch: 0 }
    }

    /// A driver that holds exactly the given orientation.
    pub fn from_rotation(rotation: Rotation) -> (driver: YawPitch)
        ensures
            driver.facing() == rotation,
    {
        YawPitch { yaw: rotation.yaw, pitch: rotation.pitch }
    }

    /// The same driver with its yaw set to a number of whole degrees.
    pub fn yaw_degrees(self, degrees: i32) -> (driver: YawPitch)
        ensures
            driver.yaw == degrees * DEGREE,
            driver.pitch == self.pitch,
    {
        YawPitch { yaw: degrees as i64 * DEGREE, pitch: self.pitch }
    }

    /// The same driver with its pitch set to a number of whole degrees.
    pub fn pitch_degrees(self, degrees: i32) -> (driver: YawPitch)
        ensures
            driver.yaw == self.yaw,
            driver.pitch == degrees * DEGREE,
    {
        YawPitch { yaw: self.yaw, pitch: degrees as i64 * DEGREE }
    }

    /// The orientation that the driver stands for.
    pub fn rotation(&self) -> (r: Rotation)
        ensures
            r == self.facing(),
    {
        Rotation { yaw: self.yaw, pitch: self.pitch }
    }

    /// Turns the driver by `yaw` and `pitch` tenths of a degree.
    ///
    /// The turn is exact. It is refused, and the driver left as it was, exactly
    /// when a sum leaves the range of `i64`.
    pub fn rotate_yaw_pitch(&mut self, yaw: i128, pitch: i128) -> (r: Result<(), RigError>)
        ensures
            r.is_ok() <==> old(self).can_turn(yaw as int, pitch as int),
            r.is_ok() ==> *final(self) == old(self).turned(yaw as int, pitch as int),
            r.is_err() ==> r == Err::<(), RigError>(RigError::AngleOutOfRange) && *final(self)
                == *old(self),
    {
        match (offset_angle(self.yaw, yaw), offset_angle(self.pitch, pitch)) {
            (Some(new_yaw), Some(new_pitch)) => {
                self.yaw = new_yaw;
                self.pitch = new_pitch;
                Ok(())
            },
            _ => Err(RigError::AngleOutOfRange),
        }
    }
}

/// Damps the rotation that reaches it: each update moves its own rotation
/// towards the incoming one by the blend weight of that update.
#[derive(Clone, Copy, Debug, PartialEq, Eq, Hash)]
pub struct Smoothing {
    /// The time constant of the decay, in milliseconds. The chain does not read
    /// it: whoever times the frames turns it into the blend weight of an update.
    pub time_constant_ms: u32,
    /// The damped rotation after the last update; `None` before the first.
    pub current: Option<Rotation>,
}

impl Smoothing {
    /// The rotation that an update towards `target` yields: the target itself on
    /// the first update, afterwards the current rotation blended towards it.
    pub open spec fn output(self, target: Rotation, weight: int) -> Rotation {
        match self.current {
            Some(current) => current.toward(target, weight),
            None => target,
        }
    }

    /// The driver after an update towards `target`.
    pub open spec fn updated(self, target: Rotation, weight: int) -> Smoothing {
        Smoothing {
            time_constant_ms: self.time_constant_ms,
            current: Some(self.output(target, weight)),
        }
    }

    /// A rotation smoother that has not been updated yet.
    pub fn new_rotation(time_constant_ms: u32) -> (driver: Smoothing)
        ensures
            driver == (Smoothing { time_constant_ms, current: None }),
    {
        Smoothing { time_constant_ms, current: None }
    }

    /// Moves the damped rotation towards `target` and returns it.
    pub fn update(&mut self, target: Rotation, weight: u16) -> (r: Rotation)
        ensures
            r == old(self).output(target, weight as int),
            *final(self) == old(self).updated(target, weight as int),
    {
        let r = match self.current {
            Some(current) => current.blend_toward(target, weight),
            None => target,
        };
        self.current = Some(r);
        r
    }
}

/// A smoother never overshoots: each angle it yields lies between the angle it
/// held and the angle it is moved towards. With weight zero it stays, with the
/// full weight it arrives, and once it holds its target it stays on it.
pub proof fn lemma_smoothing_stays_between(current: Rotation, target: Rotation, weight: int)
    requires
        0 <= weight,
    ensures
        ({
            let s = Smoothing { time_constant_ms: 0, current: Some(current) };
            let out = s.output(target, weight);
            &&& current.yaw <= target.yaw ==> current.yaw <= out.yaw <= target.yaw
            &&& target.yaw <= current.yaw ==> target.yaw <= out.yaw <= current.yaw
            &&& current.pitch <= target.pitch ==> current.pitch <= out.pitch <= target.pitch
            &&& target.pitch <= current.pitch ==> target.pitch <= out.pitch <= current.pitch
            &&& weight == 0 ==> out == current
            &&& weight >= FULL_WEIGHT ==> out == target
            &&& current == target ==> out == target
        }),
{
    lemma_blend_bounds(current.yaw as int, target.yaw as int, weight);
    lemma_blend_bounds(current.pitch as int, target.pitch as int, weight);
}

/// Holds a fixed offset from the pivot, applied in the frame of the rotation
/// that reaches it.
#[derive(Clone, Copy, Debug, PartialEq, Eq, Structural, Hash)]
pub struct Arm {
    pub offset: Vec3i,
}

impl Arm {
    pub fn new(offset: Vec3i) -> (driver: Arm)
        ensures
            driver.offset == offset,
    {
        Arm { offset }
    }
}

/// One stage of a chain.
#[derive(Clone, Copy, Debug, PartialEq, Eq, Hash)]
pub enum Driver {
    Position(Position),
    YawPitch(YawPitch),
    Smoothing(Smoothing),
    Arm(Arm),
}

impl Driver {
    /// The kind of this driver.
    pub open spec fn spec_kind(&self) -> DriverKind {
        match *self {
            Driver::Position(_) => DriverKind::Position,
            Driver::YawPitch(_) => DriverKind::YawPitch,
            Driver::Smoothing(_) => DriverKind::Smoothing,
            Driver::Arm(_) => DriverKind::Arm,
        }
    }

    /// The transform that leaves this driver when `incoming` reaches it.
    ///
    /// A position replaces the translation and with it any arm; yaw and pitch
    /// replace the rotation; a smoother damps the rotation; an arm records its
    /// offset together with the rotation in force. Nothing else is touched.
    pub open spec fn contribute(self, incoming: Transform, weight: int) -> Transform {
        match self {
            Driver::Position(p) => Transform {
                translation: p.position,
                rotation: incoming.rotation,
                arm: Vec3i::zero(),
                arm_frame: Rotation::level(),
            },
            Driver::YawPitch(y) => Transform { rotation: y.facing(), ..incoming },
            Driver::Smoothing(s) => Transform {
                rotation: s.output(incoming.rotation, weight),
                ..incoming
            },
            Driver::Arm(a) => Transform {
                arm: a.offset,
                arm_frame: incoming.rotation,
                ..incoming
            },
        }
    }

    /// This driver after an update in which `incoming` reached it. Only a
    /// smoother carries state from one update to the next.
    pub open spec fn settle(self, incoming: Transform, weight: int) -> Driver {
        match self {
            Driver::Smoothing(s) => Driver::Smoothing(s.updated(incoming.rotation, weight)),
            _ => self,
        }
    }

    /// The kind of this driver.
    #[verifier::when_used_as_spec(spec_kind)]
    pub fn kind(&self) -> (k: DriverKind)
        ensures
            k == self.spec_kind(),
    {
        match self {
            Driver::Position(_) => DriverKind::Position,
            Driver::YawPitch(_) => DriverKind::YawPitch,
            Driver::Smoothing(_) => DriverKind::Smoothing,
            Driver::Arm(_) => DriverKind::Arm,
        }
    }

    /// Runs this one stage: takes the transform accumulated so far and returns
    /// the transform for the next stage.
    pub fn update(&mut self, incoming: Transform, weight: u16) -> (outgoing: Transform)
        ensures
            outgoing == old(self).contribute(incoming, weight as int),
            *final(self) == old(self).settle(incoming, weight as int),
    {
        match self {
            Driver::Position(p) => Transform {
                translation: p.position,
                rotation: incoming.rotation,
                arm: Vec3i::origin(),
                arm_frame: Rotation::identity(),
            },
            Driver::YawPitch(y) => Transform {
                translation: incoming.translation,
                rotation: y.rotation(),
                arm: incoming.arm,
                arm_frame: incoming.arm_frame,
            },
            Driver::Smoothing(s) => {
                let rotation = s.update(incoming.rotation, weight);
                Transform {
                    translation: incoming.translation,
                    rotation,
                    arm: incoming.arm,
                    arm_frame: incoming.arm_frame,
                }
            },
            Driver::Arm(a) => Transform {
                translation: incoming.translation,
                rotation: incoming.rotation,
                arm: a.offset,
                arm_frame: incoming.rotation,
            },
        }
    }
}

} // verus!
