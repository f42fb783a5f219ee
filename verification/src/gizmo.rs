//! The orientation gizmo: six cones around a pivot, one for each direction
//! along an axis, each set so that its own up axis points back at the pivot.

use vstd::prelude::*;
use crate::geometry::Vec3i;

verus! {

/// The height of a cone, in thousandths of a scene unit.
pub const CONE_HEIGHT: i64 = 300;

/// The radius of a cone's base, in thousandths of a scene unit.
pub const CONE_RADIUS: i64 = 100;

/// The number of segments around a cone's base.
pub const CONE_SUBDIVISIONS: u32 = 32;

/// How far from the pivot a cone stands, in thousandths of a scene unit.
pub const CONE_DISTANCE: i64 = 300;

/// Where the gizmo's pivot stands: five units below the origin.
pub const PIVOT_HEIGHT: i64 = -5000;

/// A full colour channel, in tenths.
pub const CHANNEL_FULL: u8 = 10;

/// The tint that the other two channels get on the negative side of an axis, in
/// tenths.
pub const CHANNEL_TINT: u8 = 4;

/// The opacity of every cone, in tenths.
pub const CONE_ALPHA: u8 = 5;

/// One of the three axes.
#[derive(Clone, Copy, Debug, PartialEq, Eq, Structural, Hash)]
pub enum Axis {
    X,
    Y,
    Z,
}

/// One of the six directions along an axis.
#[derive(Clone, Copy, Debug, PartialEq, Eq, Structural, Hash)]
pub struct Direction {
    pub axis: Axis,
    pub positive: bool,
}

/// A colour; each channel is in tenths, from 0 to 10.
#[derive(Clone, Copy, Debug, PartialEq, Eq, Structural, Hash)]
pub struct Rgba {
    pub red: u8,
    pub green: u8,
    pub blue: u8,
    pub alpha: u8,
}

/// Where one cone of the gizmo stands and how it is turned and coloured.
#[derive(Clone, Copy, Debug, PartialEq, Eq, Structural, Hash)]
pub struct ConePlacement {
    /// The direction that the cone marks.
    pub direction: Direction,
    /// Where the cone stands, relative to the pivot.
    pub translation: Vec3i,
    /// The axis about which the cone is turned.
    pub turn_axis: Axis,
    /// By how many quarter turns, counter-clockwise seen from the axis' tip.
    pub quarter_turns: i8,
    pub color: Rgba,
}

/// A vector of whole numbers, for the geometry of quarter turns.
pub struct Triple {
    pub x: int,
    pub y: int,
    pub z: int,
}

/// The up axis of a cone that has not been turned.
pub open spec fn up() -> Triple {
    Triple { x: 0, y: 1, z: 0 }
}

/// `v` after one quarter turn about an axis, counter-clockwise seen from the
/// axis' tip.
pub open spec fn turned_once(v: Triple, about: Axis) -> Triple {
    match about {
        Axis::X => Triple { x: v.x, y: -v.z, z: v.y },
        Axis::Y => Triple { x: v.z, y: v.y, z: -v.x },
        Axis::Z => Triple { x: -v.y, y: v.x, z: v.z },
    }
}

/// `v` after a number of quarter turns about an axis; a negative number turns
/// the other way round.
pub open spec fn quarter_turned(v: Triple, about: Axis, turns: int) -> Triple {
    let k = turns % 4;
    if k == 0 {
        v
    } else if k == 1 {
        turned_once(v, about)
    } else if k == 2 {
        turned_once(turned_once(v, about), about)
    } else {
        turned_once(turned_once(turned_once(v, about), about), about)
    }
}

impl Direction {
    /// The unit vector along the direction.
    pub open spec fn unit(self) -> Triple {
        let s: int = if self.positive {
            1
        } else {
            -1
        };
        match self.axis {
            Axis::X => Triple { x: s, y: 0, z: 0 },
            Axis::Y => Triple { x: 0, y: s, z: 0 },
            Axis::Z => Triple { x: 0, y: 0, z: s },
        }
    }

    /// The turn that lays a cone along the direction, as an axis and a number
    /// of quarter turns about it.
    pub open spec fn turn(self) -> (Axis, int) {
        match (self.axis, self.positive) {
            (Axis::X, true) => (Axis::Z, 1),
            (Axis::X, false) => (Axis::Z, -1),
            (Axis::Y, true) => (Axis::Z, 2),
            (Axis::Y, false) => (Axis::X, 0),
            (Axis::Z, true) => (Axis::X, -1),
            (Axis::Z, false) => (Axis::X, 1),
        }
    }

    /// One channel of the direction's colour: full on the direction's own axis;
    /// on the other two, nothing on the positive side and a tint on the
    /// negative side.
    pub open spec fn channel(self, of: Axis) -> u8 {
        if of == self.axis {
            CHANNEL_FULL
        } else if self.positive {
            0
        } else {
            CHANNEL_TINT
        }
    }

    /// The cone that marks the direction.
    pub open spec fn placement(self) -> ConePlacement {
        ConePlacement {
            direction: self,
            translation: Vec3i {
                x: (CONE_DISTANCE * self.unit().x) as i64,
                y: (CONE_DISTANCE * self.unit().y) as i64,
                z: (CONE_DISTANCE * self.unit().z) as i64,
            },
            turn_axis: self.turn().0,
            quarter_turns: self.turn().1 as i8,
            color: Rgba {
                red: self.channel(Axis::X),
                green: self.channel(Axis::Y),
                blue: self.channel(Axis::Z),
                alpha: CONE_ALPHA,
            },
        }
    }

    pub fn new(axis: Axis, positive: bool) -> (d: Direction)
        ensures
            d == (Direction { axis, positive }),
    {
        Direction { axis, positive }
    }
}

/// The six directions in the order in which the gizmo lays out its cones:
/// along X, Y and Z, the positive side first.
pub open spec fn six_directions() -> Seq<Direction> {
    seq![
        Direction { axis: Axis::X, positive: true },
        Direction { axis: Axis::X, positive: false },
        Direction { axis: Axis::Y, positive: true },
        Direction { axis: Axis::Y, positive: false },
        Direction { axis: Axis::Z, positive: true },
        Direction { axis: Axis::Z, positive: false },
    ]
}

/// The orientation gizmo.
#[derive(Clone, Copy, Debug, PartialEq, Eq, Structural, Hash)]
pub struct CameraGizmo;

impl CameraGizmo {
    /// Where the gizmo's pivot stands.
    pub fn pivot() -> (at: Vec3i)
        ensures
            at == (Vec3i { x: 0, y: PIVOT_HEIGHT, z: 0 }),
    {
        Vec3i { x: 0, y: PIVOT_HEIGHT, z: 0 }
    }

    /// The cone that marks a direction.
    pub fn cone(direction: Direction) -> (cone: ConePlacement)
        ensures
            cone == direction.placement(),
    {
        let side: i64 = if direction.positive {
            CONE_DISTANCE
        } else {
            -CONE_DISTANCE
        };
        let off: u8 = if direction.positive {
            0
        } else {
            CHANNEL_TINT
        };
        match direction.axis {
            Axis::X => ConePlacement {
                direction,
                translation: Vec3i { x: side, y: 0, z: 0 },
                turn_axis: Axis::Z,
                quarter_turns: if direction.positive {
                    1
                } else {
                    -1
                },
                color: Rgba { red: CHANNEL_FULL, green: off, blue: off, alpha: CONE_ALPHA },
            },
            Axis::Y => ConePlacement {
                direction,
                translation: Vec3i { x: 0, y: side, z: 0 },
                turn_axis: if direction.positive {
                    Axis::Z
                } else {
                    Axis::X
                },
                quarter_turns: if direction.positive {
                    2
                } else {
                    0
                },
                color: Rgba { red: off, green: CHANNEL_FULL, blue: off, alpha: CONE_ALPHA },
            },
            Axis::Z => ConePlacement {
                direction,
                translation: Vec3i { x: 0, y: 0, z: side },
                turn_axis: Axis::X,
                quarter_turns: if direction.positive {
                    -1
                } else {
                    1
                },
                color: Rgba { red: off, green: off, blue: CHANNEL_FULL, alpha: CONE_ALPHA },
            },
        }
    }

    /// The six cones of the gizmo, in layout order.
    pub fn cones() -> (cones: Vec<ConePlacement>)
        ensures
            cones@.len() == 6,
            forall|i: int| 0 <= i < 6 ==> #[trigger] cones@[i] == six_directions()[i].placement(),
    {
        let mut cones: Vec<ConePlacement> = Vec::new();
        cones.push(Self::cone(Direction { axis: Axis::X, positive: true }));
        cones.push(Self::cone(Direction { axis: Axis::X, positive: false }));
        cones.push(Self::cone(Direction { axis: Axis::Y, positive: true }));
        cones.push(Self::cone(Direction { axis: Axis::Y, positive: false }));
        cones.push(Self::cone(Direction { axis: Axis::Z, positive: true }));
        cones.push(Self::cone(Direction { axis: Axis::Z, positive: false }));
        cones
    }
}

/// Every cone stands on its own axis, at the cone distance from the pivot, and
/// is turned so that its up axis points back at the pivot.
pub proof fn lemma_cones_face_the_pivot(direction: Direction)
    ensures
        ({
            let cone = direction.placement();
            let at = direction.unit();
            let facing = quarter_turned(up(), cone.turn_axis, cone.quarter_turns as int);
            &&& cone.translation.x == CONE_DISTANCE * at.x
            &&& cone.translation.y == CONE_DISTANCE * at.y
            &&& cone.translation.z == CONE_DISTANCE * at.z
            &&& facing.x == -at.x
            &&& facing.y == -at.y
            &&& facing.z == -at.z
        }),
{
}

/// No two directions share a colour, and only one channel of a colour is full:
/// the one of the direction's own axis.
pub proof fn lemma_colours_tell_directions_apart(a: Direction, b: Direction)
    ensures
        a.placement().color == b.placement().color ==> a == b,
        a.channel(a.axis) == CHANNEL_FULL,
        forall|of: Axis| of != a.axis ==> #[trigger] a.channel(of) < CHANNEL_FULL,
{
}

} // verus!
