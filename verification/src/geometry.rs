//! Plain integer geometry: lengths in thousandths of a scene unit, angles in
//! tenths of a degree. Every value is exact; there is no rounding anywhere.

use vstd::prelude::*;

verus! {

/// Thousandths in one scene unit.
pub const UNIT: i64 = 1000;

/// Tenths of a degree in one degree.
pub const DEGREE: i64 = 10;

/// A quarter turn, in tenths of a degree.
pub const QUARTER_TURN: i64 = 900;

/// The blend weight that stands for one: a blend of this weight lands on its target.
pub const FULL_WEIGHT: u16 = 1000;

/// A point or an offset in space, in thousandths of a scene unit.
#[derive(Clone, Copy, Debug, PartialEq, Eq, Structural, Hash)]
pub struct Vec3i {
    pub x: i64,
    pub y: i64,
    pub z: i64,
}

impl Vec3i {
    /// The origin.
    pub open spec fn zero() -> Vec3i {
        Vec3i { x: 0, y: 0, z: 0 }
    }

    pub fn new(x: i64, y: i64, z: i64) -> (v: Vec3i)
        ensures
            v == (Vec3i { x, y, z }),
    {
        Vec3i { x, y, z }
    }

    /// The origin.
    pub fn origin() -> (v: Vec3i)
        ensures
            v == Vec3i::zero(),
    {
        Vec3i { x: 0, y: 0, z: 0 }
    }
}

/// An orientation given by yaw and pitch, each in tenths of a degree.
#[derive(Clone, Copy, Debug, PartialEq, Eq, Structural, Hash)]
pub struct Rotation {
    pub yaw: i64,
    pub pitch: i64,
}

/// A blend weight as the contracts read it: anything above the full weight
/// counts as the full weight.
pub open spec fn capped(weight: int) -> int {
    if weight > FULL_WEIGHT as int {
        FULL_WEIGHT as int
    } else {
        weight
    }
}

/// The value `weight` thousandths of the way from `from` to `to`, the step
/// rounded towards `from`.
pub open spec fn blend(from: int, to: int, weight: int) -> int {
    if to >= from {
        from + ((to - from) * capped(weight)) / (FULL_WEIGHT as int)
    } else {
        from - ((from - to) * capped(weight)) / (FULL_WEIGHT as int)
    }
}

/// A blend never leaves the interval between its two ends; with weight zero it
/// stays where it was, with the full weight it reaches the target.
pub proof fn lemma_blend_bounds(from: int, to: int, weight: int)
    requires
        0 <= weight,
    ensures
        from <= to ==> from <= blend(from, to, weight) <= to,
        to <= from ==> to <= blend(from, to, weight) <= from,
        weight == 0 ==> blend(from, to, weight) == from,
        weight >= FULL_WEIGHT ==> blend(from, to, weight) == to,
        from == to ==> blend(from, to, weight) == to,
{
    let w = capped(weight);
    let span = if to >= from { to - from } else { from - to };
    assert(0 <= span * w <= span * 1000) by (nonlinear_arith)
        requires
            0 <= span,
            0 <= w <= 1000,
    ;
    assert(0 <= (span * w) / 1000 <= span) by (nonlinear_arith)
        requires
            0 <= span * w <= span * 1000,
    ;
    if weight == 0 {
        assert(span * w == 0) by (nonlinear_arith)
            requires
                w == 0,
        ;
    }
    if weight >= FULL_WEIGHT {
        assert((span * w) / 1000 == span) by (nonlinear_arith)
            requires
                w == 1000,
        ;
    }
    if from == to {
        assert(span * w == 0) by (nonlinear_arith)
            requires
                span == 0,
        ;
    }
}

/// Blends one angle or length towards another.
pub fn blend_value(from: i64, to: i64, weight: u16) -> (r: i64)
    ensures
        r == blend(from as int, to as int, weight as int),
{
    let w: i128 = if weight > FULL_WEIGHT {
        1000
    } else {
        weight as i128
    };
    proof {
        lemma_blend_bounds(from as int, to as int, weight as int);
    }
    if to >= from {
        let span: i128 = to as i128 - from as i128;
        assert(0 <= span * w <= span * 1000) by (nonlinear_arith)
            requires
                0 <= span,
                0 <= w <= 1000,
        ;
        let step: i128 = span * w / 1000;
        (from as i128 + step) as i64
    } else {
        let span: i128 = from as i128 - to as i128;
        assert(0 <= span * w <= span * 1000) by (nonlinear_arith)
            requires
                0 <= span,
                0 <= w <= 1000,
        ;
        let step: i128 = span * w / 1000;
        (from as i128 - step) as i64
    }
}

impl Rotation {
    /// Facing straight ahead: no yaw, no pitch.
    pub open spec fn level() -> Rotation {
        Rotation { yaw: 0, pitch: 0 }
    }

    /// This orientation blended towards `target`, yaw and pitch each on its own.
    pub open spec fn toward(self, target: Rotation, weight: int) -> Rotation {
        Rotation {
            yaw: blend(self.yaw as int, target.yaw as int, weight) as i64,
            pitch: blend(self.pitch as int, target.pitch as int, weight) as i64,
        }
    }

    pub fn new(yaw: i64, pitch: i64) -> (r: Rotation)
        ensures
            r == (Rotation { yaw, pitch }),
    {
        Rotation { yaw, pitch }
    }

    /// Facing straight ahead.
    pub fn identity() -> (r: Rotation)
        ensures
            r == Rotation::level(),
    {
        Rotation { yaw: 0, pitch: 0 }
    }

    /// Blends this orientation towards `target`.
    pub fn blend_toward(self, target: Rotation, weight: u16) -> (r: Rotation)
        ensures
            r == self.toward(target, weight as int),
    {
        Rotation {
            yaw: blend_value(self.yaw, target.yaw, weight),
            pitch: blend_value(self.pitch, target.pitch, weight),
        }
    }
}

/// The sum of an angle and a turn, where it is still an angle: `None` exactly
/// when the sum leaves the range of `i64`.
pub fn offset_angle(angle: i64, by: i128) -> (r: Option<i64>)
    ensures
        r.is_some() <==> i64::MIN <= angle + by <= i64::MAX,
        r matches Some(sum) ==> sum == angle + by,
{
    if by > 0xffff_ffff_ffff_ffff || by < -0xffff_ffff_ffff_ffff {
        None
    } else {
        let sum: i128 = angle as i128 + by;
        if sum > i64::MAX as i128 || sum < i64::MIN as i128 {
            None
        } else {
            Some(sum as i64)
        }
    }
}

} // verus!
