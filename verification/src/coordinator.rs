//! The per-frame camera update: input is turned into a turn of the gizmo rig,
//! the gizmo rig is resolved, and its orientation is copied to the main rig.

use vstd::prelude::*;
use crate::camera::CameraRole;
use crate::driver::{Driver, DriverKind, Position, RigError, Transform, YawPitch};
use crate::geometry::{Vec3i, QUARTER_TURN};
use crate::pan::Pan;
use crate::rig::{
    distinct_kinds, holds, lemma_found_agrees, lemma_found_replaced, lemma_kinds_survive,
    lemma_resolved_rotation, lemma_resolved_translation, resolved, settled, undamped,
    with_position, with_yaw_pitch, yaw_pitch_of, Rig,
};

verus! {

/// The usual sensitivity on both axes: ten tenths of a degree, that is one
/// degree, per count of motion.
pub const DEFAULT_SENSITIVITY: i32 = 10;

/// The usual height of the main rig's pivot: five units below the origin.
pub const MAIN_ANCHOR_HEIGHT: i64 = -5000;

/// A frame update that was refused: which rig refused it, and why.
#[derive(Clone, Copy, Debug, PartialEq, Eq, Structural, Hash)]
pub struct UpdateError {
    pub role: CameraRole,
    pub cause: RigError,
}

/// One pointer motion event, in device counts.
#[derive(Clone, Copy, Debug, PartialEq, Eq, Structural, Hash)]
pub struct Motion {
    pub dx: i32,
    pub dy: i32,
}

/// The horizontal motion of all events together.
pub open spec fn sum_dx(events: Seq<Motion>) -> int
    decreases events.len(),
{
    if events.len() == 0 {
        0
    } else {
        sum_dx(events.drop_last()) + events.last().dx
    }
}

/// The vertical motion of all events together.
pub open spec fn sum_dy(events: Seq<Motion>) -> int
    decreases events.len(),
{
    if events.len() == 0 {
        0
    } else {
        sum_dy(events.drop_last()) + events.last().dy
    }
}

/// Sums the motion events of one frame into one delta. The sum is exact: it
/// cannot leave the range of `i128`.
pub fn sum_motion(events: &Vec<Motion>) -> (total: (i128, i128))
    ensures
        total.0 == sum_dx(events@),
        total.1 == sum_dy(events@),
        -0x8000_0000 * events@.len() <= total.0 <= 0x8000_0000 * events@.len(),
        -0x8000_0000 * events@.len() <= total.1 <= 0x8000_0000 * events@.len(),
{
    let mut dx: i128 = 0;
    let mut dy: i128 = 0;
    let mut i: usize = 0;
    while i < events.len()
        invariant
            i <= events@.len(),
            dx == sum_dx(events@.take(i as int)),
            dy == sum_dy(events@.take(i as int)),
            -0x8000_0000 * i <= dx <= 0x8000_0000 * i,
            -0x8000_0000 * i <= dy <= 0x8000_0000 * i,
        decreases events@.len() - i,
    {
        proof {
            assert(events@.take(i + 1).drop_last() =~= events@.take(i as int));
        }
        dx = dx + events[i].dx as i128;
        dy = dy + events[i].dy as i128;
        i = i + 1;
    }
    proof {
        assert(events@.take(i as int) =~= events@);
    }
    (dx, dy)
}

/// What one frame brings in: the press edges of the three keys, the pointer
/// motion since the last frame, and the blend weight of each rig's update.
#[derive(Debug, PartialEq, Eq)]
pub struct FrameInput {
    /// The press edge of the key that steps the yaw back by a quarter turn.
    pub step_negative: bool,
    /// The press edge of the key that steps the yaw on by a quarter turn.
    pub step_positive: bool,
    /// The press edge of the key that toggles the pan mode.
    pub toggle: bool,
    /// The pointer motion events since the last frame, in any order.
    pub motion: Vec<Motion>,
    /// The blend weight of the gizmo rig's update, in thousandths.
    pub gizmo_weight: u16,
    /// The blend weight of the main rig's update, in thousandths.
    pub main_weight: u16,
}

/// The result of one frame: both resolved transforms and the pan mode that the
/// next frame will read.
#[derive(Clone, Copy, Debug, PartialEq, Eq, Structural, Hash)]
pub struct Frame {
    pub gizmo: Transform,
    pub main: Transform,
    pub mode: Pan,
}

/// The constants of the camera update.
#[derive(Clone, Copy, Debug, PartialEq, Eq, Structural, Hash)]
pub struct Coordinator {
    /// Tenths of a degree of yaw per count of horizontal motion.
    pub sensitivity_x: i32,
    /// Tenths of a degree of pitch per count of vertical motion.
    pub sensitivity_y: i32,
    /// Where the gizmo rig's pivot is pinned, every frame.
    pub gizmo_anchor: Vec3i,
    /// Where the main rig's pivot is pinned, every frame.
    pub main_anchor: Vec3i,
}

impl Default for Coordinator {
    fn default() -> (c: Coordinator)
        ensures
            c == Coordinator::standard(),
    {
        Coordinator {
            sensitivity_x: DEFAULT_SENSITIVITY,
            sensitivity_y: DEFAULT_SENSITIVITY,
            gizmo_anchor: Vec3i { x: 0, y: 0, z: 0 },
            main_anchor: Vec3i { x: 0, y: MAIN_ANCHOR_HEIGHT, z: 0 },
        }
    }
}

impl Coordinator {
    /// The usual constants: a sensitivity of ten on both axes, which makes one
    /// count of motion one degree; the gizmo pivot at the origin; the main pivot
    /// five units below it.
    pub open spec fn standard() -> Coordinator {
        Coordinator {
            sensitivity_x: DEFAULT_SENSITIVITY,
            sensitivity_y: DEFAULT_SENSITIVITY,
            gizmo_anchor: Vec3i { x: 0, y: 0, z: 0 },
            main_anchor: Vec3i { x: 0, y: MAIN_ANCHOR_HEIGHT, z: 0 },
        }
    }

    /// The yaw that the step keys ask for: a quarter turn on for the positive
    /// key, a quarter turn back for the negative key, both if both fired.
    pub open spec fn key_turn(input: FrameInput) -> int {
        (if input.step_positive {
            QUARTER_TURN as int
        } else {
            0
        }) - (if input.step_negative {
            QUARTER_TURN as int
        } else {
            0
        })
    }

    /// The change of yaw in a frame, in tenths of a degree. In key mode only
    /// the step keys count; in mouse mode only the summed motion counts.
    pub open spec fn yaw_turn(self, mode: Pan, input: FrameInput) -> int {
        match mode {
            Pan::Keys => Self::key_turn(input),
            Pan::Mouse => -(self.sensitivity_x * sum_dx(input.motion@)),
        }
    }

    /// The change of pitch in a frame, in tenths of a degree.
    pub open spec fn pitch_turn(self, mode: Pan, input: FrameInput) -> int {
        match mode {
            Pan::Keys => 0,
            Pan::Mouse => -(self.sensitivity_y * sum_dy(input.motion@)),
        }
    }

    /// Why a frame is refused, if it is. The checks run in this order, and the
    /// first that fails names the error.
    pub open spec fn refusal(
        self,
        mode: Pan,
        gizmo: Seq<Driver>,
        main: Seq<Driver>,
        input: FrameInput,
    ) -> Option<UpdateError> {
        if !holds(gizmo, DriverKind::YawPitch) {
            Some(
                UpdateError {
                    role: CameraRole::Gizmo,
                    cause: RigError::DriverNotPresent(DriverKind::YawPitch),
                },
            )
        } else if !yaw_pitch_of(gizmo).can_turn(
            self.yaw_turn(mode, input),
            self.pitch_turn(mode, input),
        ) {
            Some(UpdateError { role: CameraRole::Gizmo, cause: RigError::AngleOutOfRange })
        } else if !holds(gizmo, DriverKind::Position) {
            Some(
                UpdateError {
                    role: CameraRole::Gizmo,
                    cause: RigError::DriverNotPresent(DriverKind::Position),
                },
            )
        } else if !holds(main, DriverKind::YawPitch) {
            Some(
                UpdateError {
                    role: CameraRole::Main,
                    cause: RigError::DriverNotPresent(DriverKind::YawPitch),
                },
            )
        } else if !holds(main, DriverKind::Position) {
            Some(
                UpdateError {
                    role: CameraRole::Main,
                    cause: RigError::DriverNotPresent(DriverKind::Position),
                },
            )
        } else {
            None
        }
    }

    /// The gizmo chain as it stands when it is resolved: turned by the frame's
    /// input, its pivot pinned to the gizmo anchor.
    pub open spec fn gizmo_chain(self, mode: Pan, gizmo: Seq<Driver>, input: FrameInput) -> Seq<
        Driver,
    > {
        with_position(
            with_yaw_pitch(
                gizmo,
                yaw_pitch_of(gizmo).turned(
                    self.yaw_turn(mode, input),
                    self.pitch_turn(mode, input),
                ),
            ),
            self.gizmo_anchor,
        )
    }

    /// The transform that the gizmo rig resolves to in the frame.
    pub open spec fn gizmo_pose(self, mode: Pan, gizmo: Seq<Driver>, input: FrameInput) -> Transform {
        resolved(self.gizmo_chain(mode, gizmo, input), input.gizmo_weight as int)
    }

    /// The main chain as it stands when it is resolved: its yaw and pitch
    /// replaced by the rotation the gizmo rig resolved to, its pivot pinned to
    /// the main anchor.
    pub open spec fn main_chain(
        self,
        mode: Pan,
        gizmo: Seq<Driver>,
        main: Seq<Driver>,
        input: FrameInput,
    ) -> Seq<Driver> {
        let copied = self.gizmo_pose(mode, gizmo, input).rotation;
        with_position(
            with_yaw_pitch(main, YawPitch { yaw: copied.yaw, pitch: copied.pitch }),
            self.main_anchor,
        )
    }

    /// The transform that the main rig resolves to in the frame.
    pub open spec fn main_pose(
        self,
        mode: Pan,
        gizmo: Seq<Driver>,
        main: Seq<Driver>,
        input: FrameInput,
    ) -> Transform {
        resolved(self.main_chain(mode, gizmo, main, input), input.main_weight as int)
    }

    /// The constants with the given sensitivities and anchors.
    pub fn new(
        sensitivity_x: i32,
        sensitivity_y: i32,
        gizmo_anchor: Vec3i,
        main_anchor: Vec3i,
    ) -> (c: Coordinator)
        ensures
            c == (Coordinator { sensitivity_x, sensitivity_y, gizmo_anchor, main_anchor }),
    {
        Coordinator { sensitivity_x, sensitivity_y, gizmo_anchor, main_anchor }
    }

    /// Computes the frame's change of yaw and pitch from the mode and the input.
    pub fn turn(&self, mode: Pan, input: &FrameInput) -> (by: (i128, i128))
        ensures
            by.0 == self.yaw_turn(mode, *input),
            by.1 == self.pitch_turn(mode, *input),
    {
        let total = sum_motion(&input.motion);
        match mode {
            Pan::Keys => {
                let mut yaw: i128 = 0;
                if input.step_negative {
                    yaw = yaw - QUARTER_TURN as i128;
                }
                if input.step_positive {
                    yaw = yaw + QUARTER_TURN as i128;
                }
                (yaw, 0)
            },
            Pan::Mouse => {
                let sx: i128 = self.sensitivity_x as i128;
                let sy: i128 = self.sensitivity_y as i128;
                let count: usize = input.motion.len();
                let ghost n: int = count as int;
                assert(-0x4000_0000_0000_0000_0000_0000_0000_0000 <= sx * total.0
                    <= 0x4000_0000_0000_0000_0000_0000_0000_0000) by (nonlinear_arith)
                    requires
                        -0x8000_0000 <= sx <= 0x8000_0000,
                        -0x8000_0000 * n <= total.0 <= 0x8000_0000 * n,
                        0 <= n <= 0xffff_ffff_ffff_ffff,
                ;
                assert(-0x4000_0000_0000_0000_0000_0000_0000_0000 <= sy * total.1
                    <= 0x4000_0000_0000_0000_0000_0000_0000_0000) by (nonlinear_arith)
                    requires
                        -0x8000_0000 <= sy <= 0x8000_0000,
                        -0x8000_0000 * n <= total.1 <= 0x8000_0000 * n,
                        0 <= n <= 0xffff_ffff_ffff_ffff,
                ;
                (-(sx * total.0), -(sy * total.1))
            },
        }
    }

    /// Runs one frame of the camera update.
    ///
    /// In order: the frame's motion is summed; the gizmo rig's yaw/pitch driver
    /// is turned as the mode reads the input; its pivot is pinned to the gizmo
    /// anchor; the gizmo rig is resolved; the rotation it resolved to is copied
    /// into the main rig's yaw/pitch driver, the main pivot is pinned to the
    /// main anchor and the main rig is resolved; last, the mode is flipped if
    /// the toggle key's edge fired. The turn reads the mode as it was when the
    /// frame began.
    ///
    /// A frame that cannot be carried out is refused as a whole: neither rig
    /// nor the mode is touched.
    pub fn step(&self, mode: &mut Pan, gizmo: &mut Rig, main: &mut Rig, input: &FrameInput) -> (r:
        Result<Frame, UpdateError>)
        requires
            old(gizmo).wf(),
            old(main).wf(),
        ensures
            final(gizmo).wf(),
            final(main).wf(),
            r.is_ok() <==> self.refusal(*old(mode), old(gizmo)@, old(main)@, *input) is None,
            r matches Err(e) ==> {
                &&& Some(e) == self.refusal(*old(mode), old(gizmo)@, old(main)@, *input)
                &&& *final(mode) == *old(mode)
                &&& final(gizmo)@ == old(gizmo)@
                &&& final(main)@ == old(main)@
            },
            r matches Ok(frame) ==> {
                &&& frame.gizmo == self.gizmo_pose(*old(mode), old(gizmo)@, *input)
                &&& frame.main == self.main_pose(*old(mode), old(gizmo)@, old(main)@, *input)
                &&& frame.mode == old(mode).after(input.toggle)
                &&& *final(mode) == frame.mode
                &&& final(gizmo)@ == settled(
                    self.gizmo_chain(*old(mode), old(gizmo)@, *input),
                    input.gizmo_weight as int,
                )
                &&& final(main)@ == settled(
                    self.main_chain(*old(mode), old(gizmo)@, old(main)@, *input),
                    input.main_weight as int,
                )
                &&& yaw_pitch_of(final(gizmo)@) == yaw_pitch_of(old(gizmo)@).turned(
                    self.yaw_turn(*old(mode), *input),
                    self.pitch_turn(*old(mode), *input),
                )
                &&& frame.gizmo.translation == self.gizmo_anchor
                &&& frame.main.translation == self.main_anchor
                &&& undamped(old(main)@, frame.gizmo.rotation, input.main_weight as int)
                    ==> frame.main.rotation == frame.gizmo.rotation
            },
    {
        proof {
            if self.refusal(*mode, gizmo@, main@, *input) is None {
                lemma_step_turns_gizmo(*self, *mode, gizmo@, main@, *input);
                lemma_pivot_is_pinned(*self, *mode, gizmo@, main@, *input);
                if undamped(
                    main@,
                    self.gizmo_pose(*mode, gizmo@, *input).rotation,
                    input.main_weight as int,
                ) {
                    lemma_rotation_is_copied(*self, *mode, gizmo@, main@, *input);
                }
            }
        }
        let by = self.turn(*mode, input);
        let mut turned = match gizmo.yaw_pitch() {
            Ok(angles) => angles,
            Err(cause) => {
                return Err(UpdateError { role: CameraRole::Gizmo, cause });
            },
        };
        match turned.rotate_yaw_pitch(by.0, by.1) {
            Ok(()) => {},
            Err(cause) => {
                return Err(UpdateError { role: CameraRole::Gizmo, cause });
            },
        }
        if !gizmo.has(DriverKind::Position) {
            return Err(
                UpdateError {
                    role: CameraRole::Gizmo,
                    cause: RigError::DriverNotPresent(DriverKind::Position),
                },
            );
        }
        if !main.has(DriverKind::YawPitch) {
            return Err(
                UpdateError {
                    role: CameraRole::Main,
                    cause: RigError::DriverNotPresent(DriverKind::YawPitch),
                },
            );
        }
        if !main.has(DriverKind::Position) {
            return Err(
                UpdateError {
                    role: CameraRole::Main,
                    cause: RigError::DriverNotPresent(DriverKind::Position),
                },
            );
        }
        proof {
            lemma_kinds_survive(gizmo@, Driver::YawPitch(turned), 0);
        }
        // From here on nothing can fail: every kind that is written was found above.
        let _ = gizmo.set_rotation(turned.rotation());
        let _ = gizmo.set_position(self.gizmo_anchor);
        let gizmo_pose = gizmo.resolve(input.gizmo_weight);
        proof {
            lemma_kinds_survive(
                main@,
                Driver::YawPitch(
                    YawPitch { yaw: gizmo_pose.rotation.yaw, pitch: gizmo_pose.rotation.pitch },
                ),
                0,
            );
        }
        let _ = main.set_rotation(gizmo_pose.rotation);
        let _ = main.set_position(self.main_anchor);
        let main_pose = main.resolve(input.main_weight);
        let next = mode.advance(input.toggle);
        *mode = next;
        Ok(Frame { gizmo: gizmo_pose, main: main_pose, mode: next })
    }
}

/// Summing is additive over concatenation, so the order in which the events of
/// a frame are summed does not matter.
pub proof fn lemma_sum_concat(a: Seq<Motion>, b: Seq<Motion>)
    ensures
        sum_dx(a + b) == sum_dx(a) + sum_dx(b),
        sum_dy(a + b) == sum_dy(a) + sum_dy(b),
        sum_dx(a + b) == sum_dx(b + a),
        sum_dy(a + b) == sum_dy(b + a),
{
    lemma_sum_append(a, b);
    lemma_sum_append(b, a);
}

proof fn lemma_sum_append(a: Seq<Motion>, b: Seq<Motion>)
    ensures
        sum_dx(a + b) == sum_dx(a) + sum_dx(b),
        sum_dy(a + b) == sum_dy(a) + sum_dy(b),
    decreases b.len(),
{
    if b.len() == 0 {
        assert(a + b =~= a);
    } else {
        assert((a + b).drop_last() =~= a + b.drop_last());
        assert((a + b).last() == b.last());
        lemma_sum_append(a, b.drop_last());
    }
}

/// In key mode the yaw changes by exactly a quarter turn per press edge and
/// the pitch not at all, whatever the pointer did, whatever the sensitivities
/// are and whatever the blend weights of the frame are.
pub proof fn lemma_key_step_is_a_quarter_turn(c: Coordinator, input: FrameInput)
    ensures
        c.pitch_turn(Pan::Keys, input) == 0,
        input.step_positive && !input.step_negative ==> c.yaw_turn(Pan::Keys, input)
            == QUARTER_TURN,
        input.step_negative && !input.step_positive ==> c.yaw_turn(Pan::Keys, input)
            == -QUARTER_TURN,
        input.step_negative == input.step_positive ==> c.yaw_turn(Pan::Keys, input) == 0,
        forall|other: FrameInput|
            other.step_negative == input.step_negative && other.step_positive
                == input.step_positive ==> #[trigger] c.yaw_turn(Pan::Keys, other) == c.yaw_turn(
                Pan::Keys,
                input,
            ),
{
}

/// The number of frames in which the positive step key's edge fired, less the
/// number of frames in which the negative one's did.
pub open spec fn net_presses(frames: Seq<FrameInput>) -> int
    decreases frames.len(),
{
    if frames.len() == 0 {
        0
    } else {
        net_presses(frames.drop_last()) + (if frames.last().step_positive {
            1int
        } else {
            0int
        }) - (if frames.last().step_negative {
            1int
        } else {
            0int
        })
    }
}

/// The mode after a run of frames.
pub open spec fn mode_after(mode: Pan, frames: Seq<FrameInput>) -> Pan
    decreases frames.len(),
{
    if frames.len() == 0 {
        mode
    } else {
        mode_after(mode, frames.drop_last()).after(frames.last().toggle)
    }
}

/// The yaw turned in all over a run of frames, each frame read in the mode the
/// frames before it left.
pub open spec fn yaw_over(c: Coordinator, mode: Pan, frames: Seq<FrameInput>) -> int
    decreases frames.len(),
{
    if frames.len() == 0 {
        0
    } else {
        yaw_over(c, mode, frames.drop_last()) + c.yaw_turn(
            mode_after(mode, frames.drop_last()),
            frames.last(),
        )
    }
}

/// The pitch turned in all over a run of frames.
pub open spec fn pitch_over(c: Coordinator, mode: Pan, frames: Seq<FrameInput>) -> int
    decreases frames.len(),
{
    if frames.len() == 0 {
        0
    } else {
        pitch_over(c, mode, frames.drop_last()) + c.pitch_turn(
            mode_after(mode, frames.drop_last()),
            frames.last(),
        )
    }
}

/// Over any run of frames that starts in key mode and never toggles, the yaw
/// changes by exactly a quarter turn per press edge: by the net count of
/// presses times a quarter turn. The pitch does not change, and the run ends in
/// key mode.
pub proof fn lemma_key_presses_accumulate(c: Coordinator, frames: Seq<FrameInput>)
    requires
        forall|i: int| 0 <= i < frames.len() ==> !(#[trigger] frames[i]).toggle,
    ensures
        mode_after(Pan::Keys, frames) == Pan::Keys,
        yaw_over(c, Pan::Keys, frames) == QUARTER_TURN * net_presses(frames),
        pitch_over(c, Pan::Keys, frames) == 0,
    decreases frames.len(),
{
    if frames.len() > 0 {
        let earlier = frames.drop_last();
        assert forall|i: int| 0 <= i < earlier.len() implies !(#[trigger] earlier[i]).toggle by {
            assert(earlier[i] == frames[i]);
        }
        lemma_key_presses_accumulate(c, earlier);
        assert(!frames[frames.len() - 1].toggle);
    }
}

/// In mouse mode the turn is linear in the summed motion and in the
/// sensitivities: it is the negated product of the two, so it is additive over
/// the events of a frame and scales with the sensitivity. In key mode the
/// motion does not count at all.
pub proof fn lemma_mouse_turn_is_linear(c: Coordinator, input: FrameInput)
    ensures
        c.yaw_turn(Pan::Mouse, input) == -(c.sensitivity_x * sum_dx(input.motion@)),
        c.pitch_turn(Pan::Mouse, input) == -(c.sensitivity_y * sum_dy(input.motion@)),
        forall|a: Seq<Motion>, b: Seq<Motion>|
            input.motion@ == a + b ==> c.yaw_turn(Pan::Mouse, input) == -(c.sensitivity_x
                * #[trigger] sum_dx(a)) - c.sensitivity_x * #[trigger] sum_dx(b),
        forall|a: Seq<Motion>, b: Seq<Motion>|
            input.motion@ == a + b ==> c.pitch_turn(Pan::Mouse, input) == -(c.sensitivity_y
                * #[trigger] sum_dy(a)) - c.sensitivity_y * #[trigger] sum_dy(b),
        forall|k: int, scaled: Coordinator|
            scaled.sensitivity_x == k * c.sensitivity_x ==> #[trigger] scaled.yaw_turn(
                Pan::Mouse,
                input,
            ) == #[trigger] (k * c.yaw_turn(Pan::Mouse, input)),
        forall|k: int, scaled: Coordinator|
            scaled.sensitivity_y == k * c.sensitivity_y ==> #[trigger] scaled.pitch_turn(
                Pan::Mouse,
                input,
            ) == #[trigger] (k * c.pitch_turn(Pan::Mouse, input)),
        !input.step_negative && !input.step_positive ==> c.yaw_turn(Pan::Keys, input) == 0,
        c.pitch_turn(Pan::Keys, input) == 0,
{
    let sx = c.sensitivity_x as int;
    let sy = c.sensitivity_y as int;
    assert forall|a: Seq<Motion>, b: Seq<Motion>| input.motion@ == a + b implies c.yaw_turn(
        Pan::Mouse,
        input,
    ) == -(c.sensitivity_x * #[trigger] sum_dx(a)) - c.sensitivity_x * #[trigger] sum_dx(b) by {
        lemma_sum_concat(a, b);
        assert(sx * (sum_dx(a) + sum_dx(b)) == sx * sum_dx(a) + sx * sum_dx(b))
            by (nonlinear_arith);
    }
    assert forall|a: Seq<Motion>, b: Seq<Motion>| input.motion@ == a + b implies c.pitch_turn(
        Pan::Mouse,
        input,
    ) == -(c.sensitivity_y * #[trigger] sum_dy(a)) - c.sensitivity_y * #[trigger] sum_dy(b) by {
        lemma_sum_concat(a, b);
        assert(sy * (sum_dy(a) + sum_dy(b)) == sy * sum_dy(a) + sy * sum_dy(b))
            by (nonlinear_arith);
    }
    let dx = sum_dx(input.motion@);
    let dy = sum_dy(input.motion@);
    assert forall|k: int, scaled: Coordinator|
        scaled.sensitivity_x == k * c.sensitivity_x implies #[trigger] scaled.yaw_turn(
        Pan::Mouse,
        input,
    ) == #[trigger] (k * c.yaw_turn(Pan::Mouse, input)) by {
        assert((k * sx) * dx == k * (sx * dx)) by (nonlinear_arith);
        assert(-(k * (sx * dx)) == k * (-(sx * dx))) by (nonlinear_arith);
    }
    assert forall|k: int, scaled: Coordinator|
        scaled.sensitivity_y == k * c.sensitivity_y implies #[trigger] scaled.pitch_turn(
        Pan::Mouse,
        input,
    ) == #[trigger] (k * c.pitch_turn(Pan::Mouse, input)) by {
        assert((k * sy) * dy == k * (sy * dy)) by (nonlinear_arith);
        assert(-(k * (sy * dy)) == k * (-(sy * dy))) by (nonlinear_arith);
    }
}

/// After a frame that was carried out, the gizmo rig's yaw/pitch driver holds
/// its earlier angles turned by exactly the frame's turn.
pub proof fn lemma_step_turns_gizmo(
    c: Coordinator,
    mode: Pan,
    gizmo: Seq<Driver>,
    main: Seq<Driver>,
    input: FrameInput,
)
    requires
        distinct_kinds(gizmo),
        c.refusal(mode, gizmo, main, input) is None,
    ensures
        yaw_pitch_of(settled(c.gizmo_chain(mode, gizmo, input), input.gizmo_weight as int))
            == yaw_pitch_of(gizmo).turned(c.yaw_turn(mode, input), c.pitch_turn(mode, input)),
{
    let angles = yaw_pitch_of(gizmo).turned(c.yaw_turn(mode, input), c.pitch_turn(mode, input));
    let turned = with_yaw_pitch(gizmo, angles);
    let pinned = with_position(turned, c.gizmo_anchor);
    let after = settled(pinned, input.gizmo_weight as int);
    lemma_found_replaced(gizmo, Driver::YawPitch(angles));
    lemma_found_agrees(turned, pinned, DriverKind::YawPitch);
    lemma_found_agrees(pinned, after, DriverKind::YawPitch);
}

/// The rotation copy: after a frame that was carried out, the main rig is
/// resolved to the rotation that the gizmo rig was resolved to in the same
/// frame, provided no smoother of the main rig damps the copy on its way; and
/// each rig's pivot is resolved to its own anchor, so the two translations are
/// set independently.
pub proof fn lemma_rotation_is_copied(
    c: Coordinator,
    mode: Pan,
    gizmo: Seq<Driver>,
    main: Seq<Driver>,
    input: FrameInput,
)
    requires
        distinct_kinds(gizmo),
        distinct_kinds(main),
        c.refusal(mode, gizmo, main, input) is None,
        undamped(main, c.gizmo_pose(mode, gizmo, input).rotation, input.main_weight as int),
    ensures
        c.main_pose(mode, gizmo, main, input).rotation == c.gizmo_pose(
            mode,
            gizmo,
            input,
        ).rotation,
        c.gizmo_pose(mode, gizmo, input).translation == c.gizmo_anchor,
        c.main_pose(mode, gizmo, main, input).translation == c.main_anchor,
{
    lemma_pivot_is_pinned(c, mode, gizmo, main, input);
    let copied = c.gizmo_pose(mode, gizmo, input).rotation;
    let angles = YawPitch { yaw: copied.yaw, pitch: copied.pitch };
    let set = with_yaw_pitch(main, angles);
    let chain = c.main_chain(mode, gizmo, main, input);
    let pin = Driver::Position(Position { position: c.main_anchor });
    lemma_kinds_survive(main, Driver::YawPitch(angles), 0);
    lemma_kinds_survive(set, pin, 0);
    lemma_found_replaced(main, Driver::YawPitch(angles));
    lemma_found_agrees(set, chain, DriverKind::YawPitch);
    assert(undamped(chain, copied, input.main_weight as int)) by {
        assert forall|i: int, j: int|
            0 <= j < i < chain.len() && (#[trigger] chain[j]).kind()
                == DriverKind::YawPitch implies match #[trigger] chain[i] {
            Driver::Smoothing(s) => s.output(copied, input.main_weight as int) == copied,
            _ => true,
        } by {
            assert(main[j].kind() == DriverKind::YawPitch);
            assert(chain[i].kind() == main[i].kind());
            if chain[i].kind() == DriverKind::Smoothing {
                assert(chain[i] == main[i]);
            }
        }
    }
    lemma_resolved_rotation(chain, input.main_weight as int);
}

/// After a frame that was carried out, each rig's pivot is resolved to its own
/// anchor, whatever the other rig holds.
pub proof fn lemma_pivot_is_pinned(
    c: Coordinator,
    mode: Pan,
    gizmo: Seq<Driver>,
    main: Seq<Driver>,
    input: FrameInput,
)
    requires
        distinct_kinds(gizmo),
        distinct_kinds(main),
        c.refusal(mode, gizmo, main, input) is None,
    ensures
        c.gizmo_pose(mode, gizmo, input).translation == c.gizmo_anchor,
        c.main_pose(mode, gizmo, main, input).translation == c.main_anchor,
{
    let angles = yaw_pitch_of(gizmo).turned(c.yaw_turn(mode, input), c.pitch_turn(mode, input));
    lemma_kinds_survive(gizmo, Driver::YawPitch(angles), 0);
    lemma_pinned(with_yaw_pitch(gizmo, angles), c.gizmo_anchor, input.gizmo_weight as int);
    let copied = c.gizmo_pose(mode, gizmo, input).rotation;
    let copy = YawPitch { yaw: copied.yaw, pitch: copied.pitch };
    lemma_kinds_survive(main, Driver::YawPitch(copy), 0);
    lemma_pinned(with_yaw_pitch(main, copy), c.main_anchor, input.main_weight as int);
}

proof fn lemma_pinned(chain: Seq<Driver>, anchor: Vec3i, weight: int)
    requires
        distinct_kinds(chain),
        holds(chain, DriverKind::Position),
    ensures
        resolved(with_position(chain, anchor), weight).translation == anchor,
{
    let pin = Driver::Position(Position { position: anchor });
    lemma_kinds_survive(chain, pin, weight);
    lemma_found_replaced(chain, pin);
    lemma_resolved_translation(with_position(chain, anchor), weight, anchor);
}

} // verus!
