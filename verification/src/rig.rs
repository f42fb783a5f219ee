//! A rig: an ordered chain of drivers that resolves to one transform per update.

use vstd::prelude::*;
use crate::driver::{Arm, Driver, DriverKind, Position, RigError, Smoothing, Transform, YawPitch};
use crate::geometry::{Rotation, Vec3i};

verus! {

/// Whether the chain holds a driver of the given kind.
pub open spec fn holds(chain: Seq<Driver>, kind: DriverKind) -> bool {
    exists|i: int| 0 <= i < chain.len() && (#[trigger] chain[i]).kind() == kind
}

/// Whether no kind occurs twice in the chain.
pub open spec fn distinct_kinds(chain: Seq<Driver>) -> bool {
    forall|i: int, j: int|
        0 <= i < j < chain.len() ==> (#[trigger] chain[i]).kind() != (#[trigger] chain[j]).kind()
}

/// Whether `at` is the first place in the chain whose kind already occurred
/// before it.
pub open spec fn first_repeat(chain: Seq<Driver>, at: int) -> bool {
    &&& 0 <= at < chain.len()
    &&& distinct_kinds(chain.take(at))
    &&& holds(chain.take(at), chain[at].kind())
}

/// The first driver of the given kind in the chain, if there is one.
pub open spec fn found(chain: Seq<Driver>, kind: DriverKind) -> Option<Driver>
    decreases chain.len(),
{
    if chain.len() == 0 {
        None
    } else if chain[0].kind() == kind {
        Some(chain[0])
    } else {
        found(chain.drop_first(), kind)
    }
}

/// The chain with every driver of `driver`'s kind replaced by `driver`.
pub open spec fn replaced(chain: Seq<Driver>, driver: Driver) -> Seq<Driver> {
    Seq::new(
        chain.len(),
        |i: int|
            if chain[i].kind() == driver.kind() {
                driver
            } else {
                chain[i]
            },
    )
}

/// The chain with its position driver set to `position`.
pub open spec fn with_position(chain: Seq<Driver>, position: Vec3i) -> Seq<Driver> {
    replaced(chain, Driver::Position(Position { position }))
}

/// The chain with its yaw/pitch driver set to `angles`.
pub open spec fn with_yaw_pitch(chain: Seq<Driver>, angles: YawPitch) -> Seq<Driver> {
    replaced(chain, Driver::YawPitch(angles))
}

/// The angles of the chain's yaw/pitch driver; facing ahead where the chain
/// holds none.
pub open spec fn yaw_pitch_of(chain: Seq<Driver>) -> YawPitch {
    match found(chain, DriverKind::YawPitch) {
        Some(Driver::YawPitch(angles)) => angles,
        _ => YawPitch { yaw: 0, pitch: 0 },
    }
}

/// The transform that leaves the first `n` drivers of the chain. Each driver
/// sees only what the drivers before it produced.
pub open spec fn pose_after(chain: Seq<Driver>, n: int, weight: int) -> Transform
    decreases n,
{
    if n <= 0 || n > chain.len() {
        Transform::start()
    } else {
        chain[n - 1].contribute(pose_after(chain, n - 1, weight), weight)
    }
}

/// The transform the whole chain resolves to.
pub open spec fn resolved(chain: Seq<Driver>, weight: int) -> Transform {
    pose_after(chain, chain.len() as int, weight)
}

/// The chain after one update: every driver settled on the transform that
/// reached it.
pub open spec fn settled(chain: Seq<Driver>, weight: int) -> Seq<Driver> {
    Seq::new(chain.len(), |i: int| chain[i].settle(pose_after(chain, i, weight), weight))
}

/// Whether the rotation set by the chain's yaw/pitch driver reaches the end of
/// the chain as `rotation`: no smoother that runs after the yaw/pitch driver
/// yields anything else when `rotation` reaches it.
pub open spec fn undamped(chain: Seq<Driver>, rotation: Rotation, weight: int) -> bool {
    forall|i: int, j: int|
        0 <= j < i < chain.len() && (#[trigger] chain[j]).kind() == DriverKind::YawPitch
            ==> match #[trigger] chain[i] {
            Driver::Smoothing(s) => s.output(rotation, weight) == rotation,
            _ => true,
        }
}

/// An ordered chain of drivers, at most one of each kind.
#[derive(Debug, PartialEq, Eq)]
pub struct Rig {
    drivers: Vec<Driver>,
}

/// Collects the drivers of a rig in the order in which they will run.
#[derive(Debug)]
pub struct RigBuilder {
    drivers: Vec<Driver>,
}

impl View for RigBuilder {
    type V = Seq<Driver>;

    closed spec fn view(&self) -> Seq<Driver> {
        self.drivers@
    }
}

impl View for Rig {
    type V = Seq<Driver>;

    closed spec fn view(&self) -> Seq<Driver> {
        self.drivers@
    }
}

impl RigBuilder {
    /// Appends a driver to the chain.
    pub fn with(self, driver: Driver) -> (builder: RigBuilder)
        ensures
            builder@ == self@.push(driver),
    {
        let mut drivers = self.drivers;
        drivers.push(driver);
        RigBuilder { drivers }
    }

    /// Finishes the rig.
    ///
    /// Succeeds exactly when no kind occurs twice. Otherwise the error names the
    /// kind of the first driver that repeats an earlier one.
    pub fn build(self) -> (r: Result<Rig, RigError>)
        ensures
            r.is_ok() <==> distinct_kinds(self@),
            r matches Ok(rig) ==> rig@ == self@ && rig.wf(),
            r matches Err(e) ==> exists|at: int|
                first_repeat(self@, at) && e == RigError::DuplicateDriver(
                    (#[trigger] self@[at]).kind(),
                ),
    {
        match first_duplicate(&self.drivers) {
            Some(at) => {
                let kind = self.drivers[at].kind();
                assert(first_repeat(self@, at as int) && kind == self@[at as int].kind());
                Err(RigError::DuplicateDriver(kind))
            },
            None => Ok(Rig { drivers: self.drivers }),
        }
    }
}

/// Finds the first driver whose kind already occurred before it.
fn first_duplicate(drivers: &Vec<Driver>) -> (r: Option<usize>)
    ensures
        r is None <==> distinct_kinds(drivers@),
        r matches Some(at) ==> first_repeat(drivers@, at as int),
{
    let mut seen_position = false;
    let mut seen_yaw_pitch = false;
    let mut seen_smoothing = false;
    let mut seen_arm = false;
    let mut n: usize = 0;
    while n < drivers.len()
        invariant
            n <= drivers@.len(),
            distinct_kinds(drivers@.take(n as int)),
            seen_position == holds(drivers@.take(n as int), DriverKind::Position),
            seen_yaw_pitch == holds(drivers@.take(n as int), DriverKind::YawPitch),
            seen_smoothing == holds(drivers@.take(n as int), DriverKind::Smoothing),
            seen_arm == holds(drivers@.take(n as int), DriverKind::Arm),
        decreases drivers@.len() - n,
    {
        let kind = drivers[n].kind();
        let seen = match kind {
            DriverKind::Position => seen_position,
            DriverKind::YawPitch => seen_yaw_pitch,
            DriverKind::Smoothing => seen_smoothing,
            DriverKind::Arm => seen_arm,
        };
        let ghost before = drivers@.take(n as int);
        let ghost next = drivers@.take(n + 1);
        if seen {
            proof {
                let i = choose|i: int|
                    0 <= i < before.len() && (#[trigger] before[i]).kind() == kind;
                assert(drivers@[i] == before[i]);
                assert(drivers@[i].kind() == drivers@[n as int].kind());
            }
            return Some(n);
        }
        proof {
            assert(next =~= before.push(drivers@[n as int]));
            assert forall|i: int, j: int| 0 <= i < j < next.len() implies (#[trigger] next[i]).kind()
                != (#[trigger] next[j]).kind() by {
                if j < n {
                    assert(before[i] == next[i] && before[j] == next[j]);
                } else {
                    assert(before[i] == next[i]);
                }
            }
            assert forall|k: DriverKind| #[trigger]
                holds(next, k) == (holds(before, k) || k == kind) by {
                if holds(before, k) {
                    let i = choose|i: int|
                        0 <= i < before.len() && (#[trigger] before[i]).kind() == k;
                    assert(next[i] == before[i]);
                }
                if k == kind {
                    assert(next[n as int].kind() == k);
                }
                if holds(next, k) {
                    let i = choose|i: int| 0 <= i < next.len() && (#[trigger] next[i]).kind() == k;
                    if i < n {
                        assert(before[i] == next[i]);
                    }
                }
            }
        }
        match kind {
            DriverKind::Position => {
                seen_position = true;
            },
            DriverKind::YawPitch => {
                seen_yaw_pitch = true;
            },
            DriverKind::Smoothing => {
                seen_smoothing = true;
            },
            DriverKind::Arm => {
                seen_arm = true;
            },
        }
        n = n + 1;
    }
    proof {
        assert(drivers@.take(n as int) =~= drivers@);
    }
    None
}

impl Rig {
    /// Whether the rig is valid: no kind occurs twice in its chain.
    pub open spec fn wf(&self) -> bool {
        distinct_kinds(self@)
    }

    /// Starts an empty chain.
    pub fn builder() -> (builder: RigBuilder)
        ensures
            builder@ == Seq::<Driver>::empty(),
    {
        RigBuilder { drivers: Vec::new() }
    }

    /// Whether the rig is valid. Every rig that `build` returned is, and stays
    /// so; the test is for callers that want to check before they rely on it.
    pub fn is_valid(&self) -> (valid: bool)
        ensures
            valid == self.wf(),
    {
        first_duplicate(&self.drivers).is_none()
    }

    /// The number of drivers in the chain.
    pub fn len(&self) -> (n: usize)
        ensures
            n == self@.len(),
    {
        self.drivers.len()
    }

    /// The place of the first driver of the given kind.
    fn find(&self, kind: DriverKind) -> (r: Option<usize>)
        ensures
            r.is_some() <==> holds(self@, kind),
            r matches Some(i) ==> i < self@.len() && found(self@, kind) == Some(self@[i as int])
                && self@[i as int].kind() == kind,
            r is None ==> found(self@, kind) is None,
    {
        let mut i: usize = 0;
        while i < self.drivers.len()
            invariant
                i <= self.drivers@.len(),
                forall|j: int| 0 <= j < i ==> (#[trigger] self.drivers@[j]).kind() != kind,
            decreases self.drivers@.len() - i,
        {
            if self.drivers[i].kind() == kind {
                proof {
                    lemma_found_first(self@, kind, i as int);
                }
                return Some(i);
            }
            i = i + 1;
        }
        proof {
            lemma_found_is_held(self@, kind);
        }
        None
    }

    /// Whether the rig holds a driver of the given kind.
    pub fn has(&self, kind: DriverKind) -> (present: bool)
        ensures
            present == holds(self@, kind),
    {
        self.find(kind).is_some()
    }

    /// The driver of the given kind, as it stands now.
    ///
    /// Fails exactly when the rig holds no driver of that kind; the error names
    /// the kind.
    pub fn driver(&self, kind: DriverKind) -> (r: Result<Driver, RigError>)
        ensures
            r.is_ok() <==> holds(self@, kind),
            r matches Ok(d) ==> found(self@, kind) == Some(d) && d.kind() == kind,
            r matches Err(e) ==> e == RigError::DriverNotPresent(kind),
    {
        match self.find(kind) {
            Some(i) => Ok(self.drivers[i]),
            None => Err(RigError::DriverNotPresent(kind)),
        }
    }

    /// Puts `driver` in the place of the driver of its kind.
    ///
    /// Fails, and changes nothing, exactly when the rig holds no driver of that
    /// kind.
    pub fn replace(&mut self, driver: Driver) -> (r: Result<(), RigError>)
        requires
            old(self).wf(),
        ensures
            final(self).wf(),
            r.is_ok() <==> holds(old(self)@, driver.kind()),
            r.is_ok() ==> final(self)@ == replaced(old(self)@, driver),
            r matches Err(e) ==> e == RigError::DriverNotPresent(driver.kind()) && final(self)@
                == old(self)@,
    {
        match self.find(driver.kind()) {
            Some(i) => {
                self.drivers.set(i, driver);
                proof {
                    lemma_replaced_at(old(self)@, i as int, driver);
                }
                Ok(())
            },
            None => Err(RigError::DriverNotPresent(driver.kind())),
        }
    }

    /// The position driver, to be changed in place.
    pub fn position_mut(&mut self) -> (r: Result<&mut Position, RigError>)
        requires
            old(self).wf(),
        ensures
            final(self).wf(),
            r.is_ok() <==> holds(old(self)@, DriverKind::Position),
            r matches Ok(driver) ==> {
                &&& found(old(self)@, DriverKind::Position) == Some(Driver::Position(*driver))
                &&& final(self)@ == replaced(old(self)@, Driver::Position(*final(driver)))
            },
            r matches Err(e) ==> e == RigError::DriverNotPresent(DriverKind::Position)
                && final(self)@ == old(self)@,
    {
        match self.find(DriverKind::Position) {
            Some(i) => {
                match &mut self.drivers[i] {
                    Driver::Position(driver) => {
                        proof {
                            lemma_replaced_at(
                                old(self)@,
                                i as int,
                                Driver::Position(*final(driver)),
                            );
                        }
                        Ok(driver)
                    },
                    _ => Err(RigError::DriverNotPresent(DriverKind::Position)),
                }
            },
            None => Err(RigError::DriverNotPresent(DriverKind::Position)),
        }
    }

    /// The yaw/pitch driver, to be changed in place.
    pub fn yaw_pitch_mut(&mut self) -> (r: Result<&mut YawPitch, RigError>)
        requires
            old(self).wf(),
        ensures
            final(self).wf(),
            r.is_ok() <==> holds(old(self)@, DriverKind::YawPitch),
            r matches Ok(driver) ==> {
                &&& found(old(self)@, DriverKind::YawPitch) == Some(Driver::YawPitch(*driver))
                &&& final(self)@ == replaced(old(self)@, Driver::YawPitch(*final(driver)))
            },
            r matches Err(e) ==> e == RigError::DriverNotPresent(DriverKind::YawPitch)
                && final(self)@ == old(self)@,
    {
        match self.find(DriverKind::YawPitch) {
            Some(i) => {
                match &mut self.drivers[i] {
                    Driver::YawPitch(driver) => {
                        proof {
                            lemma_replaced_at(
                                old(self)@,
                                i as int,
                                Driver::YawPitch(*final(driver)),
                            );
                        }
                        Ok(driver)
                    },
                    _ => Err(RigError::DriverNotPresent(DriverKind::YawPitch)),
                }
            },
            None => Err(RigError::DriverNotPresent(DriverKind::YawPitch)),
        }
    }

    /// The smoother, to be changed in place.
    pub fn smoothing_mut(&mut self) -> (r: Result<&mut Smoothing, RigError>)
        requires
            old(self).wf(),
        ensures
            final(self).wf(),
            r.is_ok() <==> holds(old(self)@, DriverKind::Smoothing),
            r matches Ok(driver) ==> {
                &&& found(old(self)@, DriverKind::Smoothing) == Some(Driver::Smoothing(*driver))
                &&& final(self)@ == replaced(old(self)@, Driver::Smoothing(*final(driver)))
            },
            r matches Err(e) ==> e == RigError::DriverNotPresent(DriverKind::Smoothing)
                && final(self)@ == old(self)@,
    {
        match self.find(DriverKind::Smoothing) {
            Some(i) => {
                match &mut self.drivers[i] {
                    Driver::Smoothing(driver) => {
                        proof {
                            lemma_replaced_at(
                                old(self)@,
                                i as int,
                                Driver::Smoothing(*final(driver)),
                            );
                        }
                        Ok(driver)
                    },
                    _ => Err(RigError::DriverNotPresent(DriverKind::Smoothing)),
                }
            },
            None => Err(RigError::DriverNotPresent(DriverKind::Smoothing)),
        }
    }

    /// The arm, to be changed in place.
    pub fn arm_mut(&mut self) -> (r: Result<&mut Arm, RigError>)
        requires
            old(self).wf(),
        ensures
            final(self).wf(),
            r.is_ok() <==> holds(old(self)@, DriverKind::Arm),
            r matches Ok(driver) ==> {
                &&& found(old(self)@, DriverKind::Arm) == Some(Driver::Arm(*driver))
                &&& final(self)@ == replaced(old(self)@, Driver::Arm(*final(driver)))
            },
            r matches Err(e) ==> e == RigError::DriverNotPresent(DriverKind::Arm) && final(self)@
                == old(self)@,
    {
        match self.find(DriverKind::Arm) {
            Some(i) => {
                match &mut self.drivers[i] {
                    Driver::Arm(driver) => {
                        proof {
                            lemma_replaced_at(old(self)@, i as int, Driver::Arm(*final(driver)));
                        }
                        Ok(driver)
                    },
                    _ => Err(RigError::DriverNotPresent(DriverKind::Arm)),
                }
            },
            None => Err(RigError::DriverNotPresent(DriverKind::Arm)),
        }
    }

    /// Sets the position driver's position.
    ///
    /// Fails, and changes nothing, exactly when the rig holds no position driver.
    pub fn set_position(&mut self, position: Vec3i) -> (r: Result<(), RigError>)
        requires
            old(self).wf(),
        ensures
            final(self).wf(),
            r.is_ok() <==> holds(old(self)@, DriverKind::Position),
            r.is_ok() ==> final(self)@ == with_position(old(self)@, position),
            r matches Err(e) ==> e == RigError::DriverNotPresent(DriverKind::Position)
                && final(self)@ == old(self)@,
    {
        self.replace(Driver::Position(Position { position }))
    }

    /// The yaw/pitch driver's angles.
    pub fn yaw_pitch(&self) -> (r: Result<YawPitch, RigError>)
        ensures
            r.is_ok() <==> holds(self@, DriverKind::YawPitch),
            r matches Ok(angles) ==> angles == yaw_pitch_of(self@),
            r matches Err(e) ==> e == RigError::DriverNotPresent(DriverKind::YawPitch),
    {
        match self.find(DriverKind::YawPitch) {
            Some(i) => match self.drivers[i] {
                Driver::YawPitch(angles) => Ok(angles),
                _ => Err(RigError::DriverNotPresent(DriverKind::YawPitch)),
            },
            None => Err(RigError::DriverNotPresent(DriverKind::YawPitch)),
        }
    }

    /// Replaces the yaw/pitch driver's angles by `rotation`.
    ///
    /// Fails, and changes nothing, exactly when the rig holds no yaw/pitch driver.
    pub fn set_rotation(&mut self, rotation: Rotation) -> (r: Result<(), RigError>)
        requires
            old(self).wf(),
        ensures
            final(self).wf(),
            r.is_ok() <==> holds(old(self)@, DriverKind::YawPitch),
            r.is_ok() ==> final(self)@ == with_yaw_pitch(
                old(self)@,
                YawPitch { yaw: rotation.yaw, pitch: rotation.pitch },
            ),
            r matches Err(e) ==> e == RigError::DriverNotPresent(DriverKind::YawPitch)
                && final(self)@ == old(self)@,
    {
        self.replace(Driver::YawPitch(YawPitch { yaw: rotation.yaw, pitch: rotation.pitch }))
    }

    /// Turns the yaw/pitch driver by `yaw` and `pitch` tenths of a degree.
    ///
    /// Fails, and changes nothing, when the rig holds no yaw/pitch driver, or
    /// else when the turn would carry an angle out of the range of `i64`.
    pub fn rotate_yaw_pitch(&mut self, yaw: i128, pitch: i128) -> (r: Result<(), RigError>)
        requires
            old(self).wf(),
        ensures
            final(self).wf(),
            r.is_ok() <==> holds(old(self)@, DriverKind::YawPitch) && yaw_pitch_of(
                old(self)@,
            ).can_turn(yaw as int, pitch as int),
            r.is_ok() ==> final(self)@ == with_yaw_pitch(
                old(self)@,
                yaw_pitch_of(old(self)@).turned(yaw as int, pitch as int),
            ),
            r matches Err(e) ==> final(self)@ == old(self)@ && e == (if holds(
                old(self)@,
                DriverKind::YawPitch,
            ) {
                RigError::AngleOutOfRange
            } else {
                RigError::DriverNotPresent(DriverKind::YawPitch)
            }),
    {
        let mut angles = match self.yaw_pitch() {
            Ok(angles) => angles,
            Err(e) => {
                return Err(e);
            },
        };
        match angles.rotate_yaw_pitch(yaw, pitch) {
            Ok(()) => self.replace(Driver::YawPitch(angles)),
            Err(e) => Err(e),
        }
    }

    /// Runs the chain once and returns the transform it resolves to.
    ///
    /// `weight` is the blend weight of this update, in thousandths: how far a
    /// smoother moves towards its target. The drivers run in chain order; each
    /// is handed what the ones before it produced.
    pub fn resolve(&mut self, weight: u16) -> (pose: Transform)
        requires
            old(self).wf(),
        ensures
            final(self).wf(),
            pose == resolved(old(self)@, weight as int),
            final(self)@ == settled(old(self)@, weight as int),
    {
        let ghost before = self.drivers@;
        let mut pose = Transform::identity();
        let mut i: usize = 0;
        while i < self.drivers.len()
            invariant
                i <= before.len(),
                self.drivers@.len() == before.len(),
                pose == pose_after(before, i as int, weight as int),
                forall|k: int|
                    0 <= k < i ==> #[trigger] self.drivers@[k] == before[k].settle(
                        pose_after(before, k, weight as int),
                        weight as int,
                    ),
                forall|k: int| i <= k < before.len() ==> #[trigger] self.drivers@[k] == before[k],
            decreases before.len() - i,
        {
            let mut driver = self.drivers[i];
            pose = driver.update(pose, weight);
            self.drivers.set(i, driver);
            i = i + 1;
        }
        proof {
            assert(self.drivers@ =~= settled(before, weight as int));
            lemma_kinds_kept(before, self.drivers@);
        }
        pose
    }
}

/// No driver sees the drivers after it: the transform that leaves the first
/// `n` drivers is the same in any two chains that agree on those `n`.
pub proof fn lemma_later_drivers_unseen(a: Seq<Driver>, b: Seq<Driver>, n: int, weight: int)
    requires
        0 <= n <= a.len(),
        n <= b.len(),
        forall|i: int| 0 <= i < n ==> a[i] == b[i],
    ensures
        pose_after(a, n, weight) == pose_after(b, n, weight),
    decreases n,
{
    if n > 0 {
        lemma_later_drivers_unseen(a, b, n - 1, weight);
    }
}

/// A chain whose drivers kept their kinds, place by place, keeps its validity
/// and holds the same kinds.
pub proof fn lemma_kinds_kept(before: Seq<Driver>, after: Seq<Driver>)
    requires
        before.len() == after.len(),
        forall|i: int| 0 <= i < before.len() ==> (#[trigger] after[i]).kind() == before[i].kind(),
    ensures
        distinct_kinds(before) ==> distinct_kinds(after),
        forall|kind: DriverKind| holds(before, kind) == #[trigger] holds(after, kind),
{
    if distinct_kinds(before) {
        assert forall|i: int, j: int| 0 <= i < j < after.len() implies (#[trigger] after[i]).kind()
            != (#[trigger] after[j]).kind() by {
            assert(before[i].kind() != before[j].kind());
        }
    }
    assert forall|kind: DriverKind| holds(before, kind) == #[trigger] holds(after, kind) by {
        if holds(before, kind) {
            let i = choose|i: int| 0 <= i < before.len() && (#[trigger] before[i]).kind() == kind;
            assert(after[i].kind() == kind);
        }
        if holds(after, kind) {
            let i = choose|i: int| 0 <= i < after.len() && (#[trigger] after[i]).kind() == kind;
            assert(before[i].kind() == kind);
        }
    }
}

/// Replacing a driver by one of its kind, and an update, keep every driver's
/// kind: the chain holds the same kinds as before and stays valid.
pub proof fn lemma_kinds_survive(chain: Seq<Driver>, driver: Driver, weight: int)
    ensures
        forall|kind: DriverKind| holds(chain, kind) == #[trigger] holds(replaced(chain, driver), kind),
        forall|kind: DriverKind| holds(chain, kind) == #[trigger] holds(settled(chain, weight), kind),
        distinct_kinds(chain) ==> distinct_kinds(replaced(chain, driver)),
        distinct_kinds(chain) ==> distinct_kinds(settled(chain, weight)),
{
    lemma_kinds_kept(chain, replaced(chain, driver));
    lemma_kinds_kept(chain, settled(chain, weight));
}

/// What is found is a driver of the kind that was asked for, and something is
/// found exactly when the chain holds the kind.
pub proof fn lemma_found_is_held(chain: Seq<Driver>, kind: DriverKind)
    ensures
        found(chain, kind) is Some <==> holds(chain, kind),
        found(chain, kind) matches Some(d) ==> d.kind() == kind && chain.contains(d),
    decreases chain.len(),
{
    if chain.len() > 0 {
        let rest = chain.drop_first();
        lemma_found_is_held(rest, kind);
        if chain[0].kind() == kind {
            assert(chain.contains(chain[0]));
        } else {
            if holds(chain, kind) {
                let i = choose|i: int| 0 <= i < chain.len() && (#[trigger] chain[i]).kind() == kind;
                assert(rest[i - 1] == chain[i]);
            }
            if holds(rest, kind) {
                let i = choose|i: int| 0 <= i < rest.len() && (#[trigger] rest[i]).kind() == kind;
                assert(chain[i + 1] == rest[i]);
            }
            if let Some(d) = found(rest, kind) {
                let i = choose|i: int| 0 <= i < rest.len() && rest[i] == d;
                assert(chain[i + 1] == d);
            }
        }
    }
}

/// The driver found is the one at the first place that holds the kind.
pub proof fn lemma_found_first(chain: Seq<Driver>, kind: DriverKind, at: int)
    requires
        0 <= at < chain.len(),
        chain[at].kind() == kind,
        forall|j: int| 0 <= j < at ==> (#[trigger] chain[j]).kind() != kind,
    ensures
        found(chain, kind) == Some(chain[at]),
    decreases chain.len(),
{
    if at > 0 {
        let rest = chain.drop_first();
        assert(chain[0].kind() != kind);
        assert(rest[at - 1] == chain[at]);
        assert forall|j: int| 0 <= j < at - 1 implies (#[trigger] rest[j]).kind() != kind by {
            assert(rest[j] == chain[j + 1]);
        }
        lemma_found_first(rest, kind, at - 1);
    }
}

/// In a valid chain, putting a driver in the place of the one of its kind
/// gives the chain with that kind replaced; it is valid, and the driver is
/// what is then found.
pub proof fn lemma_replaced_at(before: Seq<Driver>, at: int, driver: Driver)
    requires
        distinct_kinds(before),
        0 <= at < before.len(),
        before[at].kind() == driver.kind(),
    ensures
        before.update(at, driver) == replaced(before, driver),
        distinct_kinds(replaced(before, driver)),
        found(replaced(before, driver), driver.kind()) == Some(driver),
{
    let after = before.update(at, driver);
    assert forall|j: int| 0 <= j < before.len() implies #[trigger] after[j] == replaced(
        before,
        driver,
    )[j] by {
        if j < at {
            assert(before[j].kind() != before[at].kind());
        } else if j > at {
            assert(before[at].kind() != before[j].kind());
        }
    }
    assert(after =~= replaced(before, driver));
    lemma_kinds_kept(before, after);
    assert forall|j: int| 0 <= j < at implies (#[trigger] after[j]).kind() != driver.kind() by {
        assert(after[j].kind() != after[at].kind());
    }
    lemma_found_first(after, driver.kind(), at);
}

/// Two chains that agree wherever either holds the kind have the same driver
/// of that kind.
pub proof fn lemma_found_agrees(a: Seq<Driver>, b: Seq<Driver>, kind: DriverKind)
    requires
        a.len() == b.len(),
        forall|i: int|
            0 <= i < a.len() && ((#[trigger] a[i]).kind() == kind || b[i].kind() == kind) ==> a[i]
                == b[i],
    ensures
        found(a, kind) == found(b, kind),
    decreases a.len(),
{
    if a.len() > 0 {
        assert(a[0].kind() == kind || b[0].kind() == kind ==> a[0] == b[0]);
        let ra = a.drop_first();
        let rb = b.drop_first();
        assert forall|i: int|
            0 <= i < ra.len() && ((#[trigger] ra[i]).kind() == kind || rb[i].kind()
                == kind) implies ra[i] == rb[i] by {
            assert(ra[i] == a[i + 1] && rb[i] == b[i + 1]);
        }
        lemma_found_agrees(ra, rb, kind);
    }
}

/// After the driver of a kind that the chain holds is replaced, the
/// replacement is what is found.
pub proof fn lemma_found_replaced(chain: Seq<Driver>, driver: Driver)
    requires
        holds(chain, driver.kind()),
    ensures
        found(replaced(chain, driver), driver.kind()) == Some(driver),
{
    let after = replaced(chain, driver);
    lemma_found_is_held(chain, driver.kind());
    lemma_kinds_kept(chain, after);
    lemma_found_is_held(after, driver.kind());
    let d = found(after, driver.kind())->Some_0;
    let i = choose|i: int| 0 <= i < after.len() && after[i] == d;
    assert(after[i] == driver);
}

/// The pivot of a valid chain that holds a position driver is resolved to that
/// driver's position, wherever in the chain the driver stands.
pub proof fn lemma_resolved_translation(chain: Seq<Driver>, weight: int, position: Vec3i)
    requires
        distinct_kinds(chain),
        found(chain, DriverKind::Position) == Some(Driver::Position(Position { position })),
    ensures
        resolved(chain, weight).translation == position,
{
    lemma_found_is_held(chain, DriverKind::Position);
    let at = choose|i: int|
        0 <= i < chain.len() && chain[i] == Driver::Position(Position { position });
    lemma_translation_after(chain, weight, at, chain.len() as int);
}

proof fn lemma_translation_after(chain: Seq<Driver>, weight: int, at: int, n: int)
    requires
        distinct_kinds(chain),
        0 <= at < n <= chain.len(),
        chain[at].kind() == DriverKind::Position,
    ensures
        Driver::Position(Position { position: pose_after(chain, n, weight).translation })
            == chain[at],
    decreases n,
{
    if n - 1 > at {
        assert(chain[at].kind() != chain[n - 1].kind());
        lemma_translation_after(chain, weight, at, n - 1);
    }
}

/// The rotation of a valid chain that holds a yaw/pitch driver is resolved to
/// that driver's angles, provided nothing damps it on the way.
pub proof fn lemma_resolved_rotation(chain: Seq<Driver>, weight: int)
    requires
        distinct_kinds(chain),
        holds(chain, DriverKind::YawPitch),
        undamped(chain, yaw_pitch_of(chain).facing(), weight),
    ensures
        resolved(chain, weight).rotation == yaw_pitch_of(chain).facing(),
{
    lemma_found_is_held(chain, DriverKind::YawPitch);
    let d = found(chain, DriverKind::YawPitch)->Some_0;
    let at = choose|i: int| 0 <= i < chain.len() && chain[i] == d;
    lemma_rotation_after(chain, weight, at, chain.len() as int);
}

proof fn lemma_rotation_after(chain: Seq<Driver>, weight: int, at: int, n: int)
    requires
        distinct_kinds(chain),
        0 <= at < n <= chain.len(),
        chain[at] == Driver::YawPitch(yaw_pitch_of(chain)),
        undamped(chain, yaw_pitch_of(chain).facing(), weight),
    ensures
        pose_after(chain, n, weight).rotation == yaw_pitch_of(chain).facing(),
    decreases n,
{
    if n - 1 > at {
        assert(chain[at].kind() != chain[n - 1].kind());
        lemma_rotation_after(chain, weight, at, n - 1);
        assert(chain[at].kind() == DriverKind::YawPitch);
    }
}

} // verus!
