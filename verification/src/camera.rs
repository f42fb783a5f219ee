//! The two camera roles, and the lookup that insists on exactly one camera of
//! each.

use vstd::prelude::*;

verus! {

/// Which of the two cameras an entity is.
#[derive(Clone, Copy, Debug, PartialEq, Eq, Structural, Hash)]
pub enum CameraRole {
    /// The camera that draws the orientation gizmo.
    Gizmo,
    /// The camera that draws the scene.
    Main,
}

/// A scene that does not hold exactly one camera of a role.
#[derive(Clone, Copy, Debug, PartialEq, Eq, Structural, Hash)]
pub enum ConfigError {
    /// No camera has the role.
    CameraMissing(CameraRole),
    /// More than one camera has the role.
    CameraDuplicated(CameraRole),
}

impl ConfigError {
    /// The error as a sentence.
    pub open spec fn text(self) -> Seq<char> {
        match self {
            ConfigError::CameraMissing(CameraRole::Gizmo) => "no gizmo camera in the scene"@,
            ConfigError::CameraMissing(CameraRole::Main) => "no main camera in the scene"@,
            ConfigError::CameraDuplicated(CameraRole::Gizmo) => "more than one gizmo camera in the scene"@,
            ConfigError::CameraDuplicated(CameraRole::Main) => "more than one main camera in the scene"@,
        }
    }

    /// The error as a sentence that names the role.
    pub fn message(self) -> (text: &'static str)
        ensures
            text@ == self.text(),
    {
        match self {
            ConfigError::CameraMissing(CameraRole::Gizmo) => "no gizmo camera in the scene",
            ConfigError::CameraMissing(CameraRole::Main) => "no main camera in the scene",
            ConfigError::CameraDuplicated(CameraRole::Gizmo) => "more than one gizmo camera in the scene",
            ConfigError::CameraDuplicated(CameraRole::Main) => "more than one main camera in the scene",
        }
    }
}

/// How many of the cameras have the role.
pub open spec fn count_role(cameras: Seq<CameraRole>, role: CameraRole) -> nat
    decreases cameras.len(),
{
    if cameras.len() == 0 {
        0
    } else {
        count_role(cameras.drop_last(), role) + (if cameras.last() == role {
            1nat
        } else {
            0nat
        })
    }
}

/// Finds the one camera that has the role.
///
/// Succeeds exactly when one camera has it, and returns that camera's place.
/// With none or with several it fails and says which; it never picks one of
/// several.
pub fn single(cameras: &Vec<CameraRole>, role: CameraRole) -> (r: Result<usize, ConfigError>)
    ensures
        r.is_ok() <==> count_role(cameras@, role) == 1,
        r matches Ok(at) ==> {
            &&& at < cameras@.len()
            &&& cameras@[at as int] == role
            &&& forall|i: int| 0 <= i < cameras@.len() && i != at ==> cameras@[i] != role
        },
        r matches Err(e) ==> e == (if count_role(cameras@, role) == 0 {
            ConfigError::CameraMissing(role)
        } else {
            ConfigError::CameraDuplicated(role)
        }),
{
    let mut found: Option<usize> = None;
    let mut i: usize = 0;
    while i < cameras.len()
        invariant
            i <= cameras@.len(),
            found is None ==> count_role(cameras@.take(i as int), role) == 0,
            found is None ==> forall|j: int| 0 <= j < i ==> cameras@[j] != role,
            found matches Some(at) ==> {
                &&& at < i
                &&& cameras@[at as int] == role
                &&& count_role(cameras@.take(i as int), role) == 1
                &&& forall|j: int| 0 <= j < i && j != at ==> cameras@[j] != role
            },
        decreases cameras@.len() - i,
    {
        proof {
            let upto = cameras@.take(i + 1);
            assert(upto.drop_last() =~= cameras@.take(i as int));
            assert(upto.last() == cameras@[i as int]);
        }
        if cameras[i] == role {
            if found.is_some() {
                proof {
                    lemma_count_grows(cameras@, role, i + 1);
                }
                return Err(ConfigError::CameraDuplicated(role));
            }
            found = Some(i);
        }
        i = i + 1;
    }
    proof {
        assert(cameras@.take(i as int) =~= cameras@);
    }
    match found {
        Some(at) => Ok(at),
        None => Err(ConfigError::CameraMissing(role)),
    }
}

/// A longer list holds at least as many cameras of a role as any of its
/// beginnings.
pub proof fn lemma_count_grows(cameras: Seq<CameraRole>, role: CameraRole, n: int)
    requires
        0 <= n <= cameras.len(),
    ensures
        count_role(cameras.take(n), role) <= count_role(cameras, role),
    decreases cameras.len() - n,
{
    if n == cameras.len() {
        assert(cameras.take(n) =~= cameras);
    } else {
        assert(cameras.take(n + 1).drop_last() =~= cameras.take(n));
        lemma_count_grows(cameras, role, n + 1);
    }
}

} // verus!
