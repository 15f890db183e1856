//! Poses as the runtime reports them, transforms as the scene holds them,
//! and the conversion from the one to the other.
//!
//! Every component is a binary32 bit pattern held in a `u32`.

use vstd::prelude::*;

verus! {

/// The bit pattern of the number zero.
pub const ZERO_BITS: u32 = 0;

/// The bit pattern of the number one.
pub const ONE_BITS: u32 = 0x3F80_0000;

/// A position in the runtime's space.
#[derive(Clone, Copy, Debug, PartialEq, Eq, Structural)]
pub struct NativeVec3 {
    pub x: u32,
    pub y: u32,
    pub z: u32,
}

/// An orientation in the runtime's space.
#[derive(Clone, Copy, Debug, PartialEq, Eq, Structural)]
pub struct NativeQuat {
    pub x: u32,
    pub y: u32,
    pub z: u32,
    pub w: u32,
}

/// One sample of a device: where it is and how it is turned.
#[derive(Clone, Copy, Debug, PartialEq, Eq, Structural)]
pub struct NativePose {
    pub orientation: NativeQuat,
    pub position: NativeVec3,
}

/// A vector of the scene.
#[derive(Clone, Copy, Debug, PartialEq, Eq, Structural)]
pub struct SceneVec3 {
    pub x: u32,
    pub y: u32,
    pub z: u32,
}

/// A rotation of the scene.
#[derive(Clone, Copy, Debug, PartialEq, Eq, Structural)]
pub struct SceneQuat {
    pub x: u32,
    pub y: u32,
    pub z: u32,
    pub w: u32,
}

/// The local transform of a scene entity.
#[derive(Clone, Copy, Debug, PartialEq, Eq, Structural)]
pub struct SceneTransform {
    pub translation: SceneVec3,
    pub rotation: SceneQuat,
    pub scale: SceneVec3,
}

/// The snapshot that says which instant the poses of a tick are sampled for.
#[derive(Clone, Copy, Debug, PartialEq, Eq, Structural)]
pub struct FrameState {
    pub predicted_display_time: i64,
    pub should_render: bool,
}

impl NativeVec3 {
    /// The scene vector with the same three components.
    pub open spec fn to_vec3_spec(self) -> SceneVec3 {
        SceneVec3 { x: self.x, y: self.y, z: self.z }
    }

    /// Converts a position: each component is carried over bit for bit.
    pub fn to_vec3(&self) -> (v: SceneVec3)
        ensures
            v == self.to_vec3_spec(),
    {
        SceneVec3 { x: self.x, y: self.y, z: self.z }
    }
}

impl NativeQuat {
    /// The scene rotation with the same four components.
    pub open spec fn to_quat_spec(self) -> SceneQuat {
        SceneQuat { x: self.x, y: self.y, z: self.z, w: self.w }
    }

    /// Converts an orientation: each component is carried over bit for bit,
    /// and nothing is normalized.
    pub fn to_quat(&self) -> (q: SceneQuat)
        ensures
            q == self.to_quat_spec(),
    {
        SceneQuat { x: self.x, y: self.y, z: self.z, w: self.w }
    }
}

impl SceneTransform {
    /// No translation, no rotation, unit scale.
    pub open spec fn identity_spec() -> SceneTransform {
        SceneTransform {
            translation: SceneVec3 { x: ZERO_BITS, y: ZERO_BITS, z: ZERO_BITS },
            rotation: SceneQuat { x: ZERO_BITS, y: ZERO_BITS, z: ZERO_BITS, w: ONE_BITS },
            scale: SceneVec3 { x: ONE_BITS, y: ONE_BITS, z: ONE_BITS },
        }
    }

    /// The transform after `pose` was written to it: translation and
    /// rotation both come from `pose`, the scale stays.
    pub open spec fn posed(self, pose: NativePose) -> SceneTransform {
        SceneTransform {
            translation: pose.position.to_vec3_spec(),
            rotation: pose.orientation.to_quat_spec(),
            scale: self.scale,
        }
    }

    /// No translation, no rotation, unit scale.
    pub fn identity() -> (t: SceneTransform)
        ensures
            t == Self::identity_spec(),
    {
        SceneTransform {
            translation: SceneVec3 { x: ZERO_BITS, y: ZERO_BITS, z: ZERO_BITS },
            rotation: SceneQuat { x: ZERO_BITS, y: ZERO_BITS, z: ZERO_BITS, w: ONE_BITS },
            scale: SceneVec3 { x: ONE_BITS, y: ONE_BITS, z: ONE_BITS },
        }
    }

    /// Writes `pose` as one update of translation and rotation.
    pub fn with_pose(self, pose: &NativePose) -> (t: SceneTransform)
        ensures
            t == self.posed(*pose),
    {
        SceneTransform {
            translation: pose.position.to_vec3(),
            rotation: pose.orientation.to_quat(),
            scale: self.scale,
        }
    }
}

/// Conversion is a function of the native pose alone: two equal poses
/// convert to equal scene values, component by component, whatever
/// transform they are written to and whenever.
pub proof fn lemma_conversion_pure(a: NativePose, b: NativePose, s: SceneTransform, t: SceneTransform)
    requires
        a == b,
    ensures
        a.position.to_vec3_spec() == b.position.to_vec3_spec(),
        a.orientation.to_quat_spec() == b.orientation.to_quat_spec(),
        s.posed(a).translation == t.posed(b).translation,
        s.posed(a).rotation == t.posed(b).rotation,
{
}

/// Conversion loses nothing: two native poses that convert to the same
/// scene values are the same pose.
pub proof fn lemma_conversion_exact(a: NativePose, b: NativePose)
    requires
        a.position.to_vec3_spec() == b.position.to_vec3_spec(),
        a.orientation.to_quat_spec() == b.orientation.to_quat_spec(),
    ensures
        a == b,
{
}

} // verus!
