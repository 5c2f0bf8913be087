//! Identifiers and records shared by the whole crate.
//!
//! Rotations and translations are carried, never computed with: every record
//! is generic in the type that represents them.

use vstd::prelude::*;

verus! {

/// Opaque identifier of a scene node. The scene graph owns the node; this
/// crate only passes the identifier around and keys stores by it.
#[derive(Clone, Copy, Debug, PartialEq, Eq, Structural)]
pub struct NodeHandle(pub u64);

/// Identifier of one animation contribution within a blending graph.
#[derive(Clone, Copy, Debug, PartialEq, Eq, Structural)]
pub struct TrackId(pub u32);

/// Key of a corrective-parameter store: the destination node and the track.
pub type Key = (NodeHandle, TrackId);

/// The humanoid bone slots, independent of any skeleton's node names.
#[derive(Clone, Copy, Debug, PartialEq, Eq, Structural)]
pub enum BoneRole {
    Hips,
    Spine,
    Chest,
    UpperChest,
    Neck,
    Head,
    LeftEye,
    RightEye,
    Jaw,
    LeftUpperLeg,
    LeftLowerLeg,
    LeftFoot,
    LeftToes,
    RightUpperLeg,
    RightLowerLeg,
    RightFoot,
    RightToes,
    LeftShoulder,
    LeftUpperArm,
    LeftLowerArm,
    LeftHand,
    RightShoulder,
    RightUpperArm,
    RightLowerArm,
    RightHand,
    LeftThumbMetacarpal,
    LeftThumbProximal,
    LeftThumbDistal,
    LeftIndexProximal,
    LeftIndexIntermediate,
    LeftIndexDistal,
    LeftMiddleProximal,
    LeftMiddleIntermediate,
    LeftMiddleDistal,
    LeftRingProximal,
    LeftRingIntermediate,
    LeftRingDistal,
    LeftLittleProximal,
    LeftLittleIntermediate,
    LeftLittleDistal,
    RightThumbMetacarpal,
    RightThumbProximal,
    RightThumbDistal,
    RightIndexProximal,
    RightIndexIntermediate,
    RightIndexDistal,
    RightMiddleProximal,
    RightMiddleIntermediate,
    RightMiddleDistal,
    RightRingProximal,
    RightRingIntermediate,
    RightRingDistal,
    RightLittleProximal,
    RightLittleIntermediate,
    RightLittleDistal,
}

/// Bind pose of one node: its rotation relative to its parent, its rotation
/// in world space and its position in world space.
#[derive(Clone, Copy, Debug)]
pub struct RestPose<Q, V> {
    pub local_rotation: Q,
    pub global_rotation: Q,
    pub global_translation: V,
}

/// What the rotation correction of one bone needs: the rest rotations of the
/// source bone and of the destination bone, local and global.
#[derive(Clone, Copy, Debug)]
pub struct RotationTransformation<Q> {
    pub src_rest_local: Q,
    pub src_rest_global: Q,
    pub dst_rest_local: Q,
    pub dst_rest_global: Q,
}

/// What the translation correction of the hips needs: the rest positions of
/// the source hips and of the destination hips.
#[derive(Clone, Copy, Debug)]
pub struct TranslationTransformation<V> {
    pub src_rest_global: V,
    pub dst_rest_global: V,
}

impl<Q> RotationTransformation<Q> {
    /// The record that pairs the rest rotations of `src` with those of `dst`.
    pub open spec fn paired<V>(src: RestPose<Q, V>, dst: RestPose<Q, V>) -> Self {
        RotationTransformation {
            src_rest_local: src.local_rotation,
            src_rest_global: src.global_rotation,
            dst_rest_local: dst.local_rotation,
            dst_rest_global: dst.global_rotation,
        }
    }
}

impl<Q: Copy> RotationTransformation<Q> {
    /// Pairs the rest rotations of a source bone with those of the
    /// destination bone it drives.
    pub fn from_rest_poses<V>(src: &RestPose<Q, V>, dst: &RestPose<Q, V>) -> (t: Self)
        ensures
            t == Self::paired(*src, *dst),
    {
        RotationTransformation {
            src_rest_local: src.local_rotation,
            src_rest_global: src.global_rotation,
            dst_rest_local: dst.local_rotation,
            dst_rest_global: dst.global_rotation,
        }
    }
}

impl<V> TranslationTransformation<V> {
    /// The record that pairs the rest position of `src` with that of `dst`.
    pub open spec fn paired<Q>(src: RestPose<Q, V>, dst: RestPose<Q, V>) -> Self {
        TranslationTransformation {
            src_rest_global: src.global_translation,
            dst_rest_global: dst.global_translation,
        }
    }
}

impl<V: Copy> TranslationTransformation<V> {
    /// Pairs the rest position of the source hips with that of the
    /// destination hips.
    pub fn from_rest_poses<Q>(src: &RestPose<Q, V>, dst: &RestPose<Q, V>) -> (t: Self)
        ensures
            t == Self::paired(*src, *dst),
    {
        TranslationTransformation {
            src_rest_global: src.global_translation,
            dst_rest_global: dst.global_translation,
        }
    }
}

} // verus!
