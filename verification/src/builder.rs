//! Builds the corrective parameters of one play: for every humanoid bone
//! that both skeletons have, the rest pose of the source bone is paired with
//! that of the destination bone and registered under the destination node
//! and the track.
//!
//! A bone that one of the skeletons lacks, or that has no rest pose, is
//! passed over: partial humanoid skeletons are valid.

use vstd::prelude::*;

use crate::hierarchy::{
    descendants, first_fit, lemma_first_fit_in_range, NodeView, TargetView,
};
use crate::registry::{registered, with_entry, TransformationRegistry};
use crate::searcher::ChildSearcher;
use crate::types::{
    BoneRole, Key, NodeHandle, RestPose, RotationTransformation, TrackId,
    TranslationTransformation,
};

verus! {

/// One line of the mapping from humanoid bone roles to the names that the
/// source skeleton gives its bones.
#[derive(Clone, Debug)]
pub struct BoneName {
    pub bone: BoneRole,
    pub name: String,
}

/// The mapping from humanoid bone roles to bone names, in the order in which
/// the roles are to be handled.
#[derive(Clone, Debug)]
pub struct HumanoidBoneRegistry {
    pub entries: Vec<BoneName>,
}

/// The captured rest poses, by node number.
pub struct RestPoses<Q, V> {
    poses: Vec<Option<RestPose<Q, V>>>,
}

impl<Q: Copy, V: Copy> RestPoses<Q, V> {
    /// The rest pose captured for each node number; `None` where none was.
    pub closed spec fn view(&self) -> Seq<Option<RestPose<Q, V>>> {
        self.poses@
    }

    /// The rest pose captured for node `id`, if any.
    pub open spec fn pose(&self, id: int) -> Option<RestPose<Q, V>> {
        pose_of(self@, id)
    }

    /// No rest pose at all.
    pub fn new() -> (r: Self)
        ensures
            forall|id: int| r.pose(id) is None,
    {
        RestPoses { poses: Vec::new() }
    }

    /// Records `pose` as the rest pose of node `id`, in place of an earlier
    /// one if there was one.
    pub fn insert(&mut self, id: usize, pose: RestPose<Q, V>)
        ensures
            final(self).pose(id as int) == Some(pose),
            forall|other: int| other != id ==> final(self).pose(other) == old(self).pose(other),
    {
        while self.poses.len() <= id
            invariant
                forall|other: int| self.pose(other) == old(self).pose(other),
            decreases id + 1 - self.poses.len(),
        {
            self.poses.push(None);
        }
        self.poses[id] = Some(pose);
    }

    /// The rest pose captured for node `id`, if any.
    pub fn get(&self, id: usize) -> (pose: Option<&RestPose<Q, V>>)
        ensures
            pose == match self.pose(id as int) {
                Some(p) => Some(&p),
                None => None,
            },
    {
        if id < self.poses.len() {
            self.poses[id].as_ref()
        } else {
            None
        }
    }
}

/// The rest pose that `poses` holds for node `id`, if any.
pub open spec fn pose_of<Q, V>(poses: Seq<Option<RestPose<Q, V>>>, id: int) -> Option<
    RestPose<Q, V>,
> {
    if 0 <= id < poses.len() {
        poses[id]
    } else {
        None
    }
}

/// A bone that both skeletons have, with the rest poses of its two nodes.
pub struct ResolvedBone<Q, V> {
    /// The destination node.
    pub node: NodeHandle,
    /// The rest pose of the source node.
    pub src: RestPose<Q, V>,
    /// The rest pose of the destination node.
    pub dst: RestPose<Q, V>,
}

/// The bone that a line of the mapping resolves to: the source node is the
/// first one below `vrma` with the line's name, the destination node the first
/// one below `root_bone` with the line's role, and both have a rest pose.
/// `None` if any of the four is missing.
pub open spec fn resolved<Q, V>(
    nodes: Seq<NodeView>,
    poses: Seq<Option<RestPose<Q, V>>>,
    vrma: int,
    root_bone: int,
    bone: BoneRole,
    name: Seq<char>,
) -> Option<ResolvedBone<Q, V>> {
    let src = first_fit(nodes, descendants(nodes, vrma), TargetView::Name(name));
    let dst = first_fit(nodes, descendants(nodes, root_bone), TargetView::Role(bone));
    if src is Some && dst is Some && pose_of(poses, dst->0 as int) is Some && pose_of(
        poses,
        src->0 as int,
    ) is Some {
        Some(
            ResolvedBone {
                node: nodes[dst->0 as int].data.handle,
                src: pose_of(poses, src->0 as int)->0,
                dst: pose_of(poses, dst->0 as int)->0,
            },
        )
    } else {
        None
    }
}

/// Resolves one line of the mapping.
pub fn resolve_bone<Q: Copy, V: Copy>(
    vrma: usize,
    root_bone: usize,
    line: &BoneName,
    searcher: &ChildSearcher,
    bones: &RestPoses<Q, V>,
) -> (bone: Option<ResolvedBone<Q, V>>)
    ensures
        bone == resolved(searcher@, bones@, vrma as int, root_bone as int, line.bone, line.name@),
{
    let src = match searcher.find_from_name(vrma, line.name.as_str()) {
        Some(src) => src,
        None => { return None; },
    };
    let dst = match searcher.find_by_bone_name(root_bone, line.bone) {
        Some(dst) => dst,
        None => { return None; },
    };
    let dst_pose = match bones.get(dst) {
        Some(pose) => pose,
        None => { return None; },
    };
    let src_pose = match bones.get(src) {
        Some(pose) => pose,
        None => { return None; },
    };
    proof {
        lemma_first_fit_in_range(
            searcher@,
            descendants(searcher@, root_bone as int),
            TargetView::Role(line.bone),
        );
    }
    match searcher.hierarchy().data(dst) {
        Some(data) => Some(ResolvedBone { node: data.handle, src: *src_pose, dst: *dst_pose }),
        None => None,
    }
}

/// What each line of the mapping contributes to the rotation parameters of
/// `track`: the paired rest rotations under the destination node, or nothing
/// if the line does not resolve.
pub open spec fn rotation_entries<Q, V>(
    nodes: Seq<NodeView>,
    poses: Seq<Option<RestPose<Q, V>>>,
    vrma: int,
    track: TrackId,
    root_bone: int,
    lines: Seq<BoneName>,
) -> Seq<Option<(Key, RotationTransformation<Q>)>> {
    Seq::new(
        lines.len(),
        |i: int|
            match resolved(nodes, poses, vrma, root_bone, lines[i].bone, lines[i].name@) {
                Some(bone) => Some(
                    ((bone.node, track), RotationTransformation::paired(bone.src, bone.dst)),
                ),
                None => None,
            },
    )
}

/// What each line of the mapping contributes to the translation parameters
/// of `track`: for a line of the hips role, the paired rest positions under
/// the destination node; nothing for any other line, or if the line does not
/// resolve.
pub open spec fn translation_entries<Q, V>(
    nodes: Seq<NodeView>,
    poses: Seq<Option<RestPose<Q, V>>>,
    vrma: int,
    track: TrackId,
    root_bone: int,
    lines: Seq<BoneName>,
) -> Seq<Option<(Key, TranslationTransformation<V>)>> {
    Seq::new(
        lines.len(),
        |i: int|
            match resolved(nodes, poses, vrma, root_bone, lines[i].bone, lines[i].name@) {
                Some(bone) => if lines[i].bone == BoneRole::Hips {
                    Some(
                        (
                            (bone.node, track),
                            TranslationTransformation::paired(bone.src, bone.dst),
                        ),
                    )
                } else {
                    None
                },
                None => None,
            },
    )
}

/// The rotation parameters of one play, keyed by destination node and track.
pub struct BoneRotateTransformations<Q>(pub TransformationRegistry<RotationTransformation<Q>>);

impl<Q: Copy> BoneRotateTransformations<Q> {
    /// Pairs the rest rotations of every bone of `registry` that resolves
    /// below `vrma` (by name) and below `root_bone` (by role), and keys each
    /// pair by its destination node and `node_index`. Where two lines lead to
    /// one destination node, the first one counts.
    pub fn new<V: Copy>(
        vrma: usize,
        node_index: TrackId,
        root_bone: usize,
        registry: &HumanoidBoneRegistry,
        searcher: &ChildSearcher,
        bones: &RestPoses<Q, V>,
    ) -> (built: Self)
        ensures
            built.0@ == registered(
                rotation_entries(
                    searcher@,
                    bones@,
                    vrma as int,
                    node_index,
                    root_bone as int,
                    registry.entries@,
                ),
            ),
    {
        let ghost all = rotation_entries(
            searcher@,
            bones@,
            vrma as int,
            node_index,
            root_bone as int,
            registry.entries@,
        );
        let mut transformations = TransformationRegistry::new();
        let n = registry.entries.len();
        let mut i: usize = 0;
        assert(all.take(0) =~= Seq::empty());
        while i < n
            invariant
                i <= n,
                n == registry.entries@.len(),
                all == rotation_entries(
                    searcher@,
                    bones@,
                    vrma as int,
                    node_index,
                    root_bone as int,
                    registry.entries@,
                ),
                transformations@ == registered(all.take(i as int)),
            decreases n - i,
        {
            match resolve_bone(vrma, root_bone, &registry.entries[i], searcher, bones) {
                Some(bone) => {
                    let transformation = RotationTransformation::from_rest_poses(
                        &bone.src,
                        &bone.dst,
                    );
                    let _ = transformations.register(bone.node, node_index, transformation);
                },
                None => {},
            }
            proof {
                assert(all.take(i + 1).drop_last() =~= all.take(i as int));
                assert(all.take(i + 1).last() == all[i as int]);
            }
            i += 1;
        }
        assert(all.take(n as int) =~= all);
        BoneRotateTransformations(transformations)
    }
}

/// Builds the rotation parameters of one play and registers them in
/// `transformations`. Keys that `transformations` already holds keep their
/// values.
pub fn register_rotate_transformation<Q: Copy, V: Copy>(
    transformations: &mut TransformationRegistry<RotationTransformation<Q>>,
    vrma: usize,
    node_index: TrackId,
    root_bone: usize,
    registry: &HumanoidBoneRegistry,
    searcher: &ChildSearcher,
    bones: &RestPoses<Q, V>,
)
    ensures
        final(transformations)@ == registered(
            rotation_entries(
                searcher@,
                bones@,
                vrma as int,
                node_index,
                root_bone as int,
                registry.entries@,
            ),
        ).union_prefer_right(old(transformations)@),
{
    let built = BoneRotateTransformations::new(
        vrma,
        node_index,
        root_bone,
        registry,
        searcher,
        bones,
    );
    transformations.extend(&built.0);
}

/// Pairs the rest position of the source hips with that of the destination
/// hips and registers the pair for `hips` and `node_index`, unless that key
/// already has an entry.
pub fn register_hips_translation_transformation<Q: Copy, V: Copy>(
    transformations: &mut TransformationRegistry<TranslationTransformation<V>>,
    node_index: TrackId,
    hips: NodeHandle,
    src_rest_g: &RestPose<Q, V>,
    dist_rest_g: &RestPose<Q, V>,
)
    ensures
        final(transformations)@ == with_entry(
            old(transformations)@,
            (hips, node_index),
            TranslationTransformation::paired(*src_rest_g, *dist_rest_g),
        ),
{
    let transformation = TranslationTransformation::from_rest_poses(src_rest_g, dist_rest_g);
    let _ = transformations.register(hips, node_index, transformation);
}

/// Builds the translation parameters of one play, which only the hips have,
/// and registers them in `transformations`. Keys that `transformations`
/// already holds keep their values.
pub fn register_translate_transformation<Q: Copy, V: Copy>(
    transformations: &mut TransformationRegistry<TranslationTransformation<V>>,
    vrma: usize,
    node_index: TrackId,
    root_bone: usize,
    registry: &HumanoidBoneRegistry,
    searcher: &ChildSearcher,
    bones: &RestPoses<Q, V>,
)
    ensures
        final(transformations)@ == registered(
            translation_entries(
                searcher@,
                bones@,
                vrma as int,
                node_index,
                root_bone as int,
                registry.entries@,
            ),
        ).union_prefer_right(old(transformations)@),
{
    let ghost all = translation_entries(
        searcher@,
        bones@,
        vrma as int,
        node_index,
        root_bone as int,
        registry.entries@,
    );
    let mut built = TransformationRegistry::new();
    let n = registry.entries.len();
    let mut i: usize = 0;
    assert(all.take(0) =~= Seq::empty());
    while i < n
        invariant
            i <= n,
            n == registry.entries@.len(),
            all == translation_entries(
                searcher@,
                bones@,
                vrma as int,
                node_index,
                root_bone as int,
                registry.entries@,
            ),
            built@ == registered(all.take(i as int)),
        decreases n - i,
    {
        let line = &registry.entries[i];
        if line.bone == BoneRole::Hips {
            match resolve_bone(vrma, root_bone, line, searcher, bones) {
                Some(hips) => {
                    register_hips_translation_transformation(
                        &mut built,
                        node_index,
                        hips.node,
                        &hips.src,
                        &hips.dst,
                    );
                },
                None => {},
            }
        }
        proof {
            assert(all.take(i + 1).drop_last() =~= all.take(i as int));
            assert(all.take(i + 1).last() == all[i as int]);
        }
        i += 1;
    }
    assert(all.take(n as int) =~= all);
    transformations.extend(&built);
}

/// Builds the parameters of one play: the rotation parameters of every bone
/// that both skeletons have, and the translation parameters of the hips.
pub fn register_retarget_transformations<Q: Copy, V: Copy>(
    rotations: &mut TransformationRegistry<RotationTransformation<Q>>,
    translations: &mut TransformationRegistry<TranslationTransformation<V>>,
    vrma: usize,
    node_index: TrackId,
    root_bone: usize,
    registry: &HumanoidBoneRegistry,
    searcher: &ChildSearcher,
    bones: &RestPoses<Q, V>,
)
    ensures
        final(rotations)@ == registered(
            rotation_entries(
                searcher@,
                bones@,
                vrma as int,
                node_index,
                root_bone as int,
                registry.entries@,
            ),
        ).union_prefer_right(old(rotations)@),
        final(translations)@ == registered(
            translation_entries(
                searcher@,
                bones@,
                vrma as int,
                node_index,
                root_bone as int,
                registry.entries@,
            ),
        ).union_prefer_right(old(translations)@),
{
    register_rotate_transformation(
        rotations,
        vrma,
        node_index,
        root_bone,
        registry,
        searcher,
        bones,
    );
    register_translate_transformation(
        translations,
        vrma,
        node_index,
        root_bone,
        registry,
        searcher,
        bones,
    );
}

} // verus!
