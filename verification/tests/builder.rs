use bevy::math::{Quat, Vec3};
use vrma_retarget::builder::{
    register_hips_translation_transformation, register_retarget_transformations,
    register_rotate_transformation, register_translate_transformation, resolve_bone, BoneName,
    BoneRotateTransformations, HumanoidBoneRegistry, RestPoses,
};
use vrma_retarget::hierarchy::{Hierarchy, NodeData};
use vrma_retarget::registry::TransformationRegistry;
use vrma_retarget::searcher::ChildSearcher;
use vrma_retarget::types::{
    BoneRole, NodeHandle, RestPose, RotationTransformation, TrackId, TranslationTransformation,
};

const TRACK: TrackId = TrackId(9);

fn pose(seed: f32) -> RestPose<Quat, Vec3> {
    RestPose {
        local_rotation: Quat::from_rotation_x(seed),
        global_rotation: Quat::from_rotation_y(seed),
        global_translation: Vec3::new(seed, 2.0 * seed, 3.0 * seed),
    }
}

fn source_bone(handle: u64, name: &str) -> NodeData {
    let mut data = NodeData::new(NodeHandle(handle));
    data.name = Some(name.to_string());
    data
}

fn rig_bone(handle: u64, role: BoneRole) -> NodeData {
    let mut data = NodeData::new(NodeHandle(handle));
    data.role = Some(role);
    data
}

fn line(bone: BoneRole, name: &str) -> BoneName {
    BoneName { bone, name: name.to_string() }
}

struct Scene {
    world: Hierarchy,
    poses: RestPoses<Quat, Vec3>,
    vrma: usize,
    root_bone: usize,
    mapping: HumanoidBoneRegistry,
}

/// A source skeleton with hips, spine and head; an avatar with hips and
/// spine but no head; a mapping that also names a jaw that nobody has.
fn scene() -> Scene {
    let mut world = Hierarchy::new();
    let mut poses = RestPoses::new();

    let vrma = world.add_root(NodeData::new(NodeHandle(100)));
    let src_hips = world.add_child(vrma, source_bone(101, "hips")).unwrap();
    let src_spine = world.add_child(src_hips, source_bone(102, "spine")).unwrap();
    let src_head = world.add_child(src_spine, source_bone(103, "head")).unwrap();
    poses.insert(src_hips, pose(0.1));
    poses.insert(src_spine, pose(0.2));
    poses.insert(src_head, pose(0.3));

    let root_bone = world.add_root(NodeData::new(NodeHandle(200)));
    let dst_hips = world.add_child(root_bone, rig_bone(201, BoneRole::Hips)).unwrap();
    let dst_spine = world.add_child(dst_hips, rig_bone(202, BoneRole::Spine)).unwrap();
    poses.insert(dst_hips, pose(1.1));
    poses.insert(dst_spine, pose(1.2));

    let mapping = HumanoidBoneRegistry {
        entries: vec![
            line(BoneRole::Hips, "hips"),
            line(BoneRole::Spine, "spine"),
            line(BoneRole::Head, "head"),
            line(BoneRole::Jaw, "jaw"),
        ],
    };
    Scene { world, poses, vrma, root_bone, mapping }
}

fn expect_rotation(
    found: Option<RotationTransformation<Quat>>,
    src: RestPose<Quat, Vec3>,
    dst: RestPose<Quat, Vec3>,
) {
    let found = found.expect("the bone has parameters");
    assert_eq!(found.src_rest_local, src.local_rotation);
    assert_eq!(found.src_rest_global, src.global_rotation);
    assert_eq!(found.dst_rest_local, dst.local_rotation);
    assert_eq!(found.dst_rest_global, dst.global_rotation);
}

#[test]
fn rotations_are_built_for_the_bones_that_both_skeletons_have() {
    let s = scene();
    let searcher = ChildSearcher::new(&s.world);
    let built =
        BoneRotateTransformations::new(s.vrma, TRACK, s.root_bone, &s.mapping, &searcher, &s.poses);
    expect_rotation(built.0.get(NodeHandle(201), TRACK), pose(0.1), pose(1.1));
    expect_rotation(built.0.get(NodeHandle(202), TRACK), pose(0.2), pose(1.2));
    // the avatar has no head, nobody has a jaw
    assert!(!built.0.contains(NodeHandle(203), TRACK));
    // keys are destination nodes, never source nodes
    assert!(!built.0.contains(NodeHandle(101), TRACK));
    assert!(!built.0.contains(NodeHandle(102), TRACK));
    assert!(!built.0.contains(NodeHandle(103), TRACK));
    // and they carry the track
    assert!(!built.0.contains(NodeHandle(201), TrackId(0)));
}

#[test]
fn a_bone_without_rest_pose_is_passed_over() {
    let mut s = scene();
    let dst_head = s.world.add_child(s.root_bone, rig_bone(203, BoneRole::Head)).unwrap();
    let searcher = ChildSearcher::new(&s.world);
    let built =
        BoneRotateTransformations::new(s.vrma, TRACK, s.root_bone, &s.mapping, &searcher, &s.poses);
    assert!(!built.0.contains(NodeHandle(203), TRACK));
    assert!(built.0.contains(NodeHandle(201), TRACK));

    s.poses.insert(dst_head, pose(1.3));
    let searcher = ChildSearcher::new(&s.world);
    let built =
        BoneRotateTransformations::new(s.vrma, TRACK, s.root_bone, &s.mapping, &searcher, &s.poses);
    expect_rotation(built.0.get(NodeHandle(203), TRACK), pose(0.3), pose(1.3));
}

#[test]
fn an_empty_mapping_builds_nothing() {
    let s = scene();
    let searcher = ChildSearcher::new(&s.world);
    let nothing = HumanoidBoneRegistry { entries: Vec::new() };
    let built: BoneRotateTransformations<Quat> =
        BoneRotateTransformations::new(s.vrma, TRACK, s.root_bone, &nothing, &searcher, &s.poses);
    assert!(!built.0.contains(NodeHandle(201), TRACK));
    assert!(!built.0.contains(NodeHandle(202), TRACK));
}

#[test]
fn the_first_of_two_lines_for_one_bone_counts() {
    let mut s = scene();
    s.mapping = HumanoidBoneRegistry {
        entries: vec![line(BoneRole::Hips, "spine"), line(BoneRole::Hips, "hips")],
    };
    let searcher = ChildSearcher::new(&s.world);
    let built =
        BoneRotateTransformations::new(s.vrma, TRACK, s.root_bone, &s.mapping, &searcher, &s.poses);
    expect_rotation(built.0.get(NodeHandle(201), TRACK), pose(0.2), pose(1.1));
}

#[test]
fn resolve_bone_names_the_destination_and_both_poses() {
    let s = scene();
    let searcher = ChildSearcher::new(&s.world);
    let bone = resolve_bone(s.vrma, s.root_bone, &line(BoneRole::Spine, "spine"), &searcher, &s.poses)
        .expect("both skeletons have a spine");
    assert_eq!(bone.node, NodeHandle(202));
    assert_eq!(bone.src.global_translation, pose(0.2).global_translation);
    assert_eq!(bone.dst.global_translation, pose(1.2).global_translation);
    assert_eq!(bone.src.local_rotation, pose(0.2).local_rotation);
    assert_eq!(bone.dst.local_rotation, pose(1.2).local_rotation);

    assert!(resolve_bone(s.vrma, s.root_bone, &line(BoneRole::Spine, "neck"), &searcher, &s.poses)
        .is_none());
    assert!(resolve_bone(s.vrma, s.root_bone, &line(BoneRole::Head, "head"), &searcher, &s.poses)
        .is_none());
    // the roots the search starts from may not be swapped
    assert!(resolve_bone(s.root_bone, s.vrma, &line(BoneRole::Spine, "spine"), &searcher, &s.poses)
        .is_none());
}

#[test]
fn registering_rotations_keeps_what_the_registry_holds() {
    let s = scene();
    let searcher = ChildSearcher::new(&s.world);
    let earlier = RotationTransformation {
        src_rest_local: Quat::IDENTITY,
        src_rest_global: Quat::IDENTITY,
        dst_rest_local: Quat::IDENTITY,
        dst_rest_global: Quat::IDENTITY,
    };
    let mut registry = TransformationRegistry::new();
    assert!(registry.register(NodeHandle(201), TRACK, earlier));
    assert!(registry.register(NodeHandle(5), TrackId(1), earlier));
    register_rotate_transformation(
        &mut registry,
        s.vrma,
        TRACK,
        s.root_bone,
        &s.mapping,
        &searcher,
        &s.poses,
    );
    let hips = registry.get(NodeHandle(201), TRACK).unwrap();
    assert_eq!(hips.src_rest_local, Quat::IDENTITY);
    assert_eq!(hips.dst_rest_global, Quat::IDENTITY);
    expect_rotation(registry.get(NodeHandle(202), TRACK), pose(0.2), pose(1.2));
    assert!(registry.contains(NodeHandle(5), TrackId(1)));
}

#[test]
fn each_play_registers_under_its_own_track() {
    let s = scene();
    let searcher = ChildSearcher::new(&s.world);
    let mut registry: TransformationRegistry<RotationTransformation<Quat>> =
        TransformationRegistry::new();
    register_rotate_transformation(
        &mut registry,
        s.vrma,
        TrackId(1),
        s.root_bone,
        &s.mapping,
        &searcher,
        &s.poses,
    );
    register_rotate_transformation(
        &mut registry,
        s.vrma,
        TrackId(2),
        s.root_bone,
        &s.mapping,
        &searcher,
        &s.poses,
    );
    assert!(registry.contains(NodeHandle(201), TrackId(1)));
    assert!(registry.contains(NodeHandle(201), TrackId(2)));
    assert!(!registry.contains(NodeHandle(201), TrackId(3)));
}

#[test]
fn hips_translation_pairs_the_two_rest_positions() {
    let mut registry = TransformationRegistry::new();
    let src = pose(0.5);
    let dst = pose(1.5);
    register_hips_translation_transformation(&mut registry, TRACK, NodeHandle(201), &src, &dst);
    let found: TranslationTransformation<Vec3> = registry.get(NodeHandle(201), TRACK).unwrap();
    assert_eq!(found.src_rest_global, Vec3::new(0.5, 1.0, 1.5));
    assert_eq!(found.dst_rest_global, Vec3::new(1.5, 3.0, 4.5));

    register_hips_translation_transformation(&mut registry, TRACK, NodeHandle(201), &dst, &src);
    let found = registry.get(NodeHandle(201), TRACK).unwrap();
    assert_eq!(found.src_rest_global, Vec3::new(0.5, 1.0, 1.5));
    assert_eq!(found.dst_rest_global, Vec3::new(1.5, 3.0, 4.5));
}

#[test]
fn translations_are_built_for_the_hips_only() {
    let s = scene();
    let searcher = ChildSearcher::new(&s.world);
    let mut registry: TransformationRegistry<TranslationTransformation<Vec3>> =
        TransformationRegistry::new();
    register_translate_transformation(
        &mut registry,
        s.vrma,
        TRACK,
        s.root_bone,
        &s.mapping,
        &searcher,
        &s.poses,
    );
    let hips = registry.get(NodeHandle(201), TRACK).unwrap();
    assert_eq!(hips.src_rest_global, pose(0.1).global_translation);
    assert_eq!(hips.dst_rest_global, pose(1.1).global_translation);
    assert!(!registry.contains(NodeHandle(202), TRACK));
}

#[test]
fn the_builder_fills_both_registries() {
    let s = scene();
    let searcher = ChildSearcher::new(&s.world);
    let mut rotations = TransformationRegistry::new();
    let mut translations = TransformationRegistry::new();
    register_retarget_transformations(
        &mut rotations,
        &mut translations,
        s.vrma,
        TRACK,
        s.root_bone,
        &s.mapping,
        &searcher,
        &s.poses,
    );
    expect_rotation(rotations.get(NodeHandle(201), TRACK), pose(0.1), pose(1.1));
    expect_rotation(rotations.get(NodeHandle(202), TRACK), pose(0.2), pose(1.2));
    let hips: TranslationTransformation<Vec3> = translations.get(NodeHandle(201), TRACK).unwrap();
    assert_eq!(hips.src_rest_global, pose(0.1).global_translation);
    assert_eq!(hips.dst_rest_global, pose(1.1).global_translation);
    assert!(!translations.contains(NodeHandle(202), TRACK));
}

#[test]
fn a_skeleton_without_hips_gets_no_translation() {
    let mut world = Hierarchy::new();
    let mut poses: RestPoses<Quat, Vec3> = RestPoses::new();
    let vrma = world.add_root(NodeData::new(NodeHandle(1)));
    let src = world.add_child(vrma, source_bone(2, "hips")).unwrap();
    poses.insert(src, pose(0.1));
    let root_bone = world.add_root(NodeData::new(NodeHandle(3)));
    let dst = world.add_child(root_bone, rig_bone(4, BoneRole::Spine)).unwrap();
    poses.insert(dst, pose(0.2));
    let mapping = HumanoidBoneRegistry { entries: vec![line(BoneRole::Hips, "hips")] };
    let searcher = ChildSearcher::new(&world);
    let mut rotations: TransformationRegistry<RotationTransformation<Quat>> =
        TransformationRegistry::new();
    let mut translations: TransformationRegistry<TranslationTransformation<Vec3>> =
        TransformationRegistry::new();
    register_retarget_transformations(
        &mut rotations,
        &mut translations,
        vrma,
        TRACK,
        root_bone,
        &mapping,
        &searcher,
        &poses,
    );
    assert!(!rotations.contains(NodeHandle(4), TRACK));
    assert!(!translations.contains(NodeHandle(4), TRACK));
}

#[test]
fn rest_poses_are_kept_by_node_number() {
    let mut poses: RestPoses<Quat, Vec3> = RestPoses::new();
    assert!(poses.get(0).is_none());
    poses.insert(3, pose(0.3));
    assert!(poses.get(0).is_none());
    assert!(poses.get(2).is_none());
    assert!(poses.get(4).is_none());
    assert_eq!(poses.get(3).unwrap().global_translation, pose(0.3).global_translation);
    poses.insert(1, pose(0.1));
    poses.insert(3, pose(0.4));
    assert_eq!(poses.get(1).unwrap().global_translation, pose(0.1).global_translation);
    assert_eq!(poses.get(3).unwrap().global_translation, pose(0.4).global_translation);
}

#[test]
fn records_pair_source_with_destination() {
    let src = pose(0.25);
    let dst = pose(0.75);
    let rotation = RotationTransformation::from_rest_poses(&src, &dst);
    assert_eq!(rotation.src_rest_local, Quat::from_rotation_x(0.25));
    assert_eq!(rotation.src_rest_global, Quat::from_rotation_y(0.25));
    assert_eq!(rotation.dst_rest_local, Quat::from_rotation_x(0.75));
    assert_eq!(rotation.dst_rest_global, Quat::from_rotation_y(0.75));
    let translation = TranslationTransformation::from_rest_poses(&src, &dst);
    assert_eq!(translation.src_rest_global, Vec3::new(0.25, 0.5, 0.75));
    assert_eq!(translation.dst_rest_global, Vec3::new(0.75, 1.5, 2.25));
}
