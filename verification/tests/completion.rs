use vrma_retarget::completion::{VrmAnimation, VrmaAnimationPlayers};
use vrma_retarget::hierarchy::{Hierarchy, NodeData, PlayerState};
use vrma_retarget::types::NodeHandle;

fn node(handle: u64, player: PlayerState) -> NodeData {
    let mut data = NodeData::new(NodeHandle(handle));
    data.player = player;
    data
}

fn root_bone(handle: u64, player: PlayerState) -> NodeData {
    let mut data = node(handle, player);
    data.root_bone = true;
    data
}

fn expressions_root(handle: u64) -> NodeData {
    let mut data = node(handle, PlayerState::Absent);
    data.expressions_root = true;
    data
}

#[test]
fn no_root_bone_and_no_expressions_root_is_finished() {
    let mut world = Hierarchy::new();
    let vrm = world.add_root(node(1, PlayerState::Absent));
    let _ = world.add_child(vrm, node(2, PlayerState::Playing)).unwrap();
    let animation = VrmAnimation::new(&world);
    assert!(animation.all_finished(vrm));
    assert!(animation.finished_humanoid_bones(vrm));
    assert!(animation.finished_expressions(vrm));
}

#[test]
fn playing_root_bone_without_expressions_root_is_not_finished() {
    let mut world = Hierarchy::new();
    let vrm = world.add_root(node(1, PlayerState::Absent));
    let _ = world.add_child(vrm, root_bone(2, PlayerState::Playing)).unwrap();
    let animation = VrmAnimation::new(&world);
    assert!(!animation.all_finished(vrm));
    assert!(!animation.finished_humanoid_bones(vrm));
    assert!(animation.finished_expressions(vrm));
}

#[test]
fn finished_root_bone_with_one_playing_expression_is_not_finished() {
    let mut world = Hierarchy::new();
    let vrm = world.add_root(node(1, PlayerState::Absent));
    let _ = world.add_child(vrm, root_bone(2, PlayerState::Finished)).unwrap();
    let expressions = world.add_child(vrm, expressions_root(3)).unwrap();
    let _ = world.add_child(expressions, node(4, PlayerState::Finished)).unwrap();
    let _ = world.add_child(expressions, node(5, PlayerState::Playing)).unwrap();
    let _ = world.add_child(expressions, node(6, PlayerState::Absent)).unwrap();
    let animation = VrmAnimation::new(&world);
    assert!(!animation.all_finished(vrm));
    assert!(animation.finished_humanoid_bones(vrm));
    assert!(!animation.finished_expressions(vrm));
}

#[test]
fn finished_root_bone_with_childless_expressions_root_is_finished() {
    let mut world = Hierarchy::new();
    let vrm = world.add_root(node(1, PlayerState::Absent));
    let _ = world.add_child(vrm, root_bone(2, PlayerState::Finished)).unwrap();
    let _ = world.add_child(vrm, expressions_root(3)).unwrap();
    let animation = VrmAnimation::new(&world);
    assert!(animation.all_finished(vrm));
    assert!(animation.finished_humanoid_bones(vrm));
    assert!(animation.finished_expressions(vrm));
}

#[test]
fn root_bone_without_player_is_finished() {
    let mut world = Hierarchy::new();
    let vrm = world.add_root(node(1, PlayerState::Absent));
    let _ = world.add_child(vrm, root_bone(2, PlayerState::Absent)).unwrap();
    let animation = VrmAnimation::new(&world);
    assert!(animation.finished_humanoid_bones(vrm));
    assert!(animation.all_finished(vrm));
}

#[test]
fn expressions_without_players_or_all_finished_are_finished() {
    let mut world = Hierarchy::new();
    let vrm = world.add_root(node(1, PlayerState::Absent));
    let expressions = world.add_child(vrm, expressions_root(2)).unwrap();
    let _ = world.add_child(expressions, node(3, PlayerState::Finished)).unwrap();
    let _ = world.add_child(expressions, node(4, PlayerState::Absent)).unwrap();
    let animation = VrmAnimation::new(&world);
    assert!(animation.finished_expressions(vrm));
    assert!(animation.all_finished(vrm));
}

#[test]
fn only_direct_children_of_the_expressions_root_count() {
    let mut world = Hierarchy::new();
    let vrm = world.add_root(node(1, PlayerState::Absent));
    let expressions = world.add_child(vrm, expressions_root(2)).unwrap();
    let track = world.add_child(expressions, node(3, PlayerState::Finished)).unwrap();
    let _ = world.add_child(track, node(4, PlayerState::Playing)).unwrap();
    let animation = VrmAnimation::new(&world);
    assert!(animation.finished_expressions(vrm));
}

#[test]
fn both_parts_playing_is_not_finished() {
    let mut world = Hierarchy::new();
    let vrm = world.add_root(node(1, PlayerState::Absent));
    let _ = world.add_child(vrm, root_bone(2, PlayerState::Playing)).unwrap();
    let expressions = world.add_child(vrm, expressions_root(3)).unwrap();
    let _ = world.add_child(expressions, node(4, PlayerState::Playing)).unwrap();
    let animation = VrmAnimation::new(&world);
    assert!(!animation.all_finished(vrm));
    assert!(!animation.finished_humanoid_bones(vrm));
    assert!(!animation.finished_expressions(vrm));
}

#[test]
fn another_avatar_does_not_count() {
    let mut world = Hierarchy::new();
    let mine = world.add_root(node(1, PlayerState::Absent));
    let other = world.add_root(node(2, PlayerState::Absent));
    let _ = world.add_child(other, root_bone(3, PlayerState::Playing)).unwrap();
    let animation = VrmAnimation::new(&world);
    assert!(animation.all_finished(mine));
    assert!(!animation.all_finished(other));
}

#[test]
fn an_avatar_that_does_not_exist_is_finished() {
    let world = Hierarchy::new();
    let animation = VrmAnimation::new(&world);
    assert!(animation.all_finished(3));
    assert!(animation.finished_humanoid_bones(3));
    assert!(animation.finished_expressions(3));
}

#[test]
fn players_start_out_empty() {
    let players = VrmaAnimationPlayers::default();
    assert!(players.0.is_empty());
}
