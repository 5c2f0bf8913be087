//! The searches by what callers look for: a bone by its name or its role,
//! the marked roots below an avatar, and the avatar or animation instance
//! that a node belongs to.

use vstd::prelude::*;

use crate::hierarchy::{
    ancestor_chain, descendants, first_fit, fits, Hierarchy, NodeView, Target, TargetView,
};
use crate::types::BoneRole;

verus! {

/// Searches downward, among the nodes below a root.
pub struct ChildSearcher<'a> {
    hierarchy: &'a Hierarchy,
}

impl<'a> ChildSearcher<'a> {
    /// A searcher over `hierarchy`.
    pub fn new(hierarchy: &'a Hierarchy) -> (searcher: Self)
        ensures
            searcher@ == hierarchy@,
    {
        ChildSearcher { hierarchy }
    }

    /// The nodes that the searcher looks through.
    pub closed spec fn view(&self) -> Seq<NodeView> {
        self.hierarchy@
    }

    /// The snapshot that the searcher looks through.
    pub fn hierarchy(&self) -> (hierarchy: &'a Hierarchy)
        ensures
            hierarchy@ == self@,
    {
        self.hierarchy
    }

    /// The first node below `root`, depth first, that is named `target_name`.
    pub fn find_from_name(&self, root: usize, target_name: &str) -> (found: Option<usize>)
        ensures
            found == first_fit(
                self@,
                descendants(self@, root as int),
                TargetView::Name(target_name@),
            ),
    {
        let target = Target::Name(target_name.to_owned());
        self.hierarchy.find_descendant(root, &target)
    }

    /// The first node below `root`, depth first, that is tagged with the role
    /// `bone`.
    pub fn find_by_bone_name(&self, root: usize, bone: BoneRole) -> (found: Option<usize>)
        ensures
            found == first_fit(self@, descendants(self@, root as int), TargetView::Role(bone)),
    {
        self.hierarchy.find_descendant(root, &Target::Role(bone))
    }

    /// The first node below `vrm`, depth first, that is marked as the root of
    /// the humanoid bones.
    pub fn find_root_bone(&self, vrm: usize) -> (found: Option<usize>)
        ensures
            found == first_fit(self@, descendants(self@, vrm as int), TargetView::RootBone),
    {
        self.hierarchy.find_descendant(vrm, &Target::RootBone)
    }

    /// The first node below `vrm`, depth first, that is marked as the root of
    /// the expression tracks.
    pub fn find_expressions_root(&self, vrm: usize) -> (found: Option<usize>)
        ensures
            found == first_fit(
                self@,
                descendants(self@, vrm as int),
                TargetView::ExpressionsRoot,
            ),
    {
        self.hierarchy.find_descendant(vrm, &Target::ExpressionsRoot)
    }
}

/// Searches upward, along the ancestors of a node.
pub struct ParentSearcher<'a> {
    entities: &'a Hierarchy,
}

impl<'a> ParentSearcher<'a> {
    /// A searcher over `hierarchy`.
    pub fn new(hierarchy: &'a Hierarchy) -> (searcher: Self)
        ensures
            searcher@ == hierarchy@,
    {
        ParentSearcher { entities: hierarchy }
    }

    /// The nodes that the searcher looks through.
    pub closed spec fn view(&self) -> Seq<NodeView> {
        self.entities@
    }

    /// The avatar that `source` belongs to: `source` itself if it is marked
    /// as the root of an avatar, else its nearest ancestor that is.
    pub fn find_vrm(&self, source: usize) -> (found: Option<usize>)
        ensures
            found == first_fit(
                self@,
                ancestor_chain(self@, source as int),
                TargetView::AvatarRoot,
            ),
    {
        find_entity(true, source, self.entities)
    }

    /// The animation instance that `source` belongs to: `source` itself if it
    /// is marked as the root of one, else its nearest ancestor that is.
    pub fn find_vrma(&self, source: usize) -> (found: Option<usize>)
        ensures
            found == first_fit(
                self@,
                ancestor_chain(self@, source as int),
                TargetView::AnimationRoot,
            ),
    {
        find_entity(false, source, self.entities)
    }
}

/// The marker that an upward search looks for.
pub open spec fn root_marker(require_vrm: bool) -> TargetView {
    if require_vrm {
        TargetView::AvatarRoot
    } else {
        TargetView::AnimationRoot
    }
}

/// The nearest node, from `entity` upward, that is marked as the root of an
/// avatar (`require_vrm`) or of an animation instance (otherwise).
pub fn find_entity(require_vrm: bool, entity: usize, entities: &Hierarchy) -> (found: Option<usize>)
    ensures
        found == first_fit(
            entities@,
            ancestor_chain(entities@, entity as int),
            root_marker(require_vrm),
        ),
{
    if require_vrm {
        entities.find_ancestor(entity, &Target::AvatarRoot)
    } else {
        entities.find_ancestor(entity, &Target::AnimationRoot)
    }
}

} // verus!
