//! Tells whether the play session of an avatar has finished: its humanoid
//! bones, its expression tracks, or both.

use vstd::prelude::*;

use crate::hierarchy::{
    descendants, first_fit, lemma_first_fit_in_range, Hierarchy, NodeView, PlayerState,
    TargetView,
};
use crate::searcher::ChildSearcher;
use crate::types::NodeHandle;

verus! {

/// The animation players that were spawned for an avatar.
#[derive(Debug)]
pub struct VrmaAnimationPlayers(pub Vec<NodeHandle>);

impl Default for VrmaAnimationPlayers {
    fn default() -> (players: Self)
        ensures
            players.0@.len() == 0,
    {
        VrmaAnimationPlayers(Vec::new())
    }
}

/// Whether node `id` has an animation player with an animation that has not
/// finished.
pub open spec fn playing(nodes: Seq<NodeView>, id: int) -> bool {
    0 <= id < nodes.len() && nodes[id].data.player == PlayerState::Playing
}

/// The humanoid bones of the avatar `vrm` have finished unless the avatar has
/// a root bone whose player is still playing.
pub open spec fn bones_finished(nodes: Seq<NodeView>, vrm: int) -> bool {
    match first_fit(nodes, descendants(nodes, vrm), TargetView::RootBone) {
        Some(root_bone) => !playing(nodes, root_bone as int),
        None => true,
    }
}

/// The expressions of the avatar `vrm` have finished unless the avatar has an
/// expressions root with a child whose player is still playing.
pub open spec fn expressions_finished(nodes: Seq<NodeView>, vrm: int) -> bool {
    match first_fit(nodes, descendants(nodes, vrm), TargetView::ExpressionsRoot) {
        Some(root) => forall|k: int|
            0 <= k < nodes[root as int].children.len() ==> !playing(
                nodes,
                #[trigger] nodes[root as int].children[k] as int,
            ),
        None => true,
    }
}

/// The play session of the avatar `vrm` has finished when both its humanoid
/// bones and its expressions have.
pub open spec fn session_finished(nodes: Seq<NodeView>, vrm: int) -> bool {
    bones_finished(nodes, vrm) && expressions_finished(nodes, vrm)
}

/// An avatar with neither a root bone nor an expressions root has finished.
pub proof fn lemma_nothing_to_play_is_finished(nodes: Seq<NodeView>, vrm: int)
    requires
        first_fit(nodes, descendants(nodes, vrm), TargetView::RootBone) is None,
        first_fit(nodes, descendants(nodes, vrm), TargetView::ExpressionsRoot) is None,
    ensures
        session_finished(nodes, vrm),
{
}

/// An avatar whose root bone is still playing has not finished, whatever its
/// expressions do.
pub proof fn lemma_playing_bones_are_not_finished(nodes: Seq<NodeView>, vrm: int, root_bone: usize)
    requires
        first_fit(nodes, descendants(nodes, vrm), TargetView::RootBone) == Some(root_bone),
        playing(nodes, root_bone as int),
    ensures
        !session_finished(nodes, vrm),
{
}

/// An avatar with an expression track that is still playing has not
/// finished, even if its bones have.
pub proof fn lemma_playing_expression_is_not_finished(
    nodes: Seq<NodeView>,
    vrm: int,
    expressions_root: usize,
    k: int,
)
    requires
        first_fit(nodes, descendants(nodes, vrm), TargetView::ExpressionsRoot) == Some(
            expressions_root,
        ),
        0 <= k < nodes[expressions_root as int].children.len(),
        playing(nodes, nodes[expressions_root as int].children[k] as int),
    ensures
        !session_finished(nodes, vrm),
{
}

/// An avatar whose bones have finished and whose expressions root has no
/// children has finished.
pub proof fn lemma_no_expression_tracks_is_finished(
    nodes: Seq<NodeView>,
    vrm: int,
    expressions_root: usize,
)
    requires
        bones_finished(nodes, vrm),
        first_fit(nodes, descendants(nodes, vrm), TargetView::ExpressionsRoot) == Some(
            expressions_root,
        ),
        nodes[expressions_root as int].children.len() == 0,
    ensures
        session_finished(nodes, vrm),
{
}

/// The completion queries over one snapshot.
pub struct VrmAnimation<'a> {
    searcher: ChildSearcher<'a>,
}

impl<'a> VrmAnimation<'a> {
    /// The queries over `hierarchy`.
    pub fn new(hierarchy: &'a Hierarchy) -> (animation: Self)
        ensures
            animation@ == hierarchy@,
    {
        VrmAnimation { searcher: ChildSearcher::new(hierarchy) }
    }

    /// The nodes that the queries read.
    pub closed spec fn view(&self) -> Seq<NodeView> {
        self.searcher@
    }

    /// Whether both the humanoid bones and the expressions of the avatar
    /// `vrm` have finished.
    pub fn all_finished(&self, vrm: usize) -> (finished: bool)
        ensures
            finished == session_finished(self@, vrm as int),
    {
        if !self.finished_humanoid_bones(vrm) {
            return false;
        }
        self.finished_expressions(vrm)
    }

    /// Whether the humanoid bones of the avatar `vrm` have finished.
    pub fn finished_humanoid_bones(&self, vrm: usize) -> (finished: bool)
        ensures
            finished == bones_finished(self@, vrm as int),
    {
        match self.searcher.find_root_bone(vrm) {
            Some(root_bone) => !self.is_playing(root_bone),
            None => true,
        }
    }

    /// Whether the expressions of the avatar `vrm` have finished.
    pub fn finished_expressions(&self, vrm: usize) -> (finished: bool)
        ensures
            finished == expressions_finished(self@, vrm as int),
    {
        let expressions_root = match self.searcher.find_expressions_root(vrm) {
            Some(root) => root,
            None => { return true; },
        };
        proof {
            lemma_first_fit_in_range(
                self@,
                descendants(self@, vrm as int),
                TargetView::ExpressionsRoot,
            );
        }
        let children = match self.searcher.hierarchy().children(expressions_root) {
            Some(children) => children,
            None => { return true; },
        };
        let ghost nodes = self@;
        let n = children.len();
        let mut k: usize = 0;
        while k < n
            invariant
                k <= n,
                n == children@.len(),
                nodes == self@,
                children@ == nodes[expressions_root as int].children,
                first_fit(nodes, descendants(nodes, vrm as int), TargetView::ExpressionsRoot)
                    == Some(expressions_root),
                forall|j: int| 0 <= j < k ==> !playing(nodes, #[trigger] children@[j] as int),
            decreases n - k,
        {
            if self.is_playing(children[k]) {
                return false;
            }
            k += 1;
        }
        true
    }

    /// Whether node `id` has a player that is still playing.
    fn is_playing(&self, id: usize) -> (b: bool)
        ensures
            b == playing(self@, id as int),
    {
        match self.searcher.hierarchy().data(id) {
            Some(data) => data.player == PlayerState::Playing,
            None => false,
        }
    }
}

} // verus!
