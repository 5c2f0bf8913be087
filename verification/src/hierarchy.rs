//! A snapshot of the scene graph and the two searches over it: downward,
//! depth first, for the first descendant that fits; upward, along the
//! ancestor chain, for the nearest node that fits.
//!
//! Nodes are numbered in the order in which they are added, and a child can
//! only be added below a node that is already there. A parent therefore
//! always has a smaller number than its children, which rules out cycles.

use vstd::prelude::*;

use crate::types::{BoneRole, NodeHandle};

verus! {

/// What a node's animation player reports, if the node has one.
#[derive(Clone, Copy, Debug, PartialEq, Eq, Structural)]
pub enum PlayerState {
    /// The node has no animation player.
    Absent,
    /// The player has at least one animation that has not finished.
    Playing,
    /// Every animation of the player has finished.
    Finished,
}

/// What the searches and the completion queries read of one node.
#[derive(Clone, Debug)]
pub struct NodeData {
    /// The scene node that this node of the snapshot stands for.
    pub handle: NodeHandle,
    /// The node's name, if it has one.
    pub name: Option<String>,
    /// The humanoid bone slot that the node fills, if it fills one.
    pub role: Option<BoneRole>,
    /// Whether the node is the root of an avatar.
    pub avatar_root: bool,
    /// Whether the node is the root of an animation instance.
    pub animation_root: bool,
    /// Whether the node is the root of the humanoid bones of an avatar.
    pub root_bone: bool,
    /// Whether the node is the root of the expression tracks of an avatar.
    pub expressions_root: bool,
    /// What the node's animation player reports.
    pub player: PlayerState,
}

/// What a search looks for.
#[derive(Clone, Debug)]
pub enum Target {
    /// A node with this name.
    Name(String),
    /// A node tagged with this humanoid bone role.
    Role(BoneRole),
    /// The node marked as the root of the humanoid bones.
    RootBone,
    /// The node marked as the root of the expression tracks.
    ExpressionsRoot,
    /// A node marked as the root of an avatar.
    AvatarRoot,
    /// A node marked as the root of an animation instance.
    AnimationRoot,
}

/// A target as contracts see it: a name is the sequence of its characters.
pub enum TargetView {
    Name(Seq<char>),
    Role(BoneRole),
    RootBone,
    ExpressionsRoot,
    AvatarRoot,
    AnimationRoot,
}

impl View for Target {
    type V = TargetView;

    open spec fn view(&self) -> TargetView {
        match *self {
            Target::Name(name) => TargetView::Name(name@),
            Target::Role(role) => TargetView::Role(role),
            Target::RootBone => TargetView::RootBone,
            Target::ExpressionsRoot => TargetView::ExpressionsRoot,
            Target::AvatarRoot => TargetView::AvatarRoot,
            Target::AnimationRoot => TargetView::AnimationRoot,
        }
    }
}

/// Whether a node with this data is what `target` looks for.
pub open spec fn fits(data: NodeData, target: TargetView) -> bool {
    match target {
        TargetView::Name(name) => data.name matches Some(n) && n@ == name,
        TargetView::Role(role) => data.role == Some(role),
        TargetView::RootBone => data.root_bone,
        TargetView::ExpressionsRoot => data.expressions_root,
        TargetView::AvatarRoot => data.avatar_root,
        TargetView::AnimationRoot => data.animation_root,
    }
}

impl NodeData {
    /// A node that carries `handle` and nothing else: no name, no role, no
    /// marker, no player.
    pub fn new(handle: NodeHandle) -> (data: NodeData)
        ensures
            data.handle == handle,
            data.name is None,
            data.role is None,
            !data.avatar_root,
            !data.animation_root,
            !data.root_bone,
            !data.expressions_root,
            data.player == PlayerState::Absent,
    {
        NodeData {
            handle,
            name: None,
            role: None,
            avatar_root: false,
            animation_root: false,
            root_bone: false,
            expressions_root: false,
            player: PlayerState::Absent,
        }
    }

    /// Whether this node is what `target` looks for.
    pub fn fits(&self, target: &Target) -> (b: bool)
        ensures
            b == fits(*self, target@),
    {
        match target {
            Target::Name(name) => match &self.name {
                Some(n) => *n == *name,
                None => false,
            },
            Target::Role(role) => match self.role {
                Some(r) => r == *role,
                None => false,
            },
            Target::RootBone => self.root_bone,
            Target::ExpressionsRoot => self.expressions_root,
            Target::AvatarRoot => self.avatar_root,
            Target::AnimationRoot => self.animation_root,
        }
    }
}

/// One node of a snapshot as contracts see it.
pub struct NodeView {
    /// What the node carries.
    pub data: NodeData,
    /// The number of the node's parent, if it has one.
    pub parent: Option<usize>,
    /// The numbers of the node's children, in the order in which they were
    /// added.
    pub children: Seq<usize>,
}

/// Whether the parent of node `i`, if it has one, comes before `i` and lists
/// `i` among its children.
pub open spec fn parent_ok(nodes: Seq<NodeView>, i: int) -> bool {
    nodes[i].parent matches Some(p) ==> p < i && nodes[p as int].children.contains(i as usize)
}

/// Whether the `j`-th child of node `i` comes after `i`, lies inside the
/// snapshot and names `i` as its parent.
pub open spec fn child_ok(nodes: Seq<NodeView>, i: int, j: int) -> bool {
    let c = nodes[i].children[j];
    i < c < nodes.len() && nodes[c as int].parent == Some(i as usize)
}

/// The nodes form a forest in which parents come before their children.
pub open spec fn well_formed(nodes: Seq<NodeView>) -> bool {
    &&& forall|i: int| 0 <= i < nodes.len() ==> #[trigger] parent_ok(nodes, i)
    &&& forall|i: int, j: int|
        0 <= i < nodes.len() && 0 <= j < nodes[i].children.len() ==> #[trigger] child_ok(
            nodes,
            i,
            j,
        )
}

/// The nodes below the children of `n` from the `k`-th child on, depth first:
/// each child is followed by everything below it, then comes the next child.
pub open spec fn forest(nodes: Seq<NodeView>, n: int, k: int) -> Seq<usize>
    decreases nodes.len() - n, (if 0 <= n < nodes.len() { nodes[n].children.len() - k } else { 0 }),
{
    if 0 <= n < nodes.len() && 0 <= k < nodes[n].children.len() {
        let c = nodes[n].children[k];
        if n < c < nodes.len() {
            seq![c] + forest(nodes, c as int, 0) + forest(nodes, n, k + 1)
        } else {
            forest(nodes, n, k + 1)
        }
    } else {
        Seq::empty()
    }
}

/// Every node below `n`, in the order in which a depth-first walk meets them.
/// `n` itself is not among them.
pub open spec fn descendants(nodes: Seq<NodeView>, n: int) -> Seq<usize> {
    forest(nodes, n, 0)
}

/// `n`, its parent, the parent's parent and so on up to a node without one.
pub open spec fn ancestor_chain(nodes: Seq<NodeView>, n: int) -> Seq<usize>
    decreases n,
{
    if 0 <= n < nodes.len() {
        match nodes[n].parent {
            Some(p) if p < n => seq![n as usize] + ancestor_chain(nodes, p as int),
            _ => seq![n as usize],
        }
    } else {
        Seq::empty()
    }
}

/// Whether `id` is a node of the snapshot and what `target` looks for.
pub open spec fn fit_at(nodes: Seq<NodeView>, id: usize, target: TargetView) -> bool {
    id < nodes.len() && fits(nodes[id as int].data, target)
}

/// The first node of `order` that is what `target` looks for.
pub open spec fn first_fit(nodes: Seq<NodeView>, order: Seq<usize>, target: TargetView) -> Option<
    usize,
>
    decreases order.len(),
{
    if order.len() == 0 {
        None
    } else if fit_at(nodes, order[0], target) {
        Some(order[0])
    } else {
        first_fit(nodes, order.drop_first(), target)
    }
}

/// A search finds a node exactly if one of the nodes it looks through fits,
/// and the node it finds is the first of them that does.
pub proof fn lemma_first_fit_is_first(nodes: Seq<NodeView>, order: Seq<usize>, target: TargetView)
    ensures
        first_fit(nodes, order, target) is None <==> forall|i: int|
            0 <= i < order.len() ==> !fit_at(nodes, #[trigger] order[i], target),
        first_fit(nodes, order, target) matches Some(found) ==> exists|i: int|
            {
                &&& 0 <= i < order.len()
                &&& #[trigger] order[i] == found
                &&& fit_at(nodes, found, target)
                &&& forall|j: int| 0 <= j < i ==> !fit_at(nodes, #[trigger] order[j], target)
            },
    decreases order.len(),
{
    if order.len() > 0 {
        let rest = order.drop_first();
        lemma_first_fit_is_first(nodes, rest, target);
        assert forall|i: int| 0 <= i < rest.len() implies rest[i] == order[i + 1] by {}
        if fit_at(nodes, order[0], target) {
            assert(order[0] == first_fit(nodes, order, target)->0);
        } else {
            if first_fit(nodes, order, target) is None {
                assert forall|i: int| 0 <= i < order.len() implies !fit_at(
                    nodes,
                    #[trigger] order[i],
                    target,
                ) by {
                    if i > 0 {
                        assert(rest[i - 1] == order[i]);
                    }
                }
            } else {
                let found = first_fit(nodes, rest, target)->0;
                let w = choose|i: int|
                    {
                        &&& 0 <= i < rest.len()
                        &&& #[trigger] rest[i] == found
                        &&& fit_at(nodes, found, target)
                        &&& forall|j: int| 0 <= j < i ==> !fit_at(nodes, #[trigger] rest[j], target)
                    };
                assert(order[w + 1] == found);
                assert forall|j: int| 0 <= j < w + 1 implies !fit_at(
                    nodes,
                    #[trigger] order[j],
                    target,
                ) by {
                    if j > 0 {
                        assert(rest[j - 1] == order[j]);
                    }
                }
                assert(exists|i: int|
                    {
                        &&& 0 <= i < order.len()
                        &&& #[trigger] order[i] == found
                        &&& fit_at(nodes, found, target)
                        &&& forall|j: int|
                            0 <= j < i ==> !fit_at(nodes, #[trigger] order[j], target)
                    });
            }
            if forall|i: int| 0 <= i < order.len() ==> !fit_at(nodes, #[trigger] order[i], target) {
                assert forall|i: int| 0 <= i < rest.len() implies !fit_at(
                    nodes,
                    #[trigger] rest[i],
                    target,
                ) by {
                    assert(rest[i] == order[i + 1]);
                }
            }
        }
    }
}

/// A node that a search finds is a node of the snapshot.
pub proof fn lemma_first_fit_in_range(nodes: Seq<NodeView>, order: Seq<usize>, target: TargetView)
    ensures
        first_fit(nodes, order, target) matches Some(found) ==> found < nodes.len(),
    decreases order.len(),
{
    if order.len() > 0 {
        lemma_first_fit_in_range(nodes, order.drop_first(), target);
    }
}

/// What is still to be visited when `stack` is the work list of a depth-first
/// walk: the node on top and everything below it, then the same for the node
/// under it, and so on.
spec fn pending(nodes: Seq<NodeView>, stack: Seq<usize>) -> Seq<usize>
    decreases stack.len(),
{
    if stack.len() == 0 {
        Seq::empty()
    } else {
        seq![stack.last()] + descendants(nodes, stack.last() as int) + pending(
            nodes,
            stack.drop_last(),
        )
    }
}

struct Node {
    data: NodeData,
    parent: Option<usize>,
    children: Vec<usize>,
}

impl View for Node {
    type V = NodeView;

    closed spec fn view(&self) -> NodeView {
        NodeView { data: self.data, parent: self.parent, children: self.children@ }
    }
}

/// A snapshot of the scene graph: its nodes, numbered from zero in the order
/// in which they were added, each with its parent and its children.
pub struct Hierarchy {
    nodes: Vec<Node>,
}

impl View for Hierarchy {
    type V = Seq<NodeView>;

    closed spec fn view(&self) -> Seq<NodeView> {
        self.nodes@.map_values(|n: Node| n@)
    }
}

impl Hierarchy {
    /// Every snapshot is a forest in which parents come before their
    /// children.
    #[verifier::type_invariant]
    pub open spec fn inv(&self) -> bool {
        well_formed(self@)
    }

    /// A snapshot without nodes.
    pub fn new() -> (h: Hierarchy)
        ensures
            h@.len() == 0,
    {
        Hierarchy { nodes: Vec::new() }
    }

    /// The number of nodes.
    pub fn len(&self) -> (n: usize)
        ensures
            n == self@.len(),
    {
        self.nodes.len()
    }

    /// Adds a node without a parent and returns its number.
    pub fn add_root(&mut self, data: NodeData) -> (id: usize)
        ensures
            id == old(self)@.len(),
            final(self)@ == old(self)@.push(
                NodeView { data, parent: None, children: Seq::empty() },
            ),
            well_formed(final(self)@),
    {
        let mut taken = Hierarchy::new();
        core::mem::swap(self, &mut taken);
        proof {
            use_type_invariant(&taken);
        }
        let Hierarchy { mut nodes } = taken;
        let id = nodes.len();
        nodes.push(Node { data, parent: None, children: Vec::new() });
        let ghost after = nodes@.map_values(|n: Node| n@);
        assert(after =~= old(self)@.push(NodeView { data, parent: None, children: Seq::empty() }));
        assert(well_formed(after)) by {
            assert forall|i: int| 0 <= i < after.len() implies #[trigger] parent_ok(after, i) by {
                if i < id {
                    assert(parent_ok(old(self)@, i));
                }
            }
            assert forall|i: int, j: int|
                0 <= i < after.len() && 0 <= j < after[i].children.len() implies #[trigger] child_ok(
                after,
                i,
                j,
            ) by {
                assert(child_ok(old(self)@, i, j));
            }
        }
        *self = Hierarchy { nodes };
        id
    }

    /// Adds a node below `parent`, after the children that `parent` already
    /// has, and returns its number. Nothing is added, and `None` is returned,
    /// if the snapshot has no node `parent`.
    pub fn add_child(&mut self, parent: usize, data: NodeData) -> (id: Option<usize>)
        ensures
            parent >= old(self)@.len() ==> id is None && final(self)@ == old(self)@,
            parent < old(self)@.len() ==> id == Some(old(self)@.len() as usize) && final(self)@
                == old(self)@.update(
                parent as int,
                NodeView {
                    children: old(self)@[parent as int].children.push(old(self)@.len() as usize),
                    ..old(self)@[parent as int]
                },
            ).push(NodeView { data, parent: Some(parent), children: Seq::empty() }),
            well_formed(final(self)@),
    {
        proof {
            use_type_invariant(&*self);
        }
        if parent >= self.nodes.len() {
            return None;
        }
        let mut taken = Hierarchy::new();
        core::mem::swap(self, &mut taken);
        let Hierarchy { mut nodes } = taken;
        let id = nodes.len();
        let ghost before = nodes@.map_values(|n: Node| n@);
        nodes[parent].children.push(id);
        nodes.push(Node { data, parent: Some(parent), children: Vec::new() });
        let ghost after = nodes@.map_values(|n: Node| n@);
        assert(after =~= before.update(
            parent as int,
            NodeView {
                children: before[parent as int].children.push(id),
                ..before[parent as int]
            },
        ).push(NodeView { data, parent: Some(parent), children: Seq::empty() }));
        assert(well_formed(after)) by {
            assert forall|i: int| 0 <= i < after.len() implies #[trigger] parent_ok(after, i) by {
                if i < id {
                    assert(parent_ok(before, i));
                    if before[i].parent is Some {
                        let p = before[i].parent->0;
                        let w = choose|w: int|
                            0 <= w < before[p as int].children.len() && before[p as int].children[w]
                                == i as usize;
                        assert(after[p as int].children[w] == i as usize);
                    }
                } else {
                    assert(after[parent as int].children[before[parent as int].children.len() as int]
                        == id);
                }
            }
            assert forall|i: int, j: int|
                0 <= i < after.len() && 0 <= j < after[i].children.len() implies #[trigger] child_ok(
                after,
                i,
                j,
            ) by {
                if i == parent && j == before[parent as int].children.len() {
                } else {
                    assert(child_ok(before, i, j));
                }
            }
        }
        *self = Hierarchy { nodes };
        Some(id)
    }

    /// The data of node `id`, if the snapshot has such a node.
    pub fn data(&self, id: usize) -> (data: Option<&NodeData>)
        ensures
            id < self@.len() ==> data == Some(&self@[id as int].data),
            id >= self@.len() ==> data is None,
    {
        if id < self.nodes.len() {
            Some(&self.nodes[id].data)
        } else {
            None
        }
    }

    /// The parent of node `id`, if the snapshot has such a node and it has a
    /// parent.
    pub fn parent(&self, id: usize) -> (parent: Option<usize>)
        ensures
            id < self@.len() ==> parent == self@[id as int].parent,
            id >= self@.len() ==> parent is None,
    {
        if id < self.nodes.len() {
            self.nodes[id].parent
        } else {
            None
        }
    }

    /// The children of node `id` in the order in which they were added, if the
    /// snapshot has such a node.
    pub fn children(&self, id: usize) -> (children: Option<&Vec<usize>>)
        ensures
            id < self@.len() ==> children is Some && children->0@ == self@[id as int].children,
            id >= self@.len() ==> children is None,
    {
        if id < self.nodes.len() {
            Some(&self.nodes[id].children)
        } else {
            None
        }
    }

    /// Puts the children of `n` on the work list, the first child on top.
    fn push_children(&self, n: usize, stack: &mut Vec<usize>)
        requires
            n < self@.len(),
            forall|i: int| 0 <= i < old(stack)@.len() ==> old(stack)@[i] < self@.len(),
        ensures
            pending(self@, final(stack)@) == descendants(self@, n as int) + pending(
                self@,
                old(stack)@,
            ),
            forall|i: int| 0 <= i < final(stack)@.len() ==> final(stack)@[i] < self@.len(),
    {
        proof {
            use_type_invariant(self);
        }
        let children = &self.nodes[n].children;
        let mut j = children.len();
        assert(forest(self@, n as int, j as int) =~= Seq::<usize>::empty());
        assert(pending(self@, stack@) =~= forest(self@, n as int, j as int) + pending(
            self@,
            old(stack)@,
        ));
        while j > 0
            invariant
                j <= children@.len(),
                n < self@.len(),
                children@ == self@[n as int].children,
                well_formed(self@),
                forall|i: int| 0 <= i < stack@.len() ==> stack@[i] < self@.len(),
                pending(self@, stack@) == forest(self@, n as int, j as int) + pending(
                    self@,
                    old(stack)@,
                ),
            decreases j,
        {
            j -= 1;
            let c = children[j];
            let ghost below = stack@;
            stack.push(c);
            proof {
                assert(self@[n as int].children[j as int] == c);
                assert(child_ok(self@, n as int, j as int));
                assert(stack@.last() == c);
                assert(stack@.drop_last() =~= below);
                assert(pending(self@, stack@) =~= seq![c] + descendants(self@, c as int)
                    + pending(self@, below));
                assert(forest(self@, n as int, j as int) =~= seq![c] + forest(self@, c as int, 0)
                    + forest(self@, n as int, j + 1));
                assert(pending(self@, stack@) =~= forest(self@, n as int, j as int) + pending(
                    self@,
                    old(stack)@,
                ));
            }
        }
    }

    /// The first node below `root`, in depth-first order, that is what
    /// `target` looks for. `root` itself is not considered. The walk keeps
    /// its own work list, so its depth is not bounded by the call stack.
    pub fn find_descendant(&self, root: usize, target: &Target) -> (found: Option<usize>)
        ensures
            found == first_fit(self@, descendants(self@, root as int), target@),
    {
        if root >= self.nodes.len() {
            return None;
        }
        let mut stack: Vec<usize> = Vec::new();
        self.push_children(root, &mut stack);
        assert(pending(self@, stack@) =~= descendants(self@, root as int));
        while stack.len() > 0
            invariant
                forall|i: int| 0 <= i < stack@.len() ==> stack@[i] < self@.len(),
                first_fit(self@, descendants(self@, root as int), target@) == first_fit(
                    self@,
                    pending(self@, stack@),
                    target@,
                ),
            decreases pending(self@, stack@).len(),
        {
            let ghost before = stack@;
            let n = stack.pop().unwrap();
            let ghost rest = stack@;
            proof {
                assert(before.last() == n);
                assert(before.drop_last() =~= rest);
                let order = pending(self@, before);
                assert(order =~= seq![n] + (descendants(self@, n as int) + pending(self@, rest)));
                assert(order[0] == n);
                assert(order.drop_first() =~= descendants(self@, n as int) + pending(self@, rest));
            }
            if self.nodes[n].data.fits(target) {
                return Some(n);
            }
            self.push_children(n, &mut stack);
        }
        None
    }

    /// The nearest node that is what `target` looks for, starting with `start`
    /// itself and going up from parent to parent.
    pub fn find_ancestor(&self, start: usize, target: &Target) -> (found: Option<usize>)
        ensures
            found == first_fit(self@, ancestor_chain(self@, start as int), target@),
    {
        proof {
            use_type_invariant(self);
        }
        if start >= self.nodes.len() {
            return None;
        }
        let mut current = start;
        loop
            invariant
                current < self@.len(),
                well_formed(self@),
                first_fit(self@, ancestor_chain(self@, start as int), target@) == first_fit(
                    self@,
                    ancestor_chain(self@, current as int),
                    target@,
                ),
            decreases current,
        {
            let ghost chain = ancestor_chain(self@, current as int);
            assert(chain[0] == current);
            if self.nodes[current].data.fits(target) {
                return Some(current);
            }
            match self.nodes[current].parent {
                Some(p) => {
                    assert(parent_ok(self@, current as int));
                    assert(chain.drop_first() =~= ancestor_chain(self@, p as int));
                    current = p;
                },
                None => {
                    assert(chain.drop_first() =~= Seq::<usize>::empty());
                    assert(first_fit(self@, chain.drop_first(), target@) is None);
                    return None;
                },
            }
        }
    }
}

} // verus!
