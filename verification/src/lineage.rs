//! The downward and the upward search look at one and the same tree: the
//! nodes below `n` are exactly the nodes that have `n` among their ancestors.

use vstd::prelude::*;

use crate::hierarchy::{
    ancestor_chain, child_ok, descendants, first_fit, fit_at, forest, lemma_first_fit_is_first,
    parent_ok, well_formed, NodeView, TargetView,
};

verus! {

/// A member of two sequences put together is a member of one of them.
proof fn lemma_member_of_parts(a: Seq<usize>, b: Seq<usize>, x: usize)
    ensures
        (a + b).contains(x) <==> a.contains(x) || b.contains(x),
{
    if (a + b).contains(x) {
        let i = choose|i: int| 0 <= i < (a + b).len() && (a + b)[i] == x;
        if i < a.len() {
            assert(a[i] == x);
        } else {
            assert(b[i - a.len()] == x);
        }
    }
    if a.contains(x) {
        let i = choose|i: int| 0 <= i < a.len() && a[i] == x;
        assert((a + b)[i] == x);
    }
    if b.contains(x) {
        let i = choose|i: int| 0 <= i < b.len() && b[i] == x;
        assert((a + b)[a.len() + i] == x);
    }
}

/// What `forest` is made of when `n` has a `k`-th child.
proof fn lemma_forest_parts(nodes: Seq<NodeView>, n: int, k: int, x: usize)
    requires
        well_formed(nodes),
        0 <= n < nodes.len(),
        0 <= k < nodes[n].children.len(),
    ensures
        forest(nodes, n, k).contains(x) <==> x == nodes[n].children[k] || forest(
            nodes,
            nodes[n].children[k] as int,
            0,
        ).contains(x) || forest(nodes, n, k + 1).contains(x),
{
    let c = nodes[n].children[k];
    assert(child_ok(nodes, n, k));
    let below = forest(nodes, c as int, 0);
    let rest = forest(nodes, n, k + 1);
    assert(forest(nodes, n, k) == seq![c] + below + rest);
    lemma_member_of_parts(seq![c] + below, rest, x);
    lemma_member_of_parts(seq![c], below, x);
    assert(seq![c].contains(x) <==> x == c) by {
        assert(seq![c][0] == c);
    }
}

/// A node stands first in its own ancestor chain.
proof fn lemma_chain_starts_at_node(nodes: Seq<NodeView>, d: usize)
    requires
        d < nodes.len(),
    ensures
        ancestor_chain(nodes, d as int).contains(d),
{
    assert(ancestor_chain(nodes, d as int)[0] == d);
}

/// The ancestor chain of a node with a parent is the node followed by the
/// ancestor chain of the parent.
proof fn lemma_chain_parts(nodes: Seq<NodeView>, d: usize, x: usize)
    requires
        well_formed(nodes),
        d < nodes.len(),
    ensures
        ancestor_chain(nodes, d as int).contains(x) <==> x == d || (nodes[d as int].parent is Some
            && ancestor_chain(nodes, nodes[d as int].parent->0 as int).contains(x)),
{
    assert(parent_ok(nodes, d as int));
    assert(seq![d].contains(x) <==> x == d) by {
        assert(seq![d][0] == d);
    }
    if nodes[d as int].parent is Some {
        let p = nodes[d as int].parent->0;
        assert(ancestor_chain(nodes, d as int) == seq![d] + ancestor_chain(nodes, p as int));
        lemma_member_of_parts(seq![d], ancestor_chain(nodes, p as int), x);
    } else {
        assert(ancestor_chain(nodes, d as int) == seq![d]);
    }
}

/// Every node of an ancestor chain is a node of the snapshot at or before the
/// node the chain starts at.
proof fn lemma_chain_bounds(nodes: Seq<NodeView>, d: usize, x: usize)
    requires
        well_formed(nodes),
        ancestor_chain(nodes, d as int).contains(x),
    ensures
        d < nodes.len(),
        x <= d,
    decreases d,
{
    if d < nodes.len() {
        lemma_chain_parts(nodes, d, x);
        if x != d {
            assert(parent_ok(nodes, d as int));
            lemma_chain_bounds(nodes, nodes[d as int].parent->0, x);
        }
    } else {
        assert(ancestor_chain(nodes, d as int) =~= Seq::<usize>::empty());
    }
}

/// An ancestor of an ancestor is an ancestor.
proof fn lemma_chain_continues(nodes: Seq<NodeView>, d: usize, c: usize, n: usize)
    requires
        well_formed(nodes),
        ancestor_chain(nodes, d as int).contains(c),
        ancestor_chain(nodes, c as int).contains(n),
    ensures
        ancestor_chain(nodes, d as int).contains(n),
    decreases d,
{
    lemma_chain_bounds(nodes, d, c);
    lemma_chain_parts(nodes, d, c);
    lemma_chain_parts(nodes, d, n);
    if c != d {
        assert(parent_ok(nodes, d as int));
        lemma_chain_continues(nodes, nodes[d as int].parent->0, c, n);
    }
}

/// Whatever a depth-first walk meets below `n` comes after `n` and has `n`
/// among its ancestors.
proof fn lemma_forest_is_below(nodes: Seq<NodeView>, n: usize, k: int, d: usize)
    requires
        well_formed(nodes),
        forest(nodes, n as int, k).contains(d),
    ensures
        n < d < nodes.len(),
        ancestor_chain(nodes, d as int).contains(n),
    decreases nodes.len() - n, (if n < nodes.len() { nodes[n as int].children.len() - k } else { 0 }),
{
    if n < nodes.len() && 0 <= k < nodes[n as int].children.len() {
        let c = nodes[n as int].children[k];
        assert(child_ok(nodes, n as int, k));
        lemma_forest_parts(nodes, n as int, k, d);
        if d == c {
            lemma_chain_parts(nodes, c, n);
            lemma_chain_starts_at_node(nodes, n);
        } else if forest(nodes, c as int, 0).contains(d) {
            lemma_forest_is_below(nodes, c, 0, d);
            lemma_chain_parts(nodes, c, n);
            lemma_chain_starts_at_node(nodes, n);
            lemma_chain_continues(nodes, d, c, n);
        } else {
            lemma_forest_is_below(nodes, n, k + 1, d);
        }
    } else {
        assert(forest(nodes, n as int, k) =~= Seq::<usize>::empty());
    }
}

/// A depth-first walk below `n` meets each child of `n` from the `k`-th on.
proof fn lemma_forest_meets_child(nodes: Seq<NodeView>, n: int, k: int, j: int)
    requires
        well_formed(nodes),
        0 <= n < nodes.len(),
        0 <= k <= j < nodes[n].children.len(),
    ensures
        forest(nodes, n, k).contains(nodes[n].children[j]),
    decreases j - k,
{
    lemma_forest_parts(nodes, n, k, nodes[n].children[j]);
    if k < j {
        lemma_forest_meets_child(nodes, n, k + 1, j);
    }
}

/// A depth-first walk that meets `p` meets everything below `p`.
proof fn lemma_forest_goes_on_below(nodes: Seq<NodeView>, n: int, k: int, p: usize, x: usize)
    requires
        well_formed(nodes),
        forest(nodes, n, k).contains(p),
        descendants(nodes, p as int).contains(x),
    ensures
        forest(nodes, n, k).contains(x),
    decreases nodes.len() - n, (if 0 <= n < nodes.len() { nodes[n].children.len() - k } else { 0 }),
{
    if 0 <= n < nodes.len() && 0 <= k < nodes[n].children.len() {
        let c = nodes[n].children[k];
        assert(child_ok(nodes, n, k));
        lemma_forest_parts(nodes, n, k, p);
        lemma_forest_parts(nodes, n, k, x);
        if p == c {
        } else if forest(nodes, c as int, 0).contains(p) {
            lemma_forest_goes_on_below(nodes, c as int, 0, p, x);
        } else {
            lemma_forest_goes_on_below(nodes, n, k + 1, p, x);
        }
    } else {
        assert(forest(nodes, n, k) =~= Seq::<usize>::empty());
    }
}

/// A node that has `n` among its ancestors, and is not `n`, is met by the
/// depth-first walk below `n`.
proof fn lemma_chain_is_above(nodes: Seq<NodeView>, n: usize, d: usize)
    requires
        well_formed(nodes),
        ancestor_chain(nodes, d as int).contains(n),
        n != d,
    ensures
        descendants(nodes, n as int).contains(d),
    decreases d,
{
    lemma_chain_bounds(nodes, d, n);
    lemma_chain_parts(nodes, d, n);
    assert(parent_ok(nodes, d as int));
    let p = nodes[d as int].parent->0;
    let j = choose|j: int|
        0 <= j < nodes[p as int].children.len() && nodes[p as int].children[j] == d;
    lemma_forest_meets_child(nodes, p as int, 0, j);
    if n != p {
        lemma_chain_is_above(nodes, n, p);
        lemma_forest_goes_on_below(nodes, n as int, 0, p, d);
    }
}

/// The nodes below `n` are the nodes other than `n` that have `n` among their
/// ancestors: a downward search from `n` can find `d` exactly if an upward
/// search from `d` passes `n`.
pub proof fn lemma_below_and_above_agree(nodes: Seq<NodeView>, n: usize, d: usize)
    requires
        well_formed(nodes),
    ensures
        descendants(nodes, n as int).contains(d) <==> n != d && ancestor_chain(
            nodes,
            d as int,
        ).contains(n),
{
    if descendants(nodes, n as int).contains(d) {
        lemma_forest_is_below(nodes, n, 0, d);
    }
    if n != d && ancestor_chain(nodes, d as int).contains(n) {
        lemma_chain_is_above(nodes, n, d);
    }
}

/// Every node below `n` is a node of the snapshot and comes after `n`.
pub proof fn lemma_descendants_come_after(nodes: Seq<NodeView>, n: usize, d: usize)
    requires
        well_formed(nodes),
        descendants(nodes, n as int).contains(d),
    ensures
        n < d < nodes.len(),
{
    lemma_forest_is_below(nodes, n, 0, d);
}

/// A downward search finds something whenever a node below its root fits.
pub proof fn lemma_fitting_descendant_is_found(
    nodes: Seq<NodeView>,
    root: usize,
    d: usize,
    target: TargetView,
)
    requires
        descendants(nodes, root as int).contains(d),
        fit_at(nodes, d, target),
    ensures
        first_fit(nodes, descendants(nodes, root as int), target) is Some,
        fit_at(nodes, first_fit(nodes, descendants(nodes, root as int), target)->0, target),
{
    lemma_first_fit_is_first(nodes, descendants(nodes, root as int), target);
}

/// A downward search reaches two levels down: a node that fits is found, or
/// one before it is, if it is a child of a child of the root.
pub proof fn lemma_grandchild_is_found(
    nodes: Seq<NodeView>,
    root: usize,
    middle: usize,
    leaf: usize,
    target: TargetView,
)
    requires
        well_formed(nodes),
        leaf < nodes.len(),
        nodes[leaf as int].parent == Some(middle),
        nodes[middle as int].parent == Some(root),
        fit_at(nodes, leaf, target),
    ensures
        descendants(nodes, root as int).contains(leaf),
        first_fit(nodes, descendants(nodes, root as int), target) is Some,
{
    assert(parent_ok(nodes, leaf as int));
    assert(parent_ok(nodes, middle as int));
    lemma_chain_starts_at_node(nodes, root);
    lemma_chain_parts(nodes, middle, root);
    lemma_chain_parts(nodes, leaf, root);
    lemma_chain_is_above(nodes, root, leaf);
    lemma_fitting_descendant_is_found(nodes, root, leaf, target);
}

/// A search through nodes of which none fits finds nothing: a downward
/// search for a name that no node below the root has, an upward search from a
/// node without a qualifying ancestor.
pub proof fn lemma_nothing_fits_nothing_found(
    nodes: Seq<NodeView>,
    order: Seq<usize>,
    target: TargetView,
)
    requires
        forall|i: int| 0 <= i < order.len() ==> !fit_at(nodes, #[trigger] order[i], target),
    ensures
        first_fit(nodes, order, target) is None,
{
    lemma_first_fit_is_first(nodes, order, target);
}

} // verus!
