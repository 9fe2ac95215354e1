//! A tree of named nodes, each carrying the aggregate size of its subtree.
use crate::size::{saturate, Size};
use vstd::prelude::*;

pub mod getters;
pub mod laws;
pub mod retain;

verus! {

/// A node of a disk-usage tree.
///
/// A node is made once, bottom-up, with `size` equal to its own
/// contribution plus the sizes of its children. Later it may only lose
/// children (see `par_retain`); `size` is never recomputed, so it keeps
/// reflecting the usage at the time the node was made.
#[derive(Debug, PartialEq, Eq)]
pub struct DataTree<Name, Size> {
    pub(crate) name: Name,
    pub(crate) size: Size,
    pub(crate) children: Vec<Self>,
}

/// Exact sum of the magnitudes of the sizes of `nodes`.
pub open(crate) spec fn size_sum<Name, S: Size>(nodes: Seq<DataTree<Name, S>>) -> int
    decreases nodes.len(),
{
    if nodes.len() == 0 {
        0
    } else {
        size_sum(nodes.drop_last()) + nodes.last().size.magnitude()
    }
}

/// `kept` is what pruning `tree` leaves, where each child that stays is one
/// that `accept` holds of and each child that goes one that `reject` holds
/// of: the same name and size, and as children the staying ones, in their
/// order, each pruned in turn.
pub open(crate) spec fn pruned_by<Name, S: Size>(
    kept: DataTree<Name, S>,
    tree: DataTree<Name, S>,
    accept: spec_fn(DataTree<Name, S>) -> bool,
    reject: spec_fn(DataTree<Name, S>) -> bool,
) -> bool
    decreases tree, 1int,
{
    &&& kept.name == tree.name
    &&& kept.size == tree.size
    &&& pruned_children_by(kept.children@, tree.children@, accept, reject)
}

/// `kept` lists, in order, the pruned forms of the staying ones of `nodes`.
pub open(crate) spec fn pruned_children_by<Name, S: Size>(
    kept: Seq<DataTree<Name, S>>,
    nodes: Seq<DataTree<Name, S>>,
    accept: spec_fn(DataTree<Name, S>) -> bool,
    reject: spec_fn(DataTree<Name, S>) -> bool,
) -> bool
    decreases nodes, 0int,
{
    if nodes.len() == 0 {
        kept.len() == 0
    } else {
        let last = nodes[nodes.len() - 1];
        let rest = nodes.subrange(0, nodes.len() - 1);
        ||| {
            &&& accept(last)
            &&& kept.len() > 0
            &&& pruned_by(kept[kept.len() - 1], last, accept, reject)
            &&& pruned_children_by(kept.subrange(0, kept.len() - 1), rest, accept, reject)
        }
        ||| {
            &&& reject(last)
            &&& pruned_children_by(kept, rest, accept, reject)
        }
    }
}

/// `kept` is what pruning `tree` by the rule `keep` leaves: the children that
/// stay are exactly those that pass `keep`.
pub open(crate) spec fn is_pruned<Name, S: Size>(
    kept: DataTree<Name, S>,
    tree: DataTree<Name, S>,
    keep: spec_fn(DataTree<Name, S>) -> bool,
) -> bool {
    pruned_by(kept, tree, keep, |node: DataTree<Name, S>| !keep(node))
}

proof fn lemma_size_sum_nonneg<Name, S: Size>(nodes: Seq<DataTree<Name, S>>)
    ensures
        size_sum(nodes) >= 0,
    decreases nodes.len(),
{
    if nodes.len() > 0 {
        lemma_size_sum_nonneg(nodes.drop_last());
    }
}

proof fn lemma_saturate_step(a: int, b: int)
    requires
        a >= 0,
        b >= 0,
    ensures
        saturate(saturate(a) + b) == saturate(a + b),
{
}

/// Folds the sizes of `children` into `own`, left to right.
fn sum_sizes<Name, S: Size>(own: S, children: &Vec<DataTree<Name, S>>) -> (r: S)
    ensures
        r.magnitude() == saturate(own.magnitude() + size_sum(children@)),
{
    let mut total = own;
    let mut i: usize = 0;
    while i < children.len()
        invariant
            i <= children@.len(),
            total.magnitude() == saturate(own.magnitude() + size_sum(children@.subrange(0, i as int))),
        decreases children@.len() - i,
    {
        proof {
            let next = children@.subrange(0, i + 1);
            assert(next.drop_last() =~= children@.subrange(0, i as int));
            lemma_size_sum_nonneg(children@.subrange(0, i as int));
            lemma_saturate_step(
                own.magnitude() + size_sum(children@.subrange(0, i as int)),
                children@[i as int].size.magnitude() as int,
            );
        }
        total = total.plus(children[i].size);
        i = i + 1;
    }
    assert(children@.subrange(0, children@.len() as int) =~= children@);
    total
}

impl<Name, S: Size> DataTree<Name, S> {
    /// The node's name.
    pub open(crate) spec fn spec_name(&self) -> Name {
        self.name
    }

    /// The node's aggregate size.
    pub open(crate) spec fn spec_size(&self) -> S {
        self.size
    }

    /// The node's children, in order.
    pub open(crate) spec fn spec_children(&self) -> Seq<Self> {
        self.children@
    }

    /// A directory node: its size is `inode_size` plus the sizes of
    /// `children`, which keep their order.
    pub fn dir(name: Name, inode_size: S, children: Vec<Self>) -> (r: Self)
        ensures
            r.spec_name() == name,
            r.spec_children() == children@,
            r.spec_size().magnitude() == saturate(inode_size.magnitude() + size_sum(children@)),
    {
        let size = sum_sizes(inode_size, &children);
        DataTree { name, size, children }
    }

    /// A leaf node of the given size.
    pub fn file(name: Name, size: S) -> (r: Self)
        ensures
            r.spec_name() == name,
            r.spec_size() == size,
            r.spec_children().len() == 0,
    {
        DataTree { name, size, children: Vec::new() }
    }
}

} // verus!
