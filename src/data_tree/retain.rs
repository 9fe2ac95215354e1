//! Pruning a tree in place, in parallel across siblings.
use super::laws::lemma_pruned_by_weaken;
use super::{is_pruned, pruned_by, pruned_children_by, DataTree};
use crate::size::Size;
use rayon::iter::{IntoParallelRefMutIterator, ParallelIterator};
use vstd::prelude::*;

verus! {

/// The nodes of which `predicate` can answer `answer`.
pub open spec fn answering<Name, S: Size, F: Fn(&DataTree<Name, S>) -> bool>(
    predicate: F,
    answer: bool,
) -> spec_fn(DataTree<Name, S>) -> bool {
    |node: DataTree<Name, S>| predicate.ensures((&node,), answer)
}

/// A node of magnitude `size` is at least `numerator / denominator` of a
/// root of magnitude `root`.
pub open spec fn is_significant(size: u64, root: u64, numerator: u64, denominator: u64) -> bool {
    size * denominator >= root * numerator
}

/// The nodes that are significant relative to a root of magnitude `root`;
/// the same threshold serves at every depth.
pub open spec fn significance<Name, S: Size>(root: u64, numerator: u64, denominator: u64) -> spec_fn(
    DataTree<Name, S>,
) -> bool {
    |node: DataTree<Name, S>|
        is_significant(node.spec_size().magnitude(), root, numerator, denominator)
}

fn wide_product(a: u64, b: u64) -> (r: u128)
    ensures
        r == a * b,
{
    proof {
        assert((a as int) * (b as int) <= (u64::MAX as int) * (u64::MAX as int)) by (nonlinear_arith)
            requires
                a <= u64::MAX,
                b <= u64::MAX,
        ;
    }
    (a as u128) * (b as u128)
}

/// `predicate` can be asked of any node.
pub open spec fn is_total<Name, S: Size, F: Fn(&DataTree<Name, S>) -> bool>(predicate: F) -> bool {
    forall|node: &DataTree<Name, S>| #[trigger] predicate.requires((node,))
}

/// `chosen` is `nodes` without some of its elements, in order, where each
/// element that stays is one that `accept` holds of and each element that
/// goes one that `reject` holds of.
spec fn selected<Name, S: Size>(
    chosen: Seq<DataTree<Name, S>>,
    nodes: Seq<DataTree<Name, S>>,
    accept: spec_fn(DataTree<Name, S>) -> bool,
    reject: spec_fn(DataTree<Name, S>) -> bool,
) -> bool
    decreases nodes.len(),
{
    if nodes.len() == 0 {
        chosen.len() == 0
    } else {
        let last = nodes[nodes.len() - 1];
        let rest = nodes.subrange(0, nodes.len() - 1);
        ||| {
            &&& accept(last)
            &&& chosen.len() > 0
            &&& chosen[chosen.len() - 1] == last
            &&& selected(chosen.subrange(0, chosen.len() - 1), rest, accept, reject)
        }
        ||| {
            &&& reject(last)
            &&& selected(chosen, rest, accept, reject)
        }
    }
}

/// Selected nodes that are then pruned one by one are pruned children.
proof fn lemma_selected_then_pruned<Name, S: Size>(
    kept: Seq<DataTree<Name, S>>,
    chosen: Seq<DataTree<Name, S>>,
    nodes: Seq<DataTree<Name, S>>,
    accept: spec_fn(DataTree<Name, S>) -> bool,
    reject: spec_fn(DataTree<Name, S>) -> bool,
)
    requires
        selected(chosen, nodes, accept, reject),
        kept.len() == chosen.len(),
        forall|i: int|
            0 <= i < kept.len() ==> pruned_by(#[trigger] kept[i], chosen[i], accept, reject),
    ensures
        pruned_children_by(kept, nodes, accept, reject),
    decreases nodes.len(),
{
    if nodes.len() > 0 {
        let last = nodes[nodes.len() - 1];
        let rest = nodes.subrange(0, nodes.len() - 1);
        if accept(last) && chosen.len() > 0 && chosen[chosen.len() - 1] == last && selected(
            chosen.subrange(0, chosen.len() - 1),
            rest,
            accept,
            reject,
        ) {
            let shorter = kept.subrange(0, kept.len() - 1);
            let fewer = chosen.subrange(0, chosen.len() - 1);
            assert forall|i: int| 0 <= i < shorter.len() implies pruned_by(
                #[trigger] shorter[i],
                fewer[i],
                accept,
                reject,
            ) by {
                assert(shorter[i] == kept[i]);
            }
            lemma_selected_then_pruned(shorter, fewer, rest, accept, reject);
            assert(pruned_by(kept[kept.len() - 1], chosen[chosen.len() - 1], accept, reject));
        } else {
            lemma_selected_then_pruned(kept, chosen, rest, accept, reject);
        }
    }
}

/// Relies on rayon's `par_iter_mut().for_each(op)` on a `Vec`: `op` runs once
/// on each element, through that element's own `&mut`.
#[verifier::external_body]
fn par_retain_each<Name, S, F>(nodes: &mut Vec<DataTree<Name, S>>, predicate: F)
    where
        Name: Send,
        S: Size + Send,
        F: Fn(&DataTree<Name, S>) -> bool + Copy + Sync,
    requires
        is_total(predicate),
    ensures
        final(nodes)@.len() == old(nodes)@.len(),
        forall|i: int|
            0 <= i < old(nodes)@.len() ==> pruned_by(
                #[trigger] final(nodes)@[i],
                old(nodes)@[i],
                answering(predicate, true),
                answering(predicate, false),
            ),
{
    nodes.par_iter_mut().for_each(|child| child.par_retain(predicate));
}

impl<Name, S> DataTree<Name, S> where Name: Send, S: Size + Send {
    /// Recursively culls all descendants that do not satisfy `predicate`, in
    /// parallel. The node itself always stays and sizes are left as they
    /// are. `predicate` is asked once of each child, before that child is
    /// pruned in turn: the children that stay are those it answered `true`
    /// for, in their order, and those that go the ones it answered `false`
    /// for.
    pub fn par_retain<F>(&mut self, predicate: F)
        where
            F: Fn(&Self) -> bool + Copy + Sync,
        requires
            is_total(predicate),
        ensures
            pruned_by(
                *final(self),
                *old(self),
                answering(predicate, true),
                answering(predicate, false),
            ),
    {
        let ghost accept = answering(predicate, true);
        let ghost reject = answering(predicate, false);
        let mut nodes: Vec<Self> = Vec::new();
        std::mem::swap(&mut self.children, &mut nodes);
        let ghost all = nodes@;
        let mut kept: Vec<Self> = Vec::new();
        for child in it: nodes.into_iter()
            invariant
                it.seq() == all,
                selected(kept@, all.subrange(0, it.index()), accept, reject),
                is_total(predicate),
                accept == answering(predicate, true),
                reject == answering(predicate, false),
        {
            let ghost before = kept@;
            let ghost next = all.subrange(0, it.index() + 1);
            assert(next.subrange(0, next.len() - 1) =~= all.subrange(0, it.index()));
            if predicate(&child) {
                kept.push(child);
                assert(kept@.subrange(0, kept@.len() - 1) =~= before);
            }
        }
        assert(all.subrange(0, all.len() as int) =~= all);
        let ghost chosen = kept@;
        par_retain_each(&mut kept, predicate);
        self.children = kept;
        proof {
            lemma_selected_then_pruned(self.children@, chosen, all, accept, reject);
        }
    }

    /// The tree after [`par_retain`](Self::par_retain).
    pub fn into_par_retained<F>(self, predicate: F) -> (r: Self)
        where
            F: Fn(&Self) -> bool + Copy + Sync,
        requires
            is_total(predicate),
        ensures
            pruned_by(r, self, answering(predicate, true), answering(predicate, false)),
    {
        let mut tree = self;
        tree.par_retain(predicate);
        tree
    }

    /// Recursively culls all descendants whose sizes are under the fraction
    /// `min_ratio_numerator / min_ratio_denominator` of this node's size.
    /// The threshold is taken once, from this node, and serves at every
    /// depth; sizes are left as they are.
    pub fn par_cull_insignificant_data(
        &mut self,
        min_ratio_numerator: u64,
        min_ratio_denominator: u64,
    )
        ensures
            is_pruned(
                *final(self),
                *old(self),
                significance(
                    old(self).spec_size().magnitude(),
                    min_ratio_numerator,
                    min_ratio_denominator,
                ),
            ),
    {
        let root = self.size.to_u64();
        let minimal = wide_product(root, min_ratio_numerator);
        let predicate = |node: &Self| -> (r: bool)
            ensures
                r == is_significant(
                    node.spec_size().magnitude(),
                    root,
                    min_ratio_numerator,
                    min_ratio_denominator,
                ),
            { wide_product(node.size.to_u64(), min_ratio_denominator) >= minimal };
        let ghost tree = *self;
        self.par_retain(predicate);
        proof {
            let keep = significance::<Name, S>(root, min_ratio_numerator, min_ratio_denominator);
            let drop = |node: DataTree<Name, S>| !keep(node);
            assert forall|node: DataTree<Name, S>| #[trigger]
                answering(predicate, true)(node) implies keep(node) by {}
            assert forall|node: DataTree<Name, S>| #[trigger]
                answering(predicate, false)(node) implies drop(node) by {}
            lemma_pruned_by_weaken(
                *self,
                tree,
                answering(predicate, true),
                answering(predicate, false),
                keep,
                drop,
            );
        }
    }

    /// The tree after
    /// [`par_cull_insignificant_data`](Self::par_cull_insignificant_data).
    pub fn into_insignificant_data_par_culled(
        self,
        min_ratio_numerator: u64,
        min_ratio_denominator: u64,
    ) -> (r: Self)
        ensures
            is_pruned(
                r,
                self,
                significance(self.spec_size().magnitude(), min_ratio_numerator, min_ratio_denominator),
            ),
    {
        let mut tree = self;
        tree.par_cull_insignificant_data(min_ratio_numerator, min_ratio_denominator);
        tree
    }
}

} // verus!
