//! Facts about pruning that hold of every tree.
use super::retain::significance;
use super::{is_pruned, pruned_by, pruned_children_by, DataTree};
use crate::size::Size;
use vstd::prelude::*;

verus! {

/// Pruning by stronger conditions is also pruning by weaker ones.
pub proof fn lemma_pruned_by_weaken<Name, S: Size>(
    kept: DataTree<Name, S>,
    tree: DataTree<Name, S>,
    accept: spec_fn(DataTree<Name, S>) -> bool,
    reject: spec_fn(DataTree<Name, S>) -> bool,
    wider_accept: spec_fn(DataTree<Name, S>) -> bool,
    wider_reject: spec_fn(DataTree<Name, S>) -> bool,
)
    requires
        pruned_by(kept, tree, accept, reject),
        forall|node: DataTree<Name, S>| #[trigger] accept(node) ==> wider_accept(node),
        forall|node: DataTree<Name, S>| #[trigger] reject(node) ==> wider_reject(node),
    ensures
        pruned_by(kept, tree, wider_accept, wider_reject),
    decreases tree, 1int,
{
    lemma_pruned_children_by_weaken(
        kept.children@,
        tree.children@,
        accept,
        reject,
        wider_accept,
        wider_reject,
    );
}

proof fn lemma_pruned_children_by_weaken<Name, S: Size>(
    kept: Seq<DataTree<Name, S>>,
    nodes: Seq<DataTree<Name, S>>,
    accept: spec_fn(DataTree<Name, S>) -> bool,
    reject: spec_fn(DataTree<Name, S>) -> bool,
    wider_accept: spec_fn(DataTree<Name, S>) -> bool,
    wider_reject: spec_fn(DataTree<Name, S>) -> bool,
)
    requires
        pruned_children_by(kept, nodes, accept, reject),
        forall|node: DataTree<Name, S>| #[trigger] accept(node) ==> wider_accept(node),
        forall|node: DataTree<Name, S>| #[trigger] reject(node) ==> wider_reject(node),
    ensures
        pruned_children_by(kept, nodes, wider_accept, wider_reject),
    decreases nodes, 0int,
{
    if nodes.len() > 0 {
        let last = nodes[nodes.len() - 1];
        let rest = nodes.subrange(0, nodes.len() - 1);
        if accept(last) && kept.len() > 0 && pruned_by(kept[kept.len() - 1], last, accept, reject)
            && pruned_children_by(kept.subrange(0, kept.len() - 1), rest, accept, reject) {
            lemma_pruned_by_weaken(
                kept[kept.len() - 1],
                last,
                accept,
                reject,
                wider_accept,
                wider_reject,
            );
            lemma_pruned_children_by_weaken(
                kept.subrange(0, kept.len() - 1),
                rest,
                accept,
                reject,
                wider_accept,
                wider_reject,
            );
        } else {
            lemma_pruned_children_by_weaken(
                kept,
                rest,
                accept,
                reject,
                wider_accept,
                wider_reject,
            );
        }
    }
}

/// `keep` looks at nothing but a node's name and size, which pruning leaves
/// as they are.
pub open spec fn reads_name_and_size<Name, S: Size>(keep: spec_fn(DataTree<Name, S>) -> bool) -> bool {
    forall|a: DataTree<Name, S>, b: DataTree<Name, S>|
        #![trigger keep(a), keep(b)]
        a.spec_name() == b.spec_name() && a.spec_size() == b.spec_size() ==> keep(a) == keep(b)
}

/// Every descendant of `tree`, the node itself aside, passes `keep`.
pub open(crate) spec fn every_descendant<Name, S: Size>(
    tree: DataTree<Name, S>,
    keep: spec_fn(DataTree<Name, S>) -> bool,
) -> bool
    decreases tree,
{
    forall|i: int|
        0 <= i < tree.children@.len() ==> keep(#[trigger] tree.children@[i]) && every_descendant(
            tree.children@[i],
            keep,
        )
}

/// After pruning by the rule `keep`, the children are the pruned forms of
/// exactly those former children that pass `keep`, in their order: a child
/// that is there passed `keep`, and a child that is gone failed it. The
/// node keeps its name and size.
pub proof fn lemma_pruned_children_filtered<Name, S: Size>(
    kept: DataTree<Name, S>,
    tree: DataTree<Name, S>,
    keep: spec_fn(DataTree<Name, S>) -> bool,
)
    requires
        is_pruned(kept, tree, keep),
    ensures
        kept.spec_name() == tree.spec_name(),
        kept.spec_size() == tree.spec_size(),
        kept.spec_children().len() == tree.spec_children().filter(keep).len(),
        forall|i: int|
            0 <= i < kept.spec_children().len() ==> {
                &&& keep(tree.spec_children().filter(keep)[i])
                &&& is_pruned(#[trigger] kept.spec_children()[i], tree.spec_children().filter(keep)[i], keep)
            },
{
    let reject = |node: DataTree<Name, S>| !keep(node);
    lemma_children_filtered(kept.spec_children(), tree.spec_children(), keep, reject);
    tree.spec_children().filter_lemma(keep);
}

proof fn lemma_children_filtered<Name, S: Size>(
    kept: Seq<DataTree<Name, S>>,
    nodes: Seq<DataTree<Name, S>>,
    keep: spec_fn(DataTree<Name, S>) -> bool,
    reject: spec_fn(DataTree<Name, S>) -> bool,
)
    requires
        pruned_children_by(kept, nodes, keep, reject),
        forall|node: DataTree<Name, S>| #[trigger] reject(node) == !keep(node),
    ensures
        kept.len() == nodes.filter(keep).len(),
        forall|i: int|
            0 <= i < kept.len() ==> pruned_by(#[trigger] kept[i], nodes.filter(keep)[i], keep, reject),
    decreases nodes.len(),
{
    reveal(Seq::filter);
    if nodes.len() > 0 {
        let n = nodes.len() - 1;
        let last = nodes[n];
        let rest = nodes.subrange(0, n);
        assert(rest =~= nodes.drop_last());
        if keep(last) {
            let m = kept.len() - 1;
            let fewer = kept.subrange(0, m);
            lemma_children_filtered(fewer, rest, keep, reject);
            assert forall|i: int| 0 <= i < kept.len() implies pruned_by(
                #[trigger] kept[i],
                nodes.filter(keep)[i],
                keep,
                reject,
            ) by {
                if i < m {
                    assert(kept[i] == fewer[i]);
                }
            }
        } else {
            lemma_children_filtered(kept, rest, keep, reject);
        }
    }
}

/// Pruning twice by a rule that looks only at names and sizes leaves what
/// pruning once leaves: every child that stayed the first time passes the
/// rule again.
pub proof fn lemma_pruning_idempotent<Name, S: Size>(
    tree: DataTree<Name, S>,
    once: DataTree<Name, S>,
    twice: DataTree<Name, S>,
    keep: spec_fn(DataTree<Name, S>) -> bool,
)
    requires
        reads_name_and_size(keep),
        is_pruned(once, tree, keep),
        is_pruned(twice, once, keep),
    ensures
        is_pruned(twice, tree, keep),
    decreases tree, 1int,
{
    let reject = |node: DataTree<Name, S>| !keep(node);
    lemma_children_idempotent(tree.children@, once.children@, twice.children@, keep, reject);
}

proof fn lemma_children_idempotent<Name, S: Size>(
    nodes: Seq<DataTree<Name, S>>,
    once: Seq<DataTree<Name, S>>,
    twice: Seq<DataTree<Name, S>>,
    keep: spec_fn(DataTree<Name, S>) -> bool,
    reject: spec_fn(DataTree<Name, S>) -> bool,
)
    requires
        reads_name_and_size(keep),
        reject == (|node: DataTree<Name, S>| !keep(node)),
        pruned_children_by(once, nodes, keep, reject),
        pruned_children_by(twice, once, keep, reject),
    ensures
        pruned_children_by(twice, nodes, keep, reject),
    decreases nodes, 0int,
{
    if nodes.len() == 0 {
        assert(once.len() == 0);
        assert(twice.len() == 0);
    } else {
        let last = nodes[nodes.len() - 1];
        let rest = nodes.subrange(0, nodes.len() - 1);
        if keep(last) {
            let o = once[once.len() - 1];
            let once_rest = once.subrange(0, once.len() - 1);
            assert(pruned_by(o, last, keep, reject));
            assert(keep(o) == keep(last));
            let t = twice[twice.len() - 1];
            let twice_rest = twice.subrange(0, twice.len() - 1);
            assert(pruned_by(t, o, keep, reject));
            lemma_pruning_idempotent(last, o, t, keep);
            lemma_children_idempotent(rest, once_rest, twice_rest, keep, reject);
        } else {
            lemma_children_idempotent(rest, once, twice, keep, reject);
        }
    }
}

/// After pruning by a rule that looks only at names and sizes, every
/// descendant passes the rule.
pub proof fn lemma_pruned_descendants_pass<Name, S: Size>(
    kept: DataTree<Name, S>,
    tree: DataTree<Name, S>,
    keep: spec_fn(DataTree<Name, S>) -> bool,
)
    requires
        reads_name_and_size(keep),
        is_pruned(kept, tree, keep),
    ensures
        every_descendant(kept, keep),
    decreases kept,
{
    lemma_pruned_children_filtered(kept, tree, keep);
    let sources = tree.spec_children().filter(keep);
    assert forall|i: int| 0 <= i < kept.children@.len() implies keep(
        #[trigger] kept.children@[i],
    ) && every_descendant(kept.children@[i], keep) by {
        assert(kept.spec_children()[i] == kept.children@[i]);
        assert(is_pruned(kept.children@[i], sources[i], keep));
        assert(keep(sources[i]));
        lemma_pruned_descendants_pass(kept.children@[i], sources[i], keep);
    }
}

/// After culling by the fraction `numerator / denominator`, every node
/// below the root reaches that fraction of the root's size: the threshold
/// comes from the root alone and is the same at every depth.
pub proof fn lemma_cull_leaves_significant<Name, S: Size>(
    kept: DataTree<Name, S>,
    tree: DataTree<Name, S>,
    numerator: u64,
    denominator: u64,
)
    requires
        is_pruned(kept, tree, significance(tree.spec_size().magnitude(), numerator, denominator)),
    ensures
        every_descendant(
            kept,
            significance(tree.spec_size().magnitude(), numerator, denominator),
        ),
{
    let keep = significance::<Name, S>(tree.spec_size().magnitude(), numerator, denominator);
    assert(reads_name_and_size(keep));
    lemma_pruned_descendants_pass(kept, tree, keep);
}

} // verus!
