//! Building a fully aggregated tree from an info source, in parallel across
//! siblings.
use crate::size::{saturate, Size};
use rayon::iter::{IntoParallelIterator, ParallelIterator};
use vstd::prelude::*;

verus! {

/// What the info source reports of one node: its own size contribution and
/// the names of its children, in order.
pub struct Info<Name, Data> {
    pub data: Data,
    pub children: Vec<Name>,
}

impl<Name, Data> From<(Data, Vec<Name>)> for Info<Name, Data> {
    fn from(pair: (Data, Vec<Name>)) -> (r: Self) {
        Info { data: pair.0, children: pair.1 }
    }
}

impl<Name, Data> vstd::std_specs::convert::FromSpecImpl<(Data, Vec<Name>)> for Info<Name, Data> {
    open spec fn obeys_from_spec() -> bool {
        true
    }

    open spec fn from_spec(pair: (Data, Vec<Name>)) -> Self {
        Info { data: pair.0, children: pair.1 }
    }
}

/// A built node: its id, its aggregate size, and its children in the order
/// the info source named them.
#[derive(Debug, PartialEq, Eq)]
pub struct Tree<Id, Data> {
    pub id: Id,
    pub data: Data,
    pub children: Vec<Self>,
}

/// Exact sum of the magnitudes of the sizes of `nodes`.
pub open spec fn data_sum<Id, Data: Size>(nodes: Seq<Tree<Id, Data>>) -> int
    decreases nodes.len(),
{
    if nodes.len() == 0 {
        0
    } else {
        data_sum(nodes.drop_last()) + nodes.last().data.magnitude()
    }
}

/// `tree` is assembled from `info`, reported for its id: its size is the
/// own contribution plus the sizes of its children, and its children's ids
/// are `join_path` of its id with the reported names, in order.
pub open spec fn is_assembled<Id, Name, Data: Size, J: Fn(&Id, &Name) -> Id>(
    tree: Tree<Id, Data>,
    info: Info<Name, Data>,
    join_path: J,
) -> bool {
    &&& tree.data.magnitude() == saturate(info.data.magnitude() + data_sum(tree.children@))
    &&& tree.children@.len() == info.children@.len()
    &&& forall|i: int|
        0 <= i < tree.children@.len() ==> join_path.ensures(
            (&tree.id, &info.children@[i]),
            #[trigger] tree.children@[i].id,
        )
}

/// Every node of `tree` is assembled from what `get_info` reports for its
/// id.
pub open spec fn is_built<Id, Name, Data: Size, G, J>(
    tree: Tree<Id, Data>,
    get_info: G,
    join_path: J,
) -> bool
    where
        G: Fn(&Id) -> Info<Name, Data>,
        J: Fn(&Id, &Name) -> Id,
    decreases tree,
{
    &&& exists|info: Info<Name, Data>|
        #[trigger] get_info.ensures((&tree.id,), info) && is_assembled(tree, info, join_path)
    &&& forall|i: int|
        0 <= i < tree.children@.len() ==> is_built(#[trigger] tree.children@[i], get_info, join_path)
}

/// Both callbacks can be called on any arguments.
pub open spec fn callbacks_total<Id, Name, Data, G, J>(get_info: G, join_path: J) -> bool
    where
        G: Fn(&Id) -> Info<Name, Data>,
        J: Fn(&Id, &Name) -> Id,
{
    &&& forall|id: &Id| #[trigger] get_info.requires((id,))
    &&& forall|id: &Id, name: &Name| #[trigger] join_path.requires((id, name))
}

proof fn lemma_data_sum_nonneg<Id, Data: Size>(nodes: Seq<Tree<Id, Data>>)
    ensures
        data_sum(nodes) >= 0,
    decreases nodes.len(),
{
    if nodes.len() > 0 {
        lemma_data_sum_nonneg(nodes.drop_last());
    }
}

/// Folds the sizes of `children` into `own`, left to right.
fn sum_data<Id, Data: Size>(own: Data, children: &Vec<Tree<Id, Data>>) -> (r: Data)
    ensures
        r.magnitude() == saturate(own.magnitude() + data_sum(children@)),
{
    let mut total = own;
    let mut i: usize = 0;
    while i < children.len()
        invariant
            i <= children@.len(),
            total.magnitude() == saturate(own.magnitude() + data_sum(children@.subrange(0, i as int))),
        decreases children@.len() - i,
    {
        proof {
            let next = children@.subrange(0, i + 1);
            assert(next.drop_last() =~= children@.subrange(0, i as int));
            lemma_data_sum_nonneg(children@.subrange(0, i as int));
        }
        total = total.plus(children[i].data);
        i = i + 1;
    }
    assert(children@.subrange(0, children@.len() as int) =~= children@);
    total
}

/// Instructions for building a tree: where to start, how to learn what a
/// node holds, and how to name a child.
pub struct TreeBuilder<Id, GetInfo, JoinPath> {
    pub id: Id,
    pub get_info: GetInfo,
    pub join_path: JoinPath,
}

/// Builds the subtree of the child `name` of `parent`.
fn build_child<Id, Name, Data, G, J>(parent: &Id, name: &Name, get_info: G, join_path: J) -> (r:
    Tree<Id, Data>)
    where
        Id: Send + Sync,
        Name: Send,
        Data: Size + Send,
        G: Fn(&Id) -> Info<Name, Data> + Copy + Send + Sync,
        J: Fn(&Id, &Name) -> Id + Copy + Send + Sync,
    requires
        callbacks_total(get_info, join_path),
    ensures
        join_path.ensures((parent, name), r.id),
        is_built(r, get_info, join_path),
{
    let id = join_path(parent, name);
    TreeBuilder { id, get_info, join_path }.build()
}

/// Relies on rayon's `into_par_iter().map(op).collect()` on a `Vec`: `op`
/// runs once on each item, and the results come back in the items' order.
#[verifier::external_body]
fn build_each<Id, Name, Data, G, J>(
    parent: &Id,
    names: Vec<Name>,
    get_info: G,
    join_path: J,
) -> (r: Vec<Tree<Id, Data>>)
    where
        Id: Send + Sync,
        Name: Send,
        Data: Size + Send,
        G: Fn(&Id) -> Info<Name, Data> + Copy + Send + Sync,
        J: Fn(&Id, &Name) -> Id + Copy + Send + Sync,
    requires
        callbacks_total(get_info, join_path),
    ensures
        r@.len() == names@.len(),
        forall|i: int|
            #![trigger r@[i]]
            0 <= i < names@.len() ==> join_path.ensures((parent, &names@[i]), r@[i].id)
                && is_built(r@[i], get_info, join_path),
{
    names.into_par_iter().map(|name| build_child(parent, &name, get_info, join_path)).collect()
}

impl<Id, GetInfo, JoinPath> TreeBuilder<Id, GetInfo, JoinPath> {
    /// Builds the tree rooted at `id`: asks `get_info` for the node's own
    /// size and child names, builds each child's subtree at `join_path` of
    /// `id` and the name (siblings in parallel), and sums the sizes. The
    /// children keep the order of the names.
    pub fn build<Name, Data>(self) -> (r: Tree<Id, Data>)
        where
            Id: Send + Sync,
            Name: Send,
            Data: Size + Send,
            GetInfo: Fn(&Id) -> Info<Name, Data> + Copy + Send + Sync,
            JoinPath: Fn(&Id, &Name) -> Id + Copy + Send + Sync,
        requires
            callbacks_total(self.get_info, self.join_path),
        ensures
            r.id == self.id,
            is_built(r, self.get_info, self.join_path),
    {
        let TreeBuilder { id, get_info, join_path } = self;
        let info = get_info(&id);
        let ghost reported = info;
        let Info { data, children: names } = info;
        let children = build_each(&id, names, get_info, join_path);
        let data = sum_data(data, &children);
        let tree = Tree { id, data, children };
        proof {
            assert(get_info.ensures((&tree.id,), reported));
            assert(is_assembled(tree, reported, join_path));
        }
        tree
    }
}

} // verus!
