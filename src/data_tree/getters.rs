//! Read access to a node's fields.
use super::DataTree;
use crate::size::Size;
use vstd::prelude::*;

verus! {

impl<Name, S: Size> DataTree<Name, S> {
    /// The node's name.
    pub fn name(&self) -> (r: &Name)
        ensures
            *r == self.spec_name(),
    {
        &self.name
    }

    /// The node's name, to be changed in place; nothing else changes.
    pub fn name_mut(&mut self) -> (r: &mut Name)
        ensures
            *r == old(self).spec_name(),
            final(self).spec_name() == *final(r),
            final(self).spec_size() == old(self).spec_size(),
            final(self).spec_children() == old(self).spec_children(),
    {
        &mut self.name
    }

    /// The node's aggregate size.
    pub fn size(&self) -> (r: S)
        ensures
            r == self.spec_size(),
    {
        self.size
    }

    /// The node's children, in order.
    pub fn children(&self) -> (r: &Vec<Self>)
        ensures
            r@ == self.spec_children(),
    {
        &self.children
    }
}

} // verus!
