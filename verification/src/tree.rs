//! The tree store itself: construction, growth and size.

use vstd::prelude::*;
use crate::model::TreeView;
use crate::model::ROOT;

verus! {

/// A tree of `T` stored as two parallel arrays.
///
/// `d[i]` is the element with index `i`, and `p[i]` is the index of its
/// parent, or [`ROOT`] where it has none. Indices are
/// positions in insertion order; [`ApterTree::delete`] is the only operation
/// that moves them.
#[derive(Clone, Debug)]
pub struct ApterTree<T> {
    pub d: Vec<T>,
    pub p: Vec<usize>,
}

impl<T> View for ApterTree<T> {
    type V = TreeView<T>;

    open spec fn view(&self) -> TreeView<T> {
        TreeView { values: self.d@, parents: self.p@ }
    }
}

impl<T> ApterTree<T> {
    /// The two arrays are parallel: every element has exactly one parent
    /// entry. Every operation keeps it so.
    pub open spec fn wf(&self) -> bool {
        self@.wf()
    }

    /// Creates a tree without elements.
    pub fn new() -> (t: Self)
        ensures
            t.wf(),
            t@ == TreeView::<T>::empty(),
    {
        Self { d: Vec::new(), p: Vec::new() }
    }

    /// Returns the number of elements in the tree.
    pub fn len(&self) -> (n: usize)
        ensures
            n == self@.len(),
    {
        self.p.len()
    }

    /// Returns `true` if the tree holds no element.
    pub fn is_empty(&self) -> (b: bool)
        ensures
            b == (self@.len() == 0),
    {
        self.p.is_empty()
    }

    /// Appends `v` as a new element whose parent index is `parent_idx`.
    ///
    /// The new element gets the next free index, the length before the call.
    /// `parent_idx` is stored as given: it is not checked against the
    /// elements that exist.
    ///
    /// A tree holds fewer than [`ROOT`] elements, so that no element ever
    /// sits at the index that marks a root.
    pub fn insert(&mut self, v: T, parent_idx: usize)
        requires
            old(self).wf(),
            old(self)@.len() < ROOT,
        ensures
            final(self).wf(),
            final(self)@ == old(self)@.insert(v, parent_idx),
            final(self)@.len() == old(self)@.len() + 1,
            final(self)@.values[old(self)@.len() as int] == v,
            final(self)@.parents[old(self)@.len() as int] == parent_idx,
    {
        self.d.push(v);
        self.p.push(parent_idx);
    }

    /// Returns the stored parent index of the element at `child_idx`.
    pub fn parent_of(&self, child_idx: usize) -> (parent: usize)
        requires
            child_idx < self@.len(),
        ensures
            parent == self@.parents[child_idx as int],
    {
        self.p[child_idx]
    }
}

impl<T> Default for ApterTree<T> {
    /// The empty tree.
    fn default() -> (t: Self)
        ensures
            t.wf(),
            t@ == TreeView::<T>::empty(),
    {
        Self::new()
    }
}

} // verus!
