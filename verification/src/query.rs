//! Searching the tree and listing children and leaves.

use vstd::prelude::*;
use vstd::std_specs::cmp::PartialEqSpec;
use crate::laws::lemma_selected_step;
use crate::model::selected;
use crate::tree::ApterTree;

verus! {

impl<T> ApterTree<T> {
    /// Returns the indices of all elements whose stored parent index is
    /// `parent_idx`, in ascending order.
    ///
    /// `parent_idx` need not name an element: the root marker lists the
    /// roots, and an index that nothing refers to lists nothing.
    pub fn children(&self, parent_idx: usize) -> (found: Vec<usize>)
        ensures
            found@ == self@.children(parent_idx),
    {
        let ghost keep = |child: usize| self@.is_child(child, parent_idx);
        let n: usize = self.p.len();
        let mut found: Vec<usize> = Vec::new();
        let mut i: usize = 0;
        while i < n
            invariant
                i <= n,
                n == self@.len(),
                keep == |child: usize| self@.is_child(child, parent_idx),
                found@ == selected(i as nat, keep),
            decreases n - i,
        {
            proof {
                lemma_selected_step(i, keep);
            }
            if self.p[i] == parent_idx {
                found.push(i);
            }
            i += 1;
        }
        found
    }

    /// Returns `true` if no element has `idx` as its stored parent index.
    pub fn is_leaf(&self, idx: usize) -> (leaf: bool)
        ensures
            leaf == self@.childless(idx),
    {
        let n: usize = self.p.len();
        let mut i: usize = 0;
        while i < n
            invariant
                i <= n,
                n == self@.len(),
                forall|child: usize| child < i ==> !self@.is_child(child, idx),
            decreases n - i,
        {
            if self.p[i] == idx {
                assert(self@.is_child(i, idx));
                return false;
            }
            i += 1;
        }
        true
    }

    /// Returns the indices of all elements without children, in ascending
    /// order.
    pub fn leaves(&self) -> (found: Vec<usize>)
        ensures
            found@ == self@.leaves(),
    {
        let ghost keep = |idx: usize| self@.childless(idx);
        let n: usize = self.p.len();
        let mut found: Vec<usize> = Vec::new();
        let mut i: usize = 0;
        while i < n
            invariant
                i <= n,
                n == self@.len(),
                keep == |idx: usize| self@.childless(idx),
                found@ == selected(i as nat, keep),
            decreases n - i,
        {
            proof {
                lemma_selected_step(i, keep);
            }
            if self.is_leaf(i) {
                found.push(i);
            }
            i += 1;
        }
        found
    }
    /// Returns the index of the first element that equals `v`, or `None` if
    /// no element does.
    ///
    /// What "equals" means is `T`'s own `==`; the contract speaks of it
    /// wherever `T` says what its `==` computes.
    pub fn find(&self, v: &T) -> (found: Option<usize>) where T: PartialEq
        requires
            self.wf(),
        ensures
            found matches Some(i) ==> i < self@.len(),
            T::obeys_eq_spec() ==> match found {
                Some(i) => {
                    &&& self@.values[i as int].eq_spec(v)
                    &&& forall|k: int| 0 <= k < i ==> !(#[trigger] self@.values[k]).eq_spec(v)
                },
                None => forall|k: int|
                    0 <= k < self@.len() ==> !(#[trigger] self@.values[k]).eq_spec(v),
            },
    {
        let n: usize = self.d.len();
        let mut i: usize = 0;
        while i < n
            invariant
                i <= n,
                n == self@.len(),
                self.wf(),
                T::obeys_eq_spec() ==> forall|k: int|
                    0 <= k < i ==> !(#[trigger] self@.values[k]).eq_spec(v),
            decreases n - i,
        {
            if self.d[i] == *v {
                return Some(i);
            }
            i += 1;
        }
        None
    }
}

} // verus!
