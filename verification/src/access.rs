//! Reading the elements: by index, and all of them in order.

use vstd::prelude::*;
use crate::tree::ApterTree;

verus! {

impl<T> ApterTree<T> {
    /// Returns the range of all indices in the tree, `0..len`.
    pub fn keys(&self) -> (range: core::ops::Range<usize>)
        ensures
            range.start == 0,
            range.end == self@.len(),
    {
        0..self.len()
    }

    /// Returns the element at `idx`, or `None` if there is none.
    pub fn get(&self, idx: usize) -> (found: Option<&T>)
        requires
            self.wf(),
        ensures
            idx < self@.len() ==> found == Some(&self@.values[idx as int]),
            idx >= self@.len() ==> found.is_none(),
    {
        if idx < self.d.len() {
            Some(&self.d[idx])
        } else {
            None
        }
    }

    /// Returns the element at `idx` for writing, or `None` if there is none.
    ///
    /// Whatever is written through the reference replaces that one element;
    /// the other elements and all parent entries stay.
    pub fn get_mut(&mut self, idx: usize) -> (found: Option<&mut T>)
        requires
            old(self).wf(),
        ensures
            final(self).wf(),
            match found {
                Some(slot) => {
                    &&& idx < old(self)@.len()
                    &&& *slot == old(self)@.values[idx as int]
                    &&& final(self)@ == old(self)@.replace(idx, *final(slot))
                },
                None => idx >= old(self)@.len() && final(self)@ == old(self)@,
            },
    {
        if idx < self.d.len() {
            Some(&mut self.d[idx])
        } else {
            None
        }
    }

    /// Returns every element with its index, in index order.
    pub fn iter(&self) -> (items: Vec<(usize, &T)>)
        requires
            self.wf(),
        ensures
            items@.len() == self@.len(),
            forall|i: int|
                0 <= i < self@.len() ==> {
                    &&& (#[trigger] items@[i]).0 == i
                    &&& *items@[i].1 == self@.values[i]
                },
    {
        let n: usize = self.d.len();
        let mut items: Vec<(usize, &T)> = Vec::new();
        let mut i: usize = 0;
        while i < n
            invariant
                i <= n,
                n == self@.len(),
                self.wf(),
                items@.len() == i,
                forall|k: int|
                    0 <= k < i ==> {
                        &&& (#[trigger] items@[k]).0 == k
                        &&& *items@[k].1 == self@.values[k]
                    },
            decreases n - i,
        {
            items.push((i, &self.d[i]));
            i += 1;
        }
        items
    }
}

impl<T> vstd::std_specs::core::IndexSpecImpl<usize> for ApterTree<T> {
    /// `tree[idx]` asks for a tree in step and an element at `idx`.
    open spec fn index_req(&self, idx: &usize) -> bool {
        self.wf() && *idx < self@.len()
    }
}

impl<T> core::ops::Index<usize> for ApterTree<T> {
    type Output = T;

    /// The element at `idx`, which has to exist.
    fn index(&self, idx: usize) -> (element: &T)
        ensures
            *element == self@.values[idx as int],
    {
        &self.d[idx]
    }
}

impl<T> ApterTree<T> {
    /// The element at `idx` for writing, which has to exist: the writing
    /// counterpart of `tree[idx]`.
    ///
    /// Whatever is written through the reference replaces that one element;
    /// the other elements and all parent entries stay.
    pub fn index_mut(&mut self, idx: usize) -> (element: &mut T)
        requires
            old(self).wf(),
            idx < old(self)@.len(),
        ensures
            final(self).wf(),
            *element == old(self)@.values[idx as int],
            final(self)@ == old(self)@.replace(idx, *final(element)),
    {
        &mut self.d[idx]
    }
}

} // verus!
