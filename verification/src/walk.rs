//! Following parent entries upwards from an element.

use vstd::prelude::*;
use crate::tree::ApterTree;

verus! {

impl<T> ApterTree<T> {
    /// Returns the indices of the ancestors of the element at `idx`, nearest
    /// first: its parent, then the parent's parent, and so on for as long as
    /// the index reached names an element.
    ///
    /// The walk has to end, which is what `chain_ends` asks; in an
    /// [`ordered`](crate::model::TreeView::ordered) tree it always does.
    pub fn ancestors(&self, idx: usize) -> (chain: Vec<usize>)
        requires
            idx < self@.len(),
            self@.chain_ends(idx),
        ensures
            self@.is_ancestor_chain(idx, chain@),
    {
        let ghost end: nat = choose|k: nat| self@.leaves_tree_at(idx, k);
        let n: usize = self.p.len();
        let mut chain: Vec<usize> = Vec::new();
        let mut cur: usize = self.p[idx];
        while cur < n
            invariant
                n == self@.len(),
                self@.leaves_tree_at(idx, end),
                chain@.len() <= end,
                cur == self@.ancestor_at(idx, chain@.len()),
                forall|k: int|
                    0 <= k < chain@.len() ==> {
                        &&& #[trigger] chain@[k] < self@.len()
                        &&& chain@[k] == self@.ancestor_at(idx, k as nat)
                    },
            decreases end - chain@.len(),
        {
            chain.push(cur);
            cur = self.p[cur];
        }
        chain
    }
}

} // verus!
