//! Removing an element, and renumbering what is left.

use vstd::prelude::*;
use crate::model::shifted;
use crate::model::ROOT;
use crate::tree::ApterTree;

verus! {

impl<T> ApterTree<T> {
    /// Removes the element at `idx` and returns it, or returns `None` and
    /// leaves the tree as it is when there is no such element.
    ///
    /// Every later element moves down by one index, and every stored parent
    /// index above `idx` is lowered by one to follow. The root marker is no
    /// index and stays as it is: a root is still a root afterwards. The
    /// element at `idx` should have no children: their parent entries are
    /// kept, and afterwards name whatever element has taken that place.
    pub fn delete(&mut self, idx: usize) -> (removed: Option<T>)
        requires
            old(self).wf(),
        ensures
            final(self).wf(),
            idx >= old(self)@.len() ==> removed.is_none() && final(self)@ == old(self)@,
            idx < old(self)@.len() ==> {
                &&& removed == Some(old(self)@.values[idx as int])
                &&& final(self)@ == old(self)@.delete(idx)
            },
    {
        if idx >= self.len() {
            return None;
        }
        let v = self.d.remove(idx);
        self.p.remove(idx);

        let ghost cut = self.p@;
        let n: usize = self.p.len();
        let mut i: usize = 0;
        while i < n
            invariant
                i <= n,
                n == cut.len(),
                self.p@.len() == n,
                self.d@ == old(self).d@.remove(idx as int),
                forall|k: int| 0 <= k < i ==> self.p@[k] == shifted(cut[k], idx),
                forall|k: int| i <= k < n ==> self.p@[k] == cut[k],
            decreases n - i,
        {
            if self.p[i] != ROOT && self.p[i] > idx {
                self.p[i] -= 1;
            }
            i += 1;
        }
        assert(self.p@ =~= old(self)@.delete(idx).parents);
        Some(v)
    }
}

} // verus!
