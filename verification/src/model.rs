//! The mathematical model of a tree: two sequences of equal length, and what
//! every operation means on them.

use vstd::prelude::*;

verus! {

/// The parent index that marks an element without a parent.
///
/// It is the largest `usize`, so no element can ever sit at this index.
pub const ROOT: usize = usize::MAX;

/// What a tree stands for: its elements in index order and, beside each,
/// the stored index of its parent.
pub struct TreeView<T> {
    pub values: Seq<T>,
    pub parents: Seq<usize>,
}

/// The indices `0, 1, .., n - 1` in ascending order.
pub open spec fn indices(n: nat) -> Seq<usize> {
    Seq::new(n, |i: int| i as usize)
}

/// The indices below `n` that `keep` accepts, in ascending order.
pub open spec fn selected(n: nat, keep: spec_fn(usize) -> bool) -> Seq<usize> {
    indices(n).filter(keep)
}

/// What a stored parent index becomes once the element at `idx` is gone:
/// the root marker stays the root marker, an index above `idx` moves down by
/// one, and any other index stays.
///
/// An element's own index is never the root marker, so the same function
/// gives the index at which a remaining element is found afterwards.
pub open spec fn shifted(parent: usize, idx: usize) -> usize {
    if parent != ROOT && parent > idx {
        (parent - 1) as usize
    } else {
        parent
    }
}

impl<T> TreeView<T> {
    /// The tree without elements.
    pub open spec fn empty() -> Self {
        TreeView { values: Seq::empty(), parents: Seq::empty() }
    }

    /// The number of elements.
    pub open spec fn len(self) -> nat {
        self.parents.len()
    }

    /// Every element has exactly one parent entry.
    pub open spec fn wf(self) -> bool {
        self.values.len() == self.parents.len()
    }

    /// The tree with `v` appended under the stored parent index `parent`.
    pub open spec fn insert(self, v: T, parent: usize) -> Self {
        TreeView { values: self.values.push(v), parents: self.parents.push(parent) }
    }

    /// The tree after inserting every pair of `items`, first to last.
    pub open spec fn insert_all(self, items: Seq<(T, usize)>) -> Self
        decreases items.len(),
    {
        if items.len() == 0 {
            self
        } else {
            self.insert_all(items.drop_last()).insert(items.last().0, items.last().1)
        }
    }

    /// The tree with the element at `idx` written over by `v`.
    pub open spec fn replace(self, idx: usize, v: T) -> Self
        recommends
            idx < self.values.len(),
    {
        TreeView { values: self.values.update(idx as int, v), parents: self.parents }
    }

    /// The tree without the element at `idx`: both entries at `idx` are taken
    /// out, and every remaining parent entry is renumbered by [`shifted`], so
    /// that it names the same element as before, or none as before.
    pub open spec fn delete(self, idx: usize) -> Self
        recommends
            self.wf(),
            idx < self.len(),
    {
        TreeView {
            values: self.values.remove(idx as int),
            parents: self.parents.remove(idx as int).map_values(
                |parent: usize| shifted(parent, idx),
            ),
        }
    }

    /// `child` names an element whose stored parent index is `parent`.
    pub open spec fn is_child(self, child: usize, parent: usize) -> bool {
        child < self.len() && self.parents[child as int] == parent
    }

    /// The indices of the elements whose stored parent index is `parent`,
    /// in ascending order.
    pub open spec fn children(self, parent: usize) -> Seq<usize> {
        selected(self.len(), |child: usize| self.is_child(child, parent))
    }

    /// No element has `idx` as its stored parent index.
    pub open spec fn childless(self, idx: usize) -> bool {
        forall|child: usize| !self.is_child(child, idx)
    }

    /// The indices of the elements without children, in ascending order.
    pub open spec fn leaves(self) -> Seq<usize> {
        selected(self.len(), |idx: usize| self.childless(idx))
    }

    /// The index that is reached from the element at `idx` by following
    /// stored parents `k + 1` times.
    ///
    /// A step is taken only from an index that names an element. Once the
    /// walk has left the tree, at the root marker or at any other index
    /// without an element, it stays where it is.
    pub open spec fn ancestor_at(self, idx: usize, k: nat) -> usize
        recommends
            idx < self.len(),
        decreases k,
    {
        if k == 0 {
            self.parents[idx as int]
        } else {
            let below = self.ancestor_at(idx, (k - 1) as nat);
            if below < self.len() {
                self.parents[below as int]
            } else {
                below
            }
        }
    }

    /// After `k + 1` steps the walk upwards from `idx` has left the tree.
    pub open spec fn leaves_tree_at(self, idx: usize, k: nat) -> bool {
        self.ancestor_at(idx, k) >= self.len()
    }

    /// The walk upwards from `idx` leaves the tree after finitely many steps:
    /// the parent entries above `idx` do not run in a circle.
    pub open spec fn chain_ends(self, idx: usize) -> bool {
        exists|k: nat| self.leaves_tree_at(idx, k)
    }

    /// `chain` is the walk upwards from `idx`, nearest ancestor first: it
    /// holds every index that the walk reaches inside the tree, in the order
    /// reached, and stops where the walk leaves the tree.
    pub open spec fn is_ancestor_chain(self, idx: usize, chain: Seq<usize>) -> bool {
        &&& forall|k: int|
            0 <= k < chain.len() ==> {
                &&& #[trigger] chain[k] < self.len()
                &&& chain[k] == self.ancestor_at(idx, k as nat)
            }
        &&& self.leaves_tree_at(idx, chain.len())
    }

    /// Every parent entry either names an element with a smaller index or
    /// names no element at all: parents were inserted before their children.
    pub open spec fn ordered(self) -> bool {
        forall|i: int|
            0 <= i < self.len() ==> {
                ||| #[trigger] self.parents[i] < i
                ||| self.parents[i] >= self.len()
            }
    }

    /// Every parent entry that names no element is the root marker.
    pub open spec fn root_marked(self) -> bool {
        forall|i: int|
            0 <= i < self.len() && #[trigger] self.parents[i] >= self.len() ==> self.parents[i]
                == ROOT
    }
}

} // verus!
