//! What holds of the operations taken together, proved over the model.

use vstd::prelude::*;
use crate::model::indices;
use crate::model::selected;
use crate::model::shifted;
use crate::model::TreeView;
use crate::model::ROOT;

verus! {

/// Selecting among one index more either appends that index or changes
/// nothing, as `keep` decides.
pub proof fn lemma_selected_step(n: usize, keep: spec_fn(usize) -> bool)
    requires
        n < usize::MAX,
    ensures
        selected((n + 1) as nat, keep) == if keep(n) {
            selected(n as nat, keep).push(n)
        } else {
            selected(n as nat, keep)
        },
{
    reveal(Seq::filter);
    assert(indices((n + 1) as nat).drop_last() =~= indices(n as nat));
    assert(indices((n + 1) as nat).last() == n);
}

/// A selection holds exactly the accepted indices below `n`, each once and
/// in ascending order.
pub proof fn lemma_selected_members(n: nat, keep: spec_fn(usize) -> bool)
    requires
        n <= usize::MAX,
    ensures
        forall|j: usize| selected(n, keep).contains(j) <==> j < n && keep(j),
        forall|a: int, b: int|
            0 <= a < b < selected(n, keep).len() ==> selected(n, keep)[a] < selected(n, keep)[b],
    decreases n,
{
    let s = selected(n, keep);
    if n == 0 {
        reveal(Seq::filter);
        assert(indices(0) =~= Seq::<usize>::empty());
    } else {
        let m = (n - 1) as usize;
        let r = selected(m as nat, keep);
        lemma_selected_members(m as nat, keep);
        lemma_selected_step(m, keep);
        if keep(m) {
            assert(s == r.push(m));
            assert forall|j: usize| s.contains(j) <==> j < n && keep(j) by {
                if s.contains(j) {
                    let k = choose|k: int| 0 <= k < s.len() && s[k] == j;
                    if k < r.len() {
                        assert(r[k] == j);
                        assert(r.contains(j));
                    }
                }
                if j < n && keep(j) {
                    if j == m {
                        assert(s[r.len() as int] == j);
                    } else {
                        assert(r.contains(j));
                        let k = choose|k: int| 0 <= k < r.len() && r[k] == j;
                        assert(s[k] == j);
                    }
                }
            }
            assert forall|a: int, b: int| 0 <= a < b < s.len() implies s[a] < s[b] by {
                if b == r.len() {
                    assert(r.contains(r[a]));
                }
            }
        }
    }
}

/// Insertion order is index order. After inserting `items` one by one into
/// the empty tree there are as many elements as items, and the element at
/// index `i` is the `i`-th item, under the parent index it was given.
pub proof fn lemma_insertion_order<T>(items: Seq<(T, usize)>)
    ensures
        TreeView::<T>::empty().insert_all(items).wf(),
        TreeView::<T>::empty().insert_all(items).len() == items.len(),
        forall|i: int|
            0 <= i < items.len() ==> {
                &&& #[trigger] TreeView::<T>::empty().insert_all(items).values[i] == items[i].0
                &&& TreeView::<T>::empty().insert_all(items).parents[i] == items[i].1
            },
    decreases items.len(),
{
    if items.len() > 0 {
        let before = TreeView::<T>::empty().insert_all(items.drop_last());
        let after = TreeView::<T>::empty().insert_all(items);
        lemma_insertion_order(items.drop_last());
        assert(after == before.insert(items.last().0, items.last().1));
        assert forall|i: int| 0 <= i < items.len() implies #[trigger] after.values[i]
            == items[i].0 && after.parents[i] == items[i].1 by {
            if i < items.len() - 1 {
                assert(before.values[i] == items.drop_last()[i].0);
            }
        }
    }
}

/// An insertion can be read back. The new element sits at the index that was
/// the length, with the value and the parent index that were given, and
/// every earlier element is as it was.
pub proof fn lemma_insert_round_trip<T>(t: TreeView<T>, v: T, parent: usize)
    requires
        t.wf(),
    ensures
        t.insert(v, parent).wf(),
        t.insert(v, parent).len() == t.len() + 1,
        t.insert(v, parent).values[t.len() as int] == v,
        t.insert(v, parent).parents[t.len() as int] == parent,
        forall|i: int|
            0 <= i < t.len() ==> {
                &&& #[trigger] t.insert(v, parent).values[i] == t.values[i]
                &&& t.insert(v, parent).parents[i] == t.parents[i]
            },
{
}

/// Children and parents are two views of one relation: `child` is listed
/// among the children of `parent` exactly when it names an element whose
/// stored parent index is `parent`. The list is ascending.
pub proof fn lemma_children_duality<T>(t: TreeView<T>, parent: usize)
    requires
        t.len() <= usize::MAX,
    ensures
        forall|child: usize|
            t.children(parent).contains(child) <==> child < t.len() && t.parents[child as int]
                == parent,
        forall|a: int, b: int|
            0 <= a < b < t.children(parent).len() ==> t.children(parent)[a] < t.children(
                parent,
            )[b],
{
    lemma_selected_members(t.len(), |child: usize| t.is_child(child, parent));
}

/// An index is childless exactly when its list of children is empty.
pub proof fn lemma_leaf_iff_no_children<T>(t: TreeView<T>, idx: usize)
    requires
        t.len() <= usize::MAX,
    ensures
        t.childless(idx) <==> t.children(idx).len() == 0,
{
    lemma_children_duality(t, idx);
    let kids = t.children(idx);
    if kids.len() > 0 {
        assert(kids.contains(kids[0]));
        assert(t.is_child(kids[0], idx));
    }
    if !t.childless(idx) {
        let child = choose|child: usize| t.is_child(child, idx);
        assert(kids.contains(child));
    }
}

/// The leaves are exactly the elements without children, in ascending order.
pub proof fn lemma_leaves_members<T>(t: TreeView<T>)
    requires
        t.len() <= usize::MAX,
    ensures
        forall|idx: usize| t.leaves().contains(idx) <==> idx < t.len() && t.childless(idx),
        forall|a: int, b: int| 0 <= a < b < t.leaves().len() ==> t.leaves()[a] < t.leaves()[b],
{
    lemma_selected_members(t.len(), |idx: usize| t.childless(idx));
}

/// In an ordered tree every step upwards lands on a smaller index or leaves
/// the tree: after `k + 1` steps from `idx` the walk is out of the tree or
/// more than `k` below `idx`.
pub proof fn lemma_ordered_descends<T>(t: TreeView<T>, idx: usize, k: nat)
    requires
        t.ordered(),
        idx < t.len(),
    ensures
        t.leaves_tree_at(idx, k) || t.ancestor_at(idx, k) + k < idx,
    decreases k,
{
    if k > 0 {
        lemma_ordered_descends(t, idx, (k - 1) as nat);
    }
}

/// In an ordered tree the walk upwards ends, from every element.
pub proof fn lemma_ordered_chain_ends<T>(t: TreeView<T>, idx: usize)
    requires
        t.ordered(),
        idx < t.len(),
    ensures
        t.chain_ends(idx),
{
    lemma_ordered_descends(t, idx, idx as nat);
    assert(t.leaves_tree_at(idx, idx as nat));
}

/// Where every parent entry that names no element is the root marker, a
/// walk upwards can leave the tree only at the root marker: the last
/// ancestor on the way, or the element itself where it has none, is a root.
pub proof fn lemma_chain_reaches_root<T>(t: TreeView<T>, idx: usize, k: nat)
    requires
        t.root_marked(),
        idx < t.len(),
        t.leaves_tree_at(idx, k),
    ensures
        t.ancestor_at(idx, k) == ROOT,
    decreases k,
{
    if k > 0 {
        let below = t.ancestor_at(idx, (k - 1) as nat);
        if below >= t.len() {
            lemma_chain_reaches_root(t, idx, (k - 1) as nat);
        }
    }
}

/// In a tree where every parent entry that names no element is the root
/// marker, the walk upwards from an element ends beneath a root: the parent
/// entry of the last ancestor, or of the element itself where it has no
/// ancestor, is the root marker.
pub proof fn lemma_ancestors_end_at_root<T>(t: TreeView<T>, idx: usize, chain: Seq<usize>)
    requires
        t.root_marked(),
        idx < t.len(),
        t.is_ancestor_chain(idx, chain),
    ensures
        chain.len() == 0 ==> t.parents[idx as int] == ROOT,
        chain.len() > 0 ==> t.parents[chain.last() as int] == ROOT,
{
    lemma_chain_reaches_root(t, idx, chain.len());
    if chain.len() > 0 {
        assert(chain.last() == t.ancestor_at(idx, (chain.len() - 1) as nat));
    }
}

/// The walk upwards from an element is one sequence and no other: two
/// chains for the same element are equal.
pub proof fn lemma_ancestor_chain_unique<T>(
    t: TreeView<T>,
    idx: usize,
    first: Seq<usize>,
    second: Seq<usize>,
)
    requires
        t.is_ancestor_chain(idx, first),
        t.is_ancestor_chain(idx, second),
    ensures
        first == second,
{
    if first.len() < second.len() {
        assert(second[first.len() as int] < t.len());
    }
    if second.len() < first.len() {
        assert(first[second.len() as int] < t.len());
    }
    assert(first =~= second);
}

/// Inserting keeps a tree ordered, unless the new parent index is the new
/// element's own index or an old entry already named that index.
pub proof fn lemma_insert_keeps_ordered<T>(t: TreeView<T>, v: T, parent: usize)
    requires
        t.ordered(),
        t.len() < usize::MAX,
        parent != t.len(),
        t.childless(t.len() as usize),
    ensures
        t.insert(v, parent).ordered(),
{
    let u = t.insert(v, parent);
    assert forall|i: int| 0 <= i < u.len() implies #[trigger] u.parents[i] < i || u.parents[i]
        >= u.len() by {
        if i < t.len() {
            assert(u.parents[i] == t.parents[i]);
            assert(!t.is_child(i as usize, t.len() as usize));
        }
    }
}

/// Deleting an element without children keeps what is left as it was, under
/// the new numbering. Each remaining element keeps its value, and its parent
/// entry is renumbered with the elements. So one element is the parent of
/// another afterwards exactly when it was before, a root marker stays a root
/// marker, and any other entry that named no element names none afterwards.
pub proof fn lemma_delete_keeps_structure<T>(t: TreeView<T>, idx: usize)
    requires
        t.wf(),
        idx < t.len() <= usize::MAX,
        t.childless(idx),
    ensures
        t.delete(idx).wf(),
        t.delete(idx).len() == t.len() - 1,
        forall|j: usize|
            j < t.len() && j != idx ==> {
                &&& #[trigger] shifted(j, idx) < t.delete(idx).len()
                &&& t.delete(idx).values[shifted(j, idx) as int] == t.values[j as int]
                &&& t.delete(idx).parents[shifted(j, idx) as int] == shifted(
                    t.parents[j as int],
                    idx,
                )
            },
        forall|j: usize, k: usize|
            j < t.len() && j != idx && k < t.len() && k != idx ==> (t.delete(idx).is_child(
                shifted(j, idx),
                shifted(k, idx),
            ) <==> #[trigger] t.is_child(j, k)),
        forall|j: usize|
            j < t.len() && j != idx && t.parents[j as int] == ROOT ==> #[trigger] t.delete(
                idx,
            ).parents[shifted(j, idx) as int] == ROOT,
        forall|j: usize|
            j < t.len() && j != idx && t.parents[j as int] >= t.len() ==> #[trigger] t.delete(
                idx,
            ).parents[shifted(j, idx) as int] >= t.delete(idx).len(),
{
    let u = t.delete(idx);
    assert forall|j: usize| j < t.len() && j != idx implies {
        &&& u.values[shifted(j, idx) as int] == t.values[j as int]
        &&& u.parents[shifted(j, idx) as int] == shifted(t.parents[j as int], idx)
        &&& t.parents[j as int] != idx
    } by {
        assert(!t.is_child(j, idx));
    }
}

/// Every element that is left after a deletion was there before: the index
/// `m` afterwards holds what was at `m` before where `m` lies below `idx`,
/// and what was at `m + 1` otherwise.
pub proof fn lemma_delete_survivors<T>(t: TreeView<T>, idx: usize)
    requires
        t.wf(),
        idx < t.len() <= usize::MAX,
    ensures
        forall|m: int|
            0 <= m < t.delete(idx).len() ==> {
                &&& #[trigger] t.delete(idx).values[m] == t.values[if m < idx {
                    m
                } else {
                    m + 1
                }]
                &&& t.delete(idx).parents[m] == shifted(
                    t.parents[if m < idx {
                        m
                    } else {
                        m + 1
                    }],
                    idx,
                )
            },
{
}

/// Deleting an element without children leaves no parent entry dangling:
/// where every entry was the root marker or named an element, every entry
/// still is or does afterwards.
pub proof fn lemma_delete_keeps_root_marked<T>(t: TreeView<T>, idx: usize)
    requires
        t.wf(),
        idx < t.len() <= usize::MAX,
        t.childless(idx),
        t.root_marked(),
    ensures
        t.delete(idx).root_marked(),
{
    let u = t.delete(idx);
    lemma_delete_survivors(t, idx);
    assert forall|m: int| 0 <= m < u.len() && #[trigger] u.parents[m] >= u.len() implies u.parents[m]
        == ROOT by {
        let j: usize = if m < idx {
            m as usize
        } else {
            (m + 1) as usize
        };
        assert(u.values[m] == t.values[j as int]);
        assert(!t.is_child(j, idx));
        assert(t.parents[j as int] >= t.len() ==> t.parents[j as int] == ROOT);
    }
}

/// Inserting under the root marker, or under an index that names an element
/// afterwards, leaves no parent entry dangling.
pub proof fn lemma_insert_keeps_root_marked<T>(t: TreeView<T>, v: T, parent: usize)
    requires
        t.root_marked(),
        parent == ROOT || parent <= t.len(),
    ensures
        t.insert(v, parent).root_marked(),
{
    let u = t.insert(v, parent);
    assert forall|i: int| 0 <= i < u.len() && #[trigger] u.parents[i] >= u.len() implies u.parents[i]
        == ROOT by {
        if i < t.len() {
            assert(u.parents[i] == t.parents[i]);
        }
    }
}

/// Deleting the element that was inserted last gives back the tree as it
/// was, where no parent entry of it was dangling.
pub proof fn lemma_insert_then_delete<T>(t: TreeView<T>, v: T, parent: usize)
    requires
        t.wf(),
        t.len() < usize::MAX,
        t.root_marked(),
    ensures
        t.insert(v, parent).delete(t.len() as usize) == t,
{
    let n = t.len() as usize;
    let u = t.insert(v, parent).delete(n);
    assert(u.values =~= t.values);
    assert forall|i: int| 0 <= i < t.len() implies u.parents[i] == t.parents[i] by {
        assert(t.parents[i] >= t.len() ==> t.parents[i] == ROOT);
    }
    assert(u.parents =~= t.parents);
}

/// Deleting an element without children keeps an ordered tree ordered.
pub proof fn lemma_delete_keeps_ordered<T>(t: TreeView<T>, idx: usize)
    requires
        t.wf(),
        idx < t.len() <= usize::MAX,
        t.childless(idx),
        t.ordered(),
    ensures
        t.delete(idx).ordered(),
{
    let u = t.delete(idx);
    assert forall|m: int| 0 <= m < u.len() implies #[trigger] u.parents[m] < m || u.parents[m]
        >= u.len() by {
        let j: usize = if m < idx {
            m as usize
        } else {
            (m + 1) as usize
        };
        assert(u.parents[m] == shifted(t.parents[j as int], idx));
        assert(!t.is_child(j, idx));
        assert(t.parents[j as int] < j || t.parents[j as int] >= t.len());
    }
}

} // verus!
