use apter::ApterTree;
use apter::ROOT;

fn sample() -> ApterTree<&'static str> {
    let mut tree = ApterTree::new();
    tree.insert("root", ROOT);
    tree.insert("a", 0);
    tree.insert("b", 0);
    tree.insert("a1", 1);
    tree
}

#[test]
fn new_tree_is_empty() {
    let tree: ApterTree<u32> = ApterTree::new();
    assert_eq!(tree.len(), 0);
    assert!(tree.is_empty());
    assert_eq!(tree.keys(), 0..0);
    assert!(tree.iter().is_empty());
    assert!(tree.leaves().is_empty());
    assert!(tree.children(ROOT).is_empty());
    assert_eq!(tree.get(0), None);
}

#[test]
fn default_is_empty() {
    let tree: ApterTree<String> = ApterTree::default();
    assert_eq!(tree.len(), 0);
    assert!(tree.is_empty());
}

#[test]
fn root_marker_is_largest_index() {
    assert_eq!(ROOT, usize::MAX);
}

#[test]
fn three_insertions_give_length_three() {
    let mut tree = ApterTree::new();
    tree.insert("root", usize::MAX);
    tree.insert("a", 0);
    tree.insert("b", 0);
    assert_eq!(tree.len(), 3);
    assert!(!tree.is_empty());
}

#[test]
fn insertion_order_is_index_order() {
    let mut tree = ApterTree::new();
    let words = ["zero", "one", "two", "three", "four"];
    for (i, w) in words.iter().enumerate() {
        assert_eq!(tree.len(), i);
        tree.insert(*w, if i == 0 { ROOT } else { i - 1 });
    }
    assert_eq!(tree.len(), 5);
    assert_eq!(tree.keys(), 0..5);
    let items = tree.iter();
    assert_eq!(items.len(), 5);
    for (i, (idx, value)) in items.iter().enumerate() {
        assert_eq!(*idx, i);
        assert_eq!(**value, words[i]);
    }
    // a second traversal starts from the beginning again
    assert_eq!(tree.iter(), items);
}

#[test]
fn parent_round_trip() {
    let mut tree = ApterTree::new();
    let parents = [ROOT, 0, 0, 2, 1, 4, ROOT, 6];
    for (i, parent) in parents.iter().enumerate() {
        tree.insert(i as u32, *parent);
        let new_index = tree.len() - 1;
        assert_eq!(new_index, i);
        assert_eq!(tree.parent_of(new_index), *parent);
    }
    for (i, parent) in parents.iter().enumerate() {
        assert_eq!(tree.parent_of(i), *parent);
    }
}

#[test]
fn insert_accepts_dangling_parent() {
    let mut tree = ApterTree::new();
    tree.insert('x', 42);
    assert_eq!(tree.len(), 1);
    assert_eq!(tree.parent_of(0), 42);
    assert_eq!(tree.ancestors(0), Vec::<usize>::new());
    assert_eq!(tree.children(42), vec![0]);
}

#[test]
fn get_and_index() {
    let tree = sample();
    assert_eq!(tree.get(0), Some(&"root"));
    assert_eq!(tree.get(3), Some(&"a1"));
    assert_eq!(tree.get(4), None);
    assert_eq!(tree.get(usize::MAX), None);
    assert_eq!(tree[0], "root");
    assert_eq!(tree[2], "b");
}

#[test]
fn get_mut_writes_one_element() {
    let mut tree = sample();
    if let Some(slot) = tree.get_mut(1) {
        assert_eq!(*slot, "a");
        *slot = "changed";
    } else {
        panic!("index 1 exists");
    }
    assert!(tree.get_mut(4).is_none());
    assert_eq!(tree.len(), 4);
    assert_eq!(tree[0], "root");
    assert_eq!(tree[1], "changed");
    assert_eq!(tree[2], "b");
    assert_eq!(tree[3], "a1");
    assert_eq!(tree.parent_of(1), 0);
    assert_eq!(tree.parent_of(3), 1);
}

#[test]
fn index_mut_writes_one_element() {
    let mut tree = sample();
    *tree.index_mut(2) = "beta";
    assert_eq!(tree[2], "beta");
    assert_eq!(tree[1], "a");
    assert_eq!(tree.parent_of(2), 0);
    assert_eq!(tree.len(), 4);
}

#[test]
fn children_and_parents_agree() {
    let mut tree = ApterTree::new();
    let parents = [ROOT, 0, 0, 1, 1, 2, ROOT, 6, 3];
    for (i, parent) in parents.iter().enumerate() {
        tree.insert(i, *parent);
    }
    for i in 0..tree.len() {
        let kids = tree.children(i);
        for j in 0..tree.len() {
            assert_eq!(kids.contains(&j), tree.parent_of(j) == i);
        }
        assert!(kids.windows(2).all(|w| w[0] < w[1]));
    }
    assert_eq!(tree.children(0), vec![1, 2]);
    assert_eq!(tree.children(1), vec![3, 4]);
    assert_eq!(tree.children(3), vec![8]);
    assert_eq!(tree.children(8), Vec::<usize>::new());
}

#[test]
fn children_of_root_marker_are_roots() {
    let mut tree = ApterTree::new();
    tree.insert("r1", ROOT);
    tree.insert("x", 0);
    tree.insert("r2", ROOT);
    assert_eq!(tree.children(ROOT), vec![0, 2]);
}

#[test]
fn children_of_unused_index_is_empty() {
    let tree = sample();
    assert_eq!(tree.children(100), Vec::<usize>::new());
    assert!(tree.is_leaf(100));
}

#[test]
fn leaf_correctness() {
    let mut tree = ApterTree::new();
    let parents = [ROOT, 0, 0, 1, 1, 2, ROOT, 6, 3];
    for (i, parent) in parents.iter().enumerate() {
        tree.insert(i, *parent);
    }
    let expected = [false, false, false, false, true, true, false, true, true];
    for i in 0..tree.len() {
        assert_eq!(tree.is_leaf(i), expected[i]);
        assert_eq!(tree.is_leaf(i), tree.children(i).is_empty());
    }
    assert_eq!(tree.leaves(), vec![4, 5, 7, 8]);
}

#[test]
fn single_root_is_a_leaf() {
    let mut tree = ApterTree::new();
    tree.insert(1u8, ROOT);
    assert!(tree.is_leaf(0));
    assert_eq!(tree.leaves(), vec![0]);
}

#[test]
fn ancestors_reach_a_root() {
    let mut tree = ApterTree::new();
    let parents = [ROOT, 0, 0, 1, 1, 2, ROOT, 6, 3];
    for (i, parent) in parents.iter().enumerate() {
        tree.insert(i, *parent);
    }
    assert_eq!(tree.ancestors(8), vec![3, 1, 0]);
    assert_eq!(tree.ancestors(5), vec![2, 0]);
    assert_eq!(tree.ancestors(7), vec![6]);
    assert_eq!(tree.ancestors(0), Vec::<usize>::new());
    for i in 0..tree.len() {
        let chain = tree.ancestors(i);
        let top = chain.last().copied().unwrap_or(i);
        assert_eq!(tree.parent_of(top), ROOT);
    }
}

#[test]
fn ancestors_stop_at_out_of_range_parent() {
    let mut tree = ApterTree::new();
    tree.insert("top", 7);
    tree.insert("mid", 0);
    tree.insert("low", 1);
    assert_eq!(tree.ancestors(2), vec![1, 0]);
}

#[test]
fn deletion_renumbering() {
    let mut tree = ApterTree::new();
    tree.insert("A", ROOT);
    tree.insert("B", 0);
    tree.insert("C", 0);
    assert_eq!(tree.delete(1), Some("B"));
    assert_eq!(tree.len(), 2);
    assert_eq!(tree[0], "A");
    assert_eq!(tree[1], "C");
    assert_eq!(tree.parent_of(1), 0);
    assert_eq!(tree.children(0), vec![1]);
    assert_eq!(tree.ancestors(1), vec![0]);
    // A is still the only root
    assert_eq!(tree.parent_of(0), ROOT);
    assert_eq!(tree.children(ROOT), vec![0]);
    assert_eq!(tree.ancestors(0), Vec::<usize>::new());
    assert_eq!(tree.leaves(), vec![1]);
}

#[test]
fn deletion_lowers_every_larger_index_and_keeps_roots() {
    let mut tree = ApterTree::new();
    tree.insert("A", ROOT);
    tree.insert("B", 0);
    tree.insert("C", 0);
    tree.insert("D", 2);
    tree.insert("E", 3);
    assert_eq!(tree.delete(1), Some("B"));
    assert_eq!(tree.len(), 4);
    assert_eq!(tree.parent_of(0), ROOT);
    assert_eq!(tree.parent_of(1), 0);
    assert_eq!(tree.parent_of(2), 1);
    assert_eq!(tree.parent_of(3), 2);
    assert_eq!(tree[2], "D");
    assert_eq!(tree[3], "E");
    assert_eq!(tree.ancestors(3), vec![2, 1, 0]);
    assert_eq!(tree.leaves(), vec![3]);
}

#[test]
fn deletion_keeps_every_root_marker() {
    let mut tree = ApterTree::new();
    tree.insert("r1", ROOT);
    tree.insert("x", 0);
    tree.insert("r2", ROOT);
    tree.insert("y", 2);
    assert_eq!(tree.delete(1), Some("x"));
    assert_eq!(tree.len(), 3);
    assert_eq!(tree.parent_of(0), ROOT);
    assert_eq!(tree.parent_of(1), ROOT);
    assert_eq!(tree.parent_of(2), 1);
    assert_eq!(tree.children(ROOT), vec![0, 1]);
    assert_eq!(tree.ancestors(2), vec![1]);
    for i in 0..tree.len() {
        let parent = tree.parent_of(i);
        assert!(parent == ROOT || parent < tree.len());
    }
}

#[test]
fn deletion_lowers_dangling_entry_above_index() {
    let mut tree = ApterTree::new();
    tree.insert("a", ROOT);
    tree.insert("b", 9);
    tree.insert("c", 1);
    assert_eq!(tree.delete(0), Some("a"));
    assert_eq!(tree.parent_of(0), 8);
    assert_eq!(tree.parent_of(1), 0);
}

#[test]
fn deletion_keeps_entries_at_or_below_index() {
    let mut tree = ApterTree::new();
    tree.insert("a", ROOT);
    tree.insert("b", 0);
    tree.insert("c", 1);
    tree.insert("d", 1);
    assert_eq!(tree.delete(2), Some("c"));
    assert_eq!(tree.parent_of(0), ROOT);
    assert_eq!(tree.parent_of(1), 0);
    assert_eq!(tree.parent_of(2), 1);
    assert_eq!(tree[2], "d");
}

#[test]
fn insert_then_delete_restores_tree() {
    let mut tree = sample();
    let before = tree.clone();
    let n = tree.len();
    tree.insert("extra", 2);
    assert_eq!(tree.len(), n + 1);
    assert_eq!(tree.delete(n), Some("extra"));
    assert_eq!(tree.len(), n);
    for i in 0..n {
        assert_eq!(tree.get(i), before.get(i));
        assert_eq!(tree.parent_of(i), before.parent_of(i));
    }
    assert_eq!(tree.parent_of(0), ROOT);
}

#[test]
fn deletion_of_last_element() {
    let mut tree = sample();
    assert_eq!(tree.delete(3), Some("a1"));
    assert_eq!(tree.len(), 3);
    assert_eq!(tree.parent_of(0), ROOT);
    assert_eq!(tree.parent_of(1), 0);
    assert_eq!(tree.parent_of(2), 0);
    assert_eq!(tree.leaves(), vec![1, 2]);
}

#[test]
fn deletion_with_children_keeps_their_entries() {
    let mut tree = sample();
    // "a" at index 1 has the child "a1"; its entry is kept and now names "b"
    assert_eq!(tree.delete(1), Some("a"));
    assert_eq!(tree.len(), 3);
    assert_eq!(tree[1], "b");
    assert_eq!(tree[2], "a1");
    assert_eq!(tree.parent_of(2), 1);
}

#[test]
fn delete_out_of_range() {
    let mut tree = ApterTree::new();
    tree.insert("A", ROOT);
    tree.insert("B", 0);
    tree.insert("C", 0);
    assert_eq!(tree.delete(100), None);
    assert_eq!(tree.len(), 3);
    assert_eq!(tree[0], "A");
    assert_eq!(tree[1], "B");
    assert_eq!(tree[2], "C");
    assert_eq!(tree.parent_of(0), ROOT);
    assert_eq!(tree.parent_of(1), 0);
    assert_eq!(tree.parent_of(2), 0);
    assert_eq!(tree.delete(3), None);
    assert_eq!(tree.len(), 3);
}

#[test]
fn delete_on_empty_tree() {
    let mut tree: ApterTree<u8> = ApterTree::new();
    assert_eq!(tree.delete(0), None);
    assert!(tree.is_empty());
}

#[test]
fn find_returns_first_match() {
    let mut tree = ApterTree::new();
    tree.insert("x", ROOT);
    tree.insert("dup", 0);
    tree.insert("y", 0);
    tree.insert("dup", 1);
    assert_eq!(tree.find(&"dup"), Some(1));
    assert_eq!(tree.find(&"x"), Some(0));
    assert_eq!(tree.find(&"y"), Some(2));
}

#[test]
fn find_absent_value() {
    let tree = sample();
    assert_eq!(tree.find(&"missing"), None);
    let empty: ApterTree<u8> = ApterTree::new();
    assert_eq!(empty.find(&0), None);
}

#[test]
fn round_trip_scenario() {
    let tree = sample();
    assert_eq!(tree.len(), 4);
    assert_eq!(tree.children(0), vec![1, 2]);
    assert_eq!(tree.leaves(), vec![2, 3]);
    assert_eq!(tree.ancestors(3), vec![1, 0]);
}

#[test]
fn clone_is_independent() {
    let mut tree = sample();
    let copy = tree.clone();
    tree.delete(3);
    assert_eq!(copy.len(), 4);
    assert_eq!(copy[3], "a1");
    assert_eq!(tree.len(), 3);
}
