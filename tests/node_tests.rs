use btree_node::{readers_agree, search_entries, Inner, Node, NodeError, SearchResult};

type N4 = Node<i32, &'static str, 4>;

fn leaf_with(entries: Vec<(i32, &'static str)>) -> N4 {
    let rec = Inner { data: entries, children: Vec::new(), leaf: true };
    match Node::from_record(rec) {
        Ok(n) => n,
        Err(e) => panic!("record refused: {:?}", e),
    }
}

fn internal_with(entries: Vec<(i32, &'static str)>, children: Vec<N4>) -> N4 {
    let rec = Inner { data: entries, children, leaf: false };
    match Node::from_record(rec) {
        Ok(n) => n,
        Err(e) => panic!("record refused: {:?}", e),
    }
}

fn entries_of(n: &N4) -> Vec<(i32, &'static str)> {
    let v = n.keys();
    let out = v.to_vec();
    v.release();
    out
}

fn scenario() -> N4 {
    leaf_with(vec![(1, "a"), (3, "c"), (5, "e"), (7, "g")])
}

#[test]
fn search_scenario_found_and_continue() {
    let n = scenario();
    assert_eq!(n.search(&5), SearchResult::Found(2));
    assert_eq!(n.search(&4), SearchResult::Continue(2));
    assert_eq!(n.search(&9), SearchResult::Continue(4));
}

#[test]
fn search_below_all_and_exact_ends() {
    let n = scenario();
    assert_eq!(n.search(&0), SearchResult::Continue(0));
    assert_eq!(n.search(&1), SearchResult::Found(0));
    assert_eq!(n.search(&7), SearchResult::Found(3));
    assert_eq!(n.search(&6), SearchResult::Continue(3));
}

#[test]
fn search_empty_node() {
    let n: N4 = Node::new_leaf();
    assert_eq!(n.search(&3), SearchResult::Continue(0));
}

#[test]
fn search_entries_on_slice() {
    let data = [(10, 'x'), (20, 'y'), (30, 'z')];
    assert_eq!(search_entries(&data, &20), SearchResult::Found(1));
    assert_eq!(search_entries(&data, &25), SearchResult::Continue(2));
    assert_eq!(search_entries(&data, &5), SearchResult::Continue(0));
    assert_eq!(search_entries(&data, &35), SearchResult::Continue(3));
    let empty: [(i32, char); 0] = [];
    assert_eq!(search_entries(&empty, &1), SearchResult::Continue(0));
}

#[test]
fn split_scenario_leaf() {
    let n = scenario();
    let (left, right) = n.split().ok().expect("sole handle");
    assert_eq!(entries_of(&left), vec![(1, "a"), (3, "c"), (5, "e")]);
    assert_eq!(entries_of(&right), vec![(7, "g")]);
    assert!(left.is_leaf());
    assert!(right.is_leaf());
    assert_eq!(left.size(), 0);
    assert_eq!(right.size(), 0);
}

#[test]
fn split_odd_count_biases_left() {
    let n = leaf_with(vec![(1, "a"), (2, "b"), (3, "c"), (4, "d"), (5, "e")]);
    let (left, right) = n.split().ok().expect("sole handle");
    assert_eq!(entries_of(&left), vec![(1, "a"), (2, "b"), (3, "c")]);
    assert_eq!(entries_of(&right), vec![(4, "d"), (5, "e")]);
}

#[test]
fn split_small_nodes_clamp() {
    let empty: N4 = Node::new_leaf();
    let (l, r) = empty.split().ok().expect("sole handle");
    assert_eq!(l.len(), 0);
    assert_eq!(r.len(), 0);
    let one = leaf_with(vec![(4, "d")]);
    let (l, r) = one.split().ok().expect("sole handle");
    assert_eq!(entries_of(&l), vec![(4, "d")]);
    assert_eq!(entries_of(&r), vec![]);
}

#[test]
fn split_internal_partitions_children() {
    let kids: Vec<N4> = vec![
        leaf_with(vec![(0, "z")]),
        leaf_with(vec![(2, "b")]),
        leaf_with(vec![(4, "d")]),
        leaf_with(vec![(6, "f")]),
    ];
    let n = internal_with(vec![(1, "a"), (3, "c"), (5, "e")], kids);
    assert_eq!(n.size(), 4);
    assert!(n.is_full());
    let (left, right) = n.split().ok().expect("sole handle");
    assert!(!left.is_leaf());
    assert!(!right.is_leaf());
    assert_eq!(entries_of(&left), vec![(1, "a"), (3, "c")]);
    assert_eq!(entries_of(&right), vec![(5, "e")]);
    assert_eq!(left.size(), 2);
    assert_eq!(right.size(), 2);
    let first_right = right.get_node_by_index(0).ok().expect("child 0");
    assert_eq!(entries_of(&first_right), vec![(4, "d")]);
    first_right.release();
}

#[test]
fn split_shared_node_refused() {
    let n = scenario();
    let alias = n.clone();
    assert!(matches!(n.split(), Err(NodeError::Shared)));
    assert_eq!(entries_of(&alias), vec![(1, "a"), (3, "c"), (5, "e"), (7, "g")]);
}

#[test]
fn constructors_kinds_and_capacity() {
    let internal: N4 = Node::new();
    assert!(!internal.is_leaf());
    assert_eq!(internal.capacity(), 4);
    assert_eq!(internal.size(), 0);
    assert!(!internal.is_full());
    let leaf: N4 = Node::new_leaf();
    assert!(leaf.is_leaf());
    assert_eq!(leaf.capacity(), 0);
    assert_eq!(leaf.size(), 0);
    assert!(leaf.is_full());
}

#[test]
fn entries_full_for_leaf() {
    let n = scenario();
    assert!(n.entries_full());
    assert_eq!(n.len(), 4);
    let m = leaf_with(vec![(1, "a")]);
    assert!(!m.entries_full());
}

#[test]
fn from_record_refuses_unsorted() {
    let rec: Inner<i32, &str, 4> = Inner { data: vec![(3, "c"), (1, "a")], children: Vec::new(), leaf: true };
    assert!(matches!(Node::from_record(rec), Err(NodeError::Unsorted)));
    let dup: Inner<i32, &str, 4> = Inner { data: vec![(1, "a"), (1, "b")], children: Vec::new(), leaf: true };
    assert!(matches!(Node::from_record(dup), Err(NodeError::Unsorted)));
}

#[test]
fn from_record_refuses_children_mismatch() {
    let kid: N4 = Node::new_leaf();
    let rec = Inner { data: vec![(1, "a")], children: vec![kid], leaf: true };
    assert!(matches!(Node::from_record(rec), Err(NodeError::ChildrenMismatch)));
    let kids: Vec<N4> = (0..5).map(|_| Node::new_leaf()).collect();
    let rec = Inner { data: vec![], children: kids, leaf: false };
    assert!(matches!(Node::from_record(rec), Err(NodeError::ChildrenMismatch)));
}

#[test]
fn take_inner_unique_and_shared() {
    let n = scenario();
    let rec = n.take_inner().ok().expect("sole handle");
    assert_eq!(rec.data, vec![(1, "a"), (3, "c"), (5, "e"), (7, "g")]);
    assert!(rec.leaf);
    let m = scenario();
    let alias = m.clone();
    assert!(matches!(m.take_inner(), Err(NodeError::Shared)));
    assert!(alias.take_inner().is_ok());
}

#[test]
fn replace_unique_and_shared() {
    let mut n = scenario();
    let other = leaf_with(vec![(2, "b")]);
    assert_eq!(n.replace(other), Ok(()));
    assert_eq!(entries_of(&n), vec![(2, "b")]);
    assert!(n.is_leaf());
    let shared = leaf_with(vec![(8, "h")]);
    let keep = shared.clone();
    assert_eq!(n.replace(shared), Err(NodeError::Shared));
    assert_eq!(entries_of(&n), vec![(2, "b")]);
    assert_eq!(entries_of(&keep), vec![(8, "h")]);
}

#[test]
fn clone_children_alias_records() {
    let kids: Vec<N4> = vec![leaf_with(vec![(0, "z")]), leaf_with(vec![(2, "b")])];
    let parent = internal_with(vec![(1, "a")], kids);
    let mut copies = parent.clone_children();
    assert_eq!(copies.len(), 2);
    let mut first = copies.remove(0);
    first.replace(leaf_with(vec![(-1, "y")])).expect("sole handle to the new record");
    let seen = parent.get_node_by_index(0).ok().expect("child 0");
    assert_eq!(entries_of(&seen), vec![(-1, "y")]);
    seen.release();
    assert!(matches!(first.take_inner(), Err(NodeError::Shared)));
}

#[test]
fn indexed_views() {
    let n = scenario();
    let p = n.get_pair_by_index(2).ok().expect("entry 2");
    assert_eq!(*p, (5, "e"));
    p.release();
    assert!(matches!(n.get_pair_by_index(4), Err(NodeError::OutOfBounds)));
    assert!(matches!(n.get_node_by_index(0), Err(NodeError::OutOfBounds)));
    let c = n.children();
    assert_eq!(c.len(), 0);
    c.release();
}

#[test]
fn concurrent_readers_agree() {
    let n = scenario();
    let alias = n.clone();
    let a = n.keys();
    let b = alias.keys();
    readers_agree(&a, &b);
    assert_eq!(a.to_vec(), b.to_vec());
    a.release();
    b.release();
    let mut m = n.clone();
    drop(alias);
    drop(n);
    assert_eq!(m.replace(leaf_with(vec![(9, "i")])), Ok(()));
    assert_eq!(entries_of(&m), vec![(9, "i")]);
}
