use slist::{Iter, SList, Wrapped};

fn payloads(list: &SList<Wrapped<i32>>, pool: &Vec<Wrapped<i32>>) -> Vec<i32> {
    let mut out = Vec::new();
    let mut it = list.iter(pool);
    while let Some(node) = it.next() {
        out.push(node.t);
    }
    out
}

#[test]
fn test_slist() {
    let mut pool = vec![Wrapped::new(100)];
    let mut x: SList<Wrapped<i32>> = SList::new();
    x.push(&mut pool, 0);
    x.pop(&mut pool).unwrap();
}

#[test]
fn two_nodes_come_back_last_in_first_out() {
    let mut pool = vec![Wrapped::new(1), Wrapped::new(2)];
    let mut list: SList<Wrapped<i32>> = SList::new();
    list.push(&mut pool, 0);
    list.push(&mut pool, 1);
    assert_eq!(list.size(), 2);
    assert_eq!(payloads(&list, &pool), vec![2, 1]);
    assert_eq!(list.pop(&mut pool).unwrap().t, 2);
    assert_eq!(list.size(), 1);
    assert_eq!(list.pop(&mut pool).unwrap().t, 1);
    assert_eq!(list.size(), 0);
    assert!(list.pop(&mut pool).is_none());
}

#[test]
fn new_list_is_empty() {
    let mut pool: Vec<Wrapped<i32>> = Vec::new();
    let mut list: SList<Wrapped<i32>> = SList::new();
    assert_eq!(list.size(), 0);
    assert!(list.iter(&pool).next().is_none());
    assert!(list.iter_mut(&mut pool).next().is_none());
    assert!(list.pop(&mut pool).is_none());
}

#[test]
fn pop_on_empty_list_stays_empty() {
    let mut pool = vec![Wrapped::new(5)];
    let mut list: SList<Wrapped<i32>> = SList::new();
    list.push(&mut pool, 0);
    assert!(list.pop(&mut pool).is_some());
    for _ in 0..3 {
        assert!(list.pop(&mut pool).is_none());
        assert_eq!(list.size(), 0);
    }
}

#[test]
fn pops_reverse_the_pushes() {
    let mut pool: Vec<Wrapped<i32>> = (0..6).map(|i| Wrapped::new(i * 10)).collect();
    let mut list: SList<Wrapped<i32>> = SList::new();
    for i in 0..6 {
        list.push(&mut pool, i);
    }
    let mut seen = Vec::new();
    while let Some(node) = list.pop(&mut pool) {
        seen.push(node.t);
    }
    assert_eq!(seen, vec![50, 40, 30, 20, 10, 0]);
}

#[test]
fn size_counts_pushes_minus_pops() {
    let mut pool: Vec<Wrapped<i32>> = (0..5).map(Wrapped::new).collect();
    let mut list: SList<Wrapped<i32>> = SList::new();
    for i in 0..5 {
        list.push(&mut pool, i);
    }
    list.pop(&mut pool);
    list.pop(&mut pool);
    assert_eq!(list.size(), 3);
}

#[test]
fn walk_meets_nodes_in_pop_order() {
    let mut pool: Vec<Wrapped<i32>> = (0..4).map(|i| Wrapped::new(i + 1)).collect();
    let mut list: SList<Wrapped<i32>> = SList::new();
    for i in [2, 0, 3, 1] {
        list.push(&mut pool, i);
    }
    let walked = payloads(&list, &pool);
    assert_eq!(walked.len(), 4);
    let mut popped = Vec::new();
    while let Some(node) = list.pop(&mut pool) {
        popped.push(node.t);
    }
    assert_eq!(walked, popped);
    assert_eq!(walked, vec![2, 4, 1, 3]);
}

#[test]
fn push_links_node_to_old_head() {
    let mut pool = vec![Wrapped::new(1), Wrapped::new(2)];
    let mut list: SList<Wrapped<i32>> = SList::new();
    list.push(&mut pool, 0);
    assert_eq!(pool[0].next, None);
    list.push(&mut pool, 1);
    assert_eq!(pool[1].next, Some(0));
}

#[test]
fn pop_leaves_the_node_slot_as_it_was() {
    let mut pool = vec![Wrapped::new(1), Wrapped::new(2)];
    let mut list: SList<Wrapped<i32>> = SList::new();
    list.push(&mut pool, 0);
    list.push(&mut pool, 1);
    let node = list.pop(&mut pool).unwrap();
    assert_eq!(node.next, Some(0));
}

#[test]
fn mutable_walk_changes_payloads() {
    let mut pool: Vec<Wrapped<i32>> = (0..3).map(Wrapped::new).collect();
    let mut list: SList<Wrapped<i32>> = SList::new();
    for i in 0..3 {
        list.push(&mut pool, i);
    }
    {
        let mut it = list.iter_mut(&mut pool);
        while let Some(node) = it.next() {
            node.t += 100;
        }
    }
    assert_eq!(payloads(&list, &pool), vec![102, 101, 100]);
}

#[test]
fn downgraded_walk_goes_on_from_same_place() {
    let mut pool: Vec<Wrapped<i32>> = (0..4).map(Wrapped::new).collect();
    let mut list: SList<Wrapped<i32>> = SList::new();
    for i in 0..4 {
        list.push(&mut pool, i);
    }
    let expected = payloads(&list, &pool);
    let mut m = list.iter_mut(&mut pool);
    let first = m.next().unwrap().t;
    let mut it: Iter<Wrapped<i32>> = Iter::from(m);
    let mut rest = Vec::new();
    while let Some(node) = it.next() {
        rest.push(node.t);
    }
    assert_eq!(first, expected[0]);
    assert_eq!(rest, expected[1..].to_vec());
}

#[test]
fn downgrade_method_matches_from() {
    let mut pool: Vec<Wrapped<i32>> = (0..3).map(Wrapped::new).collect();
    let mut list: SList<Wrapped<i32>> = SList::new();
    for i in 0..3 {
        list.push(&mut pool, i);
    }
    let mut m = list.iter_mut(&mut pool);
    m.next();
    m.next();
    let mut it = m.downgrade();
    assert_eq!(it.next().unwrap().t, 0);
    assert!(it.next().is_none());
}

#[test]
fn wrapped_new_is_unlinked() {
    let w = Wrapped::new(42);
    assert_eq!(w.next, None);
    assert_eq!(w.t, 42);
}
