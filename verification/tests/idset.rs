use diagram_editor::util::{Id, IdGenerator, IdSet};

fn ids(set: &IdSet) -> Vec<usize> {
    set.to_vec().iter().map(|id| id.value()).collect()
}

#[test]
fn generator_counts_up() {
    let mut sig = IdGenerator::default();
    assert!(sig.has_next());
    assert_eq!(sig.gen().value(), 0);
    assert_eq!(sig.gen().value(), 1);
    assert_eq!(sig.gen(), Id::new(2));
    assert!(Id::new(1) < Id::new(2));
    assert_eq!(IdGenerator::new().gen().value(), 0);
}

#[test]
fn insert_then_contains() {
    let mut set = IdSet::default();
    assert!(set.is_empty());
    assert!(!set.contains(&Id::new(40)));
    assert!(set.insert(&Id::new(40)));
    assert!(set.contains(&Id::new(40)));
    assert!(!set.insert(&Id::new(40)));
    assert!(!set.is_empty());
    assert!(!set.contains(&Id::new(8)));
    assert!(!set.contains(&Id::new(41)));
    assert!(!set.contains(&Id::new(1000)));
    assert_eq!(set.num_elems(), 1);
}

#[test]
fn remove_of_a_non_member_changes_nothing() {
    let mut set = IdSet::new();
    set.insert(&Id::new(3));
    let before = ids(&set);
    assert!(!set.remove(&Id::new(4)));
    assert!(!set.remove(&Id::new(900)));
    assert_eq!(ids(&set), before);
    assert!(set.remove(&Id::new(3)));
    assert!(set.is_empty());
    assert!(!set.remove(&Id::new(3)));
    assert_eq!(set.num_elems(), 0);
}

#[test]
fn toggle_twice_restores_membership() {
    let mut set = IdSet::new();
    set.insert(&Id::new(1));
    set.insert(&Id::new(65));
    for n in [0usize, 1, 31, 32, 65, 200] {
        let before = ids(&set);
        let was_in = set.contains(&Id::new(n));
        set.toggle(&Id::new(n));
        assert_eq!(set.contains(&Id::new(n)), !was_in);
        set.toggle(&Id::new(n));
        assert_eq!(ids(&set), before);
    }
    let mut single = IdSet::new();
    single.toggle(&Id::new(5));
    assert!(!single.is_empty());
    single.toggle(&Id::new(5));
    assert!(single.is_empty());
}

#[test]
fn union_is_commutative_and_idempotent() {
    let mut a = IdSet::new();
    let mut b = IdSet::new();
    for n in [1usize, 33, 34, 100] {
        a.insert(&Id::new(n));
    }
    for n in [0usize, 33, 300] {
        b.insert(&Id::new(n));
    }
    let mut ab = a.clone();
    assert!(ab.union_with(&b));
    let mut ba = b.clone();
    assert!(ba.union_with(&a));
    assert_eq!(ids(&ab), vec![0, 1, 33, 34, 100, 300]);
    assert_eq!(ids(&ab), ids(&ba));
    let mut aa = a.clone();
    assert!(!aa.union_with(&a));
    assert_eq!(ids(&aa), ids(&a));
    assert!(!ab.union_with(&a));
    let mut empty = IdSet::new();
    assert!(!empty.union_with(&IdSet::new()));
    assert!(empty.is_empty());
    assert!(empty.union_with(&a));
    assert!(!empty.is_empty());
}

#[test]
fn iteration_is_ascending() {
    let mut set = IdSet::new();
    for n in [95usize, 0, 31, 32, 64, 63, 7] {
        set.insert(&Id::new(n));
    }
    let mut it = set.iter();
    let mut seen = Vec::new();
    while let Some(id) = it.next() {
        seen.push(id.value());
    }
    assert_eq!(seen, vec![0, 7, 31, 32, 63, 64, 95]);
    assert_eq!(it.next(), None);
    assert_eq!(ids(&set), seen);
    assert_eq!(ids(&IdSet::new()), Vec::<usize>::new());
}

#[test]
fn num_elems_counts_set_bits() {
    let mut set = IdSet::new();
    for n in 0..70usize {
        if n % 3 == 0 {
            set.insert(&Id::new(n));
        }
    }
    assert_eq!(set.num_elems(), 24);
    set.remove(&Id::new(0));
    assert_eq!(set.num_elems(), 23);
}
