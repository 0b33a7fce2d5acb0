use sparse_set::{Entity, EntityRow, ImmutableSparseArray, SparseArray, SparseSet};

#[derive(Debug, Eq, PartialEq)]
struct Foo(usize);

#[test]
fn sparse_set() {
    let mut set = SparseSet::<Entity, Foo>::default();
    let e0 = Entity::from_raw(EntityRow::new(0));
    let e1 = Entity::from_raw(EntityRow::new(1));
    let e2 = Entity::from_raw(EntityRow::new(2));
    let e3 = Entity::from_raw(EntityRow::new(3));
    let e4 = Entity::from_raw(EntityRow::new(4));

    set.insert(e1, Foo(1));
    set.insert(e2, Foo(2));
    set.insert(e3, Foo(3));

    assert_eq!(set.get(e0), None);
    assert_eq!(set.get(e1), Some(&Foo(1)));
    assert_eq!(set.get(e2), Some(&Foo(2)));
    assert_eq!(set.get(e3), Some(&Foo(3)));
    assert_eq!(set.get(e4), None);

    {
        let iter_results = set.values();
        assert_eq!(iter_results, &vec![Foo(1), Foo(2), Foo(3)]);
    }

    assert_eq!(set.remove(e2), Some(Foo(2)));
    assert_eq!(set.remove(e2), None);

    assert_eq!(set.get(e0), None);
    assert_eq!(set.get(e1), Some(&Foo(1)));
    assert_eq!(set.get(e2), None);
    assert_eq!(set.get(e3), Some(&Foo(3)));
    assert_eq!(set.get(e4), None);

    assert_eq!(set.remove(e1), Some(Foo(1)));

    assert_eq!(set.get(e0), None);
    assert_eq!(set.get(e1), None);
    assert_eq!(set.get(e2), None);
    assert_eq!(set.get(e3), Some(&Foo(3)));
    assert_eq!(set.get(e4), None);

    set.insert(e1, Foo(10));

    assert_eq!(set.get(e1), Some(&Foo(10)));

    *set.get_mut(e1).unwrap() = Foo(11);
    assert_eq!(set.get(e1), Some(&Foo(11)));
}

#[test]
fn round_trip() {
    let mut set = SparseSet::<u32, u32>::new();
    set.insert(9, 90);
    assert_eq!(set.get(9), Some(&90));
    assert_eq!(set.remove(9), Some(90));
    assert_eq!(set.get(9), None);
    assert!(!set.contains(9));
}

#[test]
fn insert_existing_overwrites_in_place() {
    let mut set = SparseSet::<u32, u32>::new();
    set.insert(1, 10);
    set.insert(2, 20);
    set.insert(3, 30);
    set.insert(2, 21);
    assert_eq!(set.len(), 3);
    assert_eq!(set.values(), &vec![10, 21, 30]);
    assert_eq!(set.indices(), &vec![1, 2, 3]);
    assert_eq!(set.get(1), Some(&10));
    assert_eq!(set.get(2), Some(&21));
    assert_eq!(set.get(3), Some(&30));
}

#[test]
fn remove_non_tail_keeps_displaced_reachable() {
    let mut set = SparseSet::<u32, u32>::new();
    set.insert(1, 10);
    set.insert(2, 20);
    set.insert(3, 30);
    // the tail entry (key 3) is swapped into the vacated front slot
    assert_eq!(set.remove(1), Some(10));
    assert_eq!(set.get(3), Some(&30));
    assert_eq!(set.get(2), Some(&20));
    assert_eq!(set.get(1), None);
    assert_eq!(set.values(), &vec![30, 20]);
    assert_eq!(set.indices(), &vec![3, 2]);
}

#[test]
fn remove_sole_and_last_entries() {
    let mut set = SparseSet::<u32, u32>::new();
    set.insert(6, 60);
    assert_eq!(set.remove(6), Some(60));
    assert!(set.is_empty());
    assert_eq!(set.remove(6), None);

    set.insert(1, 10);
    set.insert(2, 20);
    // removing the tail entry needs no swap partner
    assert_eq!(set.remove(2), Some(20));
    assert_eq!(set.get(1), Some(&10));
    assert_eq!(set.get(2), None);
    assert_eq!(set.values(), &vec![10]);
    assert_eq!(set.indices(), &vec![1]);
}

#[test]
fn get_or_insert_with_inserts_once() {
    let mut set = SparseSet::<u32, u32>::new();
    {
        let v = set.get_or_insert_with(4, || 40);
        assert_eq!(*v, 40);
        *v = 41;
    }
    {
        let v = set.get_or_insert_with(4, || 99);
        assert_eq!(*v, 41);
    }
    assert_eq!(set.len(), 1);
}

#[test]
fn freeze_preserves_lookups() {
    let mut set = SparseSet::<u32, u32>::new();
    set.insert(1, 100);
    set.insert(5, 500);
    set.insert(2, 200);
    set.remove(5);
    let mut frozen = set.into_immutable();
    assert_eq!(frozen.len(), 2);
    assert!(frozen.contains(1));
    assert!(!frozen.contains(5));
    assert_eq!(frozen.get(1), Some(&100));
    assert_eq!(frozen.get(2), Some(&200));
    assert_eq!(frozen.get(5), None);
    assert_eq!(frozen.get(9), None);
    // in-place value mutation is still possible; the structure is fixed
    *frozen.get_mut(1).unwrap() = 101;
    assert_eq!(frozen.get(1), Some(&101));
}

#[test]
fn clear_empties_everything() {
    let mut set = SparseSet::<u32, u32>::new();
    set.insert(1, 10);
    set.insert(2, 20);
    set.clear();
    assert!(set.is_empty());
    assert!(!set.contains(1));
    assert_eq!(set.get(2), None);
    set.insert(1, 11);
    assert_eq!(set.get(1), Some(&11));
}

#[test]
fn capacity_covers_len() {
    let mut set = SparseSet::<u32, u32>::with_capacity(2);
    for i in 0..10 {
        set.insert(i, i);
    }
    assert_eq!(set.len(), 10);
    assert!(set.capacity() >= set.len());
}

#[test]
fn sparse_array_basics() {
    let mut arr = SparseArray::<u32, u32>::new();
    assert!(!arr.contains(3));
    assert_eq!(arr.get(3), None);
    arr.insert(3, 30);
    assert!(arr.contains(3));
    assert_eq!(arr.get(3), Some(&30));
    // slots grown below the inserted key read as absent
    assert_eq!(arr.get(2), None);
    *arr.get_mut(3).unwrap() = 31;
    assert_eq!(arr.remove(3), Some(31));
    assert_eq!(arr.remove(3), None);
    assert_eq!(arr.get(3), None);
    arr.insert(0, 1);
    arr.clear();
    assert!(!arr.contains(0));
    // overwrite without signaling prior presence
    arr.insert(2, 5);
    arr.insert(2, 6);
    assert_eq!(arr.get(2), Some(&6));
}

#[test]
fn sparse_array_freeze_preserves_lookups() {
    let mut arr = SparseArray::<u32, u32>::new();
    arr.insert(1, 10);
    arr.insert(4, 40);
    let frozen: ImmutableSparseArray<u32, u32> = arr.into_immutable();
    assert!(frozen.contains(1));
    assert_eq!(frozen.get(1), Some(&10));
    assert_eq!(frozen.get(4), Some(&40));
    assert_eq!(frozen.get(2), None);
    assert_eq!(frozen.get(9), None);
}
