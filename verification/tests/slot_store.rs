use sparse_set::{
    CheckChangeTicks, ComponentId, ComponentInfo, ComponentSparseSet, Entity, EntityRow,
    RawHandle, Tick,
};

fn inf(id: usize) -> ComponentInfo {
    ComponentInfo::new(ComponentId::new(id))
}

fn entity(row: u32) -> Entity {
    Entity::from_raw(EntityRow::new(row))
}

fn handle(id: u64) -> RawHandle {
    RawHandle { id }
}

#[test]
fn slot_store_insert_get_remove() {
    let mut set = ComponentSparseSet::new(&inf(0), 4);
    assert_eq!(set.len(), 0);
    assert!(set.is_empty());

    let e1 = entity(1);
    set.insert(e1, handle(10), Tick::new(5), 100);
    assert!(set.contains(e1));
    assert!(!set.is_empty());
    assert_eq!(set.len(), 1);
    assert_eq!(set.get(e1), Some(handle(10)));
    assert_eq!(set.get(entity(2)), None);
    assert_eq!(set.get_changed_by(e1), Some(100));

    let ticks = set.get_ticks(e1).unwrap();
    assert_eq!(ticks.added, Tick::new(5));
    assert_eq!(ticks.changed, Tick::new(5));

    let (h, t, caller) = set.get_with_ticks(e1).unwrap();
    assert_eq!(h, handle(10));
    assert_eq!(t.added, Tick::new(5));
    assert_eq!(t.changed, Tick::new(5));
    assert_eq!(caller, 100);

    assert!(set.remove(e1));
    assert!(!set.contains(e1));
    assert_eq!(set.get(e1), None);
    assert!(!set.remove(e1));
    assert!(set.is_empty());
}

#[test]
fn slot_store_replace_keeps_added_tick() {
    let mut set = ComponentSparseSet::new(&inf(0), 4);
    let e1 = entity(1);
    set.insert(e1, handle(10), Tick::new(5), 100);
    // replacement overwrites the value in place, refreshing only the
    // "changed" tick and the provenance
    set.insert(e1, handle(11), Tick::new(9), 200);
    assert_eq!(set.len(), 1);
    assert_eq!(set.get(e1), Some(handle(11)));
    assert_eq!(set.get_added_tick(e1), Some(Tick::new(5)));
    assert_eq!(set.get_changed_tick(e1), Some(Tick::new(9)));
    assert_eq!(set.get_changed_by(e1), Some(200));
}

#[test]
fn slot_store_swap_remove_fixes_up_displaced() {
    let mut set = ComponentSparseSet::new(&inf(0), 4);
    let (e1, e2, e3) = (entity(1), entity(2), entity(3));
    set.insert(e1, handle(10), Tick::new(1), 0);
    set.insert(e2, handle(20), Tick::new(1), 0);
    set.insert(e3, handle(30), Tick::new(1), 0);

    // removing a non-tail row swaps the tail row into its place
    let removed = set.remove_and_forget(e1);
    assert_eq!(removed, Some(handle(10)));
    assert_eq!(set.len(), 2);
    assert_eq!(set.get(e1), None);
    assert_eq!(set.get(e2), Some(handle(20)));
    assert_eq!(set.get(e3), Some(handle(30)));

    // removing the tail row needs no fixup
    assert!(set.remove(e3));
    assert_eq!(set.len(), 1);
    assert_eq!(set.get(e2), Some(handle(20)));
}

#[test]
fn slot_store_reused_row_new_generation() {
    let mut set = ComponentSparseSet::new(&inf(0), 4);
    let row = EntityRow::new(7);
    let old_owner = Entity::from_raw_and_generation(row, 1);
    let new_owner = Entity::from_raw_and_generation(row, 2);

    set.insert(old_owner, handle(1), Tick::new(1), 0);
    assert!(set.remove(old_owner));

    // the row is recycled under a new generation: the store treats it as
    // a fresh insertion, not as the removed owner's slot
    set.insert(new_owner, handle(2), Tick::new(2), 0);
    assert!(set.contains(new_owner));
    assert_eq!(set.get(new_owner), Some(handle(2)));
    assert_eq!(set.get_added_tick(new_owner), Some(Tick::new(2)));
    assert_eq!(set.get_changed_tick(new_owner), Some(Tick::new(2)));
}

#[test]
fn slot_store_without_validation_indexes_by_row() {
    let mut set = ComponentSparseSet::new_with_validation(&inf(0), 4, false);
    let row = EntityRow::new(3);
    let a = Entity::from_raw_and_generation(row, 1);
    let b = Entity::from_raw_and_generation(row, 2);
    set.insert(a, handle(7), Tick::new(1), 0);
    // without identity validation only the row indexes: an identifier of
    // another generation on the same row observes the value
    assert!(set.contains(b));
    assert_eq!(set.get(b), Some(handle(7)));
}

#[test]
fn slot_store_clear() {
    let mut set = ComponentSparseSet::new(&inf(0), 4);
    set.insert(entity(1), handle(1), Tick::new(1), 0);
    set.insert(entity(2), handle(2), Tick::new(1), 0);
    set.clear();
    assert_eq!(set.len(), 0);
    assert!(!set.contains(entity(1)));
    assert_eq!(set.get(entity(2)), None);
    set.insert(entity(2), handle(3), Tick::new(2), 0);
    assert_eq!(set.get(entity(2)), Some(handle(3)));
}
