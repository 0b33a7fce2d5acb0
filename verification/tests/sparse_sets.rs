use sparse_set::{
    CheckChangeTicks, ComponentId, ComponentInfo, Entity, EntityRow, RawHandle, SparseSets, Tick,
    MAX_CHANGE_AGE,
};

fn register_component(sets: &mut SparseSets, id: usize) {
    let info = ComponentInfo::new(ComponentId::new(id));
    sets.get_or_insert(&info);
}

fn ent(row: u32) -> Entity {
    Entity::from_raw(EntityRow::new(row))
}

#[test]
fn sparse_sets() {
    let mut sets = SparseSets::default();

    assert_eq!(sets.len(), 0);
    assert!(sets.is_empty());

    register_component(&mut sets, 1);
    assert_eq!(sets.len(), 1);

    register_component(&mut sets, 2);
    assert_eq!(sets.len(), 2);

    // check its shape by iter
    let mut collected_sets = sets
        .iter()
        .into_iter()
        .map(|(id, set)| (id, set.len()))
        .collect::<Vec<_>>();
    collected_sets.sort();
    assert_eq!(
        collected_sets,
        vec![(ComponentId::new(1), 0), (ComponentId::new(2), 0)]
    );
}

#[test]
fn registry_kinds_independent() {
    let mut sets = SparseSets::default();
    let info_a = ComponentInfo::new(ComponentId::new(5));
    let info_b = ComponentInfo::new(ComponentId::new(2));
    {
        let store_a = sets.get_or_insert(&info_a);
        store_a.insert(ent(1), RawHandle { id: 11 }, Tick::new(1), 0);
        store_a.insert(ent(2), RawHandle { id: 12 }, Tick::new(1), 0);
    }
    {
        let store_b = sets.get_or_insert(&info_b);
        store_b.insert(ent(1), RawHandle { id: 21 }, Tick::new(1), 0);
    }
    assert_eq!(sets.len(), 2);
    // each kind reports its own length, whatever the insertion order
    assert_eq!(sets.get(ComponentId::new(5)).unwrap().len(), 2);
    assert_eq!(sets.get(ComponentId::new(2)).unwrap().len(), 1);
    assert!(sets.get(ComponentId::new(9)).is_none());
    // the stores are independent: values do not leak across kinds
    assert_eq!(
        sets.get(ComponentId::new(5)).unwrap().get(ent(1)),
        Some(RawHandle { id: 11 })
    );
    assert_eq!(
        sets.get(ComponentId::new(2)).unwrap().get(ent(1)),
        Some(RawHandle { id: 21 })
    );
    assert_eq!(sets.get(ComponentId::new(2)).unwrap().get(ent(2)), None);
}

#[test]
fn registry_get_or_insert_reuses_store() {
    let mut sets = SparseSets::default();
    let info = ComponentInfo::new(ComponentId::new(3));
    sets.get_or_insert(&info)
        .insert(ent(4), RawHandle { id: 9 }, Tick::new(1), 0);
    // a second lookup of the same kind finds the existing store
    let store = sets.get_or_insert(&info);
    assert_eq!(store.len(), 1);
    assert_eq!(store.get(ent(4)), Some(RawHandle { id: 9 }));
    assert_eq!(sets.len(), 1);
}

#[test]
fn registry_clear_entities_keeps_mapping() {
    let mut sets = SparseSets::default();
    register_component(&mut sets, 0);
    register_component(&mut sets, 1);
    sets.get_or_insert(&ComponentInfo::new(ComponentId::new(0)))
        .insert(ent(1), RawHandle { id: 1 }, Tick::new(1), 0);
    sets.get_or_insert(&ComponentInfo::new(ComponentId::new(1)))
        .insert(ent(2), RawHandle { id: 2 }, Tick::new(1), 0);
    assert_eq!(sets.get(ComponentId::new(0)).unwrap().len(), 1);

    sets.clear_entities();

    // the kind-to-store mapping survives; the entity state is gone
    assert_eq!(sets.len(), 2);
    assert_eq!(sets.get(ComponentId::new(0)).unwrap().len(), 0);
    assert_eq!(sets.get(ComponentId::new(1)).unwrap().len(), 0);
    assert_eq!(sets.get(ComponentId::new(0)).unwrap().get(ent(1)), None);
}

#[test]
fn registry_forwards_tick_checks() {
    let mut sets = SparseSets::default();
    let info = ComponentInfo::new(ComponentId::new(0));
    sets.get_or_insert(&info)
        .insert(ent(1), RawHandle { id: 1 }, Tick::new(100), 7);
    let horizon = Tick::new(3_400_000_000);
    sets.check_change_ticks(CheckChangeTicks::new(horizon));
    let store = sets.get(ComponentId::new(0)).unwrap();
    // the stored ticks were clamped to the window's edge
    let expected = 3_400_000_000u32.wrapping_sub(MAX_CHANGE_AGE);
    assert_eq!(store.get_added_tick(ent(1)).unwrap().get(), expected);
    assert_eq!(store.get_changed_tick(ent(1)).unwrap().get(), expected);
    // value and provenance are untouched
    assert_eq!(store.get(ent(1)), Some(RawHandle { id: 1 }));
    assert_eq!(store.get_changed_by(ent(1)), Some(7));
}
