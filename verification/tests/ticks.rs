use sparse_set::{
    CheckChangeTicks, ComponentId, ComponentInfo, ComponentSparseSet, ComponentTicks, Entity,
    EntityRow, RawHandle, Tick, MAX_CHANGE_AGE,
};

#[test]
fn component_ticks_start_equal() {
    let t = ComponentTicks::new(Tick::new(17));
    assert_eq!(t.added, Tick::new(17));
    assert_eq!(t.changed, Tick::new(17));
}

#[test]
fn tick_relative_distance_wraps() {
    let a = Tick::new(5);
    let b = Tick::new(u32::MAX - 5);
    assert_eq!(a.relative_to(b).get(), 11);
    assert_eq!(b.relative_to(a).get(), u32::MAX - 10);
    let mut t = Tick::new(1);
    t.set(42);
    assert_eq!(t.get(), 42);
}

#[test]
fn tick_is_newer_basic() {
    let written = Tick::new(50);
    let now = Tick::new(100);
    assert!(written.is_newer_than(Tick::new(10), now));
    assert!(!written.is_newer_than(Tick::new(60), now));
    assert!(!written.is_newer_than(Tick::new(50), now));
}

#[test]
fn tick_comparison_wraps_across_rollover() {
    // written just before the counter wraps, observed just after
    let reference = Tick::new(u32::MAX - 200);
    let written = Tick::new(u32::MAX - 100);
    let now = Tick::new(500);
    assert!(written.is_newer_than(reference, now));
    assert!(!reference.is_newer_than(written, now));
}

#[test]
fn tick_check_leaves_young_ticks() {
    let mut t = Tick::new(3_000_000_000);
    let check = CheckChangeTicks::new(Tick::new(3_500_000_000));
    assert!(!t.check_tick(check));
    assert_eq!(t, Tick::new(3_000_000_000));
}

#[test]
fn tick_clamp_pins_ancient_changes() {
    let mut t = Tick::new(100);
    let check = CheckChangeTicks::new(Tick::new(3_400_000_000));
    // its age exceeds the window, so the check moves it to the window's edge
    assert!(t.check_tick(check));
    assert_eq!(t.get(), 3_400_000_000u32.wrapping_sub(MAX_CHANGE_AGE));
    // pinned there, it is no longer reported as newer than a reference the
    // observer took after the write
    let now = Tick::new(3_500_000_000);
    assert!(!t.is_newer_than(Tick::new(3_000_000_000), now));
}

#[test]
fn tick_rollover_after_check() {
    let info = ComponentInfo::new(ComponentId::new(0));
    let mut set = ComponentSparseSet::new(&info, 4);
    let e = Entity::from_raw(EntityRow::new(1));

    // a reference taken long before the rollover horizon
    let reference = Tick::new(200);
    // the value is written much later, still before the horizon
    set.insert(e, RawHandle { id: 1 }, Tick::new(3_000_000_000), 0);

    // periodic maintenance at the rollover horizon: the write is within
    // the change-age window, so its tick survives unchanged
    set.check_change_ticks(CheckChangeTicks::new(Tick::new(3_500_000_000)));
    let changed = set.get_changed_tick(e).unwrap();
    assert_eq!(changed, Tick::new(3_000_000_000));

    // judged later, the value still compares as changed since the old
    // reference, even though the reference's own age has saturated
    let now = Tick::new(3_600_000_000);
    assert!(changed.is_newer_than(reference, now));
    // and not as changed since a reference taken after the write
    assert!(!changed.is_newer_than(Tick::new(3_400_000_000), now));
}
