use spaceman::generational_index::{GenerationalIndexAllocator, GenerationalIndexArray};

#[test]
fn allocate_hands_out_fresh_slots_in_order() {
    let mut alloc = GenerationalIndexAllocator::new();
    let a = alloc.allocate();
    let b = alloc.allocate();
    assert_eq!(a.index(), 0);
    assert_eq!(b.index(), 1);
    assert!(alloc.is_live(a));
    assert!(alloc.is_live(b));
    assert_ne!(a, b);
}

#[test]
fn deallocate_retires_index() {
    let mut alloc = GenerationalIndexAllocator::new();
    let a = alloc.allocate();
    assert!(alloc.deallocate(a));
    assert!(!alloc.is_live(a));
}

#[test]
fn deallocate_twice_fails_the_second_time() {
    let mut alloc = GenerationalIndexAllocator::new();
    let a = alloc.allocate();
    assert!(alloc.deallocate(a));
    assert!(!alloc.deallocate(a));
}

#[test]
fn freed_slot_is_reused_with_next_generation() {
    let mut alloc = GenerationalIndexAllocator::new();
    let a = alloc.allocate();
    let _b = alloc.allocate();
    assert!(alloc.deallocate(a));
    let c = alloc.allocate();
    assert_eq!(c.index(), a.index());
    assert_ne!(c, a);
    assert!(alloc.is_live(c));
    assert!(!alloc.is_live(a));
}

#[test]
fn stale_index_stays_dead_after_more_allocations() {
    let mut alloc = GenerationalIndexAllocator::new();
    let a = alloc.allocate();
    assert!(alloc.deallocate(a));
    let c = alloc.allocate();
    assert!(alloc.deallocate(c));
    let d = alloc.allocate();
    let e = alloc.allocate();
    assert_eq!(d.index(), 0);
    assert_eq!(e.index(), 1);
    assert!(!alloc.is_live(a));
    assert!(!alloc.is_live(c));
    assert!(!alloc.deallocate(a));
    assert!(alloc.is_live(d));
}

#[test]
fn last_freed_slot_is_reused_first() {
    let mut alloc = GenerationalIndexAllocator::new();
    let a = alloc.allocate();
    let b = alloc.allocate();
    let c = alloc.allocate();
    assert!(alloc.deallocate(a));
    assert!(alloc.deallocate(c));
    assert_eq!(alloc.allocate().index(), c.index());
    assert_eq!(alloc.allocate().index(), a.index());
    assert_eq!(alloc.allocate().index(), 3);
    assert!(alloc.is_live(b));
}

#[test]
fn array_get_after_set() {
    let mut alloc = GenerationalIndexAllocator::new();
    let a = alloc.allocate();
    let mut arr: GenerationalIndexArray<&str> = GenerationalIndexArray::new(4);
    assert_eq!(arr.get(a), None);
    arr.set(a, "ship");
    assert_eq!(arr.get(a), Some(&"ship"));
}

#[test]
fn array_get_with_old_generation_is_none() {
    let mut alloc = GenerationalIndexAllocator::new();
    let a = alloc.allocate();
    let mut arr: GenerationalIndexArray<u32> = GenerationalIndexArray::new(2);
    arr.set(a, 7);
    assert!(alloc.deallocate(a));
    let b = alloc.allocate();
    assert_eq!(arr.get(b), None);
    arr.set(b, 9);
    assert_eq!(arr.get(a), None);
    assert_eq!(arr.get(b), Some(&9));
}

#[test]
fn array_get_mut_writes_through() {
    let mut alloc = GenerationalIndexAllocator::new();
    let a = alloc.allocate();
    let b = alloc.allocate();
    let mut arr: GenerationalIndexArray<u32> = GenerationalIndexArray::new(2);
    arr.set(a, 1);
    arr.set(b, 2);
    if let Some(v) = arr.get_mut(a) {
        *v = 10;
    } else {
        panic!("value missing");
    }
    assert_eq!(arr.get(a), Some(&10));
    assert_eq!(arr.get(b), Some(&2));
}

#[test]
fn array_get_mut_with_wrong_generation_is_none() {
    let mut alloc = GenerationalIndexAllocator::new();
    let a = alloc.allocate();
    let mut arr: GenerationalIndexArray<u32> = GenerationalIndexArray::new(1);
    arr.set(a, 5);
    assert!(alloc.deallocate(a));
    let b = alloc.allocate();
    assert!(arr.get_mut(b).is_none());
    assert_eq!(arr.get(a), Some(&5));
}

#[test]
fn handle_live_until_freed_and_never_after() {
    let mut alloc = GenerationalIndexAllocator::new();
    let a = alloc.allocate();
    let b = alloc.allocate();
    let c = alloc.allocate();
    assert!(alloc.deallocate(b));
    let d = alloc.allocate();
    assert!(alloc.is_live(a) && alloc.is_live(c) && alloc.is_live(d));
    assert!(!alloc.is_live(b));
    assert!(alloc.deallocate(a));
    assert!(!alloc.is_live(a));
    for _ in 0..4 {
        let e = alloc.allocate();
        assert!(alloc.deallocate(e));
        assert!(!alloc.is_live(a) && !alloc.is_live(b));
    }
    let f = alloc.allocate();
    assert_eq!(f.index(), a.index());
    assert!(!alloc.is_live(a));
    assert!(alloc.is_live(c) && alloc.is_live(d) && alloc.is_live(f));
}
