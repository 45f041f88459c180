use cellarena::cell_vec::CellVec;
use cellarena::rc_pool::RcPool;
use cellarena::slot_pool::{Slot, SlotPool};
use cellarena::string_cell::StringCell;

#[test]
fn capacity_ceiling() {
    let mut pool: RcPool<u64> = RcPool::new_vec(3);
    assert_eq!(pool.capacity(), 3);
    let a = pool.insert(1).unwrap();
    let b = pool.insert(2).unwrap();
    let c = pool.insert(3).unwrap();
    assert_eq!(pool.len(), 3);
    assert!(pool.insert(4).is_none());
    let wb = b.weak();
    pool.release(b);
    pool.remove(&wb);
    assert_eq!(pool.len(), 2);
    let d = pool.insert(5).unwrap();
    assert_eq!(d.index(), 1);
    assert_eq!(pool.len(), 3);
    pool.release(a);
    pool.release(c);
    pool.release(d);
}

#[test]
fn free_list_lifo_order() {
    let mut pool: SlotPool<u64> = SlotPool::new_vec(4);
    let r0 = pool.insert(10).unwrap();
    let r1 = pool.insert(11).unwrap();
    assert_eq!(r0.index(), 0);
    assert_eq!(r1.index(), 1);
    // remove index 0, then index 1: index 1 was freed last
    pool.remove(&r0);
    pool.remove(&r1);
    let n0 = pool.insert(20).unwrap();
    let n1 = pool.insert(21).unwrap();
    assert_eq!(n0.index(), 1);
    assert_eq!(n1.index(), 0);
}

#[test]
fn reuse_invalidation() {
    let mut pool: RcPool<&str> = RcPool::new_vec(2);
    let a = pool.insert("first").unwrap();
    let wa = a.weak();
    assert_eq!(a.index(), 0);
    pool.release(a);
    pool.remove(&wa);
    let b = pool.insert("second").unwrap();
    let wb = b.weak();
    // the new value landed in the same physical slot
    assert_eq!(b.index(), 0);
    // the old reference reports invalid; the new one is valid and sees the
    // new value
    assert!(!wa.is_valid(&pool));
    assert!(wb.is_valid(&pool));
    assert_eq!(*pool.get(0).unwrap(), "second");
    pool.release(b);
}

#[test]
fn reference_counting() {
    let mut pool: RcPool<u64> = RcPool::new_vec(2);
    let a = pool.insert(7).unwrap();
    let wa = a.weak();
    assert_eq!(pool.strong_count(&wa), 1);
    let a2 = pool.clone_ref(&a);
    assert_eq!(pool.strong_count(&wa), 2);
    pool.release(a2);
    assert_eq!(pool.strong_count(&wa), 1);
    pool.release(a);
    assert_eq!(pool.strong_count(&wa), 0);
    pool.remove(&wa);
    assert!(wa.get(&mut pool).is_none());
}

#[test]
fn weak_upgrade_counts() {
    let mut pool: RcPool<u64> = RcPool::new_vec(1);
    let a = pool.insert(9).unwrap();
    let wa = a.downgrade();
    let again = wa.get(&mut pool).unwrap();
    assert_eq!(pool.strong_count(&wa), 2);
    assert_eq!(again.index(), a.index());
    let third = wa.upgrade(&mut pool).unwrap();
    assert_eq!(pool.strong_count(&wa), 3);
    pool.release(third);
    pool.release(again);
    pool.release(a);
    assert_eq!(pool.strong_count(&wa), 0);
    // a stale weak reference cannot be upgraded
    pool.remove(&wa);
    assert!(wa.upgrade(&mut pool).is_none());
}

#[test]
fn iteration_bound() {
    let mut pool: RcPool<u64> = RcPool::new_vec(5);
    let r0 = pool.insert(100).unwrap();
    let r1 = pool.insert(101).unwrap();
    let r2 = pool.insert(102).unwrap();
    let w2 = r2.weak();
    pool.release(r2);
    pool.remove(&w2);
    let seen: Vec<u64> = pool.iter().into_iter().copied().collect();
    assert_eq!(seen, vec![100, 101]);
    pool.release(r0);
    pool.release(r1);
}

#[test]
fn clear_idempotence() {
    let mut pool: RcPool<u64> = RcPool::new_vec(3);
    let a = pool.insert(1).unwrap();
    let ga = a.index();
    pool.release(a);
    pool.clear();
    assert_eq!(pool.len(), 0);
    assert_eq!(pool.capacity(), 3);
    // clearing an already-empty arena changes nothing
    pool.clear();
    assert_eq!(pool.len(), 0);
    assert_eq!(pool.capacity(), 3);
    // a later insert lands on the reseeded free list with a fresh generation
    let b = pool.insert(2).unwrap();
    let wb = b.weak();
    assert_eq!(b.index(), 0);
    assert_eq!(ga, 0);
    assert!(wb.is_valid(&pool));
    assert_eq!(*pool.get(0).unwrap(), 2);
    pool.release(b);
}

#[test]
fn stale_remove_is_noop() {
    let mut pool: SlotPool<u64> = SlotPool::new_vec(2);
    let a = pool.insert(5).unwrap();
    pool.remove(&a);
    assert_eq!(pool.len(), 0);
    // removing through the stale reference again changes nothing
    pool.remove(&a);
    assert_eq!(pool.len(), 0);
    assert!(!a.is_valid(&pool));
    assert!(a.get(&pool).is_none());
}

#[test]
fn slot_pool_persistent_storage() {
    let mut pool: SlotPool<u64> = SlotPool::new_vec(2);
    let a = pool.insert(41).unwrap();
    assert_eq!(*a.get(&pool).unwrap(), 41);
    pool.remove(&a);
    // the slot's storage was written on first use and is kept across reuse:
    // the second insert of this physical slot does not store the new value
    let b = pool.insert(42).unwrap();
    assert_eq!(b.index(), a.index());
    assert_eq!(*b.get(&pool).unwrap(), 41);
}

#[test]
fn slot_pool_new_from_slots() {
    let slots: Vec<Slot<u64>> = vec![Slot::default(), Slot::default()];
    let mut pool = SlotPool::new(slots);
    assert_eq!(pool.capacity(), 2);
    assert_eq!(pool.len(), 0);
    let a = pool.insert(8).unwrap();
    assert_eq!(*a.get(&pool).unwrap(), 8);
}

#[test]
fn cell_vec_init_and_reuse() {
    let mut pool: CellVec<StringCell> = CellVec::with_capacity(3);
    assert_eq!(pool.capacity(), 3);
    pool.init(|i| StringCell::new(if i == 0 { "zero" } else { "other" }));
    let a = pool.allocate().unwrap();
    assert_eq!(a.index(), 0);
    assert_eq!(a.get(&pool).unwrap().get(), "zero");
    // removal resets the stored string in place via its Clear capability
    pool.remove(&a);
    assert!(!a.is_valid(&pool));
    let b = pool.allocate().unwrap();
    assert_eq!(b.index(), 0);
    assert_eq!(b.get(&pool).unwrap().get(), "");
}

#[test]
fn cell_vec_iteration_and_clear() {
    let mut pool: CellVec<StringCell> = CellVec::with_capacity(4);
    pool.init(|_| StringCell::new("x"));
    let r0 = pool.allocate().unwrap();
    let _r1 = pool.allocate().unwrap();
    assert_eq!(pool.len(), 2);
    assert_eq!(pool.iter().len(), 2);
    pool.remove(&r0);
    assert_eq!(pool.iter().len(), 1);
    pool.clear();
    assert_eq!(pool.len(), 0);
    assert_eq!(pool.capacity(), 4);
    assert_eq!(pool.iter().len(), 0);
}

#[test]
fn zero_capacity_arena() {
    let mut pool: RcPool<u64> = RcPool::new_vec(0);
    assert_eq!(pool.capacity(), 0);
    assert!(pool.is_empty());
    assert!(pool.insert(1).is_none());
    pool.clear();
    assert_eq!(pool.len(), 0);
}

#[test]
fn generations_grow_across_clear() {
    let mut pool: SlotPool<u64> = SlotPool::new_vec(2);
    let a = pool.insert(1).unwrap();
    pool.remove(&a);
    let b = pool.insert(2).unwrap();
    pool.clear();
    let c = pool.insert(3).unwrap();
    // same slot as before, but references stay distinguishable
    assert_eq!(a.index(), 0);
    assert_eq!(b.index(), 0);
    assert_eq!(c.index(), 0);
    assert!(!a.is_valid(&pool));
    assert!(!b.is_valid(&pool));
    assert!(c.is_valid(&pool));
    assert_ne!(a, c);
    assert_ne!(b, c);
}

#[test]
fn slot_pool_replace_refreshes_storage() {
    let mut pool: SlotPool<u64> = SlotPool::new_vec(2);
    let a = pool.insert(1).unwrap();
    pool.remove(&a);
    let b = pool.insert(2).unwrap();
    // the reused slot still holds the first value; the holder refreshes it
    assert_eq!(*b.get(&pool).unwrap(), 1);
    assert_eq!(pool.replace(&b, 5), Some(1));
    assert_eq!(*b.get(&pool).unwrap(), 5);
    // a stale reference cannot refresh anything
    assert_eq!(pool.replace(&a, 9), None);
    assert_eq!(*b.get(&pool).unwrap(), 5);
}

#[test]
fn out_of_range_access_is_absent() {
    let mut pool: RcPool<u64> = RcPool::new_vec(2);
    let a = pool.insert(3).unwrap();
    assert!(pool.get(0).is_some());
    assert!(pool.get(1).is_none());
    assert!(pool.get(100).is_none());
    assert!(!pool.is_empty());
    pool.release(a);
}

#[test]
fn iter_reflects_insert_order_by_index() {
    let mut pool: SlotPool<u64> = SlotPool::new_vec(3);
    let a = pool.insert(7).unwrap();
    let _b = pool.insert(8).unwrap();
    pool.remove(&a);
    // slot 0 is free, slot 1 live: iteration yields index order of live slots
    let seen: Vec<u64> = pool.iter().into_iter().copied().collect();
    assert_eq!(seen, vec![8]);
    let c = pool.insert(9).unwrap();
    assert_eq!(c.index(), 0);
    // the persistent slot 0 still holds its first value
    let seen: Vec<u64> = pool.iter().into_iter().copied().collect();
    assert_eq!(seen, vec![7, 8]);
}
