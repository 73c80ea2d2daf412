use enclave::memory::hot_cache::HOT_CACHE_MAX;
use enclave::memory::memory_enclave::SealContext;
use enclave::memory::pool::{
    coffer_view, hot_cache_evict, hot_cache_get, hot_cache_insert, pool_acquire, pool_release,
    Pool, PoolSlot,
};
use enclave::memory::slab::{DEFAULT_SLOT_SIZE, SLOT_WAIT_TIMEOUT_MILLIS};
use enclave::secret::SecretBytes;

fn pool() -> Pool {
    Pool::new().unwrap()
}

fn acquire(pool: &mut Pool, size: usize) -> PoolSlot {
    pool_acquire(pool, size, 0).unwrap().unwrap()
}

#[test]
fn pool_acquire_small_uses_slab() {
    let slot = acquire(&mut pool(), 16);
    assert!(slot.slab_index().is_some());
    assert_eq!(slot.size(), DEFAULT_SLOT_SIZE);
}

#[test]
fn pool_acquire_large_uses_standalone() {
    let slot = acquire(&mut pool(), 8192);
    assert!(slot.slab_index().is_none());
    assert_eq!(slot.size(), 8192);
}

#[test]
fn pool_acquire_zero_uses_slab() {
    // size 0 <= slot_size, so it should use the slab.
    let slot = acquire(&mut pool(), 0);
    assert!(slot.slab_index().is_some());
}

#[test]
fn pool_slot_write_and_read() {
    let mut slot = acquire(&mut pool(), 16);
    let data = b"test data 12345!";
    // slot.size() may be larger than 16 (slab slot size is DEFAULT_SLOT_SIZE).
    slot.bytes()[..data.len()].copy_from_slice(data);
    assert_eq!(&slot.as_slice()[..data.len()], data);
}

#[test]
fn hot_cache_insert_get_evict() {
    let mut pool = pool();
    let plaintext = SecretBytes::new(b"cached secret".to_vec());
    hot_cache_insert(&mut pool, 9999, plaintext.duplicate());
    let got = hot_cache_get(&mut pool, 9999).unwrap();
    assert_eq!(got.as_slice(), plaintext.as_slice());
    hot_cache_evict(&mut pool, 9999);
    assert!(hot_cache_get(&mut pool, 9999).is_none());
}

#[test]
fn hot_cache_eviction_at_capacity() {
    let mut pool = pool();
    // Insert HOT_CACHE_MAX + 1 entries; the first should be evicted.
    for i in 0_u64..=(HOT_CACHE_MAX as u64) {
        let pt = SecretBytes::new(vec![i as u8; 4]);
        hot_cache_insert(&mut pool, 10000 + i, pt);
    }
    // Entry 0 should have been evicted (LRU).
    assert!(hot_cache_get(&mut pool, 10000).is_none());
    // Entry HOT_CACHE_MAX should still be present.
    assert!(hot_cache_get(&mut pool, 10000 + HOT_CACHE_MAX as u64).is_some());
    // Clean up.
    for i in 1_u64..=(HOT_CACHE_MAX as u64) {
        hot_cache_evict(&mut pool, 10000 + i);
    }
}

#[test]
fn coffer_view_returns_key_sized_slot() {
    let mut pool = pool();
    let mut ctx = SealContext::generate(1).unwrap();
    let slot = coffer_view(&mut pool, &mut ctx, 0).unwrap().unwrap();
    assert_eq!(slot.size(), 32);
    assert!(slot.slab_index().is_some());
    assert_eq!(slot.as_slice(), ctx.master_key().unwrap().as_slice());
}

#[test]
fn lookup_keeps_an_entry_alive() {
    let mut pool = pool();
    for i in 0_u64..HOT_CACHE_MAX as u64 {
        hot_cache_insert(&mut pool, i, SecretBytes::new(vec![i as u8]));
    }
    assert_eq!(hot_cache_get(&mut pool, 0).unwrap().as_slice(), &[0]);
    hot_cache_insert(&mut pool, 100, SecretBytes::new(vec![100]));
    assert!(hot_cache_get(&mut pool, 0).is_some());
    assert!(hot_cache_get(&mut pool, 1).is_none());
}

#[test]
fn inserting_again_replaces() {
    let mut pool = pool();
    for i in 0_u64..HOT_CACHE_MAX as u64 {
        hot_cache_insert(&mut pool, i, SecretBytes::new(vec![i as u8]));
    }
    hot_cache_insert(&mut pool, 3, SecretBytes::new(vec![33]));
    assert_eq!(hot_cache_get(&mut pool, 3).unwrap().as_slice(), &[33]);
    for i in 0_u64..HOT_CACHE_MAX as u64 {
        assert!(hot_cache_get(&mut pool, i).is_some());
    }
}

#[test]
fn loans_have_distinct_slots_and_come_back_clean() {
    let mut pool = pool();
    let mut a = acquire(&mut pool, 32);
    let b = acquire(&mut pool, 32);
    assert_eq!(a.slab_index(), Some(0));
    assert_eq!(b.slab_index(), Some(1));
    a.bytes().fill(0xee);
    assert!(pool_release(&mut pool, a).is_none());
    let again = acquire(&mut pool, 32);
    assert_eq!(again.slab_index(), Some(0));
    assert_eq!(again.as_slice(), &[0_u8; 32]);
}

#[test]
fn exhausted_slab_waits_and_then_falls_back() {
    let mut pool = pool();
    let mut held = Vec::new();
    for i in 0..128 {
        let slot = acquire(&mut pool, 1);
        assert_eq!(slot.slab_index(), Some(i));
        held.push(slot);
    }
    assert!(pool_acquire(&mut pool, 1, 0).unwrap().is_none());
    assert!(pool_acquire(&mut pool, 1, SLOT_WAIT_TIMEOUT_MILLIS - 1)
        .unwrap()
        .is_none());
    let slot = pool_acquire(&mut pool, 5, SLOT_WAIT_TIMEOUT_MILLIS)
        .unwrap()
        .unwrap();
    assert!(slot.slab_index().is_none());
    assert_eq!(slot.size(), 5);
    let mut slot = slot;
    slot.fill(b"fives");
    let (intact, region) = pool_release(&mut pool, slot).unwrap();
    assert!(intact);
    assert!(region.as_slice().iter().all(|&b| b == 0));
    assert_eq!(region.as_slice().len(), 3 * 4096);
    // A large request never waits.
    assert!(pool_acquire(&mut pool, 33, 0).unwrap().is_some());
    pool_release(&mut pool, held.pop().unwrap());
    assert_eq!(acquire(&mut pool, 1).slab_index(), Some(127));
}

#[test]
fn slot_description() {
    assert_eq!(acquire(&mut pool(), 4).debug_text(), "PoolSlot { len: 32 }");
    assert_eq!(acquire(&mut pool(), 100).debug_text(), "PoolSlot { len: 100 }");
}

#[test]
fn absurd_sizes_are_refused() {
    assert!(pool_acquire(&mut pool(), usize::MAX, 0).is_err());
    assert!(pool_acquire(&mut pool(), isize::MAX as usize, 0).is_err());
}
