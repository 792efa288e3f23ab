use smmu::cache::{
    CacheEntry, CacheKey, CacheKeyHash, FxBuildHasher, ReplacementPolicy, StreamPASIDKey, StreamPASIDKeyHash,
    TlbCache, MAX_TLB_CAPACITY,
};
use smmu::types::{PagePermissions, SecurityState, StreamID, IOVA, PA, PASID};
use std::hash::{BuildHasher, Hasher};

fn key(stream: u32, pasid: u32, iova: u64) -> CacheKey {
    CacheKey::new(StreamID::new(stream).unwrap(), PASID::new(pasid).unwrap(), IOVA::new(iova).unwrap(), SecurityState::NonSecure)
}

fn entry(iova: u64, pa: u64) -> CacheEntry {
    CacheEntry::new(IOVA::new(iova).unwrap(), PA::new(pa).unwrap(), PagePermissions::read_write(), 0)
}

fn tagged(iova: u64, asid: u16, vmid: u16, ipa: u64) -> CacheEntry {
    let mut e = CacheEntry::new_with_tags(
        IOVA::new(iova).unwrap(),
        PA::new(iova + 0x10_0000).unwrap(),
        PagePermissions::read_only(),
        SecurityState::NonSecure,
        asid,
        vmid,
        7,
    );
    e.ipa = ipa;
    e
}

#[test]
fn law_lookup_finds_inserted_lru() {
    let mut cache = TlbCache::new(2, ReplacementPolicy::Lru);
    cache.insert(key(1, 0, 0x1000), entry(0x1000, 0xA000));
    cache.insert(key(2, 0, 0x2000), entry(0x2000, 0xB000));
    // Full: inserting a third key evicts the oldest stamp, never the new entry.
    cache.insert(key(3, 0, 0x3000), entry(0x3000, 0xC000));
    let found = cache.lookup(&key(3, 0, 0x3000)).unwrap();
    assert_eq!(found.physical_address, PA::new(0xC000).unwrap());
    // The insertion stamped the entry with 2; the lookup stamps it with the clock, now 3.
    assert_eq!(found.timestamp, 3);
    assert_eq!(cache.len(), 2);
}

#[test]
fn law_lookup_finds_inserted_fifo_with_room() {
    let mut cache = TlbCache::new(4, ReplacementPolicy::Fifo);
    cache.insert(key(1, 0, 0x1000), entry(0x1000, 0xA000));
    cache.insert(key(2, 0, 0x2000), entry(0x2000, 0xB000));
    let found = cache.lookup(&key(2, 0, 0x2000)).unwrap();
    assert_eq!(found.physical_address, PA::new(0xB000).unwrap());
    assert_eq!(found.timestamp, 1);
}

#[test]
fn law_insert_replaces_same_key_without_eviction() {
    let mut cache = TlbCache::new(1, ReplacementPolicy::Lru);
    cache.insert(key(1, 0, 0x1000), entry(0x1000, 0xA000));
    cache.insert(key(1, 0, 0x1000), entry(0x1000, 0xD000));
    assert_eq!(cache.len(), 1);
    assert_eq!(cache.statistics().get_evictions(), 0);
    assert_eq!(cache.lookup(&key(1, 0, 0x1000)).unwrap().physical_address, PA::new(0xD000).unwrap());
}

#[test]
fn law_capacity_never_exceeded() {
    for policy in [ReplacementPolicy::Lru, ReplacementPolicy::Fifo] {
        let mut cache = TlbCache::new(3, policy);
        for i in 0..20u32 {
            cache.insert(key(i, 0, u64::from(i) * 0x1000), entry(u64::from(i) * 0x1000, 0x8000));
            assert!(cache.len() <= 3);
        }
        assert_eq!(cache.len(), 3);
        assert_eq!(cache.statistics().get_evictions(), 17);
        assert_eq!(cache.statistics().get_insertions(), 20);
    }
}

#[test]
fn law_lru_evicts_least_recently_used() {
    let mut cache = TlbCache::new(3, ReplacementPolicy::Lru);
    cache.insert(key(1, 0, 0x1000), entry(0x1000, 0xA000)); // stamp 0
    cache.insert(key(2, 0, 0x2000), entry(0x2000, 0xB000)); // stamp 1
    cache.insert(key(3, 0, 0x3000), entry(0x3000, 0xC000)); // stamp 2
    assert!(cache.lookup(&key(1, 0, 0x1000)).is_some()); // key 1 refreshed to stamp 3
    cache.insert(key(4, 0, 0x4000), entry(0x4000, 0xD000)); // evicts key 2 (stamp 1)
    assert!(cache.lookup(&key(2, 0, 0x2000)).is_none());
    assert!(cache.lookup(&key(1, 0, 0x1000)).is_some());
    assert!(cache.lookup(&key(3, 0, 0x3000)).is_some());
    assert!(cache.lookup(&key(4, 0, 0x4000)).is_some());
}

#[test]
fn law_lookups_equal_hits_plus_misses() {
    let mut cache = TlbCache::new(8, ReplacementPolicy::Lru);
    cache.insert(key(1, 0, 0x1000), entry(0x1000, 0xA000));
    for i in 0..10u32 {
        let _ = cache.lookup(&key(i % 3, 0, 0x1000));
        let s = cache.statistics();
        assert_eq!(s.get_lookups(), s.get_hits() + s.get_misses());
    }
    assert_eq!(cache.statistics().get_hits(), 3);
    cache.clear_statistics();
    let s = cache.statistics();
    assert_eq!((s.get_lookups(), s.get_hits(), s.get_misses()), (0, 0, 0));
}

#[test]
fn law_invalidation_removes_exactly_the_scope() {
    let mut cache = TlbCache::new(16, ReplacementPolicy::Lru);
    cache.insert(key(1, 1, 0x1000), tagged(0x1000, 5, 9, 0));
    cache.insert(key(1, 2, 0x2000), tagged(0x2000, 5, 8, 0x4000));
    cache.insert(key(2, 1, 0x3000), tagged(0x3000, 6, 9, 0x5000));
    cache.insert(key(2, 2, 0x4000), tagged(0x4000, 6, 8, 0));

    cache.invalidate_by_asid(5);
    assert_eq!(cache.len(), 2);
    assert!(cache.lookup(&key(1, 1, 0x1000)).is_none());
    assert!(cache.lookup(&key(1, 2, 0x2000)).is_none());
    assert!(cache.lookup(&key(2, 1, 0x3000)).is_some());
    assert!(cache.lookup(&key(2, 2, 0x4000)).is_some());
    assert_eq!(cache.statistics().get_invalidations(), 2);
}

#[test]
fn test_invalidate_by_vmid_only_matching() {
    let mut cache = TlbCache::new(16, ReplacementPolicy::Lru);
    cache.insert(key(1, 0, 0x1000), tagged(0x1000, 1, 9, 0));
    cache.insert(key(2, 0, 0x2000), tagged(0x2000, 1, 8, 0));
    cache.invalidate_by_vmid(9);
    assert_eq!(cache.len(), 1);
    assert!(cache.lookup(&key(2, 0, 0x2000)).is_some());
}

#[test]
fn test_invalidate_by_vmid_and_asid_needs_both() {
    let mut cache = TlbCache::new(16, ReplacementPolicy::Lru);
    cache.insert(key(1, 0, 0x1000), tagged(0x1000, 1, 9, 0));
    cache.insert(key(2, 0, 0x2000), tagged(0x2000, 2, 9, 0));
    cache.insert(key(3, 0, 0x3000), tagged(0x3000, 1, 8, 0));
    cache.invalidate_by_vmid_and_asid(9, 1);
    assert_eq!(cache.len(), 2);
    assert!(cache.lookup(&key(1, 0, 0x1000)).is_none());
}

#[test]
fn test_invalidate_by_va_and_asid_ignores_page_offset() {
    let mut cache = TlbCache::new(16, ReplacementPolicy::Lru);
    cache.insert(key(1, 0, 0x5000), tagged(0x5123, 3, 0, 0));
    cache.insert(key(2, 0, 0x6000), tagged(0x6000, 3, 0, 0));
    cache.insert(key(3, 0, 0x5000), tagged(0x5000, 4, 0, 0));
    cache.invalidate_by_va_and_asid(0x5FFF, 3);
    assert_eq!(cache.len(), 2);
    assert!(cache.lookup(&key(1, 0, 0x5000)).is_none());
    assert!(cache.lookup(&key(3, 0, 0x5000)).is_some());
}

#[test]
fn test_invalidate_by_va_any_asid() {
    let mut cache = TlbCache::new(16, ReplacementPolicy::Lru);
    cache.insert(key(1, 0, 0x5000), tagged(0x5000, 3, 0, 0));
    cache.insert(key(2, 0, 0x5000), tagged(0x5800, 4, 0, 0));
    cache.insert(key(3, 0, 0x6000), tagged(0x6000, 4, 0, 0));
    cache.invalidate_by_va(0x5001);
    assert_eq!(cache.len(), 1);
    assert!(cache.lookup(&key(3, 0, 0x6000)).is_some());
}

#[test]
fn test_invalidate_by_va_range_and_asid_inclusive() {
    let mut cache = TlbCache::new(16, ReplacementPolicy::Lru);
    for i in 0..6u64 {
        cache.insert(key(i as u32, 0, i * 0x1000), tagged(i * 0x1000, 2, 0, 0));
    }
    cache.insert(key(9, 0, 0x2000), tagged(0x2000, 3, 0, 0));
    cache.invalidate_by_va_range_and_asid(0x1000, 0x3000, 2);
    assert_eq!(cache.len(), 4);
    assert_eq!(cache.statistics().get_invalidations(), 3);
}

#[test]
fn test_invalidate_by_vmid_with_mask() {
    let mut cache = TlbCache::new(16, ReplacementPolicy::Lru);
    cache.insert(key(1, 0, 0x1000), tagged(0x1000, 0, 0x12, 0));
    cache.insert(key(2, 0, 0x2000), tagged(0x2000, 0, 0x13, 0));
    cache.insert(key(3, 0, 0x3000), tagged(0x3000, 0, 0x22, 0));
    // Mask 0xFFF0: VMIDs 0x10..=0x1F match 0x15.
    cache.invalidate_by_vmid_with_mask(0x15, 0xFFF0);
    assert_eq!(cache.len(), 1);
    // Mask 0 matches every VMID.
    cache.invalidate_by_vmid_with_mask(0x99, 0);
    assert!(cache.is_empty());
}

#[test]
fn test_invalidate_by_vmid_and_ipa_skips_single_stage() {
    let mut cache = TlbCache::new(16, ReplacementPolicy::Lru);
    cache.insert(key(1, 0, 0x1000), tagged(0x1000, 0, 4, 0));
    cache.insert(key(2, 0, 0x2000), tagged(0x2000, 0, 4, 0x8000));
    cache.insert(key(3, 0, 0x3000), tagged(0x3000, 0, 4, 0x9000));
    cache.insert(key(4, 0, 0x4000), tagged(0x4000, 0, 5, 0x8000));
    cache.invalidate_by_vmid_and_ipa(4, 0xFFFF, 0, 0x8FFF);
    assert_eq!(cache.len(), 3);
    assert!(cache.lookup(&key(2, 0, 0x2000)).is_none());
    assert!(cache.lookup(&key(1, 0, 0x1000)).is_some());
}

#[test]
fn test_invalidate_by_va_range_key_address() {
    let mut cache = TlbCache::new(16, ReplacementPolicy::Fifo);
    cache.insert(key(1, 2, 0x1000), entry(0x1000, 0xA000));
    cache.insert(key(1, 3, 0x1000), entry(0x1000, 0xA000));
    cache.invalidate_by_va_range(
        StreamID::new(1).unwrap(),
        PASID::new(2).unwrap(),
        IOVA::new(0x1000).unwrap(),
        IOVA::new(0x1000).unwrap(),
    );
    assert_eq!(cache.len(), 1);
    assert!(cache.lookup(&key(1, 3, 0x1000)).is_some());
}

#[test]
fn test_invalidate_all_counts_every_entry() {
    let mut cache = TlbCache::new(16, ReplacementPolicy::Lru);
    for i in 0..5u32 {
        cache.insert(key(i, 0, 0x1000), entry(0x1000, 0xA000));
    }
    cache.invalidate_all();
    cache.invalidate_all();
    assert!(cache.is_empty());
    assert_eq!(cache.statistics().get_invalidations(), 5);
}

#[test]
fn test_fifo_lookup_keeps_stamp() {
    let mut cache = TlbCache::new(4, ReplacementPolicy::Fifo);
    cache.insert(key(1, 0, 0x1000), entry(0x1000, 0xA000));
    cache.insert(key(2, 0, 0x2000), entry(0x2000, 0xB000));
    assert_eq!(cache.lookup(&key(1, 0, 0x1000)).unwrap().timestamp, 0);
    assert_eq!(cache.lookup(&key(1, 0, 0x1000)).unwrap().timestamp, 0);
}

#[test]
fn test_max_tlb_capacity_accepted() {
    let cache = TlbCache::new(MAX_TLB_CAPACITY, ReplacementPolicy::Lru);
    assert_eq!(cache.capacity(), MAX_TLB_CAPACITY);
    assert!(cache.is_empty());
}

#[test]
fn law_hash_ignores_page_offset() {
    for offset in [0u64, 1, 0x800, 0xFFF] {
        assert_eq!(CacheKeyHash::hash(&key(7, 9, 0x4000 + offset)), CacheKeyHash::hash(&key(7, 9, 0x4000)));
    }
    assert_ne!(CacheKeyHash::hash(&key(7, 9, 0x4000)), CacheKeyHash::hash(&key(7, 9, 0x5000)));
}

#[test]
fn test_cache_key_hash_exact_value_for_zero_key() {
    // All-zero key: the sum is 0, xored with the FNV offset basis, then finalised.
    let mut h: u64 = 0xcbf2_9ce4_8422_2325;
    h ^= h >> 33;
    h = h.wrapping_mul(0xff51_afd7_ed55_8ccd);
    h ^= h >> 33;
    h = h.wrapping_mul(0xc4ce_b9fe_1a85_ec53);
    h ^= h >> 33;
    assert_eq!(CacheKeyHash::hash(&key(0, 0, 0)), h);
}

#[test]
fn test_stream_pasid_hash_exact_value() {
    let k = StreamPASIDKey::new(StreamID::new(0).unwrap(), PASID::new(0).unwrap());
    let mut h: u64 = 0xdead_beef;
    h ^= h >> 33;
    h = h.wrapping_mul(0xff51_afd7_ed55_8ccd);
    h ^= h >> 33;
    assert_eq!(StreamPASIDKeyHash::hash(&k), h);
}

fn mixed(state: u64, word: u64) -> u64 {
    let a = (state ^ word).wrapping_mul(0xff51_afd7_ed55_8ccd);
    a ^ (a >> 33)
}

#[test]
fn test_fx_hasher_word_mixing() {
    let mut h = FxBuildHasher.build_hasher();
    assert_eq!(h.finish(), 0);
    h.write_u64(0x1234);
    assert_eq!(h.finish(), mixed(0, 0x1234));
    h.write_u32(7);
    assert_eq!(h.finish(), mixed(mixed(0, 0x1234), 7));
}

#[test]
fn test_fx_hasher_bytes_are_native_words() {
    let word: u64 = 0x0102_0304_0506_0708;
    let mut by_bytes = FxBuildHasher.build_hasher();
    by_bytes.write(&word.to_ne_bytes());
    let mut by_word = FxBuildHasher.build_hasher();
    by_word.write_u64(word);
    assert_eq!(by_bytes.finish(), by_word.finish());
    assert_ne!(by_bytes.finish(), 0);
}

#[test]
fn test_fx_hasher_tail_is_zero_padded() {
    let mut by_bytes = FxBuildHasher.build_hasher();
    by_bytes.write(&[1, 2, 3, 4, 5, 6, 7, 8, 9, 10, 11]);
    let first = u64::from_ne_bytes([1, 2, 3, 4, 5, 6, 7, 8]);
    let tail = u64::from_ne_bytes([9, 10, 11, 0, 0, 0, 0, 0]);
    assert_eq!(by_bytes.finish(), mixed(mixed(0, first), tail));
    let mut empty = FxBuildHasher.build_hasher();
    empty.write(&[]);
    assert_eq!(empty.finish(), 0);
}

#[test]
fn law_fifo_evicts_earliest_inserted() {
    let mut cache = TlbCache::new(3, ReplacementPolicy::Fifo);
    for i in 0..3u32 {
        cache.insert(key(i, 0, u64::from(i) * 0x1000), entry(u64::from(i) * 0x1000, u64::from(i) * 0x2000));
    }
    // Lookups do not refresh FIFO stamps.
    assert!(cache.lookup(&key(0, 0, 0)).is_some());
    cache.insert(key(3, 0, 0x3000), entry(0x3000, 0x6000));
    assert_eq!(cache.len(), 3);
    assert_eq!(cache.statistics().get_evictions(), 1);
    assert!(cache.lookup(&key(0, 0, 0)).is_none());
    for i in 1..4u32 {
        assert!(cache.lookup(&key(i, 0, u64::from(i) * 0x1000)).is_some());
    }
}

#[test]
fn test_large_capacity_accepted() {
    let cache = TlbCache::new(usize::MAX, ReplacementPolicy::Lru);
    assert_eq!(cache.capacity(), usize::MAX);
    assert!(cache.is_empty());
}
