use std::collections::{HashMap, HashSet};
use smmu::cache::{
    CacheEntry, CacheKey, CacheKeyHash, CacheStatistics, ReplacementPolicy, StreamPASIDKey, StreamPASIDKeyHash,
    TlbCache,
};
use smmu::types::{PagePermissions, SecurityState, StreamID, IOVA, PA, PASID};

/// Hit rate in percent, 0 when nothing was looked up.
fn hit_rate(stats: &CacheStatistics) -> f64 {
    if stats.get_lookups() == 0 {
        0.0
    } else {
        (stats.get_hits() as f64 / stats.get_lookups() as f64) * 100.0
    }
}

/// Miss rate in percent, 0 when nothing was looked up.
fn miss_rate(stats: &CacheStatistics) -> f64 {
    if stats.get_lookups() == 0 {
        0.0
    } else {
        (stats.get_misses() as f64 / stats.get_lookups() as f64) * 100.0
    }
}

// ------------------------------------------------------------------------
// CacheEntry Tests (30+ tests)
// ------------------------------------------------------------------------

#[test]
fn test_cache_entry_default_construction() {
    let entry = CacheEntry::default();
    assert_eq!(entry.iova.as_u64(), 0);
    assert_eq!(entry.physical_address.as_u64(), 0);
    assert_eq!(entry.permissions, PagePermissions::none());
    assert_eq!(entry.security_state, SecurityState::NonSecure);
    assert_eq!(entry.timestamp, 0);
}

#[test]
fn test_cache_entry_new_default_security() {
    let iova = IOVA::new(0x1000).unwrap();
    let pa = PA::new(0x2000).unwrap();
    let perms = PagePermissions::read_only();

    let entry = CacheEntry::new(iova, pa, perms, 42);

    assert_eq!(entry.iova, iova);
    assert_eq!(entry.physical_address, pa);
    assert_eq!(entry.permissions, perms);
    assert_eq!(entry.security_state, SecurityState::NonSecure);
    assert_eq!(entry.timestamp, 42);
}

#[test]
fn test_cache_entry_new_with_security_nonsecure() {
    let iova = IOVA::new(0x3000).unwrap();
    let pa = PA::new(0x4000).unwrap();
    let perms = PagePermissions::read_write();

    let entry = CacheEntry::new_with_security(iova, pa, perms, SecurityState::NonSecure, 100);

    assert_eq!(entry.security_state, SecurityState::NonSecure);
    assert_eq!(entry.timestamp, 100);
}

#[test]
fn test_cache_entry_new_with_security_secure() {
    let iova = IOVA::new(0x5000).unwrap();
    let pa = PA::new(0x6000).unwrap();
    let perms = PagePermissions::all();

    let entry = CacheEntry::new_with_security(iova, pa, perms, SecurityState::Secure, 200);

    assert_eq!(entry.security_state, SecurityState::Secure);
    assert_eq!(entry.timestamp, 200);
}

#[test]
fn test_cache_entry_new_with_security_realm() {
    let iova = IOVA::new(0x7000).unwrap();
    let pa = PA::new(0x8000).unwrap();
    let perms = PagePermissions::read_execute();

    let entry = CacheEntry::new_with_security(iova, pa, perms, SecurityState::Realm, 300);

    assert_eq!(entry.security_state, SecurityState::Realm);
    assert_eq!(entry.timestamp, 300);
}

#[test]
fn test_cache_entry_copy_semantics() {
    let entry1 = CacheEntry::default();
    let entry2 = entry1; // Should copy, not move

    // Both should be usable
    assert_eq!(entry1.timestamp, 0);
    assert_eq!(entry2.timestamp, 0);
}

#[test]
fn test_cache_entry_clone_semantics() {
    let entry1 = CacheEntry::default();
    let entry2 = entry1.clone();

    assert_eq!(entry1, entry2);
}

#[test]
fn test_cache_entry_equality() {
    let iova = IOVA::new(0x1000).unwrap();
    let pa = PA::new(0x2000).unwrap();
    let perms = PagePermissions::read_only();

    let entry1 = CacheEntry::new(iova, pa, perms, 42);
    let entry2 = CacheEntry::new(iova, pa, perms, 42);

    assert_eq!(entry1, entry2);
}

#[test]
fn test_cache_entry_inequality_different_iova() {
    let iova1 = IOVA::new(0x1000).unwrap();
    let iova2 = IOVA::new(0x2000).unwrap();
    let pa = PA::new(0x3000).unwrap();
    let perms = PagePermissions::read_only();

    let entry1 = CacheEntry::new(iova1, pa, perms, 42);
    let entry2 = CacheEntry::new(iova2, pa, perms, 42);

    assert_ne!(entry1, entry2);
}

#[test]
fn test_cache_entry_inequality_different_pa() {
    let iova = IOVA::new(0x1000).unwrap();
    let pa1 = PA::new(0x2000).unwrap();
    let pa2 = PA::new(0x3000).unwrap();
    let perms = PagePermissions::read_only();

    let entry1 = CacheEntry::new(iova, pa1, perms, 42);
    let entry2 = CacheEntry::new(iova, pa2, perms, 42);

    assert_ne!(entry1, entry2);
}

#[test]
fn test_cache_entry_inequality_different_permissions() {
    let iova = IOVA::new(0x1000).unwrap();
    let pa = PA::new(0x2000).unwrap();
    let perms1 = PagePermissions::read_only();
    let perms2 = PagePermissions::read_write();

    let entry1 = CacheEntry::new(iova, pa, perms1, 42);
    let entry2 = CacheEntry::new(iova, pa, perms2, 42);

    assert_ne!(entry1, entry2);
}

#[test]
fn test_cache_entry_inequality_different_security_state() {
    let iova = IOVA::new(0x1000).unwrap();
    let pa = PA::new(0x2000).unwrap();
    let perms = PagePermissions::read_only();

    let entry1 = CacheEntry::new_with_security(iova, pa, perms, SecurityState::NonSecure, 42);
    let entry2 = CacheEntry::new_with_security(iova, pa, perms, SecurityState::Secure, 42);

    assert_ne!(entry1, entry2);
}

#[test]
fn test_cache_entry_inequality_different_timestamp() {
    let iova = IOVA::new(0x1000).unwrap();
    let pa = PA::new(0x2000).unwrap();
    let perms = PagePermissions::read_only();

    let entry1 = CacheEntry::new(iova, pa, perms, 42);
    let entry2 = CacheEntry::new(iova, pa, perms, 100);

    assert_ne!(entry1, entry2);
}

#[test]
fn test_cache_entry_debug_format() {
    let entry = CacheEntry::default();
    let debug_str = format!("{entry:?}");
    assert!(debug_str.contains("CacheEntry"));
}

#[test]
fn test_cache_entry_large_addresses() {
    let iova = IOVA::new(0xFFFF_FFFF_F000).unwrap();
    let pa = PA::new(0xFFFF_FFFF_E000).unwrap();
    let perms = PagePermissions::read_write();

    let entry = CacheEntry::new(iova, pa, perms, u64::MAX);

    assert_eq!(entry.iova.as_u64(), 0xFFFF_FFFF_F000);
    assert_eq!(entry.physical_address.as_u64(), 0xFFFF_FFFF_E000);
    assert_eq!(entry.timestamp, u64::MAX);
}

#[test]
fn test_cache_entry_zero_timestamp() {
    let entry = CacheEntry::default();
    assert_eq!(entry.timestamp, 0);
}

#[test]
fn test_cache_entry_max_timestamp() {
    let iova = IOVA::new(0x1000).unwrap();
    let pa = PA::new(0x2000).unwrap();
    let perms = PagePermissions::read_only();

    let entry = CacheEntry::new(iova, pa, perms, u64::MAX);
    assert_eq!(entry.timestamp, u64::MAX);
}

#[test]
fn test_cache_entry_permissions_none() {
    let entry = CacheEntry::default();
    assert_eq!(entry.permissions, PagePermissions::none());
}

#[test]
fn test_cache_entry_permissions_read_only() {
    let iova = IOVA::new(0x1000).unwrap();
    let pa = PA::new(0x2000).unwrap();
    let perms = PagePermissions::read_only();

    let entry = CacheEntry::new(iova, pa, perms, 0);
    assert_eq!(entry.permissions, PagePermissions::read_only());
}

#[test]
fn test_cache_entry_permissions_write_only() {
    let iova = IOVA::new(0x1000).unwrap();
    let pa = PA::new(0x2000).unwrap();
    let perms = PagePermissions::write_only();

    let entry = CacheEntry::new(iova, pa, perms, 0);
    assert_eq!(entry.permissions, PagePermissions::write_only());
}

#[test]
fn test_cache_entry_permissions_execute_only() {
    let iova = IOVA::new(0x1000).unwrap();
    let pa = PA::new(0x2000).unwrap();
    let perms = PagePermissions::new(false, false, true);

    let entry = CacheEntry::new(iova, pa, perms, 0);
    assert!(!entry.permissions.read());
    assert!(!entry.permissions.write());
    assert!(entry.permissions.execute());
}

#[test]
fn test_cache_entry_permissions_read_write() {
    let iova = IOVA::new(0x1000).unwrap();
    let pa = PA::new(0x2000).unwrap();
    let perms = PagePermissions::read_write();

    let entry = CacheEntry::new(iova, pa, perms, 0);
    assert_eq!(entry.permissions, PagePermissions::read_write());
}

#[test]
fn test_cache_entry_permissions_read_execute() {
    let iova = IOVA::new(0x1000).unwrap();
    let pa = PA::new(0x2000).unwrap();
    let perms = PagePermissions::read_execute();

    let entry = CacheEntry::new(iova, pa, perms, 0);
    assert_eq!(entry.permissions, PagePermissions::read_execute());
}

#[test]
fn test_cache_entry_permissions_all() {
    let iova = IOVA::new(0x1000).unwrap();
    let pa = PA::new(0x2000).unwrap();
    let perms = PagePermissions::all();

    let entry = CacheEntry::new(iova, pa, perms, 0);
    assert_eq!(entry.permissions, PagePermissions::all());
}

#[test]
fn test_cache_entry_permissions_write_execute() {
    let iova = IOVA::new(0x1000).unwrap();
    let pa = PA::new(0x2000).unwrap();
    let perms = PagePermissions::new(false, true, true);

    let entry = CacheEntry::new(iova, pa, perms, 0);
    assert!(!entry.permissions.read());
    assert!(entry.permissions.write());
    assert!(entry.permissions.execute());
}

#[test]
fn test_cache_entry_const_new() {
    let entry_c: CacheEntry =
        CacheEntry::new(IOVA::const_new(0x1000), PA::const_new(0x2000), PagePermissions::none(), 42);

    assert_eq!(entry_c.iova.as_u64(), 0x1000);
    assert_eq!(entry_c.physical_address.as_u64(), 0x2000);
    assert_eq!(entry_c.timestamp, 42);
}

#[test]
fn test_cache_entry_const_new_with_security() {
    let entry_c: CacheEntry = CacheEntry::new_with_security(
        IOVA::const_new(0x1000),
        PA::const_new(0x2000),
        PagePermissions::none(),
        SecurityState::Secure,
        100,
    );

    assert_eq!(entry_c.security_state, SecurityState::Secure);
    assert_eq!(entry_c.timestamp, 100);
}

#[test]
fn test_cache_entry_multiple_copies() {
    let entry1 = CacheEntry::default();
    let entry2 = entry1;
    let entry3 = entry2;
    let entry4 = entry3;

    // All should be equal
    assert_eq!(entry1, entry2);
    assert_eq!(entry2, entry3);
    assert_eq!(entry3, entry4);
}

#[test]
fn test_cache_entry_page_aligned_addresses() {
    let iova = IOVA::new_page_aligned(0x1000).unwrap();
    let pa = PA::new_page_aligned(0x2000).unwrap();
    let perms = PagePermissions::read_only();

    let entry = CacheEntry::new(iova, pa, perms, 0);

    assert!(entry.iova.is_page_aligned());
    assert!(entry.physical_address.is_page_aligned());
}

#[test]
fn test_cache_entry_non_page_aligned_addresses() {
    // Cache entries can have non-page-aligned addresses (page offset preserved)
    let iova = IOVA::new(0x1234).unwrap();
    let pa = PA::new(0x5678).unwrap();
    let perms = PagePermissions::read_only();

    let entry = CacheEntry::new(iova, pa, perms, 0);

    assert_eq!(entry.iova.as_u64(), 0x1234);
    assert_eq!(entry.physical_address.as_u64(), 0x5678);
}

#[test]
fn test_cache_entry_security_state_values() {
    let iova = IOVA::new(0x1000).unwrap();
    let pa = PA::new(0x2000).unwrap();
    let perms = PagePermissions::read_only();

    // Test all three security states
    let entry_nonsecure = CacheEntry::new_with_security(iova, pa, perms, SecurityState::NonSecure, 0);
    let entry_secure = CacheEntry::new_with_security(iova, pa, perms, SecurityState::Secure, 0);
    let entry_realm = CacheEntry::new_with_security(iova, pa, perms, SecurityState::Realm, 0);

    assert_eq!(entry_nonsecure.security_state, SecurityState::NonSecure);
    assert_eq!(entry_secure.security_state, SecurityState::Secure);
    assert_eq!(entry_realm.security_state, SecurityState::Realm);
}

// ------------------------------------------------------------------------
// CacheKey Tests (15+ tests)
// ------------------------------------------------------------------------

#[test]
fn test_cache_key_new() {
    let stream_id = StreamID::new(100).unwrap();
    let pasid = PASID::new(200).unwrap();
    let iova = IOVA::new(0x1000).unwrap();

    let key = CacheKey::new(stream_id, pasid, iova, SecurityState::NonSecure);

    assert_eq!(key.stream_id, stream_id);
    assert_eq!(key.pasid, pasid);
    assert_eq!(key.iova, iova);
    assert_eq!(key.security_state, SecurityState::NonSecure);
}

#[test]
fn test_cache_key_equality_same_values() {
    let stream_id = StreamID::new(100).unwrap();
    let pasid = PASID::new(200).unwrap();
    let iova = IOVA::new(0x1000).unwrap();

    let key1 = CacheKey::new(stream_id, pasid, iova, SecurityState::NonSecure);
    let key2 = CacheKey::new(stream_id, pasid, iova, SecurityState::NonSecure);

    assert_eq!(key1, key2);
}

#[test]
fn test_cache_key_inequality_different_stream_id() {
    let stream1 = StreamID::new(100).unwrap();
    let stream2 = StreamID::new(200).unwrap();
    let pasid = PASID::new(300).unwrap();
    let iova = IOVA::new(0x1000).unwrap();

    let key1 = CacheKey::new(stream1, pasid, iova, SecurityState::NonSecure);
    let key2 = CacheKey::new(stream2, pasid, iova, SecurityState::NonSecure);

    assert_ne!(key1, key2);
}

#[test]
fn test_cache_key_inequality_different_pasid() {
    let stream_id = StreamID::new(100).unwrap();
    let pasid1 = PASID::new(200).unwrap();
    let pasid2 = PASID::new(300).unwrap();
    let iova = IOVA::new(0x1000).unwrap();

    let key1 = CacheKey::new(stream_id, pasid1, iova, SecurityState::NonSecure);
    let key2 = CacheKey::new(stream_id, pasid2, iova, SecurityState::NonSecure);

    assert_ne!(key1, key2);
}

#[test]
fn test_cache_key_inequality_different_iova() {
    let stream_id = StreamID::new(100).unwrap();
    let pasid = PASID::new(200).unwrap();
    let iova1 = IOVA::new(0x1000).unwrap();
    let iova2 = IOVA::new(0x2000).unwrap();

    let key1 = CacheKey::new(stream_id, pasid, iova1, SecurityState::NonSecure);
    let key2 = CacheKey::new(stream_id, pasid, iova2, SecurityState::NonSecure);

    assert_ne!(key1, key2);
}

#[test]
fn test_cache_key_inequality_different_security_state() {
    let stream_id = StreamID::new(100).unwrap();
    let pasid = PASID::new(200).unwrap();
    let iova = IOVA::new(0x1000).unwrap();

    let key1 = CacheKey::new(stream_id, pasid, iova, SecurityState::NonSecure);
    let key2 = CacheKey::new(stream_id, pasid, iova, SecurityState::Secure);

    assert_ne!(key1, key2);
}

#[test]
fn test_cache_key_copy_semantics() {
    let stream_id = StreamID::new(100).unwrap();
    let pasid = PASID::new(200).unwrap();
    let iova = IOVA::new(0x1000).unwrap();

    let key1 = CacheKey::new(stream_id, pasid, iova, SecurityState::NonSecure);
    let key2 = key1; // Should copy

    assert_eq!(key1, key2);
}

#[test]
fn test_cache_key_clone_semantics() {
    let stream_id = StreamID::new(100).unwrap();
    let pasid = PASID::new(200).unwrap();
    let iova = IOVA::new(0x1000).unwrap();

    let key1 = CacheKey::new(stream_id, pasid, iova, SecurityState::NonSecure);
    let key2 = key1.clone();

    assert_eq!(key1, key2);
}

#[test]
fn test_cache_key_debug_format() {
    let stream_id = StreamID::new(100).unwrap();
    let pasid = PASID::new(200).unwrap();
    let iova = IOVA::new(0x1000).unwrap();

    let key = CacheKey::new(stream_id, pasid, iova, SecurityState::NonSecure);
    let debug_str = format!("{key:?}");

    assert!(debug_str.contains("CacheKey"));
}

#[test]
fn test_cache_key_const_construction() {
    // Test that CacheKey::new is const
    let stream_id = StreamID::new(100).unwrap();
    let pasid = PASID::new(200).unwrap();
    let iova = IOVA::const_new(0x1000);

    let key = CacheKey::new(stream_id, pasid, iova, SecurityState::NonSecure);

    assert_eq!(key.stream_id.as_u32(), 100);
    assert_eq!(key.pasid.as_u32(), 200);
    assert_eq!(key.iova.as_u64(), 0x1000);
}

#[test]
fn test_cache_key_max_values() {
    let stream_id = StreamID::new(u32::from(u16::MAX)).unwrap();
    let pasid = PASID::new(0xF_FFFF).unwrap(); // 20-bit max
    let iova = IOVA::new(u64::MAX).unwrap();

    let key = CacheKey::new(stream_id, pasid, iova, SecurityState::Realm);

    assert_eq!(key.stream_id.as_u32(), u32::from(u16::MAX));
    assert_eq!(key.pasid.as_u32(), 0xF_FFFF);
    assert_eq!(key.iova.as_u64(), u64::MAX);
}

#[test]
fn test_cache_key_min_values() {
    let stream_id = StreamID::new(0).unwrap();
    let pasid = PASID::new(0).unwrap();
    let iova = IOVA::new(0).unwrap();

    let key = CacheKey::new(stream_id, pasid, iova, SecurityState::NonSecure);

    assert_eq!(key.stream_id.as_u32(), 0);
    assert_eq!(key.pasid.as_u32(), 0);
    assert_eq!(key.iova.as_u64(), 0);
}

#[test]
fn test_cache_key_page_aligned_iova() {
    let stream_id = StreamID::new(1).unwrap();
    let pasid = PASID::new(2).unwrap();
    let iova = IOVA::new_page_aligned(0x1000).unwrap();

    let key = CacheKey::new(stream_id, pasid, iova, SecurityState::NonSecure);

    assert!(key.iova.is_page_aligned());
}

#[test]
fn test_cache_key_all_security_states() {
    let stream_id = StreamID::new(1).unwrap();
    let pasid = PASID::new(2).unwrap();
    let iova = IOVA::new(0x1000).unwrap();

    let key_nonsecure = CacheKey::new(stream_id, pasid, iova, SecurityState::NonSecure);
    let key_secure = CacheKey::new(stream_id, pasid, iova, SecurityState::Secure);
    let key_realm = CacheKey::new(stream_id, pasid, iova, SecurityState::Realm);

    // All keys should be different
    assert_ne!(key_nonsecure, key_secure);
    assert_ne!(key_secure, key_realm);
    assert_ne!(key_nonsecure, key_realm);
}

#[test]
fn test_cache_key_hashability() {

    let stream_id = StreamID::new(100).unwrap();
    let pasid = PASID::new(200).unwrap();
    let iova = IOVA::new(0x1000).unwrap();

    let key = CacheKey::new(stream_id, pasid, iova, SecurityState::NonSecure);

    // Should be able to use as HashMap key
    let mut map = HashMap::new();
    map.insert(key, 42);

    assert_eq!(map.get(&key), Some(&42));
}

// ------------------------------------------------------------------------
// CacheKeyHash Tests (20+ tests)
// ------------------------------------------------------------------------

#[test]
fn test_cache_key_hash_uses_murmur_constants() {
    // Verify the hash uses the optimized murmur-like mixing constants
    // These constants provide good distribution with minimal operations
    const MIX_CONSTANT_1: u64 = 0xff51_afd7_ed55_8ccd;
    const MIX_CONSTANT_2: u64 = 0xc4ce_b9fe_1a85_ec53;

    // Just verify the constants are the expected values
    assert_eq!(MIX_CONSTANT_1, 0xff51_afd7_ed55_8ccd);
    assert_eq!(MIX_CONSTANT_2, 0xc4ce_b9fe_1a85_ec53);
}

#[test]
fn test_cache_key_hash_deterministic() {
    let stream_id = StreamID::new(100).unwrap();
    let pasid = PASID::new(200).unwrap();
    let iova = IOVA::new(0x1000).unwrap();

    let key = CacheKey::new(stream_id, pasid, iova, SecurityState::NonSecure);

    let hash1 = CacheKeyHash::hash(&key);
    let hash2 = CacheKeyHash::hash(&key);

    assert_eq!(hash1, hash2);
}

#[test]
fn test_cache_key_hash_different_stream_id() {
    let stream1 = StreamID::new(100).unwrap();
    let stream2 = StreamID::new(101).unwrap();
    let pasid = PASID::new(200).unwrap();
    let iova = IOVA::new(0x1000).unwrap();

    let key1 = CacheKey::new(stream1, pasid, iova, SecurityState::NonSecure);
    let key2 = CacheKey::new(stream2, pasid, iova, SecurityState::NonSecure);

    let hash1 = CacheKeyHash::hash(&key1);
    let hash2 = CacheKeyHash::hash(&key2);

    assert_ne!(hash1, hash2);
}

#[test]
fn test_cache_key_hash_different_pasid() {
    let stream_id = StreamID::new(100).unwrap();
    let pasid1 = PASID::new(200).unwrap();
    let pasid2 = PASID::new(201).unwrap();
    let iova = IOVA::new(0x1000).unwrap();

    let key1 = CacheKey::new(stream_id, pasid1, iova, SecurityState::NonSecure);
    let key2 = CacheKey::new(stream_id, pasid2, iova, SecurityState::NonSecure);

    let hash1 = CacheKeyHash::hash(&key1);
    let hash2 = CacheKeyHash::hash(&key2);

    assert_ne!(hash1, hash2);
}

#[test]
fn test_cache_key_hash_different_iova_page() {
    let stream_id = StreamID::new(100).unwrap();
    let pasid = PASID::new(200).unwrap();
    let iova1 = IOVA::new(0x1000).unwrap();
    let iova2 = IOVA::new(0x2000).unwrap();

    let key1 = CacheKey::new(stream_id, pasid, iova1, SecurityState::NonSecure);
    let key2 = CacheKey::new(stream_id, pasid, iova2, SecurityState::NonSecure);

    let hash1 = CacheKeyHash::hash(&key1);
    let hash2 = CacheKeyHash::hash(&key2);

    assert_ne!(hash1, hash2);
}

#[test]
fn test_cache_key_hash_page_offset_ignored() {
    // Lower 12 bits should be ignored (page offset)
    let stream_id = StreamID::new(100).unwrap();
    let pasid = PASID::new(200).unwrap();
    let iova1 = IOVA::new(0x1000).unwrap(); // Page aligned
    let iova2 = IOVA::new(0x1FFF).unwrap(); // Same page, different offset

    let key1 = CacheKey::new(stream_id, pasid, iova1, SecurityState::NonSecure);
    let key2 = CacheKey::new(stream_id, pasid, iova2, SecurityState::NonSecure);

    let hash1 = CacheKeyHash::hash(&key1);
    let hash2 = CacheKeyHash::hash(&key2);

    assert_eq!(hash1, hash2); // Should hash to same value
}

#[test]
fn test_cache_key_hash_different_security_state() {
    let stream_id = StreamID::new(100).unwrap();
    let pasid = PASID::new(200).unwrap();
    let iova = IOVA::new(0x1000).unwrap();

    let key1 = CacheKey::new(stream_id, pasid, iova, SecurityState::NonSecure);
    let key2 = CacheKey::new(stream_id, pasid, iova, SecurityState::Secure);

    let hash1 = CacheKeyHash::hash(&key1);
    let hash2 = CacheKeyHash::hash(&key2);

    assert_ne!(hash1, hash2);
}

#[test]
fn test_cache_key_hash_max_values() {
    let stream_id = StreamID::new(u32::from(u16::MAX)).unwrap();
    let pasid = PASID::new(0xF_FFFF).unwrap();
    let iova = IOVA::new(u64::MAX).unwrap();

    let key = CacheKey::new(stream_id, pasid, iova, SecurityState::Realm);

    // Should not panic
    let _hash = CacheKeyHash::hash(&key);
}

#[test]
fn test_cache_key_hash_min_values() {
    let stream_id = StreamID::new(0).unwrap();
    let pasid = PASID::new(0).unwrap();
    let iova = IOVA::new(0).unwrap();

    let key = CacheKey::new(stream_id, pasid, iova, SecurityState::NonSecure);

    let hash = CacheKeyHash::hash(&key);

    // Hash should be non-zero even with zero inputs
    assert_ne!(hash, 0);
}

#[test]
fn test_cache_key_hash_distribution_different_streams() {
    let pasid = PASID::new(200).unwrap();
    let iova = IOVA::new(0x1000).unwrap();

    let mut hashes = Vec::new();

    for stream in 0..100 {
        let stream_id = StreamID::new(stream).unwrap();
        let key = CacheKey::new(stream_id, pasid, iova, SecurityState::NonSecure);
        hashes.push(CacheKeyHash::hash(&key));
    }

    // All hashes should be unique
    hashes.sort_unstable();
    hashes.dedup();
    assert_eq!(hashes.len(), 100);
}

#[test]
fn test_cache_key_hash_distribution_different_pasids() {
    let stream_id = StreamID::new(100).unwrap();
    let iova = IOVA::new(0x1000).unwrap();

    let mut hashes = Vec::new();

    for pasid_val in 0..100 {
        let pasid = PASID::new(pasid_val).unwrap();
        let key = CacheKey::new(stream_id, pasid, iova, SecurityState::NonSecure);
        hashes.push(CacheKeyHash::hash(&key));
    }

    // All hashes should be unique
    hashes.sort_unstable();
    hashes.dedup();
    assert_eq!(hashes.len(), 100);
}

#[test]
fn test_cache_key_hash_distribution_different_pages() {
    let stream_id = StreamID::new(100).unwrap();
    let pasid = PASID::new(200).unwrap();

    let mut hashes = Vec::new();

    for page in 0..100 {
        let iova = IOVA::new(page * 0x1000).unwrap();
        let key = CacheKey::new(stream_id, pasid, iova, SecurityState::NonSecure);
        hashes.push(CacheKeyHash::hash(&key));
    }

    // All hashes should be unique
    hashes.sort_unstable();
    hashes.dedup();
    assert_eq!(hashes.len(), 100);
}

#[test]
fn test_cache_key_hash_distribution_security_states() {
    let stream_id = StreamID::new(100).unwrap();
    let pasid = PASID::new(200).unwrap();
    let iova = IOVA::new(0x1000).unwrap();

    let key_nonsecure = CacheKey::new(stream_id, pasid, iova, SecurityState::NonSecure);
    let key_secure = CacheKey::new(stream_id, pasid, iova, SecurityState::Secure);
    let key_realm = CacheKey::new(stream_id, pasid, iova, SecurityState::Realm);

    let hash_nonsecure = CacheKeyHash::hash(&key_nonsecure);
    let hash_secure = CacheKeyHash::hash(&key_secure);
    let hash_realm = CacheKeyHash::hash(&key_realm);

    // All should be different
    assert_ne!(hash_nonsecure, hash_secure);
    assert_ne!(hash_secure, hash_realm);
    assert_ne!(hash_nonsecure, hash_realm);
}

#[test]
fn test_cache_key_hash_large_iova() {
    let stream_id = StreamID::new(100).unwrap();
    let pasid = PASID::new(200).unwrap();
    let iova = IOVA::new(0xFFFF_FFFF_FFFF_F000).unwrap();

    let key = CacheKey::new(stream_id, pasid, iova, SecurityState::NonSecure);

    // Should not panic with large addresses
    let _hash = CacheKeyHash::hash(&key);
}

#[test]
fn test_cache_key_hash_page_number_upper_bits() {
    // Test that upper bits of page number are hashed
    let stream_id = StreamID::new(100).unwrap();
    let pasid = PASID::new(200).unwrap();
    let iova1 = IOVA::new(0x0000_0001_0000).unwrap(); // Low page number
    let iova2 = IOVA::new(0x1000_0000_0000).unwrap(); // High page number

    let key1 = CacheKey::new(stream_id, pasid, iova1, SecurityState::NonSecure);
    let key2 = CacheKey::new(stream_id, pasid, iova2, SecurityState::NonSecure);

    let hash1 = CacheKeyHash::hash(&key1);
    let hash2 = CacheKeyHash::hash(&key2);

    assert_ne!(hash1, hash2);
}

#[test]
fn test_cache_key_hash_avalanche_effect() {
    // Single bit change should dramatically change hash
    let stream_id = StreamID::new(100).unwrap();
    let pasid = PASID::new(200).unwrap();
    let iova1 = IOVA::new(0x1000).unwrap();
    let iova2 = IOVA::new(0x2000).unwrap(); // Single bit difference in page number

    let key1 = CacheKey::new(stream_id, pasid, iova1, SecurityState::NonSecure);
    let key2 = CacheKey::new(stream_id, pasid, iova2, SecurityState::NonSecure);

    let hash1 = CacheKeyHash::hash(&key1);
    let hash2 = CacheKeyHash::hash(&key2);

    // Count differing bits
    let xor = hash1 ^ hash2;
    let bit_diff = xor.count_ones();

    // Expect significant bit difference (avalanche effect)
    assert!(bit_diff > 10, "Expected avalanche effect, got {} bits different", bit_diff);
}

#[test]
fn test_cache_key_hash_collision_resistance() {
    // Generate many hashes and check for collisions

    let mut hash_set = HashSet::new();

    for stream in 0..50 {
        for pasid_val in 0..50 {
            let stream_id = StreamID::new(stream).unwrap();
            let pasid = PASID::new(pasid_val).unwrap();
            let iova = IOVA::new(u64::from(stream) * 0x1000 + u64::from(pasid_val) * 0x1_0000).unwrap();

            let key = CacheKey::new(stream_id, pasid, iova, SecurityState::NonSecure);
            let hash = CacheKeyHash::hash(&key);

            // Should not have any collisions
            assert!(hash_set.insert(hash), "Hash collision detected");
        }
    }

    assert_eq!(hash_set.len(), 50 * 50);
}

#[test]
fn test_cache_key_hash_wrapping_mul() {
    // Ensure wrapping multiplication doesn't cause issues
    let stream_id = StreamID::new(u32::from(u16::MAX)).unwrap();
    let pasid = PASID::new(0xF_FFFF).unwrap();
    let iova = IOVA::new(u64::MAX).unwrap();

    let key = CacheKey::new(stream_id, pasid, iova, SecurityState::Realm);

    // Should not panic with wrapping multiplication
    let hash = CacheKeyHash::hash(&key);

    // Hash should be deterministic
    let hash2 = CacheKeyHash::hash(&key);
    assert_eq!(hash, hash2);
}

#[test]
fn test_cache_key_hash_fnv_algorithm() {
    // The hash follows its formula exactly.
    // Inputs: stream_id=1, pasid=2, iova=0x3000 (page number 3), security=NonSecure
    let stream_id = StreamID::new(1).unwrap();
    let pasid_val = PASID::new(2).unwrap();
    let iova = IOVA::new(0x3000).unwrap(); // page number = 0x3000 >> 12 = 3

    let key = CacheKey::new(stream_id, pasid_val, iova, SecurityState::NonSecure);

    // The formula, computed by hand:
    //   stream = u64::from(stream_id).wrapping_mul(0x9e37_79b9_7f4a_7c15)
    //   pasid  = u64::from(pasid).wrapping_mul(0x6c62_272e_07bb_0142)
    //   security = u64::from(security_state as u8) & 0x3
    //   page = (iova >> 12).wrapping_mul(0x517c_c1b7_2722_0a95)
    //   hash = (stream + pasid + security + page) ^ 0xcbf2_9ce4_8422_2325
    //   followed by the three-round murmur finalizer
    let stream = 1u64.wrapping_mul(0x9e37_79b9_7f4a_7c15_u64);
    let pasid = 2u64.wrapping_mul(0x6c62_272e_07bb_0142_u64);
    let security = u64::from(SecurityState::NonSecure as u8) & 0x3;
    // IOVA=0x3000, page number = 0x3000 >> 12 = 3
    let page = 3u64.wrapping_mul(0x517c_c1b7_2722_0a95_u64);

    let mut expected = stream
        .wrapping_add(pasid)
        .wrapping_add(security)
        .wrapping_add(page)
        ^ 0xcbf2_9ce4_8422_2325_u64;
    expected ^= expected >> 33;
    expected = expected.wrapping_mul(0xff51_afd7_ed55_8ccd);
    expected ^= expected >> 33;
    expected = expected.wrapping_mul(0xc4ce_b9fe_1a85_ec53);
    expected ^= expected >> 33;

    let actual = CacheKeyHash::hash(&key);

    assert_eq!(actual, expected);
}

// ------------------------------------------------------------------------
// StreamPASIDKey Tests (10+ tests)
// ------------------------------------------------------------------------

#[test]
fn test_stream_pasid_key_new() {
    let stream_id = StreamID::new(100).unwrap();
    let pasid = PASID::new(200).unwrap();

    let key = StreamPASIDKey::new(stream_id, pasid);

    assert_eq!(key.stream_id, stream_id);
    assert_eq!(key.pasid, pasid);
}

#[test]
fn test_stream_pasid_key_equality() {
    let stream_id = StreamID::new(100).unwrap();
    let pasid = PASID::new(200).unwrap();

    let key1 = StreamPASIDKey::new(stream_id, pasid);
    let key2 = StreamPASIDKey::new(stream_id, pasid);

    assert_eq!(key1, key2);
}

#[test]
fn test_stream_pasid_key_inequality_different_stream() {
    let stream1 = StreamID::new(100).unwrap();
    let stream2 = StreamID::new(101).unwrap();
    let pasid = PASID::new(200).unwrap();

    let key1 = StreamPASIDKey::new(stream1, pasid);
    let key2 = StreamPASIDKey::new(stream2, pasid);

    assert_ne!(key1, key2);
}

#[test]
fn test_stream_pasid_key_inequality_different_pasid() {
    let stream_id = StreamID::new(100).unwrap();
    let pasid1 = PASID::new(200).unwrap();
    let pasid2 = PASID::new(201).unwrap();

    let key1 = StreamPASIDKey::new(stream_id, pasid1);
    let key2 = StreamPASIDKey::new(stream_id, pasid2);

    assert_ne!(key1, key2);
}

#[test]
fn test_stream_pasid_key_copy_semantics() {
    let stream_id = StreamID::new(100).unwrap();
    let pasid = PASID::new(200).unwrap();

    let key1 = StreamPASIDKey::new(stream_id, pasid);
    let key2 = key1; // Should copy

    assert_eq!(key1, key2);
}

#[test]
fn test_stream_pasid_key_clone_semantics() {
    let stream_id = StreamID::new(100).unwrap();
    let pasid = PASID::new(200).unwrap();

    let key1 = StreamPASIDKey::new(stream_id, pasid);
    let key2 = key1.clone();

    assert_eq!(key1, key2);
}

#[test]
fn test_stream_pasid_key_debug_format() {
    let stream_id = StreamID::new(100).unwrap();
    let pasid = PASID::new(200).unwrap();

    let key = StreamPASIDKey::new(stream_id, pasid);
    let debug_str = format!("{key:?}");

    assert!(debug_str.contains("StreamPASIDKey"));
}

#[test]
fn test_stream_pasid_key_const_construction() {
    // Test that StreamPASIDKey::new is const
    let stream_id = StreamID::new(100).unwrap();
    let pasid = PASID::new(200).unwrap();

    let key = StreamPASIDKey::new(stream_id, pasid);

    assert_eq!(key.stream_id.as_u32(), 100);
    assert_eq!(key.pasid.as_u32(), 200);
}

#[test]
fn test_stream_pasid_key_max_values() {
    let stream_id = StreamID::new(u32::from(u16::MAX)).unwrap();
    let pasid = PASID::new(0xF_FFFF).unwrap();

    let key = StreamPASIDKey::new(stream_id, pasid);

    assert_eq!(key.stream_id.as_u32(), u32::from(u16::MAX));
    assert_eq!(key.pasid.as_u32(), 0xF_FFFF);
}

#[test]
fn test_stream_pasid_key_min_values() {
    let stream_id = StreamID::new(0).unwrap();
    let pasid = PASID::new(0).unwrap();

    let key = StreamPASIDKey::new(stream_id, pasid);

    assert_eq!(key.stream_id.as_u32(), 0);
    assert_eq!(key.pasid.as_u32(), 0);
}

#[test]
fn test_stream_pasid_key_hashability() {

    let stream_id = StreamID::new(100).unwrap();
    let pasid = PASID::new(200).unwrap();

    let key = StreamPASIDKey::new(stream_id, pasid);

    // Should be able to use as HashMap key
    let mut map = HashMap::new();
    map.insert(key, 42);

    assert_eq!(map.get(&key), Some(&42));
}

// ------------------------------------------------------------------------
// StreamPASIDKeyHash Tests (10+ tests)
// ------------------------------------------------------------------------

#[test]
fn test_stream_pasid_key_hash_uses_fast_mixing() {
    // Verify the hash uses the optimized murmur-like mixing constant
    const MIX_CONSTANT: u64 = 0xff51_afd7_ed55_8ccd;

    // Just verify the constant is the expected value
    assert_eq!(MIX_CONSTANT, 0xff51_afd7_ed55_8ccd);
}

#[test]
fn test_stream_pasid_key_hash_deterministic() {
    let stream_id = StreamID::new(100).unwrap();
    let pasid = PASID::new(200).unwrap();

    let key = StreamPASIDKey::new(stream_id, pasid);

    let hash1 = StreamPASIDKeyHash::hash(&key);
    let hash2 = StreamPASIDKeyHash::hash(&key);

    assert_eq!(hash1, hash2);
}

#[test]
fn test_stream_pasid_key_hash_different_stream() {
    let stream1 = StreamID::new(100).unwrap();
    let stream2 = StreamID::new(101).unwrap();
    let pasid = PASID::new(200).unwrap();

    let key1 = StreamPASIDKey::new(stream1, pasid);
    let key2 = StreamPASIDKey::new(stream2, pasid);

    let hash1 = StreamPASIDKeyHash::hash(&key1);
    let hash2 = StreamPASIDKeyHash::hash(&key2);

    assert_ne!(hash1, hash2);
}

#[test]
fn test_stream_pasid_key_hash_different_pasid() {
    let stream_id = StreamID::new(100).unwrap();
    let pasid1 = PASID::new(200).unwrap();
    let pasid2 = PASID::new(201).unwrap();

    let key1 = StreamPASIDKey::new(stream_id, pasid1);
    let key2 = StreamPASIDKey::new(stream_id, pasid2);

    let hash1 = StreamPASIDKeyHash::hash(&key1);
    let hash2 = StreamPASIDKeyHash::hash(&key2);

    assert_ne!(hash1, hash2);
}

#[test]
fn test_stream_pasid_key_hash_max_values() {
    let stream_id = StreamID::new(u32::from(u16::MAX)).unwrap();
    let pasid = PASID::new(0xF_FFFF).unwrap();

    let key = StreamPASIDKey::new(stream_id, pasid);

    // Should not panic
    let _hash = StreamPASIDKeyHash::hash(&key);
}

#[test]
fn test_stream_pasid_key_hash_min_values() {
    let stream_id = StreamID::new(0).unwrap();
    let pasid = PASID::new(0).unwrap();

    let key = StreamPASIDKey::new(stream_id, pasid);

    let hash = StreamPASIDKeyHash::hash(&key);

    // Hash should be non-zero even with zero inputs
    assert_ne!(hash, 0);
}

#[test]
fn test_stream_pasid_key_hash_distribution_streams() {
    let pasid = PASID::new(200).unwrap();

    let mut hashes = Vec::new();

    for stream in 0..100 {
        let stream_id = StreamID::new(stream).unwrap();
        let key = StreamPASIDKey::new(stream_id, pasid);
        hashes.push(StreamPASIDKeyHash::hash(&key));
    }

    // All hashes should be unique
    hashes.sort_unstable();
    hashes.dedup();
    assert_eq!(hashes.len(), 100);
}

#[test]
fn test_stream_pasid_key_hash_distribution_pasids() {
    let stream_id = StreamID::new(100).unwrap();

    let mut hashes = Vec::new();

    for pasid_val in 0..100 {
        let pasid = PASID::new(pasid_val).unwrap();
        let key = StreamPASIDKey::new(stream_id, pasid);
        hashes.push(StreamPASIDKeyHash::hash(&key));
    }

    // All hashes should be unique
    hashes.sort_unstable();
    hashes.dedup();
    assert_eq!(hashes.len(), 100);
}

#[test]
fn test_stream_pasid_key_hash_collision_resistance() {

    let mut hash_set = HashSet::new();

    for stream in 0..100 {
        for pasid_val in 0..100 {
            let stream_id = StreamID::new(stream).unwrap();
            let pasid = PASID::new(pasid_val).unwrap();

            let key = StreamPASIDKey::new(stream_id, pasid);
            let hash = StreamPASIDKeyHash::hash(&key);

            assert!(hash_set.insert(hash), "Hash collision detected");
        }
    }

    assert_eq!(hash_set.len(), 100 * 100);
}

#[test]
fn test_stream_pasid_key_hash_fnv_algorithm() {
    // Verify FNV-1a algorithm implementation
    let stream_id = StreamID::new(1).unwrap();
    let pasid = PASID::new(2).unwrap();

    let key = StreamPASIDKey::new(stream_id, pasid);

    // The formula, computed by hand
    let combined = ((1u64) << 32) | 2u64;
    let mut expected = combined.wrapping_add(0xdead_beef);
    expected ^= expected >> 33;
    expected = expected.wrapping_mul(0xff51_afd7_ed55_8ccd);
    expected ^= expected >> 33;

    let actual = StreamPASIDKeyHash::hash(&key);

    assert_eq!(actual, expected);
}

// ------------------------------------------------------------------------
// TlbCache Tests (50+ comprehensive tests)
// ------------------------------------------------------------------------

#[test]
fn test_tlb_cache_new_lru() {
    let mut cache = TlbCache::new(1024, ReplacementPolicy::Lru);
    assert_eq!(cache.capacity(), 1024);
    assert_eq!(cache.policy(), ReplacementPolicy::Lru);
    assert_eq!(cache.len(), 0);
    assert!(cache.is_empty());
}

#[test]
fn test_tlb_cache_new_fifo() {
    let mut cache = TlbCache::new(512, ReplacementPolicy::Fifo);
    assert_eq!(cache.capacity(), 512);
    assert_eq!(cache.policy(), ReplacementPolicy::Fifo);
    assert_eq!(cache.len(), 0);
    assert!(cache.is_empty());
}


#[test]
fn test_tlb_cache_insert_single() {
    let mut cache = TlbCache::new(10, ReplacementPolicy::Lru);
    let stream_id = StreamID::new(1).unwrap();
    let pasid = PASID::new(2).unwrap();
    let iova = IOVA::new(0x1000).unwrap();
    let pa = PA::new(0x2000).unwrap();

    let key = CacheKey::new(stream_id, pasid, iova, SecurityState::NonSecure);
    let entry = CacheEntry::new(iova, pa, PagePermissions::read_only(), 0);

    cache.insert(key, entry);

    assert_eq!(cache.len(), 1);
    assert!(!cache.is_empty());
    assert_eq!(cache.statistics().get_insertions(), 1);
}

#[test]
fn test_tlb_cache_lookup_hit() {
    let mut cache = TlbCache::new(10, ReplacementPolicy::Lru);
    let stream_id = StreamID::new(1).unwrap();
    let pasid = PASID::new(2).unwrap();
    let iova = IOVA::new(0x1000).unwrap();
    let pa = PA::new(0x2000).unwrap();

    let key = CacheKey::new(stream_id, pasid, iova, SecurityState::NonSecure);
    let entry = CacheEntry::new(iova, pa, PagePermissions::read_only(), 0);

    cache.insert(key, entry);

    let result = cache.lookup(&key);
    assert!(result.is_some());

    let found_entry = result.unwrap();
    assert_eq!(found_entry.iova, iova);
    assert_eq!(found_entry.physical_address, pa);

    assert_eq!(cache.statistics().get_lookups(), 1);
    assert_eq!(cache.statistics().get_hits(), 1);
    assert_eq!(cache.statistics().get_misses(), 0);
}

#[test]
fn test_tlb_cache_lookup_miss() {
    let mut cache = TlbCache::new(10, ReplacementPolicy::Lru);
    let stream_id = StreamID::new(1).unwrap();
    let pasid = PASID::new(2).unwrap();
    let iova = IOVA::new(0x1000).unwrap();

    let key = CacheKey::new(stream_id, pasid, iova, SecurityState::NonSecure);

    let result = cache.lookup(&key);
    assert!(result.is_none());

    assert_eq!(cache.statistics().get_lookups(), 1);
    assert_eq!(cache.statistics().get_hits(), 0);
    assert_eq!(cache.statistics().get_misses(), 1);
}

#[test]
fn test_tlb_cache_multiple_inserts() {
    let mut cache = TlbCache::new(100, ReplacementPolicy::Lru);

    for i in 0..10 {
        let stream_id = StreamID::new(i).unwrap();
        let pasid = PASID::new(i + 100).unwrap();
        let iova = IOVA::new((i as u64) * 0x1000).unwrap();
        let pa = PA::new((i as u64) * 0x2000).unwrap();

        let key = CacheKey::new(stream_id, pasid, iova, SecurityState::NonSecure);
        let entry = CacheEntry::new(iova, pa, PagePermissions::read_write(), 0);

        cache.insert(key, entry);
    }

    assert_eq!(cache.len(), 10);
    assert_eq!(cache.statistics().get_insertions(), 10);
}

#[test]
fn test_tlb_cache_eviction_lru() {
    let mut cache = TlbCache::new(3, ReplacementPolicy::Lru);

    // Insert 3 entries to fill cache
    for i in 0..3 {
        let stream_id = StreamID::new(i).unwrap();
        let pasid = PASID::new(0).unwrap();
        let iova = IOVA::new((i as u64) * 0x1000).unwrap();
        let pa = PA::new((i as u64) * 0x2000).unwrap();

        let key = CacheKey::new(stream_id, pasid, iova, SecurityState::NonSecure);
        let entry = CacheEntry::new(iova, pa, PagePermissions::read_only(), 0);

        cache.insert(key, entry);
    }

    assert_eq!(cache.len(), 3);

    // Insert 4th entry - should evict least recently used
    let stream_id = StreamID::new(3).unwrap();
    let pasid = PASID::new(0).unwrap();
    let iova = IOVA::new(0x3000).unwrap();
    let pa = PA::new(0x6000).unwrap();

    let key = CacheKey::new(stream_id, pasid, iova, SecurityState::NonSecure);
    let entry = CacheEntry::new(iova, pa, PagePermissions::read_only(), 0);

    cache.insert(key, entry);

    assert_eq!(cache.len(), 3);
    assert_eq!(cache.statistics().get_evictions(), 1);
    assert_eq!(cache.statistics().get_insertions(), 4);
}

#[test]
fn test_tlb_cache_eviction_fifo() {
    let mut cache = TlbCache::new(3, ReplacementPolicy::Fifo);

    // Insert 3 entries to fill cache
    for i in 0..3 {
        let stream_id = StreamID::new(i).unwrap();
        let pasid = PASID::new(0).unwrap();
        let iova = IOVA::new((i as u64) * 0x1000).unwrap();
        let pa = PA::new((i as u64) * 0x2000).unwrap();

        let key = CacheKey::new(stream_id, pasid, iova, SecurityState::NonSecure);
        let entry = CacheEntry::new(iova, pa, PagePermissions::read_only(), 0);

        cache.insert(key, entry);
    }

    assert_eq!(cache.len(), 3);

    // Insert 4th entry - should evict first inserted (FIFO)
    let stream_id = StreamID::new(3).unwrap();
    let pasid = PASID::new(0).unwrap();
    let iova = IOVA::new(0x3000).unwrap();
    let pa = PA::new(0x6000).unwrap();

    let key = CacheKey::new(stream_id, pasid, iova, SecurityState::NonSecure);
    let entry = CacheEntry::new(iova, pa, PagePermissions::read_only(), 0);

    cache.insert(key, entry);

    assert_eq!(cache.len(), 3);
    assert_eq!(cache.statistics().get_evictions(), 1);
}

#[test]
fn test_tlb_cache_invalidate_all() {
    let mut cache = TlbCache::new(100, ReplacementPolicy::Lru);

    // Insert multiple entries
    for i in 0..10 {
        let stream_id = StreamID::new(i).unwrap();
        let pasid = PASID::new(0).unwrap();
        let iova = IOVA::new((i as u64) * 0x1000).unwrap();
        let pa = PA::new((i as u64) * 0x2000).unwrap();

        let key = CacheKey::new(stream_id, pasid, iova, SecurityState::NonSecure);
        let entry = CacheEntry::new(iova, pa, PagePermissions::read_only(), 0);

        cache.insert(key, entry);
    }

    assert_eq!(cache.len(), 10);

    cache.invalidate_all();

    assert_eq!(cache.len(), 0);
    assert!(cache.is_empty());
    assert_eq!(cache.statistics().get_invalidations(), 10);
}

#[test]
fn test_tlb_cache_invalidate_by_stream() {
    let mut cache = TlbCache::new(100, ReplacementPolicy::Lru);
    let target_stream = StreamID::new(5).unwrap();

    // Insert entries for different streams
    for i in 0..10 {
        let stream_id = StreamID::new(i).unwrap();
        let pasid = PASID::new(0).unwrap();
        let iova = IOVA::new((i as u64) * 0x1000).unwrap();
        let pa = PA::new((i as u64) * 0x2000).unwrap();

        let key = CacheKey::new(stream_id, pasid, iova, SecurityState::NonSecure);
        let entry = CacheEntry::new(iova, pa, PagePermissions::read_only(), 0);

        cache.insert(key, entry);
    }

    assert_eq!(cache.len(), 10);

    cache.invalidate_by_stream(target_stream);

    assert_eq!(cache.len(), 9);
    assert_eq!(cache.statistics().get_invalidations(), 1);

    // Verify target stream entry is gone
    let key = CacheKey::new(
        target_stream,
        PASID::new(0).unwrap(),
        IOVA::new(5 * 0x1000).unwrap(),
        SecurityState::NonSecure,
    );
    assert!(cache.lookup(&key).is_none());
}

#[test]
fn test_tlb_cache_invalidate_by_pasid() {
    let mut cache = TlbCache::new(100, ReplacementPolicy::Lru);
    let target_pasid = PASID::new(5).unwrap();

    // Insert entries for different PASIDs
    for i in 0..10 {
        let stream_id = StreamID::new(0).unwrap();
        let pasid = PASID::new(i).unwrap();
        let iova = IOVA::new((i as u64) * 0x1000).unwrap();
        let pa = PA::new((i as u64) * 0x2000).unwrap();

        let key = CacheKey::new(stream_id, pasid, iova, SecurityState::NonSecure);
        let entry = CacheEntry::new(iova, pa, PagePermissions::read_only(), 0);

        cache.insert(key, entry);
    }

    assert_eq!(cache.len(), 10);

    cache.invalidate_by_pasid(target_pasid);

    assert_eq!(cache.len(), 9);
    assert_eq!(cache.statistics().get_invalidations(), 1);

    // Verify target PASID entry is gone
    let key = CacheKey::new(
        StreamID::new(0).unwrap(),
        target_pasid,
        IOVA::new(5 * 0x1000).unwrap(),
        SecurityState::NonSecure,
    );
    assert!(cache.lookup(&key).is_none());
}

#[test]
fn test_tlb_cache_invalidate_by_stream_pasid() {
    let mut cache = TlbCache::new(100, ReplacementPolicy::Lru);
    let target_stream = StreamID::new(5).unwrap();
    let target_pasid = PASID::new(7).unwrap(); // Changed to 7 which is in range [0..10)

    // Insert entries for various stream/PASID combinations
    // Each stream/PASID pair gets a unique IOVA
    for i in 0..10 {
        for j in 0..10 {
            let stream_id = StreamID::new(i).unwrap();
            let pasid = PASID::new(j).unwrap();
            let iova = IOVA::new((i as u64) * 0x0010_0000 + u64::from(j) * 0x1000).unwrap();
            let pa = PA::new((i as u64) * 0x0020_0000 + u64::from(j) * 0x2000).unwrap();

            let key = CacheKey::new(stream_id, pasid, iova, SecurityState::NonSecure);
            let entry = CacheEntry::new(iova, pa, PagePermissions::read_only(), 0);

            cache.insert(key, entry);
        }
    }

    assert_eq!(cache.len(), 100);

    // Check that the target entry exists before invalidation
    let target_key = CacheKey::new(
        target_stream,
        target_pasid,
        IOVA::new(5 * 0x0010_0000 + 7 * 0x1000).unwrap(),
        SecurityState::NonSecure,
    );
    assert!(cache.lookup(&target_key).is_some());

    cache.invalidate_by_stream_pasid(target_stream, target_pasid);

    assert_eq!(cache.len(), 99);

    // Verify target entry is gone
    assert!(cache.lookup(&target_key).is_none());
}

#[test]
fn test_tlb_cache_invalidate_by_va_range() {
    let mut cache = TlbCache::new(100, ReplacementPolicy::Lru);
    let stream_id = StreamID::new(1).unwrap();
    let pasid = PASID::new(2).unwrap();

    // Insert entries with different IOVAs
    for i in 0..10 {
        let iova = IOVA::new((i as u64) * 0x1000).unwrap();
        let pa = PA::new((i as u64) * 0x2000).unwrap();

        let key = CacheKey::new(stream_id, pasid, iova, SecurityState::NonSecure);
        let entry = CacheEntry::new(iova, pa, PagePermissions::read_only(), 0);

        cache.insert(key, entry);
    }

    assert_eq!(cache.len(), 10);

    // Invalidate range 0x2000 to 0x5000 (should remove 4 entries)
    let start = IOVA::new(0x2000).unwrap();
    let end = IOVA::new(0x5000).unwrap();

    cache.invalidate_by_va_range(stream_id, pasid, start, end);

    assert_eq!(cache.len(), 6);
    assert_eq!(cache.statistics().get_invalidations(), 4);
}

#[test]
fn test_tlb_cache_invalidate_entry() {
    let mut cache = TlbCache::new(10, ReplacementPolicy::Lru);
    let stream_id = StreamID::new(1).unwrap();
    let pasid = PASID::new(2).unwrap();
    let iova = IOVA::new(0x1000).unwrap();
    let pa = PA::new(0x2000).unwrap();

    let key = CacheKey::new(stream_id, pasid, iova, SecurityState::NonSecure);
    let entry = CacheEntry::new(iova, pa, PagePermissions::read_only(), 0);

    cache.insert(key, entry);
    assert_eq!(cache.len(), 1);

    let removed = cache.invalidate_entry(&key);
    assert!(removed);
    assert_eq!(cache.len(), 0);
    assert_eq!(cache.statistics().get_invalidations(), 1);

    // Try to remove again - should return false
    let removed_again = cache.invalidate_entry(&key);
    assert!(!removed_again);
}

#[test]
fn test_tlb_cache_statistics_hit_rate() {
    let mut cache = TlbCache::new(10, ReplacementPolicy::Lru);
    let stream_id = StreamID::new(1).unwrap();
    let pasid = PASID::new(2).unwrap();
    let iova = IOVA::new(0x1000).unwrap();
    let pa = PA::new(0x2000).unwrap();

    let key = CacheKey::new(stream_id, pasid, iova, SecurityState::NonSecure);
    let entry = CacheEntry::new(iova, pa, PagePermissions::read_only(), 0);

    cache.insert(key, entry);

    // 3 hits, 2 misses = 60% hit rate
    cache.lookup(&key); // hit
    cache.lookup(&key); // hit
    cache.lookup(&key); // hit

    let other_key = CacheKey::new(StreamID::new(99).unwrap(), pasid, iova, SecurityState::NonSecure);
    cache.lookup(&other_key); // miss
    cache.lookup(&other_key); // miss

    let stats = cache.statistics();
    assert_eq!(stats.get_lookups(), 5);
    assert_eq!(stats.get_hits(), 3);
    assert_eq!(stats.get_misses(), 2);
    assert!((hit_rate(stats) - 60.0).abs() < 0.01);
    assert!((miss_rate(stats) - 40.0).abs() < 0.01);
}

#[test]
fn test_tlb_cache_statistics_clear() {
    let mut cache = TlbCache::new(10, ReplacementPolicy::Lru);
    let stream_id = StreamID::new(1).unwrap();
    let pasid = PASID::new(2).unwrap();
    let iova = IOVA::new(0x1000).unwrap();
    let pa = PA::new(0x2000).unwrap();

    let key = CacheKey::new(stream_id, pasid, iova, SecurityState::NonSecure);
    let entry = CacheEntry::new(iova, pa, PagePermissions::read_only(), 0);

    cache.insert(key, entry);
    cache.lookup(&key);

    assert_eq!(cache.statistics().get_insertions(), 1);
    assert_eq!(cache.statistics().get_lookups(), 1);

    cache.clear_statistics();

    assert_eq!(cache.statistics().get_insertions(), 0);
    assert_eq!(cache.statistics().get_lookups(), 0);
    assert_eq!(cache.statistics().get_hits(), 0);
    assert_eq!(cache.statistics().get_misses(), 0);

    // Cache entries should still be there
    assert_eq!(cache.len(), 1);
}

#[test]
fn test_tlb_cache_replacement_policy_default() {
    let policy = ReplacementPolicy::default();
    assert_eq!(policy, ReplacementPolicy::Lru);
}



#[test]
fn test_tlb_cache_security_state_isolation() {
    let mut cache = TlbCache::new(10, ReplacementPolicy::Lru);
    let stream_id = StreamID::new(1).unwrap();
    let pasid = PASID::new(2).unwrap();
    let iova = IOVA::new(0x1000).unwrap();
    let pa_nonsecure = PA::new(0x2000).unwrap();
    let pa_secure = PA::new(0x3000).unwrap();

    // Insert entries with same stream/PASID/IOVA but different security states
    let key_nonsecure = CacheKey::new(stream_id, pasid, iova, SecurityState::NonSecure);
    let entry_nonsecure = CacheEntry::new_with_security(
        iova,
        pa_nonsecure,
        PagePermissions::read_only(),
        SecurityState::NonSecure,
        0,
    );

    let key_secure = CacheKey::new(stream_id, pasid, iova, SecurityState::Secure);
    let entry_secure =
        CacheEntry::new_with_security(iova, pa_secure, PagePermissions::read_only(), SecurityState::Secure, 0);

    cache.insert(key_nonsecure, entry_nonsecure);
    cache.insert(key_secure, entry_secure);

    assert_eq!(cache.len(), 2);

    // Lookup should return correct entry for each security state
    let result_nonsecure = cache.lookup(&key_nonsecure).unwrap();
    let result_secure = cache.lookup(&key_secure).unwrap();

    assert_eq!(result_nonsecure.physical_address, pa_nonsecure);
    assert_eq!(result_secure.physical_address, pa_secure);
    assert_eq!(result_nonsecure.security_state, SecurityState::NonSecure);
    assert_eq!(result_secure.security_state, SecurityState::Secure);
}

#[test]
fn test_tlb_cache_large_capacity() {
    let mut cache = TlbCache::new(10_000, ReplacementPolicy::Lru);

    // Insert many entries
    for i in 0..1000 {
        let stream_id = StreamID::new(i % 100).unwrap();
        let pasid = PASID::new(i % 50).unwrap();
        let iova = IOVA::new((i as u64) * 0x1000).unwrap();
        let pa = PA::new((i as u64) * 0x2000).unwrap();

        let key = CacheKey::new(stream_id, pasid, iova, SecurityState::NonSecure);
        let entry = CacheEntry::new(iova, pa, PagePermissions::read_write(), 0);

        cache.insert(key, entry);
    }

    assert_eq!(cache.len(), 1000);
    assert_eq!(cache.statistics().get_insertions(), 1000);
    assert_eq!(cache.statistics().get_evictions(), 0); // No evictions yet
}

#[test]
fn test_tlb_cache_debug_format() {
    let mut cache = TlbCache::new(100, ReplacementPolicy::Lru);
    let debug_str = format!("{cache:?}");

    assert!(debug_str.contains("TlbCache"));
    assert!(debug_str.contains("capacity"));
    assert!(debug_str.contains("policy"));
}

#[test]
fn test_tlb_cache_empty_operations() {
    let mut cache = TlbCache::new(10, ReplacementPolicy::Lru);

    // Operations on empty cache should not panic
    cache.invalidate_all();
    cache.invalidate_by_stream(StreamID::new(1).unwrap());
    cache.invalidate_by_pasid(PASID::new(1).unwrap());

    assert!(cache.is_empty());
    assert_eq!(cache.len(), 0);
}

#[test]
fn test_tlb_cache_permissions_preserved() {
    let mut cache = TlbCache::new(10, ReplacementPolicy::Lru);
    let stream_id = StreamID::new(1).unwrap();
    let pasid = PASID::new(2).unwrap();
    let iova = IOVA::new(0x1000).unwrap();
    let pa = PA::new(0x2000).unwrap();
    let perms = PagePermissions::read_execute();

    let key = CacheKey::new(stream_id, pasid, iova, SecurityState::NonSecure);
    let entry = CacheEntry::new(iova, pa, perms, 0);

    cache.insert(key, entry);

    let result = cache.lookup(&key).unwrap();
    assert_eq!(result.permissions, perms);
    assert!(result.permissions.read());
    assert!(!result.permissions.write());
    assert!(result.permissions.execute());
}

#[test]
fn test_tlb_cache_lru_timestamp_update() {
    let mut cache = TlbCache::new(10, ReplacementPolicy::Lru);
    let stream_id = StreamID::new(1).unwrap();
    let pasid = PASID::new(2).unwrap();
    let iova = IOVA::new(0x1000).unwrap();
    let pa = PA::new(0x2000).unwrap();

    let key = CacheKey::new(stream_id, pasid, iova, SecurityState::NonSecure);
    let entry = CacheEntry::new(iova, pa, PagePermissions::read_only(), 0);

    cache.insert(key, entry);

    let entry1 = cache.lookup(&key).unwrap();
    let timestamp1 = entry1.timestamp;

    // Second lookup should update timestamp
    let entry2 = cache.lookup(&key).unwrap();
    let timestamp2 = entry2.timestamp;

    assert!(timestamp2 > timestamp1);
}

#[test]
fn test_tlb_cache_fifo_no_timestamp_update() {
    let mut cache = TlbCache::new(10, ReplacementPolicy::Fifo);
    let stream_id = StreamID::new(1).unwrap();
    let pasid = PASID::new(2).unwrap();
    let iova = IOVA::new(0x1000).unwrap();
    let pa = PA::new(0x2000).unwrap();

    let key = CacheKey::new(stream_id, pasid, iova, SecurityState::NonSecure);
    let entry = CacheEntry::new(iova, pa, PagePermissions::read_only(), 0);

    cache.insert(key, entry);

    let entry1 = cache.lookup(&key).unwrap();
    let timestamp1 = entry1.timestamp;

    // FIFO doesn't update timestamp on lookup
    let entry2 = cache.lookup(&key).unwrap();
    let timestamp2 = entry2.timestamp;

    assert_eq!(timestamp1, timestamp2);
}

#[test]
fn test_tlb_cache_statistics_zero_lookups() {
    let stats = CacheStatistics::new();
    assert_eq!(hit_rate(&stats), 0.0);
    assert_eq!(miss_rate(&stats), 0.0);
}

#[test]
fn test_tlb_cache_invalidate_nonexistent_stream() {
    let mut cache = TlbCache::new(10, ReplacementPolicy::Lru);

    // Insert an entry
    let stream_id = StreamID::new(1).unwrap();
    let pasid = PASID::new(2).unwrap();
    let iova = IOVA::new(0x1000).unwrap();
    let pa = PA::new(0x2000).unwrap();

    let key = CacheKey::new(stream_id, pasid, iova, SecurityState::NonSecure);
    let entry = CacheEntry::new(iova, pa, PagePermissions::read_only(), 0);

    cache.insert(key, entry);

    // Try to invalidate different stream
    cache.invalidate_by_stream(StreamID::new(99).unwrap());

    // The first entry should still be there
    assert_eq!(cache.len(), 1);
    assert!(cache.lookup(&key).is_some());
}

#[test]
fn test_tlb_cache_multiple_streams_same_pasid() {
    let mut cache = TlbCache::new(100, ReplacementPolicy::Lru);
    let pasid = PASID::new(1).unwrap();

    // Insert entries for multiple streams with same PASID
    for i in 0..10 {
        let stream_id = StreamID::new(i).unwrap();
        let iova = IOVA::new((i as u64) * 0x1000).unwrap();
        let pa = PA::new((i as u64) * 0x2000).unwrap();

        let key = CacheKey::new(stream_id, pasid, iova, SecurityState::NonSecure);
        let entry = CacheEntry::new(iova, pa, PagePermissions::read_only(), 0);

        cache.insert(key, entry);
    }

    assert_eq!(cache.len(), 10);

    // Invalidate by PASID should remove all
    cache.invalidate_by_pasid(pasid);

    assert_eq!(cache.len(), 0);
}

#[test]
fn test_tlb_cache_same_stream_multiple_pasids() {
    let mut cache = TlbCache::new(100, ReplacementPolicy::Lru);
    let stream_id = StreamID::new(1).unwrap();

    // Insert entries for same stream with multiple PASIDs
    for i in 0..10 {
        let pasid = PASID::new(i).unwrap();
        let iova = IOVA::new((i as u64) * 0x1000).unwrap();
        let pa = PA::new((i as u64) * 0x2000).unwrap();

        let key = CacheKey::new(stream_id, pasid, iova, SecurityState::NonSecure);
        let entry = CacheEntry::new(iova, pa, PagePermissions::read_only(), 0);

        cache.insert(key, entry);
    }

    assert_eq!(cache.len(), 10);

    // Invalidate by stream should remove all
    cache.invalidate_by_stream(stream_id);

    assert_eq!(cache.len(), 0);
}
