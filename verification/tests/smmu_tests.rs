use smmu::cache::{CacheEntry, CacheKey, ReplacementPolicy, TlbCache};
use smmu::smmu::{
    advance_index, clear_gerror, compute_log2size, queue_occupied, signal_gerror, toggle_ovflg_once, CacheStatistics,
    GbpaConfig, ResumeOutcome,
};
use smmu::types::{PagePermissions, SecurityState, StreamID, IOVA, PA, PASID};

#[test]
fn bug_rust3_advance_index_log2size_19_no_panic() {
    let m = 1_048_576u32;
    assert_eq!(advance_index(0, 19), 1);
    assert_eq!(advance_index(m - 1, 19), 0);
    assert_eq!(queue_occupied(1, 0, 19), 1);
    assert_eq!(queue_occupied(0, 0, 19), 0);
}

#[test]
fn bug_rust3_advance_index_log2size_above_19_clamped_no_panic() {
    let result_clamped = advance_index(0, 20);
    let result_19 = advance_index(0, 19);
    assert_eq!(result_clamped, result_19);
    let result_31 = advance_index(5, 31);
    let result_19_5 = advance_index(5, 19);
    assert_eq!(result_31, result_19_5);
}

#[test]
fn bug_rust3_queue_occupied_log2size_31_no_panic() {
    let result = queue_occupied(5, 3, 31);
    let expected = queue_occupied(5, 3, 19);
    assert_eq!(result, expected);
}

#[test]
fn test_compute_log2size_values() {
    assert_eq!(compute_log2size(0), 0);
    assert_eq!(compute_log2size(1), 0);
    assert_eq!(compute_log2size(2), 1);
    assert_eq!(compute_log2size(128), 7);
    assert_eq!(compute_log2size(256), 8);
    assert_eq!(compute_log2size(300), 9);
    assert_eq!(compute_log2size(512), 9);
    assert_eq!(compute_log2size(usize::MAX), usize::BITS);
}

#[test]
fn law_advance_then_occupied() {
    // log2size 2: indices run through 0..8.
    assert_eq!(advance_index(7, 2), 0);
    assert_eq!(queue_occupied(2, 6, 2), 4);
    assert_eq!(queue_occupied(advance_index(2, 2), 6, 2), 5);
    assert_eq!(queue_occupied(advance_index(7, 2), 6, 2), 2);
    for p in 0..8u32 {
        assert_eq!(queue_occupied(p, p, 2), 0);
    }
}

#[test]
fn test_gbpa_config_default() {
    let cfg = GbpaConfig::default();
    assert!(!cfg.abort);
    assert_eq!((cfg.inst_cfg, cfg.priv_cfg, cfg.mem_attr, cfg.sh_cfg, cfg.alloc_cfg), (0, 0, 0, 0, 0));
    assert!(!cfg.mt_cfg);
    assert_ne!(ResumeOutcome::Retry, ResumeOutcome::Abort);
}

#[test]
fn test_cache_statistics_snapshot() {
    let mut cache = TlbCache::new(4, ReplacementPolicy::Lru);
    let key = CacheKey::new(StreamID::new(1).unwrap(), PASID::new(0).unwrap(), IOVA::new(0x1000).unwrap(), SecurityState::NonSecure);
    cache.insert(key, CacheEntry::new(IOVA::new(0x1000).unwrap(), PA::new(0x2000).unwrap(), PagePermissions::all(), 0));
    let _ = cache.lookup(&key);
    cache.invalidate_entry(&key);
    let snapshot = CacheStatistics::from_counters(3, cache.statistics());
    assert_eq!(snapshot.invalidation_count(), 3);
    assert_eq!(snapshot.tlb_lookups(), 1);
    assert_eq!(snapshot.tlb_hits(), 1);
    assert_eq!(snapshot.tlb_misses(), 0);
    assert_eq!(snapshot.tlb_evictions(), 0);
    assert_eq!(snapshot.tlb_insertions(), 1);
    assert_eq!(snapshot.tlb_invalidations(), 1);
}

fn active(combined: u64) -> u32 {
    (combined as u32) ^ ((combined >> 32) as u32)
}

#[test]
fn law_gerror_signal_then_acknowledge() {
    let c0 = 0u64;
    let c1 = signal_gerror(c0, 0b101);
    assert_eq!(c1, 0b101);
    assert_eq!(active(c1), 0b101);
    // Signalling an active bit again does not toggle it back.
    let c2 = signal_gerror(c1, 0b001);
    assert_eq!(c2, c1);
    let c3 = signal_gerror(c2, 0b011);
    assert_eq!(active(c3), 0b111);
    // Acknowledging toggles GERRORN only on active bits.
    let c4 = clear_gerror(c3, 0b110);
    assert_eq!(c4 as u32, c3 as u32);
    assert_eq!(active(c4), 0b001);
    let c5 = clear_gerror(c4, 0b1000);
    assert_eq!(c5, c4);
}

#[test]
fn law_overflow_toggled_once() {
    let prod = 5u32;
    let cons = 3u32;
    let p1 = toggle_ovflg_once(prod, cons);
    assert_eq!(p1, 0x8000_0005);
    // Overflow already active: no second toggle.
    assert_eq!(toggle_ovflg_once(p1, cons), p1);
    // Acknowledged overflow (OVACKFLG matches): toggles back.
    assert_eq!(toggle_ovflg_once(p1, 0x8000_0003), 5);
}
