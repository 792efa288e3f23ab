//! The SMMU controller: stream table, registers, fault log, event, command and page request
//! queues with their index arithmetic, TLB maintenance and the completion of translations; and
//! the records it keeps (stalled transactions, resume outcomes, bypass attributes, cache
//! statistics snapshots).

use crate::cache::{
    counted_invalidations, slot_of, surviving, CacheEntry, CacheKey, InvalidationScope, ReplacementPolicy, Slot,
    TlbCache,
};
use crate::types::{
    permits, AccessType, CommandEntry, CommandProblem, CommandType, ConfigurationProblem, EventEntry, EventType, FaultRecord,
    FaultMode, FaultType, PRIEntry, PagePermissions, SMMUConfig, SMMUError, SecurityState, StreamConfig, StreamID, StreamWorld,
    TransactionType, TranslationData, TranslationError, TranslationResult, IOVA, MAX_QUEUE_SIZE, PA, PASID, PASID_MAX,
};
use dashmap::DashMap;
use std::collections::HashMap;
use std::collections::VecDeque;
use vstd::arithmetic::div_mod::{lemma_mod_add_multiples_vanish, lemma_mod_mod};
use vstd::arithmetic::power2::{lemma2_to64, lemma_pow2_strictly_increases, lemma_pow2_unfold, pow2};
use vstd::bits::lemma_u32_shl_is_mul;
use vstd::prelude::*;

verus! {

broadcast use vstd::std_specs::hash::group_hash_axioms;

/// A transaction held in the stall queue until software resumes or terminates it.
#[derive(Debug, Clone, Copy, PartialEq, Eq, Structural)]
pub struct StallRecord {
    /// Stall tag of the transaction.
    pub stag: u16,
    /// Stream that issued the transaction.
    pub stream_id: u32,
    /// PASID of the transaction.
    pub pasid: u32,
    /// Faulting address.
    pub iova: u64,
    /// Access of the transaction.
    pub access: AccessType,
    /// Security state of the transaction.
    pub security_state: SecurityState,
}

/// How a resume command ended a stalled transaction.
#[derive(Debug, Clone, Copy, PartialEq, Eq, Structural)]
pub enum ResumeOutcome {
    /// The transaction is retried as if it had just arrived.
    Retry,
    /// The transaction is terminated without error.
    Terminate,
    /// The transaction is aborted with a bus error.
    Abort,
}

/// Output attributes applied to transactions that bypass translation while the SMMU is
/// disabled, and whether such transactions abort instead.
#[derive(Debug, Clone, Copy, PartialEq, Eq, Structural)]
pub struct GbpaConfig {
    /// Abort bypassing transactions.
    pub abort: bool,
    /// Instruction/data override (2 bits).
    pub inst_cfg: u8,
    /// Privilege override (2 bits).
    pub priv_cfg: u8,
    /// Whether the memory type is overridden.
    pub mt_cfg: bool,
    /// Memory attribute override (4 bits, used when `mt_cfg` is set).
    pub mem_attr: u8,
    /// Shareability override (2 bits).
    pub sh_cfg: u8,
    /// Allocation hint override (4 bits).
    pub alloc_cfg: u8,
}

impl Default for GbpaConfig {
    fn default() -> (r: GbpaConfig)
        ensures
            r == (GbpaConfig {
                abort: false,
                inst_cfg: 0,
                priv_cfg: 0,
                mt_cfg: false,
                mem_attr: 0,
                sh_cfg: 0,
                alloc_cfg: 0,
            }),
    {
        GbpaConfig { abort: false, inst_cfg: 0, priv_cfg: 0, mt_cfg: false, mem_attr: 0, sh_cfg: 0, alloc_cfg: 0 }
    }
}

/// A snapshot of the controller's invalidation count and of its TLB statistics.
#[derive(Debug, Clone, Copy, PartialEq, Eq, Structural)]
pub struct CacheStatistics {
    invalidation_count: u64,
    tlb_lookups: u64,
    tlb_hits: u64,
    tlb_misses: u64,
    tlb_evictions: u64,
    tlb_insertions: u64,
    tlb_invalidations: u64,
}

impl CacheStatistics {
    /// The snapshot of `invalidation_count` and of the TLB statistics `tlb`.
    pub fn from_counters(invalidation_count: u64, tlb: &crate::cache::CacheStatistics) -> (r: CacheStatistics)
        ensures
            r.spec_invalidation_count() == invalidation_count,
            r.spec_tlb_lookups() == tlb.lookups,
            r.spec_tlb_hits() == tlb.hits,
            r.spec_tlb_misses() == tlb.misses,
            r.spec_tlb_evictions() == tlb.evictions,
            r.spec_tlb_insertions() == tlb.insertions,
            r.spec_tlb_invalidations() == tlb.invalidations,
    {
        CacheStatistics {
            invalidation_count,
            tlb_lookups: tlb.get_lookups(),
            tlb_hits: tlb.get_hits(),
            tlb_misses: tlb.get_misses(),
            tlb_evictions: tlb.get_evictions(),
            tlb_insertions: tlb.get_insertions(),
            tlb_invalidations: tlb.get_invalidations(),
        }
    }

    /// Number of invalidation commands processed.
    pub fn invalidation_count(&self) -> (r: u64)
        ensures
            r == self.spec_invalidation_count(),
    {
        self.invalidation_count
    }

    /// Number of TLB lookups.
    pub fn tlb_lookups(&self) -> (r: u64)
        ensures
            r == self.spec_tlb_lookups(),
    {
        self.tlb_lookups
    }

    /// Number of TLB hits.
    pub fn tlb_hits(&self) -> (r: u64)
        ensures
            r == self.spec_tlb_hits(),
    {
        self.tlb_hits
    }

    /// Number of TLB misses.
    pub fn tlb_misses(&self) -> (r: u64)
        ensures
            r == self.spec_tlb_misses(),
    {
        self.tlb_misses
    }

    /// Number of TLB evictions.
    pub fn tlb_evictions(&self) -> (r: u64)
        ensures
            r == self.spec_tlb_evictions(),
    {
        self.tlb_evictions
    }

    /// Number of TLB insertions.
    pub fn tlb_insertions(&self) -> (r: u64)
        ensures
            r == self.spec_tlb_insertions(),
    {
        self.tlb_insertions
    }

    /// Number of TLB entries invalidated.
    pub fn tlb_invalidations(&self) -> (r: u64)
        ensures
            r == self.spec_tlb_invalidations(),
    {
        self.tlb_invalidations
    }

    /// Number of invalidation commands processed.
    pub closed spec fn spec_invalidation_count(&self) -> u64 {
        self.invalidation_count
    }

    /// Number of TLB lookups.
    pub closed spec fn spec_tlb_lookups(&self) -> u64 {
        self.tlb_lookups
    }

    /// Number of TLB hits.
    pub closed spec fn spec_tlb_hits(&self) -> u64 {
        self.tlb_hits
    }

    /// Number of TLB misses.
    pub closed spec fn spec_tlb_misses(&self) -> u64 {
        self.tlb_misses
    }

    /// Number of TLB evictions.
    pub closed spec fn spec_tlb_evictions(&self) -> u64 {
        self.tlb_evictions
    }

    /// Number of TLB insertions.
    pub closed spec fn spec_tlb_insertions(&self) -> u64 {
        self.tlb_insertions
    }

    /// Number of TLB entries invalidated.
    pub closed spec fn spec_tlb_invalidations(&self) -> u64 {
        self.tlb_invalidations
    }
}

// ---------------------------------------------------------------------------------------------
// Circular queue index arithmetic
// ---------------------------------------------------------------------------------------------

/// Largest queue size exponent (LOG2SIZE) the architecture allows.
pub const MAX_QUEUE_LOG2SIZE: u32 = 19;

/// A queue size exponent clamped to `MAX_QUEUE_LOG2SIZE`.
pub open spec fn clamped_log2size(log2size: u32) -> nat {
    if log2size < MAX_QUEUE_LOG2SIZE {
        log2size as nat
    } else {
        MAX_QUEUE_LOG2SIZE as nat
    }
}

/// Number of distinct index values of a queue of `2^log2size` entries: the index carries one
/// wrap bit above the entry bits, so it runs through `2^(log2size + 1)` values.
pub open spec fn index_modulus(log2size: u32) -> nat {
    pow2(clamped_log2size(log2size) + 1)
}

/// The smallest exponent whose power of two is at least `capacity` (0 for capacities 0 and 1).
pub open spec fn is_ceil_log2(capacity: nat, r: nat) -> bool {
    if capacity <= 1 {
        r == 0
    } else {
        capacity <= pow2(r) && pow2((r - 1) as nat) < capacity
    }
}

/// The queue size exponent for a capacity: the exact exponent of a power of two, otherwise
/// the next larger one.
pub fn compute_log2size(capacity: usize) -> (r: u32)
    ensures
        is_ceil_log2(capacity as nat, r as nat),
{
    if capacity <= 1 {
        return 0;
    }
    let mut r: u32 = 0;
    let mut p: u128 = 1;
    proof {
        lemma2_to64();
    }
    while p < capacity as u128
        invariant
            capacity > 1,
            p >= 1,
            p == pow2(r as nat),
            r <= 64,
            r > 0 ==> pow2((r - 1) as nat) < capacity,
            p < capacity ==> r < 64,
        decreases 64 - r,
    {
        proof {
            lemma_pow2_unfold((r + 1) as nat);
        }
        p = p * 2;
        r = r + 1;
        proof {
            if p < capacity && r >= 64 {
                lemma2_to64();
                if r > 64 {
                    lemma_pow2_strictly_increases(64, r as nat);
                }
            }
        }
    }
    r
}

/// `2 << l` for a clamped exponent `l`, with its value.
fn modulus_of(l: u32) -> (m: u32)
    requires
        l <= MAX_QUEUE_LOG2SIZE,
    ensures
        m == pow2((l + 1) as nat),
        0 < m <= 0x10_0000,
{
    proof {
        lemma2_to64();
        if l < 19 {
            lemma_pow2_strictly_increases(l as nat, 19);
        }
        lemma_u32_shl_is_mul(2, l);
        lemma_pow2_unfold((l + 1) as nat);
        if l < 19 {
            lemma_pow2_strictly_increases((l + 1) as nat, 20);
        }
    }
    2u32 << l
}

/// The index after `idx`: one more, modulo the number of index values.
pub fn advance_index(idx: u32, log2size: u32) -> (r: u32)
    ensures
        r == (idx + 1) % (index_modulus(log2size) as int),
{
    let l = if log2size < MAX_QUEUE_LOG2SIZE {
        log2size
    } else {
        MAX_QUEUE_LOG2SIZE
    };
    let modulus = modulus_of(l);
    proof {
        vstd::arithmetic::div_mod::lemma_add_mod_noop(idx as int, 1, modulus as int);
        lemma_pow2_unfold((l + 1) as nat);
        vstd::arithmetic::power2::lemma_pow2_pos(l as nat);
        vstd::arithmetic::div_mod::lemma_small_mod(1, modulus as nat);
        vstd::arithmetic::div_mod::lemma_mod_bound(idx as int, modulus as int);
    }
    (idx % modulus + 1) % modulus
}

/// Number of occupied entries between consumer index `cons` and producer index `prod`: their
/// difference modulo the number of index values.
pub fn queue_occupied(prod: u32, cons: u32, log2size: u32) -> (r: u32)
    ensures
        r == (prod - cons) % (index_modulus(log2size) as int),
{
    let l = if log2size < MAX_QUEUE_LOG2SIZE {
        log2size
    } else {
        MAX_QUEUE_LOG2SIZE
    };
    let modulus = modulus_of(l);
    let r = prod.wrapping_sub(cons).wrapping_add(modulus) % modulus;
    proof {
        let m = modulus as int;
        let w = 0x1_0000_0000int;
        let k = pow2((32 - (l + 1)) as nat) as int;
        lemma2_to64();
        lemma_pow2_strictly_increases((l + 1) as nat, 32);
        assert(pow2(32) == pow2((l + 1) as nat) * pow2((32 - (l + 1)) as nat)) by {
            vstd::arithmetic::power2::lemma_pow2_adds((l + 1) as nat, (32 - (l + 1)) as nat);
        }
        assert(m * k == w);
        let a = prod.wrapping_sub(cons) as int;
        assert(a == (prod - cons) % w);
        let b = prod.wrapping_sub(cons).wrapping_add(modulus) as int;
        assert(b == (a + m) % w);
        lemma_mod_mod(a + m, m, k);
        lemma_mod_add_multiples_vanish(a, m);
        lemma_mod_mod(prod - cons, m, k);
    }
    r
}

/// Advancing the producer index by one, from a producer and a consumer index that are both in
/// range, keeps the producer index in range and makes the queue hold one more entry, unless it
/// already held the most the indices can express; equal indices mean an empty queue.
pub proof fn lemma_advance_then_occupied(prod: u32, cons: u32, log2size: u32)
    requires
        prod < index_modulus(log2size),
        cons < index_modulus(log2size),
    ensures
        (prod + 1) % (index_modulus(log2size) as int) < index_modulus(log2size),
        (prod - cons) % (index_modulus(log2size) as int) + 1 < index_modulus(log2size) ==> ((prod + 1) % (
        index_modulus(log2size) as int) - cons) % (index_modulus(log2size) as int) == (prod - cons) % (
        index_modulus(log2size) as int) + 1,
        (prod - prod) % (index_modulus(log2size) as int) == 0,
{
    let m = index_modulus(log2size) as int;
    lemma_pow2_unfold(clamped_log2size(log2size) + 1);
    vstd::arithmetic::power2::lemma_pow2_pos(clamped_log2size(log2size));
    assert(m >= 2);
    let p1 = (prod + 1) % m;
    if prod + 1 < m {
        vstd::arithmetic::div_mod::lemma_small_mod((prod + 1) as nat, m as nat);
        assert(p1 == prod + 1);
    } else {
        assert(prod + 1 == m);
        vstd::arithmetic::div_mod::lemma_mod_self_0(m);
        assert(p1 == 0);
        lemma_mod_add_multiples_vanish(p1 - cons, m);
        assert(m + (p1 - cons) == prod + 1 - cons);
    }
    assert((p1 - cons) % m == (prod + 1 - cons) % m);
    vstd::arithmetic::div_mod::lemma_add_mod_noop(prod - cons, 1, m);
    vstd::arithmetic::div_mod::lemma_small_mod(1, m as nat);
    let d = (prod - cons) % m;
    assert((prod - cons + 1) % m == (d + 1) % m);
    if d + 1 < m {
        vstd::arithmetic::div_mod::lemma_small_mod((d + 1) as nat, m as nat);
    }
    vstd::arithmetic::div_mod::lemma_mod_self_0(m);
    assert(0int % m == 0) by {
        vstd::arithmetic::div_mod::lemma_small_mod(0, m as nat);
    }
}

// ---------------------------------------------------------------------------------------------
// Global error registers and the event queue overflow flag
// ---------------------------------------------------------------------------------------------

/// The GERROR register held in the low 32 bits of the combined GERROR/GERRORN value.
pub open spec fn gerror_of(combined: u64) -> u32 {
    (combined & 0xFFFF_FFFF) as u32
}

/// The GERRORN register held in the high 32 bits of the combined GERROR/GERRORN value.
pub open spec fn gerrorn_of(combined: u64) -> u32 {
    (combined >> 32u64) as u32
}

/// The error bits that are active: those where GERROR and GERRORN differ.
pub open spec fn active_errors(combined: u64) -> u32 {
    gerror_of(combined) ^ gerrorn_of(combined)
}

/// The combined value with the given GERROR and GERRORN.
pub open spec fn combine_gerror(gerror: u32, gerrorn: u32) -> u64 {
    (gerror as u64) | ((gerrorn as u64) << 32u64)
}

/// Signals the errors in `bits`: GERROR is toggled on each of those bits that is not active
/// yet; bits already active, and GERRORN, are left alone.
pub fn signal_gerror(combined: u64, bits: u32) -> (r: u64)
    ensures
        r == (if bits & !active_errors(combined) == 0 {
            combined
        } else {
            combine_gerror(gerror_of(combined) ^ (bits & !active_errors(combined)), gerrorn_of(combined))
        }),
{
    let gerror = (combined & 0xFFFF_FFFF) as u32;
    let gerrorn = (combined >> 32u64) as u32;
    let active = gerror ^ gerrorn;
    let inactive = bits & !active;
    if inactive == 0 {
        return combined;
    }
    let new_gerror = gerror ^ inactive;
    (new_gerror as u64) | ((gerrorn as u64) << 32u64)
}

/// Acknowledges the errors in `bits`: GERRORN is toggled on each of those bits that is active,
/// so that it matches GERROR there; GERROR is left alone.
pub fn clear_gerror(combined: u64, bits: u32) -> (r: u64)
    ensures
        r == combine_gerror(gerror_of(combined), gerrorn_of(combined) ^ (bits & active_errors(combined))),
{
    let gerror = (combined & 0xFFFF_FFFF) as u32;
    let gerrorn = (combined >> 32u64) as u32;
    let active_bits = gerror ^ gerrorn;
    let new_gerrorn = gerrorn ^ (bits & active_bits);
    (gerror as u64) | ((new_gerrorn as u64) << 32u64)
}

/// Bit 31 of an event queue index: OVFLG in the producer index, OVACKFLG in the consumer index.
pub open spec fn overflow_bit(index: u32) -> u32 {
    (index >> 31u32) & 1
}

/// The producer index after an event was discarded for lack of room: OVFLG is toggled when no
/// overflow is active yet (OVFLG equal to OVACKFLG), otherwise nothing changes.
pub fn toggle_ovflg_once(prod: u32, cons: u32) -> (r: u32)
    ensures
        r == (if overflow_bit(prod) != overflow_bit(cons) {
            prod
        } else {
            prod ^ 0x8000_0000
        }),
{
    let ovflg = (prod >> 31u32) & 1;
    let ovackflg = (cons >> 31u32) & 1;
    if ovflg != ovackflg {
        return prod;
    }
    assert(1u32 << 31u32 == 0x8000_0000) by (bit_vector);
    prod ^ (1u32 << 31u32)
}

/// Signalling makes every signalled bit active and keeps every active bit active, without
/// touching GERRORN; acknowledging makes every acknowledged bit inactive and keeps the other
/// bits as they were, without touching GERROR.
pub proof fn lemma_gerror_protocol(combined: u64, bits: u32)
    ensures
        ({
            let s = if bits & !active_errors(combined) == 0 {
                combined
            } else {
                combine_gerror(gerror_of(combined) ^ (bits & !active_errors(combined)), gerrorn_of(combined))
            };
            &&& active_errors(s) == active_errors(combined) | bits
            &&& gerrorn_of(s) == gerrorn_of(combined)
        }),
        ({
            let c = combine_gerror(gerror_of(combined), gerrorn_of(combined) ^ (bits & active_errors(combined)));
            &&& active_errors(c) == active_errors(combined) & !bits
            &&& gerror_of(c) == gerror_of(combined)
        }),
{
    let g = gerror_of(combined);
    let n = gerrorn_of(combined);
    let a = active_errors(combined);
    assert(g ^ n == a);
    let inactive = bits & !a;
    assert(gerror_of(combine_gerror(g ^ inactive, n)) == g ^ inactive && gerrorn_of(combine_gerror(g ^ inactive, n))
        == n) by (bit_vector);
    assert(gerror_of(combine_gerror(g, n ^ (bits & a))) == g && gerrorn_of(combine_gerror(g, n ^ (bits & a))) == n
        ^ (bits & a)) by (bit_vector);
    assert(a == g ^ n ==> ((g ^ (bits & !a)) ^ n) == a | bits) by (bit_vector);
    assert(a == g ^ n && (bits & !a) == 0 ==> a == a | bits) by (bit_vector);
    assert(a == g ^ n ==> (g ^ (n ^ (bits & a))) == a & !bits) by (bit_vector);
}

/// After an overflow toggle an overflow is active, and only OVFLG may have changed.
pub proof fn lemma_overflow_toggle(prod: u32, cons: u32)
    ensures
        ({
            let r = if overflow_bit(prod) != overflow_bit(cons) {
                prod
            } else {
                prod ^ 0x8000_0000
            };
            &&& overflow_bit(r) != overflow_bit(cons)
            &&& r & 0x7FFF_FFFF == prod & 0x7FFF_FFFF
        }),
{
    assert(overflow_bit(prod) == overflow_bit(cons) ==> overflow_bit(prod ^ 0x8000_0000) != overflow_bit(cons))
        by (bit_vector);
    assert((prod ^ 0x8000_0000) & 0x7FFF_FFFF == prod & 0x7FFF_FFFF) by (bit_vector);
}

// ---------------------------------------------------------------------------------------------
// The controller
// ---------------------------------------------------------------------------------------------

/// CR0.SMMUEN: translation enabled.
pub const CR0_SMMUEN: u32 = 1;
/// CR0.PRIQEN: page request queue enabled.
pub const CR0_PRIQEN: u32 = 2;
/// CR0.EVENTQEN: event queue enabled.
pub const CR0_EVENTQEN: u32 = 4;
/// CR0.CMDQEN: command queue enabled.
pub const CR0_CMDQEN: u32 = 8;
/// Position of CR0.VMW, the VMID wildcard width.
pub const CR0_VMW_SHIFT: u32 = 6;
/// CR2.RECINVSID: record events for invalid StreamIDs.
pub const CR2_RECINVSID: u32 = 2;
/// CR2.PTM: private TLB maintenance; the non-secure broadcast TLB invalidations take effect
/// only while it is set.
pub const CR2_PTM: u32 = 4;
/// CR2.REC_CFG_ATS: record events for refused ATS requests.
pub const CR2_REC_CFG_ATS: u32 = 8;
/// GERROR.CMDQ_ERR: the command queue stopped on a refused command.
pub const GERROR_CMDQ_ERR: u32 = 1;
/// CMDQ_CONS.ERR code of an illegal command.
pub const CERROR_ILL: u32 = 1;

/// The producer index, consumer index and size exponent of one circular queue.
#[derive(Debug, Clone, Copy, PartialEq, Eq, Structural)]
pub struct QueueIndices {
    pub prod: u32,
    pub cons: u32,
    pub log2size: u32,
}

/// The stream table: StreamID to stream configuration.
pub type StreamTable = DashMap<u32, StreamConfig>;

/// What a stream table holds: StreamID to configuration.
pub uninterp spec fn stream_table_contents(table: StreamTable) -> Map<u32, StreamConfig>;

/// A stream table that holds nothing.
pub open spec fn no_streams() -> Map<u32, StreamConfig> {
    Map::empty()
}

/// `DashMap::new`: an empty table.
#[verifier::external_body]
fn stream_table_new() -> (r: StreamTable)
    ensures
        stream_table_contents(r) == no_streams(),
{
    DashMap::new()
}

/// `DashMap::insert`: afterwards `key` holds `value`; the result is the value it held before,
/// if any.
#[verifier::external_body]
fn stream_table_insert(table: &mut StreamTable, key: u32, value: StreamConfig) -> (r: Option<StreamConfig>)
    ensures
        stream_table_contents(*final(table)) == stream_table_contents(*old(table)).insert(key, value),
        r == stream_table_contents(*old(table)).get(key),
{
    table.insert(key, value)
}

/// `DashMap::remove`: afterwards `key` holds nothing; the result is the value it held before,
/// if any.
#[verifier::external_body]
fn stream_table_remove(table: &mut StreamTable, key: u32) -> (r: Option<StreamConfig>)
    ensures
        stream_table_contents(*final(table)) == stream_table_contents(*old(table)).remove(key),
        r == stream_table_contents(*old(table)).get(key),
{
    table.remove(&key).map(|pair| pair.1)
}

/// `DashMap::get`: a copy of the value held by `key`, if any.
#[verifier::external_body]
fn stream_table_get(table: &StreamTable, key: u32) -> (r: Option<StreamConfig>)
    ensures
        r == stream_table_contents(*table).get(key),
{
    table.get(&key).map(|entry| *entry.value())
}

/// `DashMap::len`: the number of keys held.
#[verifier::external_body]
fn stream_table_len(table: &StreamTable) -> (r: usize)
    ensures
        r == stream_table_contents(*table).len(),
{
    table.len()
}

/// `DashMap::clear`: afterwards no key is held.
#[verifier::external_body]
fn stream_table_clear(table: &mut StreamTable)
    ensures
        stream_table_contents(*final(table)) == no_streams(),
{
    table.clear()
}

/// The stall table: stall tag to stalled transaction.
pub type StallTable = DashMap<u16, StallRecord>;

/// What a stall table holds: stall tag to stalled transaction.
pub uninterp spec fn stall_table_contents(table: StallTable) -> Map<u16, StallRecord>;

/// A stall table that holds nothing.
pub open spec fn no_stalls() -> Map<u16, StallRecord> {
    Map::empty()
}

/// `DashMap::new`: an empty stall table.
#[verifier::external_body]
fn stall_table_new() -> (r: StallTable)
    ensures
        stall_table_contents(r) == no_stalls(),
{
    DashMap::new()
}

/// `DashMap::insert`: afterwards `key` holds `value`; the result is the value it held before,
/// if any.
#[verifier::external_body]
fn stall_table_insert(table: &mut StallTable, key: u16, value: StallRecord) -> (r: Option<StallRecord>)
    ensures
        stall_table_contents(*final(table)) == stall_table_contents(*old(table)).insert(key, value),
        r == stall_table_contents(*old(table)).get(key),
{
    table.insert(key, value)
}

/// `DashMap::remove`: afterwards `key` holds nothing; the result is the value it held before,
/// if any.
#[verifier::external_body]
fn stall_table_remove(table: &mut StallTable, key: u16) -> (r: Option<StallRecord>)
    ensures
        stall_table_contents(*final(table)) == stall_table_contents(*old(table)).remove(key),
        r == stall_table_contents(*old(table)).get(key),
{
    table.remove(&key).map(|pair| pair.1)
}

/// `DashMap::get`: a copy of the value held by `key`, if any.
#[verifier::external_body]
fn stall_table_get(table: &StallTable, key: u16) -> (r: Option<StallRecord>)
    ensures
        r == stall_table_contents(*table).get(key),
{
    table.get(&key).map(|entry| *entry.value())
}

/// `DashMap::iter`, each item taken as its key and a copy of its value: every held pair comes
/// out exactly once, in an order that depends on the hashes.
#[verifier::external_body]
fn stall_table_pairs(table: &StallTable) -> (r: Vec<(u16, StallRecord)>)
    ensures
        r@.len() == stall_table_contents(*table).len(),
        forall|i: int| 0 <= i < r@.len() ==> #[trigger] stall_table_contents(*table).get(r@[i].0) == Some(r@[i].1),
        forall|i: int, j: int| 0 <= i < j < r@.len() ==> #[trigger] r@[i].0 != #[trigger] r@[j].0,
        forall|k: u16| #[trigger] stall_table_contents(*table).contains_key(k) ==> exists|i: int| 0 <= i < r@.len() && r@[i].0 == k,
{
    table.iter().map(|entry| (*entry.key(), *entry.value())).collect()
}

/// The abstract state of an SMMU: its configuration and registers, the stream table, the
/// fault log and its clock, the three queues with their indices, the events held back for
/// stalled transactions, the page requests answered automatically, and the counters.
pub struct SmmuState {
    pub config: SMMUConfig,
    pub shut_down: bool,
    pub enabled: bool,
    pub cr0: u32,
    pub cr0ack: u32,
    pub cr2: u32,
    pub gbpa_abort: bool,
    pub streams: Map<u32, StreamConfig>,
    pub faults: Seq<FaultRecord>,
    pub fault_clock: u64,
    pub events: Seq<EventEntry>,
    pub stall_pending: Seq<EventEntry>,
    pub eventq: QueueIndices,
    pub commands: Seq<CommandEntry>,
    pub cmdq: QueueIndices,
    pub pri: Seq<PRIEntry>,
    pub priq: QueueIndices,
    pub pri_auto_failures: Seq<PRIEntry>,
    pub gerror: u64,
    pub total_translations: u64,
    pub successful_translations: u64,
    pub failed_translations: u64,
    pub invalidations: u64,
    pub stalls: Map<u16, StallRecord>,
    pub resolved: Map<u16, ResumeOutcome>,
    pub stag_counter: u16,
    pub strtab_log2size: u8,
    pub gbpa: GbpaConfig,
    pub cr1: u32,
    pub irq_ctrl: u32,
    pub cmdq_cons_err: u32,
    pub sync_signal: u8,
    pub sync_msi_attr: u32,
    pub sync_msi_data: u32,
}

/// The state of a freshly made SMMU: nothing configured, queued or counted, every register
/// zero, with the given queue size exponents.
pub open spec fn initial_state(config: SMMUConfig, eventq_log2: u32, cmdq_log2: u32, priq_log2: u32) -> SmmuState {
    SmmuState {
        config,
        shut_down: false,
        enabled: false,
        cr0: 0,
        cr0ack: 0,
        cr2: 0,
        gbpa_abort: false,
        streams: no_streams(),
        faults: Seq::empty(),
        fault_clock: 0,
        events: Seq::empty(),
        stall_pending: Seq::empty(),
        eventq: QueueIndices { prod: 0, cons: 0, log2size: eventq_log2 },
        commands: Seq::empty(),
        cmdq: QueueIndices { prod: 0, cons: 0, log2size: cmdq_log2 },
        pri: Seq::empty(),
        priq: QueueIndices { prod: 0, cons: 0, log2size: priq_log2 },
        pri_auto_failures: Seq::empty(),
        gerror: 0,
        total_translations: 0,
        successful_translations: 0,
        failed_translations: 0,
        invalidations: 0,
        stalls: no_stalls(),
        resolved: Map::empty(),
        stag_counter: 1,
        strtab_log2size: 32,
        gbpa: GbpaConfig {
            abort: false,
            inst_cfg: 0,
            priv_cfg: 0,
            mt_cfg: false,
            mem_attr: 0,
            sh_cfg: 0,
            alloc_cfg: 0,
        },
        cr1: 0,
        irq_ctrl: 0,
        cmdq_cons_err: 0,
        sync_signal: 0,
        sync_msi_attr: 0,
        sync_msi_data: 0,
    }
}

/// The index after `idx` in a queue of `2^log2size` entries.
pub open spec fn advanced(idx: u32, log2size: u32) -> u32 {
    ((idx + 1) % (index_modulus(log2size) as int)) as u32
}

/// The index `n` places after `idx`.
pub open spec fn advanced_by(idx: u32, log2size: u32, n: nat) -> u32
    decreases n,
{
    if n == 0 {
        idx
    } else {
        advanced(advanced_by(idx, log2size, (n - 1) as nat), log2size)
    }
}

/// A producer index after a record was discarded for lack of room: the overflow flag is
/// toggled unless an overflow is already active.
pub open spec fn overflow_marked(q: QueueIndices) -> QueueIndices {
    QueueIndices {
        prod: if overflow_bit(q.prod) != overflow_bit(q.cons) {
            q.prod
        } else {
            q.prod ^ 0x8000_0000
        },
        ..q
    }
}

/// Whether CR0.EVENTQEN is set.
pub open spec fn eventq_enabled(s: SmmuState) -> bool {
    s.cr0 & CR0_EVENTQEN != 0
}

/// The state with the fault clock advanced by one (wrapping).
pub open spec fn ticked(s: SmmuState) -> SmmuState {
    SmmuState { fault_clock: s.fault_clock.wrapping_add(1), ..s }
}

/// The state with `e` appended to the event queue if it has room; otherwise unchanged.
pub open spec fn event_pushed(s: SmmuState, e: EventEntry) -> SmmuState {
    if s.events.len() < s.config.event_queue_size {
        SmmuState {
            events: s.events.push(e),
            eventq: QueueIndices { prod: advanced(s.eventq.prod, s.eventq.log2size), ..s.eventq },
            ..s
        }
    } else {
        s
    }
}

/// The state with `e` appended to the event queue if it has room; otherwise the event is lost
/// and the overflow is flagged.
pub open spec fn event_pushed_or_lost(s: SmmuState, e: EventEntry) -> SmmuState {
    if s.events.len() < s.config.event_queue_size {
        event_pushed(s, e)
    } else {
        SmmuState { eventq: overflow_marked(s.eventq), ..s }
    }
}

/// What submitting `e` to the event queue gives: appended if there is room; otherwise the
/// queue is full, and a stall event waits among the pending events while any other event is
/// lost with the overflow flagged.
pub open spec fn event_submitted(s: SmmuState, e: EventEntry) -> (Result<(), SMMUError>, SmmuState) {
    if s.events.len() < s.config.event_queue_size {
        (Ok(()), event_pushed(s, e))
    } else if e.stall {
        (Err(SMMUError::EventQueueFull), SmmuState { stall_pending: s.stall_pending.push(e), ..s })
    } else {
        (Err(SMMUError::EventQueueFull), SmmuState { eventq: overflow_marked(s.eventq), ..s })
    }
}

/// An event about a transaction of `access` to `iova`: the access flags and the PASID-valid
/// flag follow from the access and the PASID; the rest is zero.
pub open spec fn transaction_event(
    event_type: EventType,
    stream: u32,
    pasid: u32,
    iova: u64,
    access: AccessType,
    security_state: SecurityState,
    timestamp: u64,
) -> EventEntry {
    EventEntry {
        event_type,
        stream_id: stream,
        pasid,
        address: iova,
        security_state,
        timestamp,
        rnw: access == AccessType::Write,
        ind: access == AccessType::Execute,
        ssv: pasid != 0,
        ..EventEntry::zeroed_spec()
    }
}

/// A fault record with an empty syndrome.
pub open spec fn fault_of(
    stream_id: StreamID,
    pasid: PASID,
    iova: IOVA,
    fault_type: FaultType,
    access: AccessType,
    security_state: SecurityState,
    timestamp: u64,
) -> FaultRecord {
    FaultRecord {
        stream_id,
        pasid,
        address: iova,
        fault_type,
        access_type: access,
        security_state,
        timestamp,
        ..FaultRecord::empty()
    }
}

/// The fault class a translation error is recorded under.
pub open spec fn fault_type_of(error: TranslationError) -> FaultType {
    match error {
        TranslationError::PageNotMapped => FaultType::TranslationFault,
        TranslationError::PermissionViolation { .. } => FaultType::PermissionFault,
        TranslationError::SecurityViolation => FaultType::SecurityFault,
        TranslationError::AddressSizeError => FaultType::AddressSizeFault,
        TranslationError::StreamNotConfigured => FaultType::BadSTE,
        TranslationError::InvalidStreamID => FaultType::BadStreamID,
        TranslationError::GbpaAbort => FaultType::TranslationFault,
        TranslationError::AbortMode => FaultType::StreamDisabled,
        TranslationError::StreamDisabled => FaultType::StreamDisabled,
        TranslationError::VaRangeExceeded => FaultType::TranslationFault,
        TranslationError::BadCD => FaultType::BadCD,
        TranslationError::Stalled { .. } => FaultType::TranslationFault,
        TranslationError::StallQueueFull => FaultType::TranslationFault,
    }
}

/// The event type a fault class is reported with.
pub open spec fn event_type_of(fault_type: FaultType) -> EventType {
    match fault_type {
        FaultType::StreamDisabled => EventType::FStreamDisabled,
        FaultType::BadStreamID => EventType::CBadStreamid,
        FaultType::BadSubstreamId => EventType::CBadSubstreamid,
        FaultType::AddressSizeFault => EventType::FAddrSize,
        FaultType::AccessFlagFault => EventType::FAccess,
        FaultType::BadCD => EventType::CBadCd,
        FaultType::PermissionFault | FaultType::SecurityFault => EventType::FPermission,
        _ => EventType::FTranslation,
    }
}

/// The fault class a translation error is recorded under.
pub fn map_translation_error_to_fault_type(error: &TranslationError) -> (r: FaultType)
    ensures
        r == fault_type_of(*error),
{
    match error {
        TranslationError::PageNotMapped => FaultType::TranslationFault,
        TranslationError::PermissionViolation { .. } => FaultType::PermissionFault,
        TranslationError::SecurityViolation => FaultType::SecurityFault,
        TranslationError::AddressSizeError => FaultType::AddressSizeFault,
        TranslationError::StreamNotConfigured => FaultType::BadSTE,
        TranslationError::InvalidStreamID => FaultType::BadStreamID,
        TranslationError::GbpaAbort => FaultType::TranslationFault,
        TranslationError::AbortMode => FaultType::StreamDisabled,
        TranslationError::StreamDisabled => FaultType::StreamDisabled,
        TranslationError::VaRangeExceeded => FaultType::TranslationFault,
        TranslationError::BadCD => FaultType::BadCD,
        TranslationError::Stalled { .. } => FaultType::TranslationFault,
        TranslationError::StallQueueFull => FaultType::TranslationFault,
    }
}

/// The event type a fault class is reported with.
pub fn map_fault_type_to_event_type(fault_type: FaultType) -> (r: EventType)
    ensures
        r == event_type_of(fault_type),
{
    match fault_type {
        FaultType::StreamDisabled => EventType::FStreamDisabled,
        FaultType::BadStreamID => EventType::CBadStreamid,
        FaultType::BadSubstreamId => EventType::CBadSubstreamid,
        FaultType::AddressSizeFault => EventType::FAddrSize,
        FaultType::AccessFlagFault => EventType::FAccess,
        FaultType::BadCD => EventType::CBadCd,
        FaultType::PermissionFault | FaultType::SecurityFault => EventType::FPermission,
        _ => EventType::FTranslation,
    }
}

/// Errors that are recorded as faults but reported with no event.
pub open spec fn silent_error(error: TranslationError) -> bool {
    error is AbortMode || error is StreamDisabled || error is VaRangeExceeded
}

/// The event a translation fault is reported with.
pub open spec fn translation_fault_event(
    stream: u32,
    pasid: u32,
    iova: u64,
    access: AccessType,
    security_state: SecurityState,
    error: TranslationError,
    is_stall: bool,
    stag: u16,
    s2: bool,
    ipa: u64,
    timestamp: u64,
) -> EventEntry {
    let event_type = event_type_of(fault_type_of(error));
    EventEntry {
        stall: is_stall,
        stag,
        event_class: if event_type == EventType::FTranslation || event_type == EventType::FAddrSize || event_type
            == EventType::FAccess || event_type == EventType::FPermission {
            2
        } else {
            0
        },
        s2,
        ipa,
        ssv: event_type == EventType::CBadSubstreamid || pasid != 0,
        ..transaction_event(event_type, stream, pasid, iova, access, security_state, timestamp)
    }
}

/// Whether `e` is merged away: its stream merges events (MEV) and an event of the same type
/// for the stream is already queued.
pub open spec fn merged_away(s: SmmuState, e: EventEntry) -> bool {
    &&& s.streams.contains_key(e.stream_id)
    &&& s.streams[e.stream_id].mev
    &&& exists|i: int|
        0 <= i < s.events.len() && (#[trigger] s.events[i]).event_type == e.event_type && s.events[i].stream_id
            == e.stream_id
}

/// The state after the pending stall events moved into the event queue, oldest first, as far
/// as it has room.
pub open spec fn pending_drained(s: SmmuState) -> SmmuState {
    let room = s.config.event_queue_size - s.events.len();
    let k: nat = if room <= 0 {
        0
    } else if s.stall_pending.len() < room {
        s.stall_pending.len()
    } else {
        room as nat
    };
    SmmuState {
        events: s.events + s.stall_pending.take(k as int),
        stall_pending: s.stall_pending.skip(k as int),
        eventq: QueueIndices { prod: advanced_by(s.eventq.prod, s.eventq.log2size, k), ..s.eventq },
        ..s
    }
}

/// The state after a translation fault was recorded: the fault is logged with the next
/// timestamp; unless the error is silent, event recording is off, or the event is merged
/// away, the pending stall events move into the queue first and then the event is queued,
/// held back (a stall event) or lost with the overflow flagged.
pub open spec fn fault_recorded(
    s: SmmuState,
    stream_id: StreamID,
    pasid: PASID,
    iova: IOVA,
    access: AccessType,
    security_state: SecurityState,
    error: TranslationError,
    is_stall: bool,
    stag: u16,
    s2: bool,
    ipa: u64,
) -> SmmuState {
    let ts = s.fault_clock;
    let logged = SmmuState {
        faults: s.faults.push(fault_of(stream_id, pasid, iova, fault_type_of(error), access, security_state, ts)),
        ..ticked(s)
    };
    let e = translation_fault_event(
        stream_id@,
        pasid@,
        iova@,
        access,
        security_state,
        error,
        is_stall,
        stag,
        s2,
        ipa,
        ts,
    );
    if silent_error(error) || !eventq_enabled(s) {
        logged
    } else {
        fault_event_delivered(logged, e)
    }
}

/// The state after the event of a translation fault was delivered: unless it is merged away,
/// the pending stall events move into the queue first and then the event is queued, held
/// back (a stall event) or lost with the overflow flagged.
pub open spec fn fault_event_delivered(s: SmmuState, e: EventEntry) -> SmmuState {
    if merged_away(s, e) {
        s
    } else {
        let drained = pending_drained(s);
        if drained.events.len() < drained.config.event_queue_size {
            event_pushed(drained, e)
        } else if e.stall {
            SmmuState { stall_pending: drained.stall_pending.push(e), ..drained }
        } else {
            SmmuState { eventq: overflow_marked(drained.eventq), ..drained }
        }
    }
}

/// The state after a transaction named a stream that is not configured: a BadStreamID fault
/// is logged with the next timestamp, and while event recording and CR2.RECINVSID are on a
/// C_BAD_STREAMID event is queued or lost with the overflow flagged.
pub open spec fn stream_not_found_recorded(
    s: SmmuState,
    stream_id: StreamID,
    pasid: PASID,
    iova: IOVA,
    access: AccessType,
    security_state: SecurityState,
) -> SmmuState {
    let ts = s.fault_clock;
    let logged = SmmuState {
        faults: s.faults.push(fault_of(stream_id, pasid, iova, FaultType::BadStreamID, access, security_state, ts)),
        ..ticked(s)
    };
    if !eventq_enabled(s) || s.cr2 & CR2_RECINVSID == 0 {
        logged
    } else {
        event_pushed_or_lost(
            logged,
            transaction_event(EventType::CBadStreamid, stream_id@, pasid@, iova@, access, security_state, ts),
        )
    }
}

/// What reporting an unsupported transaction gives: refused after shutdown; otherwise, while
/// event recording is on, an F_UUT event with the next timestamp is queued or lost with the
/// overflow flagged.
pub open spec fn unsupported_reported(
    s: SmmuState,
    stream_id: StreamID,
    pasid: PASID,
    iova: IOVA,
    access: AccessType,
    security_state: SecurityState,
) -> (Result<(), SMMUError>, SmmuState) {
    if s.shut_down {
        (Err(SMMUError::ShutdownInProgress), s)
    } else if !eventq_enabled(s) {
        (Ok(()), s)
    } else {
        (
            Ok(()),
            event_pushed_or_lost(
                ticked(s),
                transaction_event(EventType::FUut, stream_id@, pasid@, iova@, access, security_state, s.fault_clock),
            ),
        )
    }
}

/// Output address size in bits of a stage 2 output size code (reserved codes read as 48).
pub open spec fn s2_output_bits(ps: u8) -> u32 {
    if ps == 0 {
        32
    } else if ps == 1 {
        36
    } else if ps == 2 {
        40
    } else if ps == 3 {
        42
    } else if ps == 4 {
        44
    } else if ps == 6 {
        52
    } else {
        48
    }
}

/// Why a stream table entry is illegal (C_BAD_STE), if it is: translation with neither stage
/// enabled; EL3 for a non-secure stream; a stage 2 table beyond the stage 2 output size.
pub open spec fn ste_problem(config: StreamConfig) -> Option<ConfigurationProblem> {
    if config.translation_enabled && !config.stage1_enabled && !config.stage2_enabled {
        Some(ConfigurationProblem::ReservedStreamConfig)
    } else if config.security_state == SecurityState::NonSecure && config.strw == StreamWorld::El3 {
        Some(ConfigurationProblem::El3WorldForNonSecure)
    } else if config.stage2_enabled && s2_output_bits(config.s2_ps) < 52 && config.s2_ttb >= (1u64 << s2_output_bits(
        config.s2_ps,
    )) {
        Some(ConfigurationProblem::Stage2TableBeyondOutputSize)
    } else {
        None
    }
}

/// What configuring stream `id` with `config` gives: refused after shutdown; an illegal entry
/// is refused (with a C_BAD_STE event queued, if there is room, while event recording is
/// on); then the stream limit, then an existing stream refuse it; otherwise the stream is
/// added.
pub open spec fn stream_configured(s: SmmuState, id: u32, config: StreamConfig) -> (Result<(), SMMUError>, SmmuState) {
    if s.shut_down {
        (Err(SMMUError::ShutdownInProgress), s)
    } else if ste_problem(config) is Some {
        (
            Err(SMMUError::InvalidConfiguration(ste_problem(config)->0)),
            if eventq_enabled(s) {
                event_pushed(
                    ticked(s),
                    EventEntry {
                        event_type: EventType::CBadSte,
                        stream_id: id,
                        security_state: config.security_state,
                        timestamp: s.fault_clock,
                        ..EventEntry::zeroed_spec()
                    },
                )
            } else {
                s
            },
        )
    } else if s.streams.len() >= s.config.max_streams {
        (Err(SMMUError::StreamLimitExceeded { current: s.streams.len() as usize, max: s.config.max_streams }), s)
    } else if s.streams.contains_key(id) {
        (Err(SMMUError::StreamAlreadyExists(StreamID(id))), s)
    } else {
        (Ok(()), SmmuState { streams: s.streams.insert(id, config), ..s })
    }
}

/// What removing stream `id` gives: refused after shutdown or when no such stream exists;
/// otherwise the stream leaves the table.
pub open spec fn stream_removed(s: SmmuState, id: u32) -> (Result<(), SMMUError>, SmmuState) {
    if s.shut_down {
        (Err(SMMUError::ShutdownInProgress), s)
    } else if !s.streams.contains_key(id) {
        (Err(SMMUError::StreamNotFound(StreamID(id))), s)
    } else {
        (Ok(()), SmmuState { streams: s.streams.remove(id), ..s })
    }
}

/// What shutting down gives: refused the second time; the first time the streams and the
/// fault log are cleared.
pub open spec fn shut_down_step(s: SmmuState) -> (Result<(), SMMUError>, SmmuState) {
    if s.shut_down {
        (Err(SMMUError::ShutdownInProgress), s)
    } else {
        (Ok(()), SmmuState { shut_down: true, streams: no_streams(), faults: Seq::empty(), ..s })
    }
}

/// The next nonzero stall tag the tag counter hands out, and the counter after it (the counter
/// wraps and skips 0).
pub open spec fn nonzero_take(counter: u16) -> (u16, u16) {
    if counter == 0 {
        (1, 2)
    } else {
        (counter, counter.wrapping_add(1))
    }
}

/// The search for a free stall tag starting at `candidate`, with the tag counter at `counter`
/// and `tries` tags already found taken: the first free tag and the counter after it, or
/// nothing when 65535 tags in a row were taken.
pub open spec fn stag_search(stalls: Map<u16, StallRecord>, candidate: u16, counter: u16, tries: nat) -> (
    Option<u16>,
    u16,
)
    decreases 65535 - tries,
{
    if !stalls.contains_key(candidate) {
        (Some(candidate), counter)
    } else if tries + 1 >= 65535 {
        (None, nonzero_take(counter).1)
    } else {
        stag_search(stalls, nonzero_take(counter).0, nonzero_take(counter).1, tries + 1)
    }
}

/// The stall tag allocation of state `s`: a search from the counter's next nonzero tag.
pub open spec fn stag_allocation(s: SmmuState) -> (Option<u16>, u16) {
    stag_search(s.stalls, nonzero_take(s.stag_counter).0, nonzero_take(s.stag_counter).1, 0)
}

/// Fault classes whose transactions a stall-mode stream stalls.
pub open spec fn stall_eligible(fault_type: FaultType) -> bool {
    fault_type == FaultType::TranslationFault || fault_type == FaultType::AddressSizeFault || fault_type
        == FaultType::AccessFlagFault || fault_type == FaultType::PermissionFault
}

/// How a RESUME command ends a stalled transaction.
pub open spec fn resume_outcome_of(c: CommandEntry) -> ResumeOutcome {
    if c.action {
        ResumeOutcome::Retry
    } else if c.abort {
        ResumeOutcome::Abort
    } else {
        ResumeOutcome::Terminate
    }
}

/// The stall table without the stalled transactions of stream `stream`.
pub open spec fn stalls_of_other_streams(stalls: Map<u16, StallRecord>, stream: u32) -> Map<u16, StallRecord> {
    stalls.filter_keys(|k: u16| stalls[k].stream_id != stream)
}

/// The state after an injected fault was reported by `e`: while event recording is on, the
/// event, stamped with the next timestamp, is queued if there is room.
pub open spec fn fault_injected(s: SmmuState, e: EventEntry) -> SmmuState {
    if !eventq_enabled(s) {
        s
    } else {
        event_pushed(ticked(s), EventEntry { timestamp: s.fault_clock, ..e })
    }
}

/// Whether an event has the given type.
pub open spec fn of_event_type(t: EventType) -> spec_fn(EventEntry) -> bool {
    |e: EventEntry| e.event_type == t
}

/// Whether an event concerns the given stream.
pub open spec fn of_event_stream(stream: u32) -> spec_fn(EventEntry) -> bool {
    |e: EventEntry| e.stream_id == stream
}

/// The state with the invalidation counter advanced (wrapping).
pub open spec fn invalidation_counted(s: SmmuState) -> SmmuState {
    SmmuState { invalidations: s.invalidations.wrapping_add(1), ..s }
}

/// The VMID mask CR0.VMW selects: the low `VMW` bits are wildcards.
pub open spec fn vmid_mask(cr0: u32) -> u16 {
    (0xFFFFu32 << ((cr0 >> CR0_VMW_SHIFT) & 7)) as u16
}

/// The TLB invalidation command `c` performs on state `s`, if any. The non-secure broadcast
/// invalidations (by ASID, all, by VA) act only while CR2.PTM is set; ATC and CD
/// invalidations need a valid PASID.
pub open spec fn command_scope(s: SmmuState, c: CommandEntry) -> Option<InvalidationScope> {
    let ptm = s.cr2 & CR2_PTM != 0;
    match c.cmd_type {
        CommandType::TlbiNhAsid | CommandType::TlbiEl2Asid => if ptm {
            Some(InvalidationScope::Asid(c.asid))
        } else {
            None
        },
        CommandType::TlbiNhAll | CommandType::TlbiEl2All | CommandType::TlbiNsnhAll => if ptm {
            Some(InvalidationScope::All)
        } else {
            None
        },
        CommandType::TlbiNhVa | CommandType::TlbiEl2Va | CommandType::TlbiEl3Va | CommandType::TlbiSEl2Va => if ptm {
            Some(InvalidationScope::VaAsid(c.start_address, c.asid))
        } else {
            None
        },
        CommandType::TlbiNhVaa | CommandType::TlbiEl2Vaa | CommandType::TlbiSEl2Vaa => if ptm {
            Some(InvalidationScope::Va(c.start_address))
        } else {
            None
        },
        CommandType::TlbiS12Vmall | CommandType::TlbiSS12Vmall => Some(
            InvalidationScope::VmidMasked(c.vmid, vmid_mask(s.cr0)),
        ),
        CommandType::TlbiS2Ipa | CommandType::TlbiSS2Ipa => Some(
            InvalidationScope::VmidIpa(c.vmid, vmid_mask(s.cr0), c.start_address, c.start_address | 0xFFF),
        ),
        CommandType::AtcInv => if c.pasid > PASID_MAX {
            None
        } else if c.flags & 1 != 0 {
            Some(InvalidationScope::StreamPasid(c.stream_id, c.pasid))
        } else {
            Some(InvalidationScope::VaRange(c.stream_id, c.pasid, c.start_address, c.end_address))
        },
        CommandType::CfgiCd => if c.pasid > PASID_MAX {
            None
        } else {
            Some(InvalidationScope::StreamPasid(c.stream_id, c.pasid))
        },
        CommandType::CfgiCdAll => Some(InvalidationScope::Stream(c.stream_id)),
        CommandType::CfgiAll => if c.range >= 31 {
            Some(InvalidationScope::All)
        } else {
            Some(InvalidationScope::StreamPrefix(c.stream_id >> (c.range + 1) as u32, (c.range + 1) as u32))
        },
        CommandType::TlbiEl3All | CommandType::TlbiSEl2All | CommandType::TlbiSnhAll => Some(InvalidationScope::All),
        CommandType::TlbiSEl2Asid => Some(InvalidationScope::Asid(c.asid)),
        _ => None,
    }
}

/// Whether command `c` advances the invalidation counter on state `s`: every invalidation it
/// performs does, and an ATC invalidation does even with an invalid PASID.
pub open spec fn counts_invalidation(s: SmmuState, c: CommandEntry) -> bool {
    command_scope(s, c) is Some || c.cmd_type == CommandType::AtcInv
}

/// Security state of stream `id` (non-secure when it is not configured).
pub open spec fn stream_security(s: SmmuState, id: u32) -> SecurityState {
    if s.streams.contains_key(id) {
        s.streams[id].security_state
    } else {
        SecurityState::NonSecure
    }
}

/// What executing command `c` does to the state apart from the TLB: invalidations are
/// counted; an ATC invalidation then submits a completion event with the next timestamp; a
/// CMD_SYNC with a completion signal records the signal and submits a sync event (the
/// reserved signal is refused, with CMDQ_CONS.ERR set to CERROR_ILL); a page request response
/// retires the head of the page request queue when it answers it; dirty page tracking
/// commands are refused with CERROR_ILL; RESUME ends a stalled transaction of the named
/// stream with its outcome recorded; STALL_TERM ends every stalled transaction of the stream;
/// the rest change nothing else.
pub open spec fn command_effect(s: SmmuState, c: CommandEntry) -> (Result<(), SMMUError>, SmmuState) {
    let counted = if counts_invalidation(s, c) {
        invalidation_counted(s)
    } else {
        s
    };
    match c.cmd_type {
        CommandType::AtcInv => (
            Ok(()),
            event_submitted(
                ticked(counted),
                EventEntry {
                    event_type: EventType::AtcInvalidateCompletion,
                    stream_id: c.stream_id,
                    pasid: c.pasid,
                    address: c.start_address,
                    security_state: stream_security(s, c.stream_id),
                    timestamp: counted.fault_clock,
                    ..EventEntry::zeroed_spec()
                },
            ).1,
        ),
        CommandType::Sync => if c.cs == 3 {
            (
                Err(SMMUError::InvalidCommandParameters(CommandProblem::ReservedSyncSignal)),
                SmmuState { cmdq_cons_err: CERROR_ILL, ..s },
            )
        } else if c.cs != 0 {
            (
                Ok(()),
                event_submitted(
                    ticked(SmmuState { sync_signal: c.cs, ..s }),
                    EventEntry {
                        event_type: EventType::CommandSyncCompletion,
                        stream_id: c.stream_id,
                        pasid: c.pasid,
                        security_state: stream_security(s, c.stream_id),
                        timestamp: s.fault_clock,
                        ..EventEntry::zeroed_spec()
                    },
                ).1,
            )
        } else {
            (Ok(()), s)
        },
        CommandType::PriResp => (
            Ok(()),
            if s.pri.len() > 0 && s.pri[0].stream_id == c.stream_id && s.pri[0].prg_index == c.prg_index {
                SmmuState {
                    pri: s.pri.drop_first(),
                    priq: QueueIndices { cons: advanced(s.priq.cons, s.priq.log2size), ..s.priq },
                    ..s
                }
            } else {
                s
            },
        ),
        CommandType::DptiAll | CommandType::DptiPa => (
            Err(SMMUError::InvalidCommandParameters(CommandProblem::DirtyTrackingUnsupported)),
            SmmuState { cmdq_cons_err: CERROR_ILL, ..s },
        ),
        CommandType::Resume => (
            Ok(()),
            if s.stalls.contains_key(c.stag) && s.stalls[c.stag].stream_id == c.stream_id {
                SmmuState {
                    resolved: s.resolved.insert(c.stag, resume_outcome_of(c)),
                    stalls: s.stalls.remove(c.stag),
                    ..s
                }
            } else {
                s
            },
        ),
        CommandType::StallTerm => (Ok(()), SmmuState { stalls: stalls_of_other_streams(s.stalls, c.stream_id), ..s }),
        _ => (Ok(()), counted),
    }
}

/// The combined GERROR/GERRORN value after the errors in `bits` were signalled.
pub open spec fn gerror_signaled(combined: u64, bits: u32) -> u64 {
    if bits & !active_errors(combined) == 0 {
        combined
    } else {
        combine_gerror(gerror_of(combined) ^ (bits & !active_errors(combined)), gerrorn_of(combined))
    }
}

/// Draining the command queue, `done` commands in and at most `k` to go: each command leaves
/// the queue (the consumer index advancing) and is executed; the first refused command stops
/// the drain with CMDQ_ERR signalled; otherwise the result is the number executed.
pub open spec fn commands_drained(s: SmmuState, done: nat, k: nat) -> (Result<usize, SMMUError>, SmmuState)
    decreases k,
{
    if k == 0 || s.commands.len() == 0 {
        (Ok(done as usize), s)
    } else {
        let c = s.commands[0];
        let popped = SmmuState {
            commands: s.commands.drop_first(),
            cmdq: QueueIndices { cons: advanced(s.cmdq.cons, s.cmdq.log2size), ..s.cmdq },
            ..s
        };
        let (r, after) = command_effect(popped, c);
        match r {
            Err(e) => (Err(e), SmmuState { gerror: gerror_signaled(after.gerror, GERROR_CMDQ_ERR), ..after }),
            Ok(_) => commands_drained(after, done + 1, (k - 1) as nat),
        }
    }
}

/// The TLB entries and statistics after an invalidation of `scope` (if any): the selected
/// entries leave, and each one that left is counted.
pub open spec fn tlb_after_scope(
    m: Map<Slot, CacheEntry>,
    stats: crate::cache::CacheStatistics,
    scope: Option<InvalidationScope>,
) -> (Map<Slot, CacheEntry>, crate::cache::CacheStatistics) {
    match scope {
        Some(sc) => (surviving(m, sc), counted_invalidations(stats, (m.len() - surviving(m, sc).len()) as nat)),
        None => (m, stats),
    }
}

/// The TLB entries and statistics after draining the command queue of `s` (as
/// `commands_drained` does, at most `k` commands), from entries `m` and statistics `stats`:
/// each executed command, the refused one included, applies its invalidation.
pub open spec fn commands_tlb(
    s: SmmuState,
    m: Map<Slot, CacheEntry>,
    stats: crate::cache::CacheStatistics,
    k: nat,
) -> (Map<Slot, CacheEntry>, crate::cache::CacheStatistics)
    decreases k,
{
    if k == 0 || s.commands.len() == 0 {
        (m, stats)
    } else {
        let c = s.commands[0];
        let popped = SmmuState {
            commands: s.commands.drop_first(),
            cmdq: QueueIndices { cons: advanced(s.cmdq.cons, s.cmdq.log2size), ..s.cmdq },
            ..s
        };
        let (r, after) = command_effect(popped, c);
        let (m2, stats2) = tlb_after_scope(m, stats, command_scope(popped, c));
        match r {
            Err(_) => (m2, stats2),
            Ok(_) => commands_tlb(after, m2, stats2, (k - 1) as nat),
        }
    }
}

/// What processing the command queue gives: nothing while CR0.CMDQEN is clear or CMDQ_ERR is
/// active; otherwise the whole queue is drained.
pub open spec fn command_queue_processed(s: SmmuState) -> (Result<usize, SMMUError>, SmmuState) {
    if s.cr0 & CR0_CMDQEN == 0 || active_errors(s.gerror) & GERROR_CMDQ_ERR != 0 {
        (Ok(0), s)
    } else {
        commands_drained(s, 0, s.commands.len())
    }
}

/// What submitting command `c` gives: an ATC invalidation whose end lies below its start is
/// refused, as is any command when the queue is full; otherwise it is appended and the
/// producer index advances.
pub open spec fn command_submitted(s: SmmuState, c: CommandEntry) -> (Result<(), SMMUError>, SmmuState) {
    if c.cmd_type == CommandType::AtcInv && c.end_address < c.start_address {
        (Err(SMMUError::InvalidCommandParameters(CommandProblem::EndBeforeStart)), s)
    } else if s.commands.len() >= s.config.command_queue_size {
        (Err(SMMUError::CommandQueueFull), s)
    } else {
        (
            Ok(()),
            SmmuState {
                commands: s.commands.push(c),
                cmdq: QueueIndices { prod: advanced(s.cmdq.prod, s.cmdq.log2size), ..s.cmdq },
                ..s
            },
        )
    }
}

/// What submitting page request `r` gives: refused unless both CR0.PRIQEN and CR0.SMMUEN are
/// set; when the queue is full the overflow is flagged, the request is answered automatically
/// and refused; otherwise it is appended and the producer index advances.
pub open spec fn page_request_submitted(s: SmmuState, r: PRIEntry) -> (Result<(), SMMUError>, SmmuState) {
    if !(s.cr0 & CR0_PRIQEN != 0 && s.cr0 & CR0_SMMUEN != 0) {
        (Err(SMMUError::InvalidConfiguration(ConfigurationProblem::PriQueueDisabled)), s)
    } else if s.pri.len() >= s.config.pri_queue_size {
        (
            Err(SMMUError::PriQueueFull),
            SmmuState { priq: overflow_marked(s.priq), pri_auto_failures: s.pri_auto_failures.push(r), ..s },
        )
    } else {
        (
            Ok(()),
            SmmuState {
                pri: s.pri.push(r),
                priq: QueueIndices { prod: advanced(s.priq.prod, s.priq.log2size), ..s.priq },
                ..s
            },
        )
    }
}

/// The event a page request is reported with.
pub open spec fn page_request_event(r: PRIEntry, timestamp: u64) -> EventEntry {
    EventEntry {
        event_type: EventType::EPageRequest,
        stream_id: r.stream_id,
        pasid: r.pasid,
        address: r.requested_address,
        security_state: r.security_state,
        error_code: r.prg_index as u32,
        timestamp,
        ..EventEntry::zeroed_spec()
    }
}

/// Draining the page request queue, `done` requests in and at most `k` to go: each request
/// leaves the queue (the consumer index advancing) and is reported by an event with the next
/// timestamp, submitted to the event queue.
pub open spec fn page_requests_drained(s: SmmuState, done: nat, k: nat) -> (nat, SmmuState)
    decreases k,
{
    if k == 0 || s.pri.len() == 0 {
        (done, s)
    } else {
        let r = s.pri[0];
        let popped = SmmuState {
            pri: s.pri.drop_first(),
            priq: QueueIndices { cons: advanced(s.priq.cons, s.priq.log2size), ..s.priq },
            ..s
        };
        page_requests_drained(
            event_submitted(ticked(popped), page_request_event(r, popped.fault_clock)).1,
            done + 1,
            (k - 1) as nat,
        )
    }
}

/// Whether `addr` exceeds the output address size.
pub open spec fn beyond_oas(s: SmmuState, addr: u64) -> bool {
    s.config.max_pa_bits < 64 && addr >= (1u64 << s.config.max_pa_bits)
}

/// The state with a failed translation counted.
pub open spec fn failure_counted(s: SmmuState) -> SmmuState {
    SmmuState { failed_translations: s.failed_translations.wrapping_add(1), ..s }
}

/// The state with a successful translation counted.
pub open spec fn success_counted(s: SmmuState) -> SmmuState {
    SmmuState { successful_translations: s.successful_translations.wrapping_add(1), ..s }
}

/// The walk result of a stage-1-only stream with its output address cut to the output address
/// size.
pub open spec fn oas_truncated(s: SmmuState, cfg: StreamConfig, walk: TranslationResult) -> TranslationResult {
    match walk {
        Ok(d) => if cfg.translation_enabled && cfg.stage1_enabled && !cfg.stage2_enabled && beyond_oas(
            s,
            d.physical_address@,
        ) {
            Ok(
                TranslationData {
                    physical_address: PA(d.physical_address@ & ((1u64 << s.config.max_pa_bits) - 1) as u64),
                    ..d
                },
            )
        } else {
            Ok(d)
        },
        Err(e) => Err(e),
    }
}

/// Whether StreamID `stream` lies beyond a stream table of `2^strtab_log2size` entries.
pub open spec fn strtab_rejects(s: SmmuState, stream: u32) -> bool {
    s.strtab_log2size < 32 && stream >= (1u32 << (s.strtab_log2size as u32))
}

/// Whether a translation reaches the TLB lookup: the SMMU is enabled and not shut down, an
/// ATS translation request names a configured stream, and the StreamID lies within the stream
/// table.
pub open spec fn reaches_tlb(s: SmmuState, stream: u32, ttype: TransactionType) -> bool {
    &&& s.enabled
    &&& !s.shut_down
    &&& !(ttype == TransactionType::AtsTranslationRequest && !s.streams.contains_key(stream))
    &&& !strtab_rejects(s, stream)
}

/// The TLB entry that serves a transaction of `access` under `key`, if any: the cached entry
/// of the key's slot, when its permissions allow the access.
pub open spec fn tlb_hit(cached: Map<Slot, CacheEntry>, key: CacheKey, access: AccessType) -> Option<CacheEntry> {
    if cached.contains_key(slot_of(key)) && permits(cached[slot_of(key)].permissions, access) {
        Some(cached[slot_of(key)])
    } else {
        None
    }
}

/// What a translation of `iova` for stream `stream_id`, whose page table walk gave `walk`
/// (with the stage 2 input address `stage2_ipa` of a two-stage walk), comes to.
/// - While the SMMU is disabled, ATS requests and ATS-translated transactions are refused
///   as permission violations (with an F_BAD_ATS_TREQ or F_TRANSL_FORBIDDEN event when
///   recorded);
/// - an ATS translation request for an unconfigured stream fails (stream not configured),
///   with a C_BAD_STREAMID event when event recording, CR2.RECINVSID and CR2.REC_CFG_ATS are
///   all on; every other transaction is counted, then:
/// - after shutdown it fails (stream not configured);
/// - while disabled it aborts when GBPA says so, fails when the address exceeds the output
///   address size, and otherwise passes through unchanged with every permission;
/// - a StreamID beyond the stream table fails (invalid StreamID), with the stream-not-found
///   fault recorded;
/// - when the TLB (whose entries are `cached`) holds an entry for the transaction whose
///   permissions allow the access, that entry answers it;
/// - for an unconfigured stream it fails, with the stream-not-found fault recorded;
/// - a bypassing stream fails when the address exceeds the output address size, with the
///   fault recorded;
/// - otherwise the walk result stands (the output address of a stage-1-only stream cut to the
///   output address size); a failure is recorded as a translation fault.
/// Each success and failure is counted.
pub open spec fn translated(
    s: SmmuState,
    cached: Map<Slot, CacheEntry>,
    stream_id: StreamID,
    pasid: PASID,
    iova: IOVA,
    access: AccessType,
    security_state: SecurityState,
    ttype: TransactionType,
    walk: TranslationResult,
    stage2_ipa: Option<u64>,
) -> (TranslationResult, SmmuState) {
    if !s.enabled && ttype != TransactionType::Ordinary {
        let recorded = eventq_enabled(s) && (ttype == TransactionType::AtsTranslated || s.cr2 & CR2_REC_CFG_ATS != 0);
        let event_type = if ttype == TransactionType::AtsTranslationRequest {
            EventType::FBadAtsTreq
        } else {
            EventType::FTranslForbidden
        };
        let s1 = if recorded {
            event_pushed(
                ticked(s),
                transaction_event(event_type, stream_id@, pasid@, iova@, access, security_state, s.fault_clock),
            )
        } else {
            s
        };
        (Err(TranslationError::PermissionViolation { access }), failure_counted(s1))
    } else if ttype == TransactionType::AtsTranslationRequest && !s.streams.contains_key(stream_id@) {
        let recorded = eventq_enabled(s) && s.cr2 & CR2_RECINVSID != 0 && s.cr2 & CR2_REC_CFG_ATS != 0;
        let s1 = if recorded {
            event_pushed(
                ticked(s),
                EventEntry {
                    event_type: EventType::CBadStreamid,
                    stream_id: stream_id@,
                    pasid: pasid@,
                    address: iova@,
                    security_state,
                    timestamp: s.fault_clock,
                    ..EventEntry::zeroed_spec()
                },
            )
        } else {
            s
        };
        (Err(TranslationError::StreamNotConfigured), failure_counted(s1))
    } else {
        let s0 = SmmuState { total_translations: s.total_translations.wrapping_add(1), ..s };
        if s.shut_down {
            (Err(TranslationError::StreamNotConfigured), failure_counted(s0))
        } else if !s.enabled {
            if s.gbpa_abort {
                (Err(TranslationError::GbpaAbort), failure_counted(s0))
            } else if beyond_oas(s, iova@) {
                (Err(TranslationError::AddressSizeError), failure_counted(s0))
            } else {
                (
                    Ok(
                        TranslationData {
                            physical_address: PA(iova@),
                            permissions: PagePermissions { read: true, write: true, execute: true },
                            security_state,
                        },
                    ),
                    success_counted(s0),
                )
            }
        } else if strtab_rejects(s, stream_id@) {
            (
                Err(TranslationError::InvalidStreamID),
                stream_not_found_recorded(failure_counted(s0), stream_id, pasid, iova, access, security_state),
            )
        } else if tlb_hit(cached, CacheKey { stream_id, pasid, iova, security_state }, access) is Some {
            let e = tlb_hit(cached, CacheKey { stream_id, pasid, iova, security_state }, access)->0;
            (
                Ok(
                    TranslationData {
                        physical_address: e.physical_address,
                        permissions: e.permissions,
                        security_state: e.security_state,
                    },
                ),
                success_counted(s0),
            )
        } else if !s.streams.contains_key(stream_id@) {
            (
                Err(TranslationError::StreamNotConfigured),
                stream_not_found_recorded(failure_counted(s0), stream_id, pasid, iova, access, security_state),
            )
        } else {
            let cfg = s.streams[stream_id@];
            if !cfg.translation_enabled && walk is Ok && beyond_oas(s, iova@) {
                (
                    Err(TranslationError::AddressSizeError),
                    fault_recorded(
                        failure_counted(s0),
                        stream_id,
                        pasid,
                        iova,
                        access,
                        security_state,
                        TranslationError::AddressSizeError,
                        false,
                        0,
                        false,
                        0,
                    ),
                )
            } else {
                match oas_truncated(s, cfg, walk) {
                    Ok(d) => (Ok(d), success_counted(s0)),
                    Err(e) => {
                        let base = failure_counted(s0);
                        let ipa = match stage2_ipa {
                            Some(ipa) => ipa,
                            None => 0,
                        };
                        if cfg.fault_mode == FaultMode::Stall && stall_eligible(fault_type_of(e)) {
                            let found = stag_allocation(s);
                            match found.0 {
                                Some(stag) => (
                                    Err(TranslationError::Stalled { stag }),
                                    fault_recorded(
                                        SmmuState {
                                            stalls: s.stalls.insert(
                                                stag,
                                                StallRecord {
                                                    stag,
                                                    stream_id: stream_id@,
                                                    pasid: pasid@,
                                                    iova: iova@,
                                                    access,
                                                    security_state,
                                                },
                                            ),
                                            stag_counter: found.1,
                                            ..base
                                        },
                                        stream_id,
                                        pasid,
                                        iova,
                                        access,
                                        security_state,
                                        e,
                                        true,
                                        stag,
                                        stage2_ipa is Some,
                                        ipa,
                                    ),
                                ),
                                None => (
                                    Err(TranslationError::StallQueueFull),
                                    fault_recorded(
                                        SmmuState { stag_counter: found.1, ..base },
                                        stream_id,
                                        pasid,
                                        iova,
                                        access,
                                        security_state,
                                        e,
                                        false,
                                        0,
                                        stage2_ipa is Some,
                                        ipa,
                                    ),
                                ),
                            }
                        } else {
                            (
                                Err(e),
                                fault_recorded(
                                    base,
                                    stream_id,
                                    pasid,
                                    iova,
                                    access,
                                    security_state,
                                    e,
                                    false,
                                    0,
                                    stage2_ipa is Some,
                                    ipa,
                                ),
                            )
                        }
                    },
                }
            }
        }
    }
}

/// The output address a successful walk `d` of stream configuration `cfg` gives: cut to the
/// output address size for a stage-1-only stream.
pub open spec fn oas_physical_address(s: SmmuState, cfg: StreamConfig, d: TranslationData) -> PA {
    match oas_truncated(s, cfg, Ok(d)) {
        Ok(t) => t.physical_address,
        Err(_) => d.physical_address,
    }
}

/// The TLB entry a translation caches, if any: the result of a successful walk for a
/// configured stream of an enabled SMMU when the TLB did not answer, under the stream, PASID,
/// address and security state of the transaction, with the stage 2 input address of a
/// two-stage walk.
pub open spec fn translation_fill(
    s: SmmuState,
    cached: Map<Slot, CacheEntry>,
    stream_id: StreamID,
    pasid: PASID,
    iova: IOVA,
    access: AccessType,
    security_state: SecurityState,
    walk: TranslationResult,
    stage2_ipa: Option<u64>,
) -> Option<(CacheKey, CacheEntry)> {
    if s.shut_down || !s.enabled || strtab_rejects(s, stream_id@) || tlb_hit(
        cached,
        CacheKey { stream_id, pasid, iova, security_state },
        access,
    ) is Some || !s.streams.contains_key(stream_id@) {
        None
    } else {
        let cfg = s.streams[stream_id@];
        if !cfg.translation_enabled && walk is Ok && beyond_oas(s, iova@) {
            None
        } else {
            match oas_truncated(s, cfg, walk) {
                Ok(d) => Some(
                    (
                        CacheKey { stream_id, pasid, iova, security_state },
                        CacheEntry {
                            iova,
                            physical_address: d.physical_address,
                            permissions: d.permissions,
                            security_state: d.security_state,
                            timestamp: 0,
                            asid: 0,
                            vmid: 0,
                            ipa: match stage2_ipa {
                                Some(ipa) => ipa,
                                None => 0,
                            },
                        },
                    ),
                ),
                Err(_) => None,
            }
        }
    }
}

/// An SMMU: stream table, registers, fault log, event, command and page request queues, TLB
/// and counters.
pub struct SMMU {
    config: SMMUConfig,
    streams: StreamTable,
    shut_down: bool,
    enabled: bool,
    cr0: u32,
    cr0ack: u32,
    cr2: u32,
    gbpa_abort: bool,
    faults: Vec<FaultRecord>,
    fault_clock: u64,
    events: Vec<EventEntry>,
    stall_pending: VecDeque<EventEntry>,
    eventq: QueueIndices,
    commands: VecDeque<CommandEntry>,
    cmdq: QueueIndices,
    pri: VecDeque<PRIEntry>,
    priq: QueueIndices,
    pri_auto_failures: Vec<PRIEntry>,
    gerror: u64,
    total_translations: u64,
    successful_translations: u64,
    failed_translations: u64,
    invalidations: u64,
    tlb: TlbCache,
    stall_queue: StallTable,
    resolved_stags: HashMap<u16, ResumeOutcome>,
    stag_counter: u16,
    strtab_log2size: u8,
    gbpa: GbpaConfig,
    cr1: u32,
    irq_ctrl: u32,
    cmdq_cons_err: u32,
    sync_signal: u8,
    sync_msi_attr: u32,
    sync_msi_data: u32,
}

impl View for SMMU {
    type V = SmmuState;

    closed spec fn view(&self) -> SmmuState {
        SmmuState {
            config: self.config,
            shut_down: self.shut_down,
            enabled: self.enabled,
            cr0: self.cr0,
            cr0ack: self.cr0ack,
            cr2: self.cr2,
            gbpa_abort: self.gbpa_abort,
            streams: stream_table_contents(self.streams),
            faults: self.faults@,
            fault_clock: self.fault_clock,
            events: self.events@,
            stall_pending: self.stall_pending@,
            eventq: self.eventq,
            commands: self.commands@,
            cmdq: self.cmdq,
            pri: self.pri@,
            priq: self.priq,
            pri_auto_failures: self.pri_auto_failures@,
            gerror: self.gerror,
            total_translations: self.total_translations,
            successful_translations: self.successful_translations,
            failed_translations: self.failed_translations,
            invalidations: self.invalidations,
            stalls: stall_table_contents(self.stall_queue),
            resolved: self.resolved_stags@,
            stag_counter: self.stag_counter,
            strtab_log2size: self.strtab_log2size,
            gbpa: self.gbpa,
            cr1: self.cr1,
            irq_ctrl: self.irq_ctrl,
            cmdq_cons_err: self.cmdq_cons_err,
            sync_signal: self.sync_signal,
            sync_msi_attr: self.sync_msi_attr,
            sync_msi_data: self.sync_msi_data,
        }
    }
}

impl SMMU {
    /// Well-formedness: a valid configuration, a well-formed TLB of the configured size, a
    /// finite stream table and queues within their sizes.
    pub closed spec fn wf(&self) -> bool {
        &&& self.config.valid()
        &&& self.tlb.wf()
        &&& self.tlb.spec_capacity() == self.config.tlb_cache_size
        &&& stream_table_contents(self.streams).dom().finite()
        &&& self.events@.len() <= self.config.event_queue_size
        &&& self.commands@.len() <= self.config.command_queue_size
        &&& self.pri@.len() <= self.config.pri_queue_size
        &&& stall_table_contents(self.stall_queue).dom().finite()
        &&& forall|k: u16| #[trigger]
            stall_table_contents(self.stall_queue).contains_key(k) ==> stall_table_contents(self.stall_queue)[k].stag
                == k
    }

    /// The TLB.
    pub closed spec fn tlb(&self) -> TlbCache {
        self.tlb
    }

    /// An SMMU with the given (valid) configuration: nothing configured or queued, every
    /// register zero, an empty LRU TLB of the configured size, and queue size exponents that
    /// fit the queue sizes.
    pub fn with_config(config: SMMUConfig) -> (r: SMMU)
        requires
            config.valid(),
        ensures
            r.wf(),
            r@ == initial_state(config, r@.eventq.log2size, r@.cmdq.log2size, r@.priq.log2size),
            is_ceil_log2(config.event_queue_size as nat, r@.eventq.log2size as nat),
            is_ceil_log2(config.command_queue_size as nat, r@.cmdq.log2size as nat),
            is_ceil_log2(config.pri_queue_size as nat, r@.priq.log2size as nat),
            r.tlb()@ == crate::cache::empty_table(),
            r.tlb().spec_policy() == ReplacementPolicy::Lru,
    {
        let eventq_log2 = compute_log2size(config.event_queue_size);
        let cmdq_log2 = compute_log2size(config.command_queue_size);
        let priq_log2 = compute_log2size(config.pri_queue_size);
        SMMU {
            config,
            streams: stream_table_new(),
            shut_down: false,
            enabled: false,
            cr0: 0,
            cr0ack: 0,
            cr2: 0,
            gbpa_abort: false,
            faults: Vec::new(),
            fault_clock: 0,
            events: Vec::new(),
            stall_pending: VecDeque::new(),
            eventq: QueueIndices { prod: 0, cons: 0, log2size: eventq_log2 },
            commands: VecDeque::new(),
            cmdq: QueueIndices { prod: 0, cons: 0, log2size: cmdq_log2 },
            pri: VecDeque::new(),
            priq: QueueIndices { prod: 0, cons: 0, log2size: priq_log2 },
            pri_auto_failures: Vec::new(),
            gerror: 0,
            total_translations: 0,
            successful_translations: 0,
            failed_translations: 0,
            invalidations: 0,
            tlb: TlbCache::new(config.tlb_cache_size, ReplacementPolicy::Lru),
            stall_queue: stall_table_new(),
            resolved_stags: HashMap::new(),
            stag_counter: 1,
            strtab_log2size: 32,
            gbpa: GbpaConfig::default(),
            cr1: 0,
            irq_ctrl: 0,
            cmdq_cons_err: 0,
            sync_signal: 0,
            sync_msi_attr: 0,
            sync_msi_data: 0,
        }
    }

    /// An SMMU with the default configuration.
    pub fn new() -> (r: SMMU)
        ensures
            r.wf(),
            r@ == initial_state(SMMUConfig::default_spec(), r@.eventq.log2size, r@.cmdq.log2size, r@.priq.log2size),
    {
        SMMU::with_config(SMMUConfig::default())
    }

    /// The configuration.
    pub fn get_config(&self) -> (r: SMMUConfig)
        ensures
            r == self@.config,
    {
        self.config
    }

    /// Succeeds unless the SMMU has been shut down.
    pub fn initialize(&self) -> (r: Result<(), SMMUError>)
        ensures
            r == (if self@.shut_down {
                Err::<(), SMMUError>(SMMUError::ShutdownInProgress)
            } else {
                Ok(())
            }),
    {
        if self.shut_down {
            Err(SMMUError::ShutdownInProgress)
        } else {
            Ok(())
        }
    }

    /// Shuts the SMMU down: the streams and the fault log are cleared. A second call is
    /// refused.
    pub fn shutdown(&mut self) -> (r: Result<(), SMMUError>)
        requires
            old(self).wf(),
        ensures
            final(self).wf(),
            (r, final(self)@) == shut_down_step(old(self)@),
            final(self).tlb() == old(self).tlb(),
    {
        if self.shut_down {
            return Err(SMMUError::ShutdownInProgress);
        }
        self.shut_down = true;
        stream_table_clear(&mut self.streams);
        self.faults.clear();
        Ok(())
    }

    /// Whether the SMMU has been shut down.
    pub fn is_shutdown(&self) -> (r: bool)
        ensures
            r == self@.shut_down,
    {
        self.shut_down
    }

    /// Whether translation is enabled (CR0.SMMUEN).
    pub fn is_enabled(&self) -> (r: bool)
        ensures
            r == self@.enabled,
    {
        self.enabled
    }

    /// Sets CR0.SMMUEN, EVENTQEN, CMDQEN and PRIQEN, enables translation and acknowledges
    /// CR0. Refused after shutdown.
    pub fn enable(&mut self) -> (r: Result<(), SMMUError>)
        requires
            old(self).wf(),
        ensures
            final(self).wf(),
            final(self).tlb() == old(self).tlb(),
            (r, final(self)@) == (if old(self)@.shut_down {
                (Err(SMMUError::ShutdownInProgress), old(self)@)
            } else {
                (
                    Ok(()),
                    SmmuState {
                        cr0: old(self)@.cr0 | (CR0_SMMUEN | CR0_EVENTQEN | CR0_CMDQEN | CR0_PRIQEN),
                        enabled: true,
                        cr0ack: old(self)@.cr0 | (CR0_SMMUEN | CR0_EVENTQEN | CR0_CMDQEN | CR0_PRIQEN),
                        ..old(self)@
                    },
                )
            }),
    {
        if self.shut_down {
            return Err(SMMUError::ShutdownInProgress);
        }
        self.cr0 = self.cr0 | (CR0_SMMUEN | CR0_EVENTQEN | CR0_CMDQEN | CR0_PRIQEN);
        self.enabled = true;
        self.cr0ack = self.cr0;
        Ok(())
    }

    /// Clears CR0.SMMUEN, disables translation and acknowledges CR0. Refused after shutdown.
    pub fn disable(&mut self) -> (r: Result<(), SMMUError>)
        requires
            old(self).wf(),
        ensures
            final(self).wf(),
            final(self).tlb() == old(self).tlb(),
            (r, final(self)@) == (if old(self)@.shut_down {
                (Err(SMMUError::ShutdownInProgress), old(self)@)
            } else {
                (
                    Ok(()),
                    SmmuState {
                        cr0: old(self)@.cr0 & !CR0_SMMUEN,
                        enabled: false,
                        cr0ack: old(self)@.cr0 & !CR0_SMMUEN,
                        ..old(self)@
                    },
                )
            }),
    {
        if self.shut_down {
            return Err(SMMUError::ShutdownInProgress);
        }
        self.cr0 = self.cr0 & !CR0_SMMUEN;
        self.enabled = false;
        self.cr0ack = self.cr0;
        Ok(())
    }

    /// Writes CR0: translation is enabled exactly when SMMUEN is set, and CR0 is
    /// acknowledged.
    pub fn set_cr0(&mut self, value: u32)
        requires
            old(self).wf(),
        ensures
            final(self).wf(),
            final(self).tlb() == old(self).tlb(),
            final(self)@ == (SmmuState { cr0: value, enabled: value & CR0_SMMUEN != 0, cr0ack: value, ..old(self)@ }),
    {
        self.cr0 = value;
        self.enabled = value & CR0_SMMUEN != 0;
        self.cr0ack = value;
    }

    /// CR0.
    pub fn get_cr0(&self) -> (r: u32)
        ensures
            r == self@.cr0,
    {
        self.cr0
    }

    /// CR0ACK.
    pub fn get_cr0ack(&self) -> (r: u32)
        ensures
            r == self@.cr0ack,
    {
        self.cr0ack
    }

    /// Writes CR2.
    pub fn set_cr2(&mut self, value: u32)
        requires
            old(self).wf(),
        ensures
            final(self).wf(),
            final(self).tlb() == old(self).tlb(),
            final(self)@ == (SmmuState { cr2: value, ..old(self)@ }),
    {
        self.cr2 = value;
    }

    /// CR2.
    pub fn get_cr2(&self) -> (r: u32)
        ensures
            r == self@.cr2,
    {
        self.cr2
    }

    /// Whether transactions that bypass a disabled SMMU abort (GBPA.ABORT).
    pub fn is_gbpa_abort(&self) -> (r: bool)
        ensures
            r == self@.gbpa_abort,
    {
        self.gbpa_abort
    }

    /// Sets GBPA.ABORT.
    pub fn set_gbpa_abort(&mut self, abort: bool)
        requires
            old(self).wf(),
        ensures
            final(self).wf(),
            final(self).tlb() == old(self).tlb(),
            final(self)@ == (SmmuState { gbpa_abort: abort, ..old(self)@ }),
    {
        self.gbpa_abort = abort;
    }

    /// The GERROR register.
    pub fn get_gerror(&self) -> (r: u32)
        ensures
            r == gerror_of(self@.gerror),
    {
        (self.gerror & 0xFFFF_FFFF) as u32
    }

    /// The GERRORN register.
    pub fn get_gerrorn(&self) -> (r: u32)
        ensures
            r == gerrorn_of(self@.gerror),
    {
        (self.gerror >> 32u64) as u32
    }

    /// Acknowledges the global errors in `bits`.
    pub fn clear_gerror(&mut self, bits: u32)
        requires
            old(self).wf(),
        ensures
            final(self).wf(),
            final(self).tlb() == old(self).tlb(),
            final(self)@ == (SmmuState {
                gerror: combine_gerror(gerror_of(old(self)@.gerror), gerrorn_of(old(self)@.gerror) ^ (bits
                    & active_errors(old(self)@.gerror))),
                ..old(self)@
            }),
    {
        self.gerror = clear_gerror(self.gerror, bits);
    }

    /// Takes the next fault timestamp and advances the clock (wrapping).
    fn tick(&mut self) -> (r: u64)
        requires
            old(self).wf(),
        ensures
            final(self).wf(),
            final(self).tlb() == old(self).tlb(),
            r == old(self)@.fault_clock,
            final(self)@ == ticked(old(self)@),
    {
        let ts = self.fault_clock;
        self.fault_clock = ts.wrapping_add(1);
        ts
    }

    /// Appends `e` to the event queue if it has room.
    fn push_event(&mut self, e: EventEntry)
        requires
            old(self).wf(),
        ensures
            final(self).wf(),
            final(self).tlb() == old(self).tlb(),
            final(self)@ == event_pushed(old(self)@, e),
    {
        if self.events.len() < self.config.event_queue_size {
            self.events.push(e);
            self.eventq.prod = advance_index(self.eventq.prod, self.eventq.log2size);
        }
    }

    /// Appends `e` to the event queue if it has room; otherwise flags the overflow.
    fn push_event_or_lose(&mut self, e: EventEntry)
        requires
            old(self).wf(),
        ensures
            final(self).wf(),
            final(self).tlb() == old(self).tlb(),
            final(self)@ == event_pushed_or_lost(old(self)@, e),
    {
        if self.events.len() < self.config.event_queue_size {
            self.push_event(e);
        } else {
            self.eventq.prod = toggle_ovflg_once(self.eventq.prod, self.eventq.cons);
        }
    }

    /// Submits `e` to the event queue: appended if there is room; otherwise refused, with a
    /// stall event held back and any other event lost (the overflow flagged).
    pub fn submit_event(&mut self, e: EventEntry) -> (r: Result<(), SMMUError>)
        requires
            old(self).wf(),
        ensures
            final(self).wf(),
            final(self).tlb() == old(self).tlb(),
            (r, final(self)@) == event_submitted(old(self)@, e),
    {
        if self.events.len() < self.config.event_queue_size {
            self.push_event(e);
            Ok(())
        } else if e.stall {
            self.stall_pending.push_back(e);
            Err(SMMUError::EventQueueFull)
        } else {
            self.eventq.prod = toggle_ovflg_once(self.eventq.prod, self.eventq.cons);
            Err(SMMUError::EventQueueFull)
        }
    }

    /// The queued events, oldest first.
    pub fn get_events(&self) -> (r: Vec<EventEntry>)
        ensures
            r@ == self@.events,
    {
        let mut out: Vec<EventEntry> = Vec::new();
        let mut i: usize = 0;
        while i < self.events.len()
            invariant
                i <= self.events@.len(),
                out@ == self.events@.take(i as int),
            decreases self.events@.len() - i,
        {
            out.push(self.events[i]);
            assert(out@ =~= self.events@.take(i + 1));
            i = i + 1;
        }
        assert(out@ =~= self.events@);
        out
    }

    /// Whether any event is queued.
    pub fn has_events(&self) -> (r: bool)
        ensures
            r == (self@.events.len() > 0),
    {
        self.events.len() > 0
    }

    /// Number of queued events.
    pub fn get_event_queue_size(&self) -> (r: u64)
        ensures
            r == self@.events.len(),
    {
        self.events.len() as u64
    }

    /// Number of events held back for stalled transactions.
    pub fn get_pending_stall_count(&self) -> (r: usize)
        ensures
            r == self@.stall_pending.len(),
    {
        self.stall_pending.len()
    }

    /// Empties the event queue and the held-back stall events, and resets the queue indices.
    pub fn clear_event_queue(&mut self)
        requires
            old(self).wf(),
        ensures
            final(self).wf(),
            final(self).tlb() == old(self).tlb(),
            final(self)@ == (SmmuState {
                events: Seq::empty(),
                stall_pending: Seq::empty(),
                eventq: QueueIndices { prod: 0, cons: 0, ..old(self)@.eventq },
                ..old(self)@
            }),
    {
        self.events.clear();
        self.stall_pending.clear();
        self.eventq.prod = 0;
        self.eventq.cons = 0;
    }

    /// The event queue producer index.
    pub fn eventq_prod_index(&self) -> (r: u32)
        ensures
            r == self@.eventq.prod,
    {
        self.eventq.prod
    }

    /// The event queue consumer index.
    pub fn eventq_cons_index(&self) -> (r: u32)
        ensures
            r == self@.eventq.cons,
    {
        self.eventq.cons
    }

    /// Whether the event queue indices say it is empty.
    pub fn is_eventq_empty_by_index(&self) -> (r: bool)
        ensures
            r == (self@.eventq.prod == self@.eventq.cons),
    {
        self.eventq.prod == self.eventq.cons
    }

    /// Number of event queue entries the indices say are occupied.
    pub fn eventq_occupied_entries(&self) -> (r: u32)
        ensures
            r == (self@.eventq.prod - self@.eventq.cons) % (index_modulus(self@.eventq.log2size) as int),
    {
        queue_occupied(self.eventq.prod, self.eventq.cons, self.eventq.log2size)
    }

    /// The event queue size exponent.
    pub fn eventq_log2size(&self) -> (r: u32)
        ensures
            r == self@.eventq.log2size,
    {
        self.eventq.log2size
    }

    /// Writes CR1.
    pub fn set_cr1(&mut self, value: u32)
        requires
            old(self).wf(),
        ensures
            final(self).wf(),
            final(self).tlb() == old(self).tlb(),
            final(self)@ == (SmmuState { cr1: value, ..old(self)@ }),
    {
        self.cr1 = value;
    }

    /// CR1.
    pub fn get_cr1(&self) -> (r: u32)
        ensures
            r == self@.cr1,
    {
        self.cr1
    }

    /// Clears CR0ACK.
    pub fn reset_cr0ack(&mut self)
        requires
            old(self).wf(),
        ensures
            final(self).wf(),
            final(self).tlb() == old(self).tlb(),
            final(self)@ == (SmmuState { cr0ack: 0, ..old(self)@ }),
    {
        self.cr0ack = 0;
    }

    /// Writes IRQ_CTRL, which is acknowledged at once.
    pub fn set_irq_ctrl(&mut self, value: u32)
        requires
            old(self).wf(),
        ensures
            final(self).wf(),
            final(self).tlb() == old(self).tlb(),
            final(self)@ == (SmmuState { irq_ctrl: value, ..old(self)@ }),
    {
        self.irq_ctrl = value;
    }

    /// IRQ_CTRLACK.
    pub fn get_irq_ctrlack(&self) -> (r: u32)
        ensures
            r == self@.irq_ctrl,
    {
        self.irq_ctrl
    }

    /// STATUSR: 1 after shutdown, otherwise 0.
    pub fn get_statusr(&self) -> (r: u32)
        ensures
            r == (if self@.shut_down {
                1u32
            } else {
                0u32
            }),
    {
        if self.shut_down {
            1
        } else {
            0
        }
    }

    /// CMDQ_CONS.ERR: the error code of the last refused command.
    pub fn get_cmdq_cons_err(&self) -> (r: u32)
        ensures
            r == self@.cmdq_cons_err,
    {
        self.cmdq_cons_err
    }

    /// The completion signal of the last CMD_SYNC that had one.
    pub fn get_cmd_sync_last_signal_type(&self) -> (r: u8)
        ensures
            r == self@.sync_signal,
    {
        self.sync_signal
    }

    /// Writes the CMD_SYNC MSI attributes.
    pub fn set_cmdq_sync_msi_attr(&mut self, v: u32)
        requires
            old(self).wf(),
        ensures
            final(self).wf(),
            final(self).tlb() == old(self).tlb(),
            final(self)@ == (SmmuState { sync_msi_attr: v, ..old(self)@ }),
    {
        self.sync_msi_attr = v;
    }

    /// The CMD_SYNC MSI attributes.
    pub fn get_cmdq_sync_msi_attr(&self) -> (r: u32)
        ensures
            r == self@.sync_msi_attr,
    {
        self.sync_msi_attr
    }

    /// Writes the CMD_SYNC MSI data.
    pub fn set_cmdq_sync_msi_data(&mut self, v: u32)
        requires
            old(self).wf(),
        ensures
            final(self).wf(),
            final(self).tlb() == old(self).tlb(),
            final(self)@ == (SmmuState { sync_msi_data: v, ..old(self)@ }),
    {
        self.sync_msi_data = v;
    }

    /// The CMD_SYNC MSI data.
    pub fn get_cmdq_sync_msi_data(&self) -> (r: u32)
        ensures
            r == self@.sync_msi_data,
    {
        self.sync_msi_data
    }

    /// IDR1: StreamID and SubstreamID sizes, the three queue size exponents and the attribute
    /// override flags.
    pub fn get_idr1(&self) -> (r: u32)
        ensures
            r == 32u32 | (20u32 << 6u32) | (self@.priq.log2size << 11u32) | (self@.eventq.log2size << 16u32) | (
            self@.cmdq.log2size << 21u32) | (1u32 << 26u32) | (1u32 << 27u32),
    {
        32u32 | (20u32 << 6u32) | (self.priq.log2size << 11u32) | (self.eventq.log2size << 16u32) | (self.cmdq.log2size
            << 21u32) | (1u32 << 26u32) | (1u32 << 27u32)
    }

    /// Sets the stream table size exponent (32 or more: no limit).
    pub fn set_strtab_log2size(&mut self, v: u8)
        requires
            old(self).wf(),
        ensures
            final(self).wf(),
            final(self).tlb() == old(self).tlb(),
            final(self)@ == (SmmuState { strtab_log2size: v, ..old(self)@ }),
    {
        self.strtab_log2size = v;
    }

    /// The stream table size exponent.
    pub fn get_strtab_log2size(&self) -> (r: u8)
        ensures
            r == self@.strtab_log2size,
    {
        self.strtab_log2size
    }

    /// Sets the attributes for transactions that bypass a disabled SMMU, GBPA.ABORT included.
    pub fn set_gbpa_config(&mut self, cfg: GbpaConfig)
        requires
            old(self).wf(),
        ensures
            final(self).wf(),
            final(self).tlb() == old(self).tlb(),
            final(self)@ == (SmmuState { gbpa_abort: cfg.abort, gbpa: cfg, ..old(self)@ }),
    {
        self.gbpa_abort = cfg.abort;
        self.gbpa = cfg;
    }

    /// The attributes for transactions that bypass a disabled SMMU.
    pub fn get_gbpa_config(&self) -> (r: GbpaConfig)
        ensures
            r == self@.gbpa,
    {
        self.gbpa
    }

    /// A snapshot of the invalidation counter and of the TLB statistics.
    pub fn get_cache_statistics(&self) -> (r: CacheStatistics)
        ensures
            r.spec_invalidation_count() == self@.invalidations,
            r.spec_tlb_lookups() == self.tlb().stats().lookups,
            r.spec_tlb_hits() == self.tlb().stats().hits,
            r.spec_tlb_misses() == self.tlb().stats().misses,
            r.spec_tlb_evictions() == self.tlb().stats().evictions,
            r.spec_tlb_insertions() == self.tlb().stats().insertions,
            r.spec_tlb_invalidations() == self.tlb().stats().invalidations,
    {
        CacheStatistics::from_counters(self.invalidations, self.tlb.statistics())
    }

    /// Appends `fault` to the fault log.
    pub fn record_fault(&mut self, fault: FaultRecord)
        requires
            old(self).wf(),
        ensures
            final(self).wf(),
            final(self).tlb() == old(self).tlb(),
            final(self)@ == (SmmuState { faults: old(self)@.faults.push(fault), ..old(self)@ }),
    {
        self.faults.push(fault);
    }

    /// The fault log, oldest first.
    pub fn get_faults(&self) -> (r: Vec<FaultRecord>)
        ensures
            r@ == self@.faults,
    {
        let mut out: Vec<FaultRecord> = Vec::new();
        let mut i: usize = 0;
        while i < self.faults.len()
            invariant
                i <= self.faults@.len(),
                out@ == self.faults@.take(i as int),
            decreases self.faults@.len() - i,
        {
            out.push(self.faults[i]);
            assert(out@ =~= self.faults@.take(i + 1));
            i = i + 1;
        }
        assert(out@ =~= self.faults@);
        out
    }

    /// Empties the fault log.
    pub fn clear_faults(&mut self)
        requires
            old(self).wf(),
        ensures
            final(self).wf(),
            final(self).tlb() == old(self).tlb(),
            final(self)@ == (SmmuState { faults: Seq::empty(), ..old(self)@ }),
    {
        self.faults.clear();
    }

    /// Configures stream `stream_id` with `config`; refused after shutdown, for an illegal
    /// stream table entry (reported by a C_BAD_STE event while event recording is on), at the
    /// stream limit, and for a stream that exists already.
    pub fn configure_stream(&mut self, stream_id: StreamID, config: StreamConfig) -> (r: Result<(), SMMUError>)
        requires
            old(self).wf(),
        ensures
            final(self).wf(),
            final(self).tlb() == old(self).tlb(),
            (r, final(self)@) == stream_configured(old(self)@, stream_id@, config),
    {
        if self.shut_down {
            return Err(SMMUError::ShutdownInProgress);
        }
        let problem = if config.translation_enabled && !config.stage1_enabled && !config.stage2_enabled {
            Some(ConfigurationProblem::ReservedStreamConfig)
        } else if config.security_state == SecurityState::NonSecure && config.strw == StreamWorld::El3 {
            Some(ConfigurationProblem::El3WorldForNonSecure)
        } else if config.stage2_enabled {
            let bits = s2_output_bits_of(config.s2_ps);
            if bits < 52 && config.s2_ttb >= (1u64 << bits) {
                Some(ConfigurationProblem::Stage2TableBeyondOutputSize)
            } else {
                None
            }
        } else {
            None
        };
        if let Some(p) = problem {
            if self.cr0 & CR0_EVENTQEN != 0 {
                let ts = self.tick();
                let e = EventEntry {
                    event_type: EventType::CBadSte,
                    stream_id: stream_id.as_u32(),
                    security_state: config.security_state,
                    timestamp: ts,
                    ..EventEntry::zeroed()
                };
                self.push_event(e);
            }
            return Err(SMMUError::InvalidConfiguration(p));
        }
        let count = stream_table_len(&self.streams);
        if count >= self.config.max_streams {
            return Err(SMMUError::StreamLimitExceeded { current: count, max: self.config.max_streams });
        }
        match stream_table_get(&self.streams, stream_id.as_u32()) {
            Some(_) => Err(SMMUError::StreamAlreadyExists(stream_id)),
            None => {
                stream_table_insert(&mut self.streams, stream_id.as_u32(), config);
                Ok(())
            },
        }
    }

    /// Removes stream `stream_id` and invalidates its TLB entries; refused after shutdown and
    /// for a stream that does not exist.
    pub fn remove_stream(&mut self, stream_id: StreamID) -> (r: Result<(), SMMUError>)
        requires
            old(self).wf(),
        ensures
            final(self).wf(),
            (r, final(self)@) == stream_removed(old(self)@, stream_id@),
            r is Ok ==> old(self).tlb().invalidated_into(InvalidationScope::Stream(stream_id@), &final(self).tlb()),
            r is Err ==> final(self).tlb() == old(self).tlb(),
    {
        if self.shut_down {
            return Err(SMMUError::ShutdownInProgress);
        }
        match stream_table_get(&self.streams, stream_id.as_u32()) {
            None => Err(SMMUError::StreamNotFound(stream_id)),
            Some(_) => {
                self.tlb.invalidate_by_stream(stream_id);
                stream_table_remove(&mut self.streams, stream_id.as_u32());
                Ok(())
            },
        }
    }

    /// Whether stream `stream_id` is configured.
    pub fn has_stream(&self, stream_id: StreamID) -> (r: bool)
        ensures
            r == self@.streams.contains_key(stream_id@),
    {
        stream_table_get(&self.streams, stream_id.as_u32()).is_some()
    }

    /// Number of configured streams.
    pub fn get_stream_count(&self) -> (r: usize)
        ensures
            r == self@.streams.len(),
    {
        stream_table_len(&self.streams)
    }

    /// Whether an event of the same type for the same stream is queued.
    fn has_event_like(&self, e: &EventEntry) -> (r: bool)
        ensures
            r == exists|i: int|
                0 <= i < self@.events.len() && (#[trigger] self@.events[i]).event_type == e.event_type
                    && self@.events[i].stream_id == e.stream_id,
    {
        let mut i: usize = 0;
        while i < self.events.len()
            invariant
                i <= self.events@.len(),
                forall|j: int|
                    0 <= j < i ==> !((#[trigger] self.events@[j]).event_type == e.event_type
                        && self.events@[j].stream_id == e.stream_id),
            decreases self.events@.len() - i,
        {
            if self.events[i].event_type == e.event_type && self.events[i].stream_id == e.stream_id {
                return true;
            }
            i = i + 1;
        }
        false
    }

    /// Moves the pending stall events into the event queue, oldest first, as far as it has
    /// room.
    fn drain_pending(&mut self)
        requires
            old(self).wf(),
        ensures
            final(self).wf(),
            final(self).tlb() == old(self).tlb(),
            final(self)@ == pending_drained(old(self)@),
    {
        let ghost s0 = self@;
        let ghost room: int = s0.config.event_queue_size - s0.events.len();
        let ghost k: nat = if room <= 0 {
            0
        } else if s0.stall_pending.len() < room {
            s0.stall_pending.len()
        } else {
            room as nat
        };
        let mut moved: usize = 0;
        assert(s0.events + s0.stall_pending.take(0) =~= s0.events);
        assert(s0.stall_pending.skip(0) =~= s0.stall_pending);
        while self.events.len() < self.config.event_queue_size && self.stall_pending.len() > 0
            invariant
                self.wf(),
                self.tlb == old(self).tlb,
                moved <= k,
                self@ == (SmmuState {
                    events: s0.events + s0.stall_pending.take(moved as int),
                    stall_pending: s0.stall_pending.skip(moved as int),
                    eventq: QueueIndices { prod: advanced_by(s0.eventq.prod, s0.eventq.log2size, moved as nat), ..s0.eventq },
                    ..s0
                }),
                s0 == old(self)@,
                k == (if room <= 0 {
                    0
                } else if s0.stall_pending.len() < room {
                    s0.stall_pending.len()
                } else {
                    room as nat
                }),
                room == s0.config.event_queue_size - s0.events.len(),
            decreases s0.stall_pending.len() - moved,
        {
            let e = self.stall_pending.pop_front().unwrap();
            self.events.push(e);
            self.eventq.prod = advance_index(self.eventq.prod, self.eventq.log2size);
            proof {
                assert(s0.stall_pending.take(moved as int).push(e) =~= s0.stall_pending.take(moved + 1));
                assert(s0.stall_pending.skip(moved as int).drop_first() =~= s0.stall_pending.skip(moved + 1));
            }
            moved = moved + 1;
            assert(self.events@ =~= s0.events + s0.stall_pending.take(moved as int));
        }
    }

    /// Records a translation fault: the fault is logged with the next timestamp; unless the
    /// error is silent, event recording is off or the event is merged away, pending stall
    /// events move into the queue and the event is queued, held back (a stall event) or lost
    /// with the overflow flagged.
    fn record_translation_fault(
        &mut self,
        stream_id: StreamID,
        pasid: PASID,
        iova: IOVA,
        access: AccessType,
        security_state: SecurityState,
        error: &TranslationError,
        is_stall: bool,
        stag: u16,
        s2: bool,
        ipa: u64,
    )
        requires
            old(self).wf(),
        ensures
            final(self).wf(),
            final(self).tlb() == old(self).tlb(),
            final(self)@ == fault_recorded(
                old(self)@,
                stream_id,
                pasid,
                iova,
                access,
                security_state,
                *error,
                is_stall,
                stag,
                s2,
                ipa,
            ),
    {
        let fault_type = map_translation_error_to_fault_type(error);
        let ts = self.tick();
        let fault = FaultRecord::builder().stream_id(stream_id).pasid(pasid).address(iova).fault_type(
            fault_type,
        ).access_type(access).security_state(security_state).timestamp(ts).build();
        self.faults.push(fault);
        match error {
            TranslationError::AbortMode | TranslationError::StreamDisabled | TranslationError::VaRangeExceeded => {
                return;
            },
            _ => {},
        }
        if self.cr0 & CR0_EVENTQEN == 0 {
            return;
        }
        let event_type = map_fault_type_to_event_type(fault_type);
        let event_class: u8 = match event_type {
            EventType::FTranslation | EventType::FAddrSize | EventType::FAccess | EventType::FPermission => 2,
            _ => 0,
        };
        let e = EventEntry {
            event_type,
            stream_id: stream_id.as_u32(),
            pasid: pasid.as_u32(),
            address: iova.as_u64(),
            security_state,
            error_code: 0,
            timestamp: ts,
            stall: is_stall,
            stag,
            event_class,
            s2,
            ipa,
            rnw: access == AccessType::Write,
            ind: access == AccessType::Execute,
            ssv: event_type == EventType::CBadSubstreamid || pasid.as_u32() != 0,
        };
        self.deliver_fault_event(e);
    }

    /// Delivers the event of a translation fault as `fault_event_delivered` describes.
    fn deliver_fault_event(&mut self, e: EventEntry)
        requires
            old(self).wf(),
        ensures
            final(self).wf(),
            final(self).tlb() == old(self).tlb(),
            final(self)@ == fault_event_delivered(old(self)@, e),
    {
        let mev = match stream_table_get(&self.streams, e.stream_id) {
            Some(cfg) => cfg.mev,
            None => false,
        };
        if mev && self.has_event_like(&e) {
            return;
        }
        self.drain_pending();
        if self.events.len() < self.config.event_queue_size {
            self.push_event(e);
        } else if e.stall {
            self.stall_pending.push_back(e);
        } else {
            self.eventq.prod = toggle_ovflg_once(self.eventq.prod, self.eventq.cons);
        }
    }

    /// Records that a transaction named an unconfigured stream: a BadStreamID fault is logged
    /// with the next timestamp, and while event recording and CR2.RECINVSID are on a
    /// C_BAD_STREAMID event is queued or lost with the overflow flagged.
    fn record_stream_not_found_fault(
        &mut self,
        stream_id: StreamID,
        pasid: PASID,
        iova: IOVA,
        access: AccessType,
        security_state: SecurityState,
    )
        requires
            old(self).wf(),
        ensures
            final(self).wf(),
            final(self).tlb() == old(self).tlb(),
            final(self)@ == stream_not_found_recorded(old(self)@, stream_id, pasid, iova, access, security_state),
    {
        let ts = self.tick();
        let fault = FaultRecord::builder().stream_id(stream_id).pasid(pasid).address(iova).fault_type(
            FaultType::BadStreamID,
        ).access_type(access).security_state(security_state).timestamp(ts).build();
        self.faults.push(fault);
        if self.cr0 & CR0_EVENTQEN == 0 {
            return;
        }
        if self.cr2 & CR2_RECINVSID == 0 {
            return;
        }
        let e = EventEntry {
            event_type: EventType::CBadStreamid,
            stream_id: stream_id.as_u32(),
            pasid: pasid.as_u32(),
            address: iova.as_u64(),
            security_state,
            timestamp: ts,
            rnw: access == AccessType::Write,
            ind: access == AccessType::Execute,
            ssv: pasid.as_u32() != 0,
            ..EventEntry::zeroed()
        };
        self.push_event_or_lose(e);
    }

    /// Reports an unsupported transaction with an F_UUT event (queued or lost with the
    /// overflow flagged) while event recording is on; refused after shutdown.
    pub fn report_unsupported_transaction(
        &mut self,
        stream_id: StreamID,
        pasid: PASID,
        iova: IOVA,
        access: AccessType,
        security_state: SecurityState,
    ) -> (r: Result<(), SMMUError>)
        requires
            old(self).wf(),
        ensures
            final(self).wf(),
            final(self).tlb() == old(self).tlb(),
            (r, final(self)@) == unsupported_reported(old(self)@, stream_id, pasid, iova, access, security_state),
    {
        if self.shut_down {
            return Err(SMMUError::ShutdownInProgress);
        }
        if self.cr0 & CR0_EVENTQEN == 0 {
            return Ok(());
        }
        let ts = self.tick();
        let e = EventEntry {
            event_type: EventType::FUut,
            stream_id: stream_id.as_u32(),
            pasid: pasid.as_u32(),
            address: iova.as_u64(),
            security_state,
            timestamp: ts,
            rnw: access == AccessType::Write,
            ind: access == AccessType::Execute,
            ssv: pasid.as_u32() != 0,
            ..EventEntry::zeroed()
        };
        self.push_event_or_lose(e);
        Ok(())
    }

    /// The TLB invalidation command `c` performs now, if any.
    fn scope_of(&self, c: &CommandEntry) -> (r: Option<InvalidationScope>)
        ensures
            r == command_scope(self@, *c),
    {
        let ptm = self.cr2 & CR2_PTM != 0;
        let cr0 = self.cr0;
        let vmw: u32 = (cr0 >> CR0_VMW_SHIFT) & 7;
        assert(((cr0 >> 6u32) & 7u32) <= 7u32) by (bit_vector);
        let mask = (0xFFFFu32 << vmw) as u16;
        match c.cmd_type {
            CommandType::TlbiNhAsid | CommandType::TlbiEl2Asid => if ptm {
                Some(InvalidationScope::Asid(c.asid))
            } else {
                None
            },
            CommandType::TlbiNhAll | CommandType::TlbiEl2All | CommandType::TlbiNsnhAll => if ptm {
                Some(InvalidationScope::All)
            } else {
                None
            },
            CommandType::TlbiNhVa | CommandType::TlbiEl2Va | CommandType::TlbiEl3Va | CommandType::TlbiSEl2Va => if ptm {
                Some(InvalidationScope::VaAsid(c.start_address, c.asid))
            } else {
                None
            },
            CommandType::TlbiNhVaa | CommandType::TlbiEl2Vaa | CommandType::TlbiSEl2Vaa => if ptm {
                Some(InvalidationScope::Va(c.start_address))
            } else {
                None
            },
            CommandType::TlbiS12Vmall | CommandType::TlbiSS12Vmall => Some(InvalidationScope::VmidMasked(c.vmid, mask)),
            CommandType::TlbiS2Ipa | CommandType::TlbiSS2Ipa => Some(
                InvalidationScope::VmidIpa(c.vmid, mask, c.start_address, c.start_address | 0xFFF),
            ),
            CommandType::AtcInv => if c.pasid > PASID_MAX {
                None
            } else if c.flags & 1 != 0 {
                Some(InvalidationScope::StreamPasid(c.stream_id, c.pasid))
            } else {
                Some(InvalidationScope::VaRange(c.stream_id, c.pasid, c.start_address, c.end_address))
            },
            CommandType::CfgiCd => if c.pasid > PASID_MAX {
                None
            } else {
                Some(InvalidationScope::StreamPasid(c.stream_id, c.pasid))
            },
            CommandType::CfgiCdAll => Some(InvalidationScope::Stream(c.stream_id)),
            CommandType::CfgiAll => if c.range >= 31 {
                Some(InvalidationScope::All)
            } else {
                let bits: u32 = (c.range + 1) as u32;
                Some(InvalidationScope::StreamPrefix(c.stream_id >> bits, bits))
            },
            CommandType::TlbiEl3All | CommandType::TlbiSEl2All | CommandType::TlbiSnhAll => Some(
                InvalidationScope::All,
            ),
            CommandType::TlbiSEl2Asid => Some(InvalidationScope::Asid(c.asid)),
            _ => None,
        }
    }

    /// Security state of stream `id` (non-secure when it is not configured).
    fn security_of_stream(&self, id: u32) -> (r: SecurityState)
        ensures
            r == stream_security(self@, id),
    {
        match stream_table_get(&self.streams, id) {
            Some(cfg) => cfg.security_state,
            None => SecurityState::NonSecure,
        }
    }

    /// Executes one command: the TLB invalidation it selects, the counters, completion
    /// events, page request responses; refuses reserved and unsupported commands.
    fn process_single_command(&mut self, command: CommandEntry) -> (r: Result<(), SMMUError>)
        requires
            old(self).wf(),
        ensures
            final(self).wf(),
            (r, final(self)@) == command_effect(old(self)@, command),
            match command_scope(old(self)@, command) {
                Some(scope) => old(self).tlb().invalidated_into(scope, &final(self).tlb()),
                None => final(self).tlb() == old(self).tlb(),
            },
    {
        let scope = self.scope_of(&command);
        let ghost s0 = self@;
        match scope {
            Some(sc) => {
                self.tlb.invalidate_scope(sc);
            },
            None => {},
        }
        if scope.is_some() || command.cmd_type == CommandType::AtcInv {
            self.invalidations = self.invalidations.wrapping_add(1);
        }
        match command.cmd_type {
            CommandType::AtcInv => {
                let sec = self.security_of_stream(command.stream_id);
                let ts = self.tick();
                let e = EventEntry {
                    event_type: EventType::AtcInvalidateCompletion,
                    stream_id: command.stream_id,
                    pasid: command.pasid,
                    address: command.start_address,
                    security_state: sec,
                    timestamp: ts,
                    ..EventEntry::zeroed()
                };
                let _ = self.submit_event(e);
                Ok(())
            },
            CommandType::Sync => {
                if command.cs == 3 {
                    self.cmdq_cons_err = CERROR_ILL;
                    return Err(SMMUError::InvalidCommandParameters(CommandProblem::ReservedSyncSignal));
                }
                if command.cs != 0 {
                    self.sync_signal = command.cs;
                    let sec = self.security_of_stream(command.stream_id);
                    let ts = self.tick();
                    let e = EventEntry {
                        event_type: EventType::CommandSyncCompletion,
                        stream_id: command.stream_id,
                        pasid: command.pasid,
                        security_state: sec,
                        timestamp: ts,
                        ..EventEntry::zeroed()
                    };
                    let _ = self.submit_event(e);
                }
                Ok(())
            },
            CommandType::PriResp => {
                if self.pri.len() > 0 && self.pri[0].stream_id == command.stream_id && self.pri[0].prg_index
                    == command.prg_index {
                    let _ = self.pri.pop_front();
                    self.priq.cons = advance_index(self.priq.cons, self.priq.log2size);
                }
                Ok(())
            },
            CommandType::DptiAll | CommandType::DptiPa => {
                self.cmdq_cons_err = CERROR_ILL;
                Err(SMMUError::InvalidCommandParameters(CommandProblem::DirtyTrackingUnsupported))
            },
            CommandType::Resume => {
                match stall_table_get(&self.stall_queue, command.stag) {
                    Some(record) => {
                        if record.stream_id == command.stream_id {
                            let outcome = if command.action {
                                ResumeOutcome::Retry
                            } else if command.abort {
                                ResumeOutcome::Abort
                            } else {
                                ResumeOutcome::Terminate
                            };
                            self.resolved_stags.insert(command.stag, outcome);
                            stall_table_remove(&mut self.stall_queue, command.stag);
                        }
                    },
                    None => {},
                }
                Ok(())
            },
            CommandType::StallTerm => {
                self.terminate_stalls_of(command.stream_id);
                Ok(())
            },
            _ => Ok(()),
        }
    }

    /// Removes the stalled transactions of stream `stream`.
    fn terminate_stalls_of(&mut self, stream: u32)
        requires
            old(self).wf(),
        ensures
            final(self).wf(),
            final(self).tlb() == old(self).tlb(),
            final(self)@ == (SmmuState {
                stalls: stalls_of_other_streams(old(self)@.stalls, stream),
                ..old(self)@
            }),
    {
        let ghost m = self@.stalls;
        let pairs = stall_table_pairs(&self.stall_queue);
        let mut i: usize = 0;
        while i < pairs.len()
            invariant
                self.wf(),
                self.tlb == old(self).tlb,
                i <= pairs@.len(),
                m == old(self)@.stalls,
                forall|j: int| 0 <= j < pairs@.len() ==> #[trigger] m.get(pairs@[j].0) == Some(pairs@[j].1),
                forall|j: int, l: int| 0 <= j < l < pairs@.len() ==> #[trigger] pairs@[j].0 != #[trigger] pairs@[l].0,
                forall|k: u16| #[trigger] m.contains_key(k) ==> exists|j: int| 0 <= j < pairs@.len() && pairs@[j].0 == k,
                forall|k: u16|
                    #[trigger] self@.stalls.contains_key(k) <==> m.contains_key(k) && !(m[k].stream_id == stream
                        && exists|j: int| 0 <= j < i && pairs@[j].0 == k),
                forall|k: u16| #[trigger] self@.stalls.contains_key(k) ==> self@.stalls[k] == m[k],
                self@ == (SmmuState { stalls: self@.stalls, ..old(self)@ }),
            decreases pairs@.len() - i,
        {
            let (k, record) = pairs[i];
            assert(m.get(pairs@[i as int].0) == Some(pairs@[i as int].1));
            if record.stream_id == stream {
                stall_table_remove(&mut self.stall_queue, k);
            }
            assert forall|x: u16| #[trigger] self@.stalls.contains_key(x) <==> m.contains_key(x) && !(m[x].stream_id
                == stream && exists|j: int| 0 <= j < i + 1 && pairs@[j].0 == x) by {
                if m.contains_key(x) && m[x].stream_id == stream && x == k {
                    assert(pairs@[i as int].0 == x);
                }
                if exists|j: int| 0 <= j < i + 1 && pairs@[j].0 == x {
                    let j = choose|j: int| 0 <= j < i + 1 && pairs@[j].0 == x;
                    if j < i {
                        assert(exists|j2: int| 0 <= j2 < i && pairs@[j2].0 == x);
                    }
                }
            }
            i = i + 1;
        }
        assert(self@.stalls =~= stalls_of_other_streams(m, stream)) by {
            assert forall|k: u16| #[trigger] self@.stalls.contains_key(k) <==> stalls_of_other_streams(
                m,
                stream,
            ).contains_key(k) by {
                if m.contains_key(k) && m[k].stream_id == stream {
                    let j = choose|j: int| 0 <= j < pairs@.len() && pairs@[j].0 == k;
                    assert(exists|j2: int| 0 <= j2 < i && pairs@[j2].0 == k);
                }
            }
        }
    }

    /// Takes a free nonzero stall tag from the tag counter, trying at most 65535 tags.
    fn allocate_stag(&mut self) -> (r: Option<u16>)
        requires
            old(self).wf(),
        ensures
            final(self).wf(),
            final(self).tlb() == old(self).tlb(),
            (r, final(self)@.stag_counter) == stag_allocation(old(self)@),
            final(self)@ == (SmmuState { stag_counter: final(self)@.stag_counter, ..old(self)@ }),
    {
        let (first, after_first) = take_nonzero(self.stag_counter);
        let mut candidate = first;
        let mut counter = after_first;
        let mut tries: u32 = 0;
        loop
            invariant
                tries < 65535,
                stag_search(self@.stalls, candidate, counter, tries as nat) == stag_allocation(old(self)@),
                self@ == old(self)@,
                self.tlb == old(self).tlb,
                self.wf(),
            decreases 65535 - tries,
        {
            if stall_table_get(&self.stall_queue, candidate).is_none() {
                self.stag_counter = counter;
                return Some(candidate);
            }
            let (next, after) = take_nonzero(counter);
            if tries + 1 >= 65535 {
                self.stag_counter = after;
                return None;
            }
            candidate = next;
            counter = after;
            tries = tries + 1;
        }
    }

    /// The stalled transactions, in table order.
    pub fn get_stalled_transactions(&self) -> (r: Vec<StallRecord>)
        requires
            self.wf(),
        ensures
            r@.len() == self@.stalls.len(),
            forall|i: int|
                0 <= i < r@.len() ==> self@.stalls.contains_key(#[trigger] r@[i].stag) && self@.stalls[r@[i].stag]
                    == r@[i],
            forall|i: int, j: int| 0 <= i < j < r@.len() ==> #[trigger] r@[i].stag != #[trigger] r@[j].stag,
    {
        let pairs = stall_table_pairs(&self.stall_queue);
        let mut out: Vec<StallRecord> = Vec::new();
        let mut i: usize = 0;
        while i < pairs.len()
            invariant
                self.wf(),
                i <= pairs@.len(),
                out@.len() == i,
                pairs@.len() == self@.stalls.len(),
                forall|j: int| 0 <= j < pairs@.len() ==> #[trigger] self@.stalls.get(pairs@[j].0) == Some(pairs@[j].1),
                forall|j: int, l: int| 0 <= j < l < pairs@.len() ==> #[trigger] pairs@[j].0 != #[trigger] pairs@[l].0,
                forall|j: int| 0 <= j < i ==> #[trigger] out@[j] == pairs@[j].1,
            decreases pairs@.len() - i,
        {
            out.push(pairs[i].1);
            i = i + 1;
        }
        assert forall|j: int| 0 <= j < out@.len() implies #[trigger] out@[j].stag == pairs@[j].0
            && self@.stalls.contains_key(out@[j].stag) && self@.stalls[out@[j].stag] == out@[j] by {
            assert(self@.stalls.get(pairs@[j].0) == Some(pairs@[j].1));
            assert(self@.stalls.contains_key(pairs@[j].0));
            assert(stall_table_contents(self.stall_queue).contains_key(pairs@[j].0));
        }
        assert forall|j: int, l: int| 0 <= j < l < out@.len() implies #[trigger] out@[j].stag
            != #[trigger] out@[l].stag by {
            assert(out@[j].stag == pairs@[j].0);
            assert(out@[l].stag == pairs@[l].0);
        }
        out
    }

    /// Removes the stalled transaction with stall tag `stag`; the result says whether there
    /// was one.
    pub fn abort_stalled_transaction(&mut self, stag: u16) -> (r: bool)
        requires
            old(self).wf(),
        ensures
            final(self).wf(),
            final(self).tlb() == old(self).tlb(),
            r == old(self)@.stalls.contains_key(stag),
            final(self)@ == (SmmuState { stalls: old(self)@.stalls.remove(stag), ..old(self)@ }),
    {
        stall_table_remove(&mut self.stall_queue, stag).is_some()
    }

    /// Takes the outcome a RESUME command gave the stalled transaction `stag`, if any.
    pub fn get_resume_outcome(&mut self, stag: u16) -> (r: Option<ResumeOutcome>)
        requires
            old(self).wf(),
        ensures
            final(self).wf(),
            final(self).tlb() == old(self).tlb(),
            r == old(self)@.resolved.get(stag),
            final(self)@ == (SmmuState { resolved: old(self)@.resolved.remove(stag), ..old(self)@ }),
    {
        self.resolved_stags.remove(&stag)
    }

    /// Forgets every resume outcome.
    pub fn clear_resume_outcomes(&mut self)
        requires
            old(self).wf(),
        ensures
            final(self).wf(),
            final(self).tlb() == old(self).tlb(),
            final(self)@ == (SmmuState { resolved: Map::empty(), ..old(self)@ }),
    {
        self.resolved_stags.clear();
    }

    /// Submits a command: an ATC invalidation whose end lies below its start is refused, as
    /// is any command when the queue is full; otherwise it is appended.
    pub fn submit_command(&mut self, command: CommandEntry) -> (r: Result<(), SMMUError>)
        requires
            old(self).wf(),
        ensures
            final(self).wf(),
            final(self).tlb() == old(self).tlb(),
            (r, final(self)@) == command_submitted(old(self)@, command),
    {
        if command.cmd_type == CommandType::AtcInv && command.end_address < command.start_address {
            return Err(SMMUError::InvalidCommandParameters(CommandProblem::EndBeforeStart));
        }
        if self.commands.len() >= self.config.command_queue_size {
            return Err(SMMUError::CommandQueueFull);
        }
        self.commands.push_back(command);
        self.cmdq.prod = advance_index(self.cmdq.prod, self.cmdq.log2size);
        Ok(())
    }

    /// Processes the command queue: nothing while CR0.CMDQEN is clear or CMDQ_ERR is active;
    /// otherwise commands are taken and executed in order until the queue is empty (the result
    /// is their number) or one is refused (its error is returned and CMDQ_ERR signalled).
    pub fn process_command_queue(&mut self) -> (r: Result<usize, SMMUError>)
        requires
            old(self).wf(),
        ensures
            final(self).wf(),
            (r, final(self)@) == command_queue_processed(old(self)@),
            (final(self).tlb()@, final(self).tlb().stats()) == (if old(self)@.cr0 & CR0_CMDQEN == 0 || active_errors(
                old(self)@.gerror,
            ) & GERROR_CMDQ_ERR != 0 {
                (old(self).tlb()@, old(self).tlb().stats())
            } else {
                commands_tlb(old(self)@, old(self).tlb()@, old(self).tlb().stats(), old(self)@.commands.len())
            }),
            final(self).tlb().clock() == old(self).tlb().clock(),
            final(self).tlb().clock_has_wrapped() == old(self).tlb().clock_has_wrapped(),
            final(self).tlb().spec_capacity() == old(self).tlb().spec_capacity(),
            final(self).tlb().spec_policy() == old(self).tlb().spec_policy(),
    {
        if self.cr0 & CR0_CMDQEN == 0 {
            return Ok(0);
        }
        let combined = self.gerror;
        let active = ((combined & 0xFFFF_FFFF) as u32) ^ ((combined >> 32u64) as u32);
        if active & GERROR_CMDQ_ERR != 0 {
            return Ok(0);
        }
        let ghost s0 = self@;
        let mut processed: usize = 0;
        while self.commands.len() > 0
            invariant
                self.wf(),
                self.tlb().spec_capacity() == old(self).tlb().spec_capacity(),
                self.tlb().spec_policy() == old(self).tlb().spec_policy(),
                self.tlb().clock() == old(self).tlb().clock(),
                self.tlb().clock_has_wrapped() == old(self).tlb().clock_has_wrapped(),
                commands_tlb(self@, self.tlb()@, self.tlb().stats(), self@.commands.len()) == commands_tlb(
                    s0,
                    old(self).tlb()@,
                    old(self).tlb().stats(),
                    s0.commands.len(),
                ),
                processed <= s0.commands.len(),
                self@.commands.len() == s0.commands.len() - processed,
                commands_drained(self@, processed as nat, self@.commands.len()) == commands_drained(
                    s0,
                    0,
                    s0.commands.len(),
                ),
                s0.commands.len() <= MAX_QUEUE_SIZE,
                !(s0.cr0 & CR0_CMDQEN == 0 || active_errors(s0.gerror) & GERROR_CMDQ_ERR != 0),
                s0 == old(self)@,
            decreases self@.commands.len(),
        {
            let ghost before = self@;
            let command = self.commands.pop_front().unwrap();
            self.cmdq.cons = advance_index(self.cmdq.cons, self.cmdq.log2size);
            let ghost popped = self@;
            proof {
                assert(popped == (SmmuState {
                    commands: before.commands.drop_first(),
                    cmdq: QueueIndices { cons: advanced(before.cmdq.cons, before.cmdq.log2size), ..before.cmdq },
                    ..before
                }));
                lemma_command_keeps_commands(popped, command);
            }
            assert(command == before.commands[0]);
            let ghost tlb_before = self.tlb();
            match self.process_single_command(command) {
                Err(e) => {
                    assert((self.tlb()@, self.tlb().stats()) == tlb_after_scope(
                        tlb_before@,
                        tlb_before.stats(),
                        command_scope(popped, command),
                    ));
                    let ghost after = self@;
                    self.gerror = signal_gerror(self.gerror, GERROR_CMDQ_ERR);
                    assert(self@ == (SmmuState { gerror: gerror_signaled(after.gerror, GERROR_CMDQ_ERR), ..after }));
                    assert(commands_drained(before, processed as nat, before.commands.len()) == (
                    Err::<usize, SMMUError>(e), self@));
                    return Err(e);
                },
                Ok(()) => {
                    assert((self.tlb()@, self.tlb().stats()) == tlb_after_scope(
                        tlb_before@,
                        tlb_before.stats(),
                        command_scope(popped, command),
                    ));
                },
            }
            processed = processed + 1;
        }
        Ok(processed)
    }

    /// Number of queued commands.
    pub fn get_command_queue_size(&self) -> (r: u64)
        ensures
            r == self@.commands.len(),
    {
        self.commands.len() as u64
    }

    /// Whether the command queue is full.
    pub fn is_command_queue_full(&self) -> (r: bool)
        ensures
            r == (self@.commands.len() >= self@.config.command_queue_size),
    {
        self.commands.len() >= self.config.command_queue_size
    }

    /// Empties the command queue and resets its indices.
    pub fn clear_command_queue(&mut self)
        requires
            old(self).wf(),
        ensures
            final(self).wf(),
            final(self).tlb() == old(self).tlb(),
            final(self)@ == (SmmuState {
                commands: Seq::empty(),
                cmdq: QueueIndices { prod: 0, cons: 0, ..old(self)@.cmdq },
                ..old(self)@
            }),
    {
        self.commands.clear();
        self.cmdq.prod = 0;
        self.cmdq.cons = 0;
    }

    /// The command queue producer index.
    pub fn cmdq_prod_index(&self) -> (r: u32)
        ensures
            r == self@.cmdq.prod,
    {
        self.cmdq.prod
    }

    /// The command queue consumer index.
    pub fn cmdq_cons_index(&self) -> (r: u32)
        ensures
            r == self@.cmdq.cons,
    {
        self.cmdq.cons
    }

    /// Whether the command queue indices say it is empty.
    pub fn is_cmdq_empty_by_index(&self) -> (r: bool)
        ensures
            r == (self@.cmdq.prod == self@.cmdq.cons),
    {
        self.cmdq.prod == self.cmdq.cons
    }

    /// Number of command queue entries the indices say are occupied.
    pub fn cmdq_occupied_entries(&self) -> (r: u32)
        ensures
            r == (self@.cmdq.prod - self@.cmdq.cons) % (index_modulus(self@.cmdq.log2size) as int),
    {
        queue_occupied(self.cmdq.prod, self.cmdq.cons, self.cmdq.log2size)
    }

    /// The command queue size exponent.
    pub fn cmdq_log2size(&self) -> (r: u32)
        ensures
            r == self@.cmdq.log2size,
    {
        self.cmdq.log2size
    }

    /// Submits a page request: refused unless CR0.PRIQEN and CR0.SMMUEN are both set; when
    /// the queue is full the overflow is flagged, the request answered automatically, and it
    /// is refused; otherwise it is appended.
    pub fn submit_page_request(&mut self, request: PRIEntry) -> (r: Result<(), SMMUError>)
        requires
            old(self).wf(),
        ensures
            final(self).wf(),
            final(self).tlb() == old(self).tlb(),
            (r, final(self)@) == page_request_submitted(old(self)@, request),
    {
        if !(self.cr0 & CR0_PRIQEN != 0 && self.cr0 & CR0_SMMUEN != 0) {
            return Err(SMMUError::InvalidConfiguration(ConfigurationProblem::PriQueueDisabled));
        }
        if self.pri.len() >= self.config.pri_queue_size {
            self.priq.prod = toggle_ovflg_once(self.priq.prod, self.priq.cons);
            self.pri_auto_failures.push(request);
            return Err(SMMUError::PriQueueFull);
        }
        self.pri.push_back(request);
        self.priq.prod = advance_index(self.priq.prod, self.priq.log2size);
        Ok(())
    }

    /// Processes the page request queue: each request is taken in order and reported by an
    /// E_PAGE_REQUEST event with the next timestamp; the result is their number.
    pub fn process_pri_queue(&mut self) -> (r: Result<usize, SMMUError>)
        requires
            old(self).wf(),
        ensures
            final(self).wf(),
            final(self).tlb() == old(self).tlb(),
            r == Ok::<usize, SMMUError>(page_requests_drained(old(self)@, 0, old(self)@.pri.len()).0 as usize),
            final(self)@ == page_requests_drained(old(self)@, 0, old(self)@.pri.len()).1,
    {
        let ghost s0 = self@;
        let mut processed: usize = 0;
        while self.pri.len() > 0
            invariant
                self.wf(),
                self.tlb == old(self).tlb,
                processed <= s0.pri.len(),
                self@.pri.len() == s0.pri.len() - processed,
                page_requests_drained(self@, processed as nat, self@.pri.len()) == page_requests_drained(
                    s0,
                    0,
                    s0.pri.len(),
                ),
                s0.pri.len() <= MAX_QUEUE_SIZE,
                s0 == old(self)@,
            decreases self@.pri.len(),
        {
            let request = self.pri.pop_front().unwrap();
            self.priq.cons = advance_index(self.priq.cons, self.priq.log2size);
            let ts = self.tick();
            let e = EventEntry {
                event_type: EventType::EPageRequest,
                stream_id: request.stream_id,
                pasid: request.pasid,
                address: request.requested_address,
                security_state: request.security_state,
                error_code: request.prg_index as u32,
                timestamp: ts,
                ..EventEntry::zeroed()
            };
            let _ = self.submit_event(e);
            processed = processed + 1;
        }
        Ok(processed)
    }

    /// The queued page requests, oldest first.
    pub fn get_pri_queue(&self) -> (r: Vec<PRIEntry>)
        ensures
            r@ == self@.pri,
    {
        let mut out: Vec<PRIEntry> = Vec::new();
        let mut i: usize = 0;
        while i < self.pri.len()
            invariant
                i <= self.pri@.len(),
                out@ == self.pri@.take(i as int),
            decreases self.pri@.len() - i,
        {
            out.push(self.pri[i]);
            assert(out@ =~= self.pri@.take(i + 1));
            i = i + 1;
        }
        assert(out@ =~= self.pri@);
        out
    }

    /// Number of queued page requests.
    pub fn get_pri_queue_size(&self) -> (r: u64)
        ensures
            r == self@.pri.len(),
    {
        self.pri.len() as u64
    }

    /// Takes the page requests answered automatically because the queue was full, oldest
    /// first; none are left.
    pub fn get_pri_auto_failure_responses(&mut self) -> (r: Vec<PRIEntry>)
        requires
            old(self).wf(),
        ensures
            final(self).wf(),
            final(self).tlb() == old(self).tlb(),
            r@ == old(self)@.pri_auto_failures,
            final(self)@ == (SmmuState { pri_auto_failures: Seq::empty(), ..old(self)@ }),
    {
        let mut taken: Vec<PRIEntry> = Vec::new();
        std::mem::swap(&mut taken, &mut self.pri_auto_failures);
        taken
    }

    /// Empties the page request queue and resets its indices.
    pub fn clear_pri_queue(&mut self)
        requires
            old(self).wf(),
        ensures
            final(self).wf(),
            final(self).tlb() == old(self).tlb(),
            final(self)@ == (SmmuState {
                pri: Seq::empty(),
                priq: QueueIndices { prod: 0, cons: 0, ..old(self)@.priq },
                ..old(self)@
            }),
    {
        self.pri.clear();
        self.priq.prod = 0;
        self.priq.cons = 0;
    }

    /// Empties the event, command and page request queues and the held-back stall events, and
    /// resets their indices.
    pub fn reset_queues(&mut self)
        requires
            old(self).wf(),
        ensures
            final(self).wf(),
            final(self).tlb() == old(self).tlb(),
            final(self)@ == (SmmuState {
                events: Seq::empty(),
                stall_pending: Seq::empty(),
                eventq: QueueIndices { prod: 0, cons: 0, ..old(self)@.eventq },
                commands: Seq::empty(),
                cmdq: QueueIndices { prod: 0, cons: 0, ..old(self)@.cmdq },
                pri: Seq::empty(),
                priq: QueueIndices { prod: 0, cons: 0, ..old(self)@.priq },
                ..old(self)@
            }),
    {
        self.clear_event_queue();
        self.clear_command_queue();
        self.clear_pri_queue();
    }

    /// Acknowledges an event queue overflow: OVACKFLG in the consumer index takes the value of
    /// OVFLG in the producer index.
    pub fn acknowledge_eventq_overflow(&mut self)
        requires
            old(self).wf(),
        ensures
            final(self).wf(),
            final(self).tlb() == old(self).tlb(),
            final(self)@ == (SmmuState {
                eventq: QueueIndices {
                    cons: (old(self)@.eventq.cons & !0x8000_0000u32) | (old(self)@.eventq.prod & 0x8000_0000u32),
                    ..old(self)@.eventq
                },
                ..old(self)@
            }),
    {
        self.eventq.cons = (self.eventq.cons & !0x8000_0000u32) | (self.eventq.prod & 0x8000_0000u32);
    }

    /// The queued events of type `event_type`, oldest first.
    pub fn get_events_by_type(&self, event_type: EventType) -> (r: Vec<EventEntry>)
        ensures
            r@ == self@.events.filter(of_event_type(event_type)),
    {
        let mut out: Vec<EventEntry> = Vec::new();
        let mut i: usize = 0;
        while i < self.events.len()
            invariant
                i <= self.events@.len(),
                out@ == self.events@.take(i as int).filter(of_event_type(event_type)),
            decreases self.events@.len() - i,
        {
            let e = self.events[i];
            proof {
                reveal(Seq::filter);
                assert(self.events@.take(i + 1).drop_last() =~= self.events@.take(i as int));
            }
            if e.event_type == event_type {
                out.push(e);
            }
            i = i + 1;
        }
        assert(self.events@.take(self.events@.len() as int) =~= self.events@);
        out
    }

    /// The queued events of stream `stream_id`, oldest first.
    pub fn get_events_by_stream(&self, stream_id: u32) -> (r: Vec<EventEntry>)
        ensures
            r@ == self@.events.filter(of_event_stream(stream_id)),
    {
        let mut out: Vec<EventEntry> = Vec::new();
        let mut i: usize = 0;
        while i < self.events.len()
            invariant
                i <= self.events@.len(),
                out@ == self.events@.take(i as int).filter(of_event_stream(stream_id)),
            decreases self.events@.len() - i,
        {
            let e = self.events[i];
            proof {
                reveal(Seq::filter);
                assert(self.events@.take(i + 1).drop_last() =~= self.events@.take(i as int));
            }
            if e.stream_id == stream_id {
                out.push(e);
            }
            i = i + 1;
        }
        assert(self.events@.take(self.events@.len() as int) =~= self.events@);
        out
    }

    /// Reports an injected stream table entry fetch abort (F_STE_FETCH).
    pub fn inject_ste_fetch_abort(&mut self, stream_id: StreamID)
        requires
            old(self).wf(),
        ensures
            final(self).wf(),
            final(self).tlb() == old(self).tlb(),
            final(self)@ == fault_injected(
                old(self)@,
                EventEntry { event_type: EventType::FSteFetch, stream_id: stream_id@, ..EventEntry::zeroed_spec() },
            ),
    {
        self.inject_event(EventEntry { event_type: EventType::FSteFetch, stream_id: stream_id.as_u32(), ..EventEntry::zeroed() });
    }

    /// Reports an injected context descriptor fetch abort (F_CD_FETCH).
    pub fn inject_cd_fetch_abort(&mut self, stream_id: StreamID, pasid: PASID)
        requires
            old(self).wf(),
        ensures
            final(self).wf(),
            final(self).tlb() == old(self).tlb(),
            final(self)@ == fault_injected(
                old(self)@,
                EventEntry {
                    event_type: EventType::FCdFetch,
                    stream_id: stream_id@,
                    pasid: pasid@,
                    ..EventEntry::zeroed_spec()
                },
            ),
    {
        self.inject_event(
            EventEntry {
                event_type: EventType::FCdFetch,
                stream_id: stream_id.as_u32(),
                pasid: pasid.as_u32(),
                ..EventEntry::zeroed()
            },
        );
    }

    /// Reports an injected external abort of a table walk (F_WALK_EABT).
    pub fn inject_walk_eabt(&mut self, stream_id: StreamID, pasid: PASID, iova: IOVA)
        requires
            old(self).wf(),
        ensures
            final(self).wf(),
            final(self).tlb() == old(self).tlb(),
            final(self)@ == fault_injected(
                old(self)@,
                EventEntry {
                    event_type: EventType::FWalkEabt,
                    stream_id: stream_id@,
                    pasid: pasid@,
                    address: iova@,
                    ..EventEntry::zeroed_spec()
                },
            ),
    {
        self.inject_event(
            EventEntry {
                event_type: EventType::FWalkEabt,
                stream_id: stream_id.as_u32(),
                pasid: pasid.as_u32(),
                address: iova.as_u64(),
                ..EventEntry::zeroed()
            },
        );
    }

    /// Reports an injected fault by `e` as `fault_injected` describes.
    fn inject_event(&mut self, e: EventEntry)
        requires
            old(self).wf(),
        ensures
            final(self).wf(),
            final(self).tlb() == old(self).tlb(),
            final(self)@ == fault_injected(old(self)@, e),
    {
        if self.cr0 & CR0_EVENTQEN == 0 {
            return;
        }
        let ts = self.tick();
        self.push_event(EventEntry { timestamp: ts, ..e });
    }

    /// Takes the fault log, oldest first; none are left.
    pub fn drain_faults(&mut self) -> (r: Vec<FaultRecord>)
        requires
            old(self).wf(),
        ensures
            final(self).wf(),
            final(self).tlb() == old(self).tlb(),
            r@ == old(self)@.faults,
            final(self)@ == (SmmuState { faults: Seq::empty(), ..old(self)@ }),
    {
        let mut taken: Vec<FaultRecord> = Vec::new();
        std::mem::swap(&mut taken, &mut self.faults);
        taken
    }

    /// The page request queue producer index.
    pub fn priq_prod_index(&self) -> (r: u32)
        ensures
            r == self@.priq.prod,
    {
        self.priq.prod
    }

    /// The page request queue consumer index.
    pub fn priq_cons_index(&self) -> (r: u32)
        ensures
            r == self@.priq.cons,
    {
        self.priq.cons
    }

    /// Number of invalidation commands executed.
    pub fn get_invalidation_count(&self) -> (r: u64)
        ensures
            r == self@.invalidations,
    {
        self.invalidations
    }

    /// The translation counters: total, successful, failed.
    pub fn get_translation_stats(&self) -> (r: (u64, u64, u64))
        ensures
            r == (self@.total_translations, self@.successful_translations, self@.failed_translations),
    {
        (self.total_translations, self.successful_translations, self.failed_translations)
    }

    /// Completes a translation of `iova` for stream `stream_id` whose page table walk gave
    /// `walk` (and, for a two-stage walk, the stage 2 input address `stage2_ipa`), as
    /// `translated` describes, and caches a successful result of a configured stream in the
    /// TLB.
    #[verifier::rlimit(40)]
    pub fn finish_translation(
        &mut self,
        stream_id: StreamID,
        pasid: PASID,
        iova: IOVA,
        access: AccessType,
        security_state: SecurityState,
        transaction_type: TransactionType,
        walk: TranslationResult,
        stage2_ipa: Option<u64>,
    ) -> (r: TranslationResult)
        requires
            old(self).wf(),
        ensures
            final(self).wf(),
            (r, final(self)@) == translated(
                old(self)@,
                old(self).tlb()@,
                stream_id,
                pasid,
                iova,
                access,
                security_state,
                transaction_type,
                walk,
                stage2_ipa,
            ),
            !reaches_tlb(old(self)@, stream_id@, transaction_type) ==> final(self).tlb() == old(self).tlb(),
            reaches_tlb(old(self)@, stream_id@, transaction_type) ==> exists|
                looked: Option<CacheEntry>,
                mid: TlbCache,
            |
                old(self).tlb().looked_up_into(CacheKey { stream_id, pasid, iova, security_state }, looked, &mid)
                    && match translation_fill(
                    old(self)@,
                    old(self).tlb()@,
                    stream_id,
                    pasid,
                    iova,
                    access,
                    security_state,
                    walk,
                    stage2_ipa,
                ) {
                    Some(fill) => mid.inserted_into(fill.0, fill.1, &final(self).tlb()),
                    None => final(self).tlb() == mid,
                },
    {
        if !self.enabled && transaction_type != TransactionType::Ordinary {
            let recorded = self.cr0 & CR0_EVENTQEN != 0 && (transaction_type == TransactionType::AtsTranslated
                || self.cr2 & CR2_REC_CFG_ATS != 0);
            if recorded {
                let event_type = if transaction_type == TransactionType::AtsTranslationRequest {
                    EventType::FBadAtsTreq
                } else {
                    EventType::FTranslForbidden
                };
                let ts = self.tick();
                let e = EventEntry {
                    event_type,
                    stream_id: stream_id.as_u32(),
                    pasid: pasid.as_u32(),
                    address: iova.as_u64(),
                    security_state,
                    timestamp: ts,
                    rnw: access == AccessType::Write,
                    ind: access == AccessType::Execute,
                    ssv: pasid.as_u32() != 0,
                    ..EventEntry::zeroed()
                };
                self.push_event(e);
            }
            self.failed_translations = self.failed_translations.wrapping_add(1);
            return Err(TranslationError::PermissionViolation { access });
        }
        if transaction_type == TransactionType::AtsTranslationRequest && stream_table_get(
            &self.streams,
            stream_id.as_u32(),
        ).is_none() {
            if self.cr0 & CR0_EVENTQEN != 0 && self.cr2 & CR2_RECINVSID != 0 && self.cr2 & CR2_REC_CFG_ATS != 0 {
                let ts = self.tick();
                let e = EventEntry {
                    event_type: EventType::CBadStreamid,
                    stream_id: stream_id.as_u32(),
                    pasid: pasid.as_u32(),
                    address: iova.as_u64(),
                    security_state,
                    timestamp: ts,
                    ..EventEntry::zeroed()
                };
                self.push_event(e);
            }
            self.failed_translations = self.failed_translations.wrapping_add(1);
            return Err(TranslationError::StreamNotConfigured);
        }
        self.total_translations = self.total_translations.wrapping_add(1);
        if self.shut_down {
            self.failed_translations = self.failed_translations.wrapping_add(1);
            return Err(TranslationError::StreamNotConfigured);
        }
        let bits = self.config.max_pa_bits;
        if !self.enabled {
            if self.gbpa_abort {
                self.failed_translations = self.failed_translations.wrapping_add(1);
                return Err(TranslationError::GbpaAbort);
            }
            if bits < 64 && iova.as_u64() >= (1u64 << bits) {
                self.failed_translations = self.failed_translations.wrapping_add(1);
                return Err(TranslationError::AddressSizeError);
            }
            self.successful_translations = self.successful_translations.wrapping_add(1);
            return Ok(TranslationData::new(PA(iova.as_u64()), PagePermissions::all(), security_state));
        }
        let l = self.strtab_log2size;
        if l < 32 && stream_id.as_u32() >= (1u32 << (l as u32)) {
            self.failed_translations = self.failed_translations.wrapping_add(1);
            self.record_stream_not_found_fault(stream_id, pasid, iova, access, security_state);
            return Err(TranslationError::InvalidStreamID);
        }
        let key = CacheKey::new(stream_id, pasid, iova, security_state);
        let looked = self.tlb.lookup(&key);
        let ghost mid = self.tlb;
        if let Some(e) = looked {
            if e.permissions.allows(access) {
                self.successful_translations = self.successful_translations.wrapping_add(1);
                return Ok(TranslationData::new(e.physical_address, e.permissions, e.security_state));
            }
        }
        let cfg = match stream_table_get(&self.streams, stream_id.as_u32()) {
            Some(cfg) => cfg,
            None => {
                self.failed_translations = self.failed_translations.wrapping_add(1);
                self.record_stream_not_found_fault(stream_id, pasid, iova, access, security_state);
                return Err(TranslationError::StreamNotConfigured);
            },
        };
        if !cfg.translation_enabled && walk.is_ok() && bits < 64 && iova.as_u64() >= (1u64 << bits) {
            self.failed_translations = self.failed_translations.wrapping_add(1);
            self.record_translation_fault(
                stream_id,
                pasid,
                iova,
                access,
                security_state,
                &TranslationError::AddressSizeError,
                false,
                0,
                false,
                0,
            );
            return Err(TranslationError::AddressSizeError);
        }
        assert(bits < 64 ==> (1u64 << bits) >= 1u64) by (bit_vector);
        let result = match walk {
            Ok(d) => {
                let out = d.physical_address.as_u64();
                if cfg.translation_enabled && cfg.stage1_enabled && !cfg.stage2_enabled && bits < 64 && out >= (1u64
                    << bits) {
                    Ok(TranslationData { physical_address: PA(out & ((1u64 << bits) - 1)), ..d })
                } else {
                    Ok(d)
                }
            },
            Err(e) => Err(e),
        };
        match result {
            Ok(d) => {
                let ipa = match stage2_ipa {
                    Some(ipa) => ipa,
                    None => 0,
                };
                let entry = CacheEntry {
                    iova,
                    physical_address: d.physical_address,
                    permissions: d.permissions,
                    security_state: d.security_state,
                    timestamp: 0,
                    asid: 0,
                    vmid: 0,
                    ipa,
                };
                self.tlb.insert(key, entry);
                self.successful_translations = self.successful_translations.wrapping_add(1);
                Ok(d)
            },
            Err(e) => {
                self.failed_translations = self.failed_translations.wrapping_add(1);
                let (s2, ipa) = match stage2_ipa {
                    Some(ipa) => (true, ipa),
                    None => (false, 0),
                };
                let fault_type = map_translation_error_to_fault_type(&e);
                let eligible = fault_type == FaultType::TranslationFault || fault_type == FaultType::AddressSizeFault
                    || fault_type == FaultType::AccessFlagFault || fault_type == FaultType::PermissionFault;
                if cfg.fault_mode == FaultMode::Stall && eligible {
                    match self.allocate_stag() {
                        Some(stag) => {
                            let record = StallRecord {
                                stag,
                                stream_id: stream_id.as_u32(),
                                pasid: pasid.as_u32(),
                                iova: iova.as_u64(),
                                access,
                                security_state,
                            };
                            stall_table_insert(&mut self.stall_queue, stag, record);
                            self.record_translation_fault(
                                stream_id,
                                pasid,
                                iova,
                                access,
                                security_state,
                                &e,
                                true,
                                stag,
                                s2,
                                ipa,
                            );
                            Err(TranslationError::Stalled { stag })
                        },
                        None => {
                            self.record_translation_fault(
                                stream_id,
                                pasid,
                                iova,
                                access,
                                security_state,
                                &e,
                                false,
                                0,
                                s2,
                                ipa,
                            );
                            Err(TranslationError::StallQueueFull)
                        },
                    }
                } else {
                    self.record_translation_fault(stream_id, pasid, iova, access, security_state, &e, false, 0, s2, ipa);
                    Err(e)
                }
            },
        }
    }
}

/// The next nonzero stall tag of a tag counter, and the counter after it.
fn take_nonzero(counter: u16) -> (r: (u16, u16))
    ensures
        r == nonzero_take(counter),
{
    if counter == 0 {
        (1, 2)
    } else {
        (counter, counter.wrapping_add(1))
    }
}

/// Output address size in bits of a stage 2 output size code.
fn s2_output_bits_of(ps: u8) -> (r: u32)
    ensures
        r == s2_output_bits(ps),
{
    match ps {
        0 => 32,
        1 => 36,
        2 => 40,
        3 => 42,
        4 => 44,
        6 => 52,
        _ => 48,
    }
}

/// Executing a command never touches the command queue.
proof fn lemma_command_keeps_commands(s: SmmuState, c: CommandEntry)
    ensures
        command_effect(s, c).1.commands == s.commands,
        command_effect(s, c).1.config == s.config,
{
}

// ---------------------------------------------------------------------------------------------
// Laws of the controller
// ---------------------------------------------------------------------------------------------

/// A well-formed SMMU never holds more events, commands or page requests than its queues'
/// sizes.
pub proof fn lemma_smmu_queues_bounded(smmu: SMMU)
    requires
        smmu.wf(),
    ensures
        smmu@.events.len() <= smmu@.config.event_queue_size,
        smmu@.commands.len() <= smmu@.config.command_queue_size,
        smmu@.pri.len() <= smmu@.config.pri_queue_size,
        smmu@.config.valid(),
{
}

/// Configuring a new legal stream while there is room succeeds, and removing it again gives
/// back the state from before.
pub proof fn lemma_configure_then_remove(s: SmmuState, id: u32, config: StreamConfig)
    requires
        !s.shut_down,
        ste_problem(config) is None,
        s.streams.len() < s.config.max_streams,
        !s.streams.contains_key(id),
    ensures
        stream_configured(s, id, config).0 == Ok::<(), SMMUError>(()),
        stream_configured(s, id, config).1.streams.contains_key(id),
        stream_configured(s, id, config).1.streams[id] == config,
        stream_removed(stream_configured(s, id, config).1, id) == (Ok::<(), SMMUError>(()), s),
{
    assert(s.streams.insert(id, config).remove(id) =~= s.streams);
}

/// After a shutdown no stream is left, and shutting down again, configuring and removing
/// streams and reporting transactions are all refused.
pub proof fn lemma_shutdown_refuses(
    s: SmmuState,
    id: StreamID,
    config: StreamConfig,
    pasid: PASID,
    iova: IOVA,
    access: AccessType,
    security_state: SecurityState,
)
    requires
        !s.shut_down,
    ensures
        shut_down_step(s).0 == Ok::<(), SMMUError>(()),
        shut_down_step(s).1.streams == no_streams(),
        shut_down_step(s).1.faults.len() == 0,
        shut_down_step(shut_down_step(s).1).0 == Err::<(), SMMUError>(SMMUError::ShutdownInProgress),
        stream_configured(shut_down_step(s).1, id@, config) == (
            Err::<(), SMMUError>(SMMUError::ShutdownInProgress),
            shut_down_step(s).1,
        ),
        stream_removed(shut_down_step(s).1, id@) == (
            Err::<(), SMMUError>(SMMUError::ShutdownInProgress),
            shut_down_step(s).1,
        ),
        unsupported_reported(shut_down_step(s).1, id, pasid, iova, access, security_state) == (
            Err::<(), SMMUError>(SMMUError::ShutdownInProgress),
            shut_down_step(s).1,
        ),
{
}

/// An event that finds the event queue full is lost: the queue is unchanged and an overflow
/// is active afterwards; only the overflow flag of the producer index may change.
pub proof fn lemma_full_event_queue_overflows(s: SmmuState, e: EventEntry)
    requires
        s.events.len() >= s.config.event_queue_size,
    ensures
        event_pushed_or_lost(s, e).events == s.events,
        overflow_bit(event_pushed_or_lost(s, e).eventq.prod) != overflow_bit(s.eventq.cons),
        event_pushed_or_lost(s, e).eventq.prod & 0x7FFF_FFFF == s.eventq.prod & 0x7FFF_FFFF,
{
    lemma_overflow_toggle(s.eventq.prod, s.eventq.cons);
}

/// An event that finds room is appended at the end of the event queue and the producer index
/// advances by one.
pub proof fn lemma_event_appended(s: SmmuState, e: EventEntry)
    requires
        s.events.len() < s.config.event_queue_size,
    ensures
        event_submitted(s, e) == (
            Ok::<(), SMMUError>(()),
            SmmuState {
                events: s.events.push(e),
                eventq: QueueIndices { prod: advanced(s.eventq.prod, s.eventq.log2size), ..s.eventq },
                ..s
            },
        ),
{
}

/// Draining the command queue either stops on a refused command or executes every queued
/// command, in order, leaving the queue empty; the result counts them.
pub proof fn lemma_commands_drain_all(s: SmmuState, done: nat)
    ensures
        commands_drained(s, done, s.commands.len()).0 is Ok ==> commands_drained(
            s,
            done,
            s.commands.len(),
        ).1.commands.len() == 0 && commands_drained(s, done, s.commands.len()).0 == Ok::<usize, SMMUError>(
            (done + s.commands.len()) as usize,
        ),
    decreases s.commands.len(),
{
    if s.commands.len() > 0 {
        let c = s.commands[0];
        let popped = SmmuState {
            commands: s.commands.drop_first(),
            cmdq: QueueIndices { cons: advanced(s.cmdq.cons, s.cmdq.log2size), ..s.cmdq },
            ..s
        };
        lemma_command_keeps_commands(popped, c);
        let after = command_effect(popped, c).1;
        lemma_commands_drain_all(after, done + 1);
    }
}

/// Draining the page request queue reports every queued request, in order, and leaves the
/// queue empty; the result counts them.
pub proof fn lemma_page_requests_drain_all(s: SmmuState, done: nat)
    ensures
        page_requests_drained(s, done, s.pri.len()).1.pri.len() == 0,
        page_requests_drained(s, done, s.pri.len()).0 == done + s.pri.len(),
    decreases s.pri.len(),
{
    if s.pri.len() > 0 {
        let r = s.pri[0];
        let popped = SmmuState {
            pri: s.pri.drop_first(),
            priq: QueueIndices { cons: advanced(s.priq.cons, s.priq.log2size), ..s.priq },
            ..s
        };
        let next = event_submitted(ticked(popped), page_request_event(r, popped.fault_clock)).1;
        assert(next.pri == popped.pri);
        lemma_page_requests_drain_all(next, done + 1);
    }
}

/// Recording a translation fault appends exactly one fault, stamped with the fault clock,
/// which then advances; the stream table and the other queues are left alone.
pub proof fn lemma_fault_logged_once(
    s: SmmuState,
    stream_id: StreamID,
    pasid: PASID,
    iova: IOVA,
    access: AccessType,
    security_state: SecurityState,
    error: TranslationError,
    is_stall: bool,
    stag: u16,
    s2: bool,
    ipa: u64,
)
    ensures
        ({
            let t = fault_recorded(s, stream_id, pasid, iova, access, security_state, error, is_stall, stag, s2, ipa);
            &&& t.faults == s.faults.push(
                fault_of(stream_id, pasid, iova, fault_type_of(error), access, security_state, s.fault_clock),
            )
            &&& t.fault_clock == s.fault_clock.wrapping_add(1)
            &&& t.streams == s.streams
            &&& t.commands == s.commands
            &&& t.pri == s.pri
        }),
{
}

/// While the SMMU is disabled and bypassing transactions do not abort, an ordinary
/// transaction within the output address size passes through unchanged, with every
/// permission, whatever the walk gave; nothing is cached.
pub proof fn lemma_disabled_bypass_is_identity(
    s: SmmuState,
    cached: Map<Slot, CacheEntry>,
    stream_id: StreamID,
    pasid: PASID,
    iova: IOVA,
    access: AccessType,
    security_state: SecurityState,
    walk: TranslationResult,
    stage2_ipa: Option<u64>,
)
    requires
        !s.shut_down,
        !s.enabled,
        !s.gbpa_abort,
        !beyond_oas(s, iova@),
    ensures
        translated(
            s,
            cached,
            stream_id,
            pasid,
            iova,
            access,
            security_state,
            TransactionType::Ordinary,
            walk,
            stage2_ipa,
        ).0 == Ok::<TranslationData, TranslationError>(
            TranslationData {
                physical_address: PA(iova@),
                permissions: PagePermissions { read: true, write: true, execute: true },
                security_state,
            },
        ),
        translation_fill(s, cached, stream_id, pasid, iova, access, security_state, walk, stage2_ipa) is None,
{
}

/// A TLB entry whose permissions allow the access answers a translation of an enabled SMMU,
/// whatever the walk gave: its frame, permissions and security state are returned, the
/// success is counted, no fault is logged and nothing new is cached.
pub proof fn lemma_tlb_hit_answers(
    s: SmmuState,
    cached: Map<Slot, CacheEntry>,
    stream_id: StreamID,
    pasid: PASID,
    iova: IOVA,
    access: AccessType,
    security_state: SecurityState,
    ttype: TransactionType,
    walk: TranslationResult,
    stage2_ipa: Option<u64>,
)
    requires
        reaches_tlb(s, stream_id@, ttype),
        cached.contains_key(slot_of(CacheKey { stream_id, pasid, iova, security_state })),
        permits(cached[slot_of(CacheKey { stream_id, pasid, iova, security_state })].permissions, access),
    ensures
        ({
            let e = cached[slot_of(CacheKey { stream_id, pasid, iova, security_state })];
            let (r, t) = translated(s, cached, stream_id, pasid, iova, access, security_state, ttype, walk, stage2_ipa);
            &&& r == Ok::<TranslationData, TranslationError>(
                TranslationData {
                    physical_address: e.physical_address,
                    permissions: e.permissions,
                    security_state: e.security_state,
                },
            )
            &&& t.faults == s.faults
            &&& t.successful_translations == s.successful_translations.wrapping_add(1)
        }),
        translation_fill(s, cached, stream_id, pasid, iova, access, security_state, walk, stage2_ipa) is None,
{
}

/// A translation (other than an ATS translation request) for an unconfigured stream of an
/// enabled SMMU that the TLB does not answer fails, logs exactly one BadStreamID fault and
/// caches nothing.
pub proof fn lemma_unknown_stream_fails(
    s: SmmuState,
    cached: Map<Slot, CacheEntry>,
    stream_id: StreamID,
    pasid: PASID,
    iova: IOVA,
    access: AccessType,
    security_state: SecurityState,
    ttype: TransactionType,
    walk: TranslationResult,
    stage2_ipa: Option<u64>,
)
    requires
        !s.shut_down,
        s.enabled,
        !strtab_rejects(s, stream_id@),
        ttype != TransactionType::AtsTranslationRequest,
        tlb_hit(cached, CacheKey { stream_id, pasid, iova, security_state }, access) is None,
        !s.streams.contains_key(stream_id@),
    ensures
        translated(s, cached, stream_id, pasid, iova, access, security_state, ttype, walk, stage2_ipa).0
            == Err::<TranslationData, TranslationError>(TranslationError::StreamNotConfigured),
        translated(s, cached, stream_id, pasid, iova, access, security_state, ttype, walk, stage2_ipa).1.faults
            == s.faults.push(
            fault_of(stream_id, pasid, iova, FaultType::BadStreamID, access, security_state, s.fault_clock),
        ),
        translation_fill(s, cached, stream_id, pasid, iova, access, security_state, walk, stage2_ipa) is None,
{
}

/// A successful walk for a configured translating stream of an enabled SMMU that the TLB did
/// not answer is returned (its output address cut to the output address size for a
/// stage-1-only stream), counted, and cached under the transaction's stream, PASID, address
/// and security state.
pub proof fn lemma_successful_walk_cached(
    s: SmmuState,
    cached: Map<Slot, CacheEntry>,
    stream_id: StreamID,
    pasid: PASID,
    iova: IOVA,
    access: AccessType,
    security_state: SecurityState,
    ttype: TransactionType,
    d: TranslationData,
    stage2_ipa: Option<u64>,
)
    requires
        !s.shut_down,
        s.enabled,
        !strtab_rejects(s, stream_id@),
        tlb_hit(cached, CacheKey { stream_id, pasid, iova, security_state }, access) is None,
        s.streams.contains_key(stream_id@),
        s.streams[stream_id@].translation_enabled,
    ensures
        ({
            let walk = Ok::<TranslationData, TranslationError>(d);
            let (r, t) = translated(s, cached, stream_id, pasid, iova, access, security_state, ttype, walk, stage2_ipa);
            &&& r == oas_truncated(s, s.streams[stream_id@], walk)
            &&& r is Ok
            &&& t.successful_translations == s.successful_translations.wrapping_add(1)
            &&& t.faults == s.faults
            &&& (translation_fill(s, cached, stream_id, pasid, iova, access, security_state, walk, stage2_ipa) matches Some(
                fill,
            ) && fill.0 == (CacheKey { stream_id, pasid, iova, security_state }) && fill.1.physical_address
                == oas_physical_address(s, s.streams[stream_id@], d))
        }),
{
}

/// The search for a stall tag started from a nonzero tag only ever finds a nonzero tag that is
/// not in use.
proof fn lemma_stag_search_fresh(stalls: Map<u16, StallRecord>, candidate: u16, counter: u16, tries: nat)
    requires
        candidate != 0,
    ensures
        stag_search(stalls, candidate, counter, tries).0 matches Some(t) ==> t != 0 && !stalls.contains_key(t),
    decreases 65535 - tries,
{
    if stalls.contains_key(candidate) && tries + 1 < 65535 {
        lemma_stag_search_fresh(stalls, nonzero_take(counter).0, nonzero_take(counter).1, tries + 1);
    }
}

/// A stall tag the controller hands out is never 0 (the reserved tag) and is not held by
/// another stalled transaction.
pub proof fn lemma_stag_fresh(s: SmmuState)
    ensures
        stag_allocation(s).0 matches Some(t) ==> t != 0 && !s.stalls.contains_key(t),
{
    lemma_stag_search_fresh(s.stalls, nonzero_take(s.stag_counter).0, nonzero_take(s.stag_counter).1, 0);
}

/// How translation errors are classed and reported: a missing mapping is a translation fault
/// (F_TRANSLATION), a permission violation a permission fault (F_PERMISSION), an address size
/// error an address size fault (F_ADDR_SIZE), a security violation a security fault reported
/// as F_PERMISSION, an invalid StreamID a bad StreamID (C_BAD_STREAMID), a bad context
/// descriptor a bad CD (C_BAD_CD); faults of the walk itself are of event class 2.
pub proof fn lemma_translation_error_classes(
    access: AccessType,
    stream: u32,
    pasid: u32,
    iova: u64,
    security_state: SecurityState,
    timestamp: u64,
)
    ensures
        fault_type_of(TranslationError::PageNotMapped) == FaultType::TranslationFault,
        fault_type_of(TranslationError::PermissionViolation { access }) == FaultType::PermissionFault,
        fault_type_of(TranslationError::AddressSizeError) == FaultType::AddressSizeFault,
        fault_type_of(TranslationError::SecurityViolation) == FaultType::SecurityFault,
        fault_type_of(TranslationError::InvalidStreamID) == FaultType::BadStreamID,
        fault_type_of(TranslationError::BadCD) == FaultType::BadCD,
        event_type_of(FaultType::TranslationFault) == EventType::FTranslation,
        event_type_of(FaultType::PermissionFault) == EventType::FPermission,
        event_type_of(FaultType::SecurityFault) == EventType::FPermission,
        event_type_of(FaultType::AddressSizeFault) == EventType::FAddrSize,
        event_type_of(FaultType::AccessFlagFault) == EventType::FAccess,
        event_type_of(FaultType::BadStreamID) == EventType::CBadStreamid,
        event_type_of(FaultType::BadCD) == EventType::CBadCd,
        ({
            let e = translation_fault_event(
                stream,
                pasid,
                iova,
                access,
                security_state,
                TranslationError::PermissionViolation { access },
                false,
                0,
                false,
                0,
                timestamp,
            );
            &&& e.event_type == EventType::FPermission
            &&& e.event_class == 2
            &&& e.stream_id == stream
            &&& e.address == iova
            &&& e.rnw == (access == AccessType::Write)
        }),
{
}

/// On a stall-mode stream, a walk that failed with a missing mapping, a permission violation or
/// an address size error stalls the transaction: with the counter's next tag free, the result
/// is `Stalled` under that tag, a stall record of the transaction is kept under it, and the
/// fault is logged once, in its own class (translation, permission or address size fault).
pub proof fn lemma_stall_mode_stalls_walk_faults(
    s: SmmuState,
    cached: Map<Slot, CacheEntry>,
    stream_id: StreamID,
    pasid: PASID,
    iova: IOVA,
    access: AccessType,
    security_state: SecurityState,
    ttype: TransactionType,
    e: TranslationError,
    stage2_ipa: Option<u64>,
)
    requires
        reaches_tlb(s, stream_id@, ttype),
        tlb_hit(cached, CacheKey { stream_id, pasid, iova, security_state }, access) is None,
        s.streams.contains_key(stream_id@),
        s.streams[stream_id@].translation_enabled,
        s.streams[stream_id@].fault_mode == FaultMode::Stall,
        e is PageNotMapped || e is PermissionViolation || e is AddressSizeError,
        !s.stalls.contains_key(if s.stag_counter == 0 { 1u16 } else { s.stag_counter }),
    ensures
        ({
            let tag: u16 = if s.stag_counter == 0 { 1u16 } else { s.stag_counter };
            let (r, t) = translated(
                s,
                cached,
                stream_id,
                pasid,
                iova,
                access,
                security_state,
                ttype,
                Err(e),
                stage2_ipa,
            );
            &&& r == Err::<TranslationData, TranslationError>(TranslationError::Stalled { stag: tag })
            &&& tag != 0
            &&& t.stalls.contains_key(tag)
            &&& t.stalls[tag] == (StallRecord {
                stag: tag,
                stream_id: stream_id@,
                pasid: pasid@,
                iova: iova@,
                access,
                security_state,
            })
            &&& t.faults.len() == s.faults.len() + 1
            &&& t.faults.last().fault_type == (if e is PageNotMapped {
                FaultType::TranslationFault
            } else if e is PermissionViolation {
                FaultType::PermissionFault
            } else {
                FaultType::AddressSizeFault
            })
            &&& t.failed_translations == s.failed_translations.wrapping_add(1)
        }),
{
    let tag: u16 = if s.stag_counter == 0 { 1u16 } else { s.stag_counter };
    let cfg = s.streams[stream_id@];
    let s0 = SmmuState { total_translations: s.total_translations.wrapping_add(1), ..s };
    let base = failure_counted(s0);
    assert(stag_allocation(s).0 == Some(tag));
    let found = stag_allocation(s);
    let stalled = SmmuState {
        stalls: s.stalls.insert(
            tag,
            StallRecord { stag: tag, stream_id: stream_id@, pasid: pasid@, iova: iova@, access, security_state },
        ),
        stag_counter: found.1,
        ..base
    };
    let ipa = match stage2_ipa {
        Some(ipa) => ipa,
        None => 0,
    };
    lemma_fault_logged_once(stalled, stream_id, pasid, iova, access, security_state, e, true, tag, stage2_ipa is Some, ipa);
    lemma_fault_recorded_keeps_stalls(stalled, stream_id, pasid, iova, access, security_state, e, true, tag, stage2_ipa is Some, ipa);
}

/// Recording a fault leaves the stall table and the failure counter alone.
proof fn lemma_fault_recorded_keeps_stalls(
    s: SmmuState,
    stream_id: StreamID,
    pasid: PASID,
    iova: IOVA,
    access: AccessType,
    security_state: SecurityState,
    error: TranslationError,
    is_stall: bool,
    stag: u16,
    s2: bool,
    ipa: u64,
)
    ensures
        fault_recorded(s, stream_id, pasid, iova, access, security_state, error, is_stall, stag, s2, ipa).stalls
            == s.stalls,
        fault_recorded(s, stream_id, pasid, iova, access, security_state, error, is_stall, stag, s2, ipa).failed_translations
            == s.failed_translations,
{
}

/// On a stall-mode stream a walk that failed for a reason outside the stallable classes (a
/// security violation) is not stalled: the walk's error is returned and nothing is added to
/// the stall table. On a terminate-mode stream no walk failure is stalled.
pub proof fn lemma_unstallable_walk_faults_terminate(
    s: SmmuState,
    cached: Map<Slot, CacheEntry>,
    stream_id: StreamID,
    pasid: PASID,
    iova: IOVA,
    access: AccessType,
    security_state: SecurityState,
    ttype: TransactionType,
    e: TranslationError,
    stage2_ipa: Option<u64>,
)
    requires
        reaches_tlb(s, stream_id@, ttype),
        tlb_hit(cached, CacheKey { stream_id, pasid, iova, security_state }, access) is None,
        s.streams.contains_key(stream_id@),
        s.streams[stream_id@].translation_enabled,
        s.streams[stream_id@].fault_mode == FaultMode::Terminate || e is SecurityViolation,
    ensures
        translated(s, cached, stream_id, pasid, iova, access, security_state, ttype, Err(e), stage2_ipa).0
            == Err::<TranslationData, TranslationError>(e),
        translated(s, cached, stream_id, pasid, iova, access, security_state, ttype, Err(e), stage2_ipa).1.stalls
            == s.stalls,
{
    let s0 = SmmuState { total_translations: s.total_translations.wrapping_add(1), ..s };
    let ipa = match stage2_ipa {
        Some(ipa) => ipa,
        None => 0,
    };
    lemma_fault_recorded_keeps_stalls(failure_counted(s0), stream_id, pasid, iova, access, security_state, e, false, 0, stage2_ipa is Some, ipa);
}

/// What the invalidation commands remove from a TLB holding `m`:
/// - CMD_CFGI_CD_ALL removes every entry of its stream, whatever the PASID, and keeps every
///   entry of the other streams;
/// - CMD_CFGI_CD with a valid PASID removes the entries of its stream and PASID and keeps the
///   stream's entries of other PASIDs;
/// - CMD_TLBI_EL3_ALL, CMD_TLBI_S_EL2_ALL and CMD_TLBI_SNH_ALL (and, while CR2.PTM is set,
///   CMD_TLBI_NH_ALL, CMD_TLBI_EL2_ALL and CMD_TLBI_NSNH_ALL) remove every entry;
/// - CMD_CFGI_STE and the prefetches remove nothing.
pub proof fn lemma_invalidation_commands(s: SmmuState, c: CommandEntry, m: Map<Slot, CacheEntry>)
    ensures
        c.cmd_type == CommandType::CfgiCdAll ==> command_scope(s, c) is Some && (forall|k: Slot| #[trigger]
            surviving(m, command_scope(s, c)->0).contains_key(k) ==> k.0 != c.stream_id) && (forall|k: Slot|
            m.contains_key(k) && k.0 != c.stream_id ==> #[trigger] surviving(m, command_scope(s, c)->0).contains_key(k)),
        c.cmd_type == CommandType::CfgiCd && c.pasid <= PASID_MAX ==> command_scope(s, c) is Some && (forall|k: Slot|
            #[trigger] surviving(m, command_scope(s, c)->0).contains_key(k) ==> !(k.0 == c.stream_id && k.1
            == c.pasid)) && (forall|k: Slot|
            m.contains_key(k) && k.0 == c.stream_id && k.1 != c.pasid ==> #[trigger] surviving(
                m,
                command_scope(s, c)->0,
            ).contains_key(k)),
        (c.cmd_type == CommandType::TlbiEl3All || c.cmd_type == CommandType::TlbiSEl2All || c.cmd_type
            == CommandType::TlbiSnhAll || (s.cr2 & CR2_PTM != 0 && (c.cmd_type == CommandType::TlbiNhAll
            || c.cmd_type == CommandType::TlbiEl2All || c.cmd_type == CommandType::TlbiNsnhAll))) ==> command_scope(
            s,
            c,
        ) is Some && surviving(m, command_scope(s, c)->0).dom() == Set::<Slot>::empty(),
        (c.cmd_type == CommandType::CfgiSte || c.cmd_type == CommandType::PrefetchConfig || c.cmd_type
            == CommandType::PrefetchAddr) ==> command_scope(s, c) is None,
{
    if c.cmd_type == CommandType::TlbiEl3All || c.cmd_type == CommandType::TlbiSEl2All || c.cmd_type
        == CommandType::TlbiSnhAll || (s.cr2 & CR2_PTM != 0 && (c.cmd_type == CommandType::TlbiNhAll
        || c.cmd_type == CommandType::TlbiEl2All || c.cmd_type == CommandType::TlbiNsnhAll)) {
        assert(surviving(m, command_scope(s, c)->0).dom() =~= Set::<Slot>::empty());
    }
}

/// What the other invalidation commands remove from a TLB holding `m`:
/// - CMD_TLBI_NH_ASID and CMD_TLBI_EL2_ASID (while CR2.PTM is set) and CMD_TLBI_S_EL2_ASID
///   remove exactly the entries tagged with the command's ASID; without CR2.PTM the first two
///   remove nothing;
/// - a global ATC invalidation with a valid PASID removes exactly the entries of its stream and
///   PASID; a ranged one removes exactly those whose key address lies in its range;
/// - CMD_CFGI_ALL with a range of 31 or more removes every entry; with a smaller range exactly
///   the entries whose StreamID agrees with the command's above bit `range`.
pub proof fn lemma_more_invalidation_commands(s: SmmuState, c: CommandEntry, m: Map<Slot, CacheEntry>)
    ensures
        ((s.cr2 & CR2_PTM != 0 && (c.cmd_type == CommandType::TlbiNhAsid || c.cmd_type == CommandType::TlbiEl2Asid))
            || c.cmd_type == CommandType::TlbiSEl2Asid) ==> command_scope(s, c) is Some && (forall|k: Slot|
            #[trigger] surviving(m, command_scope(s, c)->0).contains_key(k) <==> m.contains_key(k) && m[k].asid
            != c.asid),
        (s.cr2 & CR2_PTM == 0 && (c.cmd_type == CommandType::TlbiNhAsid || c.cmd_type == CommandType::TlbiEl2Asid
            || c.cmd_type == CommandType::TlbiNhAll || c.cmd_type == CommandType::TlbiNhVa || c.cmd_type
            == CommandType::TlbiNhVaa)) ==> command_scope(s, c) is None,
        (c.cmd_type == CommandType::AtcInv && c.pasid <= PASID_MAX && c.flags & 1 != 0) ==> command_scope(s, c) is Some
            && (forall|k: Slot| #[trigger]
            surviving(m, command_scope(s, c)->0).contains_key(k) <==> m.contains_key(k) && !(k.0 == c.stream_id
                && k.1 == c.pasid)),
        (c.cmd_type == CommandType::AtcInv && c.pasid <= PASID_MAX && c.flags & 1 == 0) ==> command_scope(s, c) is Some
            && (forall|k: Slot| #[trigger]
            surviving(m, command_scope(s, c)->0).contains_key(k) <==> m.contains_key(k) && !(k.0 == c.stream_id
                && k.1 == c.pasid && c.start_address <= k.2 && k.2 <= c.end_address)),
        (c.cmd_type == CommandType::CfgiAll && c.range >= 31) ==> command_scope(s, c) is Some && surviving(
            m,
            command_scope(s, c)->0,
        ).dom() == Set::<Slot>::empty(),
        (c.cmd_type == CommandType::CfgiAll && c.range < 31) ==> command_scope(s, c) is Some && (forall|k: Slot|
            #[trigger] surviving(m, command_scope(s, c)->0).contains_key(k) <==> m.contains_key(k) && (k.0 >> (c.range
            + 1) as u32) != (c.stream_id >> (c.range + 1) as u32)),
{
    if c.cmd_type == CommandType::CfgiAll && c.range >= 31 {
        assert(surviving(m, command_scope(s, c)->0).dom() =~= Set::<Slot>::empty());
    }
}

/// The stream table entry checks: translation with neither stage enabled is refused as a
/// reserved configuration; otherwise EL3 for a non-secure stream is refused; otherwise a
/// stage 2 table at or beyond 4 GiB with a 32-bit stage 2 output size is refused; a non-secure
/// stage-1-only entry passes them all.
pub proof fn lemma_stream_entry_checks(s: SmmuState, id: u32, config: StreamConfig)
    requires
        !s.shut_down,
    ensures
        config.translation_enabled && !config.stage1_enabled && !config.stage2_enabled ==> stream_configured(
            s,
            id,
            config,
        ).0 == Err::<(), SMMUError>(SMMUError::InvalidConfiguration(ConfigurationProblem::ReservedStreamConfig)),
        (config.stage1_enabled || config.stage2_enabled) && config.security_state == SecurityState::NonSecure
            && config.strw == StreamWorld::El3 ==> stream_configured(s, id, config).0 == Err::<(), SMMUError>(
            SMMUError::InvalidConfiguration(ConfigurationProblem::El3WorldForNonSecure),
        ),
        (config.stage1_enabled || config.stage2_enabled) && config.strw != StreamWorld::El3 && config.stage2_enabled
            && config.s2_ps == 0 && config.s2_ttb >= 0x1_0000_0000 ==> stream_configured(s, id, config).0 == Err::<
            (),
            SMMUError,
        >(SMMUError::InvalidConfiguration(ConfigurationProblem::Stage2TableBeyondOutputSize)),
        ste_problem(StreamConfig::stage1_only_spec()) is None,
        config.stage2_enabled && config.s2_ps == 0 && config.s2_ttb < 0x1_0000_0000 && config.strw != StreamWorld::El3
            ==> ste_problem(config) is None,
{
    assert((1u64 << 32u32) == 0x1_0000_0000u64) by (bit_vector);
}

} // verus!
