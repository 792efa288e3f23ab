//! Translation lookaside buffer: cached translations keyed by stream, PASID, IOVA and security
//! state, with LRU or FIFO replacement, statistics and the SMMU invalidation operations.

use crate::types::{PagePermissions, SecurityState, StreamID, IOVA, PA, PASID};
use dashmap::DashMap;
use smallvec::SmallVec;
use vstd::prelude::*;

verus! {

// ---------------------------------------------------------------------------------------------
// Cache entries and keys
// ---------------------------------------------------------------------------------------------

/// One cached translation with the tags that invalidation commands select on.
#[derive(Debug, Clone, Copy, PartialEq, Eq, Structural)]
pub struct CacheEntry {
    /// Input/output virtual address.
    pub iova: IOVA,
    /// Translated physical address.
    pub physical_address: PA,
    /// Permissions of the translation.
    pub permissions: PagePermissions,
    /// Security state of the translation.
    pub security_state: SecurityState,
    /// Recency stamp used by LRU replacement.
    pub timestamp: u64,
    /// Address space identifier (0 for stage-2-only or bypass entries).
    pub asid: u16,
    /// Virtual machine identifier (0 by default).
    pub vmid: u16,
    /// Intermediate physical address of a two-stage translation (0 for single-stage entries).
    pub ipa: u64,
}

impl CacheEntry {
    /// A non-secure entry with ASID, VMID and IPA all zero.
    pub fn new(iova: IOVA, physical_address: PA, permissions: PagePermissions, timestamp: u64) -> (r: CacheEntry)
        ensures
            r == (CacheEntry {
                iova,
                physical_address,
                permissions,
                security_state: SecurityState::NonSecure,
                timestamp,
                asid: 0,
                vmid: 0,
                ipa: 0,
            }),
    {
        CacheEntry {
            iova,
            physical_address,
            permissions,
            security_state: SecurityState::NonSecure,
            timestamp,
            asid: 0,
            vmid: 0,
            ipa: 0,
        }
    }

    /// An entry in the given security state with ASID, VMID and IPA all zero.
    pub fn new_with_security(
        iova: IOVA,
        physical_address: PA,
        permissions: PagePermissions,
        security_state: SecurityState,
        timestamp: u64,
    ) -> (r: CacheEntry)
        ensures
            r == (CacheEntry {
                iova,
                physical_address,
                permissions,
                security_state,
                timestamp,
                asid: 0,
                vmid: 0,
                ipa: 0,
            }),
    {
        CacheEntry { iova, physical_address, permissions, security_state, timestamp, asid: 0, vmid: 0, ipa: 0 }
    }

    /// A stage-1 entry tagged with an ASID (VMID and IPA zero).
    pub fn new_with_asid(
        iova: IOVA,
        physical_address: PA,
        permissions: PagePermissions,
        security_state: SecurityState,
        asid: u16,
        timestamp: u64,
    ) -> (r: CacheEntry)
        ensures
            r == (CacheEntry {
                iova,
                physical_address,
                permissions,
                security_state,
                timestamp,
                asid,
                vmid: 0,
                ipa: 0,
            }),
    {
        CacheEntry { iova, physical_address, permissions, security_state, timestamp, asid, vmid: 0, ipa: 0 }
    }

    /// An entry tagged with both an ASID and a VMID (IPA zero).
    pub fn new_with_tags(
        iova: IOVA,
        physical_address: PA,
        permissions: PagePermissions,
        security_state: SecurityState,
        asid: u16,
        vmid: u16,
        timestamp: u64,
    ) -> (r: CacheEntry)
        ensures
            r == (CacheEntry {
                iova,
                physical_address,
                permissions,
                security_state,
                timestamp,
                asid,
                vmid,
                ipa: 0,
            }),
    {
        CacheEntry { iova, physical_address, permissions, security_state, timestamp, asid, vmid, ipa: 0 }
    }
}

impl Default for CacheEntry {
    fn default() -> (r: CacheEntry)
        ensures
            r == (CacheEntry {
                iova: IOVA(0),
                physical_address: PA(0),
                permissions: PagePermissions { read: false, write: false, execute: false },
                security_state: SecurityState::NonSecure,
                timestamp: 0,
                asid: 0,
                vmid: 0,
                ipa: 0,
            }),
    {
        CacheEntry {
            iova: IOVA::const_new(0),
            physical_address: PA::const_new(0),
            permissions: PagePermissions::none(),
            security_state: SecurityState::NonSecure,
            timestamp: 0,
            asid: 0,
            vmid: 0,
            ipa: 0,
        }
    }
}

/// Key of a cached translation.
#[derive(Debug, Clone, Copy, PartialEq, Eq, Hash, Structural)]
pub struct CacheKey {
    /// Stream identifier.
    pub stream_id: StreamID,
    /// Process address space identifier.
    pub pasid: PASID,
    /// Input/output virtual address.
    pub iova: IOVA,
    /// Security state.
    pub security_state: SecurityState,
}

impl CacheKey {
    /// Builds a key from its four parts.
    pub fn new(stream_id: StreamID, pasid: PASID, iova: IOVA, security_state: SecurityState) -> (r: CacheKey)
        ensures
            r == (CacheKey { stream_id, pasid, iova, security_state }),
    {
        CacheKey { stream_id, pasid, iova, security_state }
    }
}

/// Number of a security state: non-secure 0, secure 1, realm 2.
pub open spec fn security_code(s: SecurityState) -> u8 {
    match s {
        SecurityState::NonSecure => 0,
        SecurityState::Secure => 1,
        SecurityState::Realm => 2,
    }
}

/// The number of a security state.
fn security_number(s: SecurityState) -> (r: u8)
    ensures
        r == security_code(s),
{
    match s {
        SecurityState::NonSecure => 0,
        SecurityState::Secure => 1,
        SecurityState::Realm => 2,
    }
}

/// The murmur-style finaliser: three xor-shift rounds separated by two multiplications.
pub open spec fn mix_finish(h: u64) -> u64 {
    let a = h ^ (h >> 33u64);
    let b = a.wrapping_mul(0xff51_afd7_ed55_8ccd);
    let c = b ^ (b >> 33u64);
    let d = c.wrapping_mul(0xc4ce_b9fe_1a85_ec53);
    d ^ (d >> 33u64)
}

/// Hash of a cache key given by its stream, PASID, address and security number: the stream,
/// the PASID and the page number (address without its 12 offset bits) are each multiplied by
/// their own odd constant, summed with the security number (modulo 2^64), xored with the FNV
/// offset basis and finalised.
pub open spec fn cache_key_hash_value(stream: u32, pasid: u32, iova: u64, security: u8) -> u64 {
    let s = (stream as u64).wrapping_mul(0x9e37_79b9_7f4a_7c15);
    let p = (pasid as u64).wrapping_mul(0x6c62_272e_07bb_0142);
    let g = (iova >> 12u64).wrapping_mul(0x517c_c1b7_2722_0a95);
    let sum = s.wrapping_add(p).wrapping_add((security as u64) & 3).wrapping_add(g);
    mix_finish(sum ^ 0xcbf2_9ce4_8422_2325)
}

/// Hash of a whole key.
pub open spec fn cache_key_hash_of(key: CacheKey) -> u64 {
    cache_key_hash_value(key.stream_id@, key.pasid@, key.iova@, security_code(key.security_state))
}

/// Hashing of `CacheKey` that ignores the page offset of the address.
#[derive(Debug)]
pub struct CacheKeyHash;

impl CacheKeyHash {
    /// The hash of `key`.
    pub fn hash(key: &CacheKey) -> (r: u64)
        ensures
            r == cache_key_hash_of(*key),
    {
        let stream = (key.stream_id.as_u32() as u64).wrapping_mul(0x9e37_79b9_7f4a_7c15);
        let pasid = (key.pasid.as_u32() as u64).wrapping_mul(0x6c62_272e_07bb_0142);
        let security = (security_number(key.security_state) as u64) & 3;
        let page = (key.iova.as_u64() >> 12u64).wrapping_mul(0x517c_c1b7_2722_0a95);
        let mut hash = stream.wrapping_add(pasid).wrapping_add(security).wrapping_add(page)
            ^ 0xcbf2_9ce4_8422_2325;
        hash = hash ^ (hash >> 33u64);
        hash = hash.wrapping_mul(0xff51_afd7_ed55_8ccd);
        hash = hash ^ (hash >> 33u64);
        hash = hash.wrapping_mul(0xc4ce_b9fe_1a85_ec53);
        hash = hash ^ (hash >> 33u64);
        hash
    }
}

/// Two addresses on the same page give every key the same hash: the hash ignores the page
/// offset.
pub proof fn lemma_cache_key_hash_ignores_page_offset(stream: u32, pasid: u32, a: u64, b: u64, security: u8)
    requires
        a / 4096 == b / 4096,
    ensures
        cache_key_hash_value(stream, pasid, a, security) == cache_key_hash_value(stream, pasid, b, security),
{
    assert(a >> 12u64 == a / 4096) by (bit_vector);
    assert(b >> 12u64 == b / 4096) by (bit_vector);
}

/// Key of the secondary index: a stream and a PASID.
#[derive(Debug, Clone, Copy, PartialEq, Eq, Hash, Structural)]
pub struct StreamPASIDKey {
    /// Stream identifier.
    pub stream_id: StreamID,
    /// Process address space identifier.
    pub pasid: PASID,
}

impl StreamPASIDKey {
    /// Builds a key from a stream and a PASID.
    pub fn new(stream_id: StreamID, pasid: PASID) -> (r: StreamPASIDKey)
        ensures
            r == (StreamPASIDKey { stream_id, pasid }),
    {
        StreamPASIDKey { stream_id, pasid }
    }
}

/// Hash of a stream/PASID pair: the stream in the high 32 bits, the PASID or-ed into the low
/// bits, plus `0xdead_beef` (modulo 2^64), then xor-shift, multiply, xor-shift.
pub open spec fn stream_pasid_hash_value(stream: u32, pasid: u32) -> u64 {
    let combined = ((stream as u64) << 32u64) | (pasid as u64);
    let a = combined.wrapping_add(0xdead_beef);
    let b = a ^ (a >> 33u64);
    let c = b.wrapping_mul(0xff51_afd7_ed55_8ccd);
    c ^ (c >> 33u64)
}

/// Hashing of `StreamPASIDKey`.
#[derive(Debug)]
pub struct StreamPASIDKeyHash;

impl StreamPASIDKeyHash {
    /// The hash of `key`.
    pub fn hash(key: &StreamPASIDKey) -> (r: u64)
        ensures
            r == stream_pasid_hash_value(key.stream_id@, key.pasid@),
    {
        let combined = ((key.stream_id.as_u32() as u64) << 32u64) | (key.pasid.as_u32() as u64);
        let mut hash = combined.wrapping_add(0xdead_beef);
        hash = hash ^ (hash >> 33u64);
        hash = hash.wrapping_mul(0xff51_afd7_ed55_8ccd);
        hash = hash ^ (hash >> 33u64);
        hash
    }
}

// ---------------------------------------------------------------------------------------------
// Replacement policy and statistics
// ---------------------------------------------------------------------------------------------

/// Which entry a full cache gives up for a new one.
#[derive(Debug, Clone, Copy, PartialEq, Eq, Structural)]
pub enum ReplacementPolicy {
    /// Evict the entry with the oldest recency stamp.
    Lru,
    /// Evict the entry inserted first (lookups do not refresh its stamp).
    Fifo,
}

impl Default for ReplacementPolicy {
    fn default() -> (r: ReplacementPolicy)
        ensures
            r == ReplacementPolicy::Lru,
    {
        ReplacementPolicy::Lru
    }
}

/// Counters of cache activity; every counter wraps around at 2^64.
#[derive(Debug, Clone, Copy, PartialEq, Eq, Structural)]
pub struct CacheStatistics {
    /// Lookups (hits plus misses).
    pub lookups: u64,
    /// Lookups that found an entry.
    pub hits: u64,
    /// Lookups that found nothing.
    pub misses: u64,
    /// Entries evicted to make room.
    pub evictions: u64,
    /// Insertions.
    pub insertions: u64,
    /// Entries removed by invalidation.
    pub invalidations: u64,
}

/// Statistics with every counter at zero.
pub open spec fn zero_statistics() -> CacheStatistics {
    CacheStatistics { lookups: 0, hits: 0, misses: 0, evictions: 0, insertions: 0, invalidations: 0 }
}

impl CacheStatistics {
    /// All counters at zero.
    pub fn new() -> (r: CacheStatistics)
        ensures
            r == zero_statistics(),
    {
        CacheStatistics { lookups: 0, hits: 0, misses: 0, evictions: 0, insertions: 0, invalidations: 0 }
    }

    /// Sets every counter back to zero.
    pub fn reset(&mut self)
        ensures
            *final(self) == zero_statistics(),
    {
        self.lookups = 0;
        self.hits = 0;
        self.misses = 0;
        self.evictions = 0;
        self.insertions = 0;
        self.invalidations = 0;
    }

    /// Number of lookups.
    pub fn get_lookups(&self) -> (r: u64)
        ensures
            r == self.lookups,
    {
        self.lookups
    }

    /// Number of hits.
    pub fn get_hits(&self) -> (r: u64)
        ensures
            r == self.hits,
    {
        self.hits
    }

    /// Number of misses.
    pub fn get_misses(&self) -> (r: u64)
        ensures
            r == self.misses,
    {
        self.misses
    }

    /// Number of evictions.
    pub fn get_evictions(&self) -> (r: u64)
        ensures
            r == self.evictions,
    {
        self.evictions
    }

    /// Number of insertions.
    pub fn get_insertions(&self) -> (r: u64)
        ensures
            r == self.insertions,
    {
        self.insertions
    }

    /// Number of invalidated entries.
    pub fn get_invalidations(&self) -> (r: u64)
        ensures
            r == self.invalidations,
    {
        self.invalidations
    }
}

impl Default for CacheStatistics {
    fn default() -> (r: CacheStatistics)
        ensures
            r == zero_statistics(),
    {
        CacheStatistics::new()
    }
}

// ---------------------------------------------------------------------------------------------
// Hashing for the table
// ---------------------------------------------------------------------------------------------

/// Builds `FxHasher`s for the translation table.
#[derive(Debug, Clone, Copy, Default)]
pub struct FxBuildHasher;

/// Fast non-cryptographic hasher: every word written is xored into the state, which is then
/// multiplied and xor-shifted.
#[derive(Debug, Default)]
pub struct FxHasher {
    hash: u64,
}

/// The state after one word is written into state `h`.
pub open spec fn fx_mix(h: u64, word: u64) -> u64 {
    let a = (h ^ word).wrapping_mul(0xff51_afd7_ed55_8ccd);
    a ^ (a >> 33u64)
}

/// The word that eight bytes spell, least significant byte first (`little`) or last.
pub open spec fn word_of(b: Seq<u8>, little: bool) -> u64 {
    if little {
        (b[0] as int + b[1] as int * 0x100 + b[2] as int * 0x1_0000 + b[3] as int * 0x100_0000
            + b[4] as int * 0x1_0000_0000 + b[5] as int * 0x100_0000_0000
            + b[6] as int * 0x1_0000_0000_0000 + b[7] as int * 0x100_0000_0000_0000) as u64
    } else {
        (b[7] as int + b[6] as int * 0x100 + b[5] as int * 0x1_0000 + b[4] as int * 0x100_0000
            + b[3] as int * 0x1_0000_0000 + b[2] as int * 0x100_0000_0000
            + b[1] as int * 0x1_0000_0000_0000 + b[0] as int * 0x100_0000_0000_0000) as u64
    }
}

/// Number of words a byte string is cut into: whole groups of eight, plus one for a shorter
/// tail.
pub open spec fn chunk_count(n: nat) -> nat {
    (n + 7) / 8
}

/// The `k`-th group of eight bytes, a short tail padded with zero bytes.
pub open spec fn chunk(bytes: Seq<u8>, k: int) -> Seq<u8> {
    Seq::new(8, |t: int| if 8 * k + t < bytes.len() { bytes[8 * k + t] } else { 0u8 })
}

/// The state after the first `n` words of `bytes` are written into state `h`, word `k` read in
/// the byte order `order[k]` (true: least significant byte first).
pub open spec fn fx_absorb(h: u64, bytes: Seq<u8>, order: Seq<bool>, n: nat) -> u64
    decreases n,
{
    if n == 0 {
        h
    } else {
        fx_mix(fx_absorb(h, bytes, order, (n - 1) as nat), word_of(chunk(bytes, n - 1), order[n - 1]))
    }
}

proof fn lemma_absorb_order_prefix(h: u64, bytes: Seq<u8>, order: Seq<bool>, b: bool, n: nat)
    requires
        n <= order.len(),
    ensures
        fx_absorb(h, bytes, order.push(b), n) == fx_absorb(h, bytes, order, n),
    decreases n,
{
    if n > 0 {
        lemma_absorb_order_prefix(h, bytes, order, b, (n - 1) as nat);
    }
}

/// Writing eight bytes writes exactly one word: the word those bytes spell in the byte order
/// used.
pub proof fn lemma_eight_bytes_one_word(h: u64, bytes: Seq<u8>, order: Seq<bool>)
    requires
        bytes.len() == 8,
        order.len() == 1,
    ensures
        chunk_count(bytes.len()) == 1,
        fx_absorb(h, bytes, order, chunk_count(bytes.len())) == fx_mix(h, word_of(bytes, order[0])),
{
    assert(chunk(bytes, 0) =~= bytes);
    assert(fx_absorb(h, bytes, order, 0) == h);
}

/// `u64::from_ne_bytes`: the word that the eight bytes spell in the machine's byte order. The
/// contract claims only that this is one of the two orders.
#[verifier::external_body]
fn word_from_ne_bytes(b: [u8; 8]) -> (r: u64)
    ensures
        r == word_of(b@, true) || r == word_of(b@, false),
{
    u64::from_ne_bytes(b)
}

/// Byte `i` of `bytes`, or zero past the end.
fn byte_or_zero(bytes: &[u8], i: usize) -> (r: u8)
    ensures
        r == (if i < bytes@.len() { bytes@[i as int] } else { 0u8 }),
{
    if i < bytes.len() {
        bytes[i]
    } else {
        0
    }
}

impl FxHasher {
    /// The current state.
    pub closed spec fn state(&self) -> u64 {
        self.hash
    }

    /// Writes one word.
    fn absorb_word(&mut self, i: u64)
        ensures
            final(self).state() == fx_mix(old(self).state(), i),
    {
        self.hash = self.hash ^ i;
        self.hash = self.hash.wrapping_mul(0xff51_afd7_ed55_8ccd);
        self.hash = self.hash ^ (self.hash >> 33u64);
    }

    /// Writes a byte string as native-endian words: each whole group of eight bytes, then the
    /// remaining bytes padded with zeros.
    fn absorb_bytes(&mut self, bytes: &[u8])
        ensures
            exists|order: Seq<bool>|
                order.len() == chunk_count(bytes@.len()) && final(self).state() == #[trigger] fx_absorb(
                    old(self).state(),
                    bytes@,
                    order,
                    chunk_count(bytes@.len()),
                ),
    {
        let ghost start = self.hash;
        let ghost mut order: Seq<bool> = Seq::empty();
        let n = bytes.len();
        let mut i: usize = 0;
        let mut k: usize = 0;
        while i < n
            invariant
                n == bytes@.len(),
                i < n ==> i == 8 * k && k < chunk_count(n as nat),
                i >= n ==> i == n && k == chunk_count(n as nat),
                order.len() == k,
                self.hash == fx_absorb(start, bytes@, order, k as nat),
            decreases n - i,
        {
            let w: [u8; 8] = [
                byte_or_zero(bytes, i),
                byte_or_zero(bytes, i + 1),
                byte_or_zero(bytes, i + 2),
                byte_or_zero(bytes, i + 3),
                byte_or_zero(bytes, i + 4),
                byte_or_zero(bytes, i + 5),
                byte_or_zero(bytes, i + 6),
                byte_or_zero(bytes, i + 7),
            ];
            assert(w@ =~= chunk(bytes@, k as int));
            let word = word_from_ne_bytes(w);
            let ghost little = word == word_of(w@, true);
            proof {
                lemma_absorb_order_prefix(start, bytes@, order, little, k as nat);
                order = order.push(little);
            }
            self.absorb_word(word);
            k = k + 1;
            if n - i <= 8 {
                i = n;
            } else {
                i = i + 8;
            }
        }
        assert(order.len() == chunk_count(bytes@.len()) && self.state() == fx_absorb(
            old(self).state(),
            bytes@,
            order,
            chunk_count(bytes@.len()),
        ));
    }
}

impl std::hash::Hasher for FxHasher {
    fn finish(&self) -> (r: u64)
        ensures
            r == self.state(),
    {
        self.hash
    }

    fn write(&mut self, bytes: &[u8])
        ensures
            exists|order: Seq<bool>|
                order.len() == chunk_count(bytes@.len()) && final(self).state() == #[trigger] fx_absorb(
                    old(self).state(),
                    bytes@,
                    order,
                    chunk_count(bytes@.len()),
                ),
    {
        self.absorb_bytes(bytes);
    }

    fn write_u64(&mut self, i: u64)
        ensures
            final(self).state() == fx_mix(old(self).state(), i),
    {
        self.absorb_word(i);
    }

    fn write_u32(&mut self, i: u32)
        ensures
            final(self).state() == fx_mix(old(self).state(), i as u64),
    {
        self.absorb_word(i as u64);
    }
}

impl std::hash::BuildHasher for FxBuildHasher {
    type Hasher = FxHasher;

    fn build_hasher(&self) -> (r: FxHasher)
        ensures
            r.state() == 0,
    {
        FxHasher { hash: 0 }
    }
}

// ---------------------------------------------------------------------------------------------
// The concurrent table behind the cache
// ---------------------------------------------------------------------------------------------

/// Slot of a key in the table: stream, PASID, address and security number.
pub type Slot = (u32, u32, u64, u8);

/// The slot of a key.
pub open spec fn slot_of(key: CacheKey) -> Slot {
    (key.stream_id@, key.pasid@, key.iova@, security_code(key.security_state))
}

/// The slot of a key.
fn slot(key: &CacheKey) -> (r: Slot)
    ensures
        r == slot_of(*key),
{
    (key.stream_id.as_u32(), key.pasid.as_u32(), key.iova.as_u64(), security_number(key.security_state))
}

#[verifier::external_type_specification]
#[verifier::external_body]
#[verifier::reject_recursive_types(K)]
#[verifier::reject_recursive_types(V)]
#[verifier::reject_recursive_types(S)]
pub struct ExDashMap<K, V, S>(DashMap<K, V, S>);

/// The table type: slots to entries, hashed with `FxHasher`.
pub type SlotTable = DashMap<Slot, CacheEntry, FxBuildHasher>;

/// A table that holds nothing.
pub open spec fn empty_table() -> Map<Slot, CacheEntry> {
    Map::empty()
}

/// What a translation table holds: slot to cached entry.
pub uninterp spec fn table_contents(table: SlotTable) -> Map<Slot, CacheEntry>;

/// Most entries a cache reserves room for when it is made. Reserving much more up front can make
/// the table's size arithmetic overflow (a panic), on 32-bit targets already from a few times
/// this value on.
pub const MAX_TLB_CAPACITY: usize = 0x100_0000;

/// `DashMap::with_capacity_and_hasher`: an empty table (with room for `capacity` entries). The
/// capacity is bounded so that rounding it up to the shard count and reserving it per shard
/// cannot overflow; an allocation failure still aborts the process.
#[verifier::external_body]
fn table_with_capacity(capacity: usize) -> (r: SlotTable)
    requires
        capacity <= MAX_TLB_CAPACITY,
    ensures
        table_contents(r) == empty_table(),
{
    DashMap::with_capacity_and_hasher(capacity, FxBuildHasher)
}

/// `DashMap::insert`: afterwards `key` holds `value`; the result is the value it held before,
/// if any.
#[verifier::external_body]
fn table_insert(table: &mut SlotTable, key: Slot, value: CacheEntry) -> (r: Option<CacheEntry>)
    ensures
        table_contents(*final(table)) == table_contents(*old(table)).insert(key, value),
        r == table_contents(*old(table)).get(key),
{
    table.insert(key, value)
}

/// `DashMap::remove`: afterwards `key` holds nothing; the result is the value it held before,
/// if any.
#[verifier::external_body]
fn table_remove(table: &mut SlotTable, key: &Slot) -> (r: Option<CacheEntry>)
    ensures
        table_contents(*final(table)) == table_contents(*old(table)).remove(*key),
        r == table_contents(*old(table)).get(*key),
{
    table.remove(key).map(|pair| pair.1)
}

/// `DashMap::get`: the value held by `key`, if any.
#[verifier::external_body]
fn table_get(table: &SlotTable, key: &Slot) -> (r: Option<CacheEntry>)
    ensures
        r == table_contents(*table).get(*key),
{
    table.get(key).map(|entry| *entry.value())
}

/// `DashMap::len`: the number of keys held.
#[verifier::external_body]
fn table_len(table: &SlotTable) -> (r: usize)
    ensures
        r == table_contents(*table).len(),
{
    table.len()
}

/// `DashMap::is_empty`: whether no key is held.
#[verifier::external_body]
fn table_is_empty(table: &SlotTable) -> (r: bool)
    ensures
        r == (table_contents(*table).len() == 0),
{
    table.is_empty()
}

/// `DashMap::clear`: afterwards no key is held.
#[verifier::external_body]
fn table_clear(table: &mut SlotTable)
    ensures
        table_contents(*final(table)) == empty_table(),
{
    table.clear()
}

/// `DashMap::iter`, each item taken as its key and a copy of its value: every held pair comes
/// out exactly once, in an order that depends on the hashes.
#[verifier::external_body]
fn table_pairs(table: &SlotTable) -> (r: Vec<(Slot, CacheEntry)>)
    ensures
        r@.len() == table_contents(*table).len(),
        forall|i: int| 0 <= i < r@.len() ==> #[trigger] table_contents(*table).get(r@[i].0) == Some(r@[i].1),
        forall|i: int, j: int| 0 <= i < j < r@.len() ==> #[trigger] r@[i].0 != #[trigger] r@[j].0,
        forall|k: Slot| #[trigger] table_contents(*table).contains_key(k) ==> exists|i: int| 0 <= i < r@.len() && r@[i].0 == k,
{
    table.iter().map(|entry| (*entry.key(), *entry.value())).collect()
}

/// Slots picked for removal, held in a `smallvec::SmallVec` that keeps its first 32 items
/// inline.
#[verifier::external_body]
pub struct SlotBatch {
    items: SmallVec<[Slot; 32]>,
}

/// The slots of a batch, in order.
pub uninterp spec fn slot_batch_items(b: SlotBatch) -> Seq<Slot>;

/// `SmallVec::new`: an empty batch.
#[verifier::external_body]
fn slot_batch_new() -> (r: SlotBatch)
    ensures
        slot_batch_items(r) == Seq::<Slot>::empty(),
{
    SlotBatch { items: SmallVec::new() }
}

/// `SmallVec::push`: appends `item` at the end.
#[verifier::external_body]
fn slot_batch_push(b: &mut SlotBatch, item: Slot)
    ensures
        slot_batch_items(*final(b)) == slot_batch_items(*old(b)).push(item),
{
    b.items.push(item);
}

/// `SmallVec::into_vec`: the same slots, in the same order, as a `Vec`.
#[verifier::external_body]
fn slot_batch_into_vec(b: SlotBatch) -> (r: Vec<Slot>)
    ensures
        r@ == slot_batch_items(b),
{
    b.items.into_vec()
}

// ---------------------------------------------------------------------------------------------
// Invalidation scopes
// ---------------------------------------------------------------------------------------------

/// Mask that keeps the page part of an address.
pub const PAGE_MASK: u64 = 0xFFFF_FFFF_FFFF_F000;

/// Which cached entries an invalidation command removes.
#[derive(Debug, Clone, Copy, PartialEq, Eq, Structural)]
pub enum InvalidationScope {
    /// Every entry.
    All,
    /// Entries of one stream.
    Stream(u32),
    /// Entries of one PASID.
    Pasid(u32),
    /// Entries of one stream and PASID.
    StreamPasid(u32, u32),
    /// Entries of one stream and PASID whose key address lies in `[start, end]`.
    VaRange(u32, u32, u64, u64),
    /// Entries tagged with an ASID.
    Asid(u16),
    /// Entries tagged with a VMID.
    Vmid(u16),
    /// Entries tagged with a VMID and an ASID.
    VmidAsid(u16, u16),
    /// Entries with an ASID whose address is on the page of a given address.
    VaAsid(u64, u16),
    /// Entries whose address is on the page of a given address.
    Va(u64),
    /// Entries with an ASID whose address lies in `[start, end]`.
    VaRangeAsid(u64, u64, u16),
    /// Entries whose VMID agrees with a VMID on the bits of a mask.
    VmidMasked(u16, u16),
    /// Two-stage entries (IPA not zero) whose VMID agrees with a VMID on the bits of a mask and
    /// whose IPA lies in `[start, end]`.
    VmidIpa(u16, u16, u64, u64),
    /// Entries of the streams whose StreamID, shifted right by a number of bits (below 32),
    /// equals a prefix.
    StreamPrefix(u32, u32),
}

/// Whether an invalidation of `scope` removes the entry `e` held at slot `k`.
pub open spec fn scope_selects(scope: InvalidationScope, k: Slot, e: CacheEntry) -> bool {
    match scope {
        InvalidationScope::All => true,
        InvalidationScope::Stream(stream) => k.0 == stream,
        InvalidationScope::Pasid(pasid) => k.1 == pasid,
        InvalidationScope::StreamPasid(stream, pasid) => k.0 == stream && k.1 == pasid,
        InvalidationScope::VaRange(stream, pasid, start, end) => k.0 == stream && k.1 == pasid && start <= k.2
            && k.2 <= end,
        InvalidationScope::Asid(asid) => e.asid == asid,
        InvalidationScope::Vmid(vmid) => e.vmid == vmid,
        InvalidationScope::VmidAsid(vmid, asid) => e.vmid == vmid && e.asid == asid,
        InvalidationScope::VaAsid(va, asid) => e.asid == asid && (e.iova@ & PAGE_MASK) == (va & PAGE_MASK),
        InvalidationScope::Va(va) => (e.iova@ & PAGE_MASK) == (va & PAGE_MASK),
        InvalidationScope::VaRangeAsid(start, end, asid) => e.asid == asid && start <= e.iova@ && e.iova@ <= end,
        InvalidationScope::VmidMasked(vmid, mask) => (e.vmid & mask) == (vmid & mask),
        InvalidationScope::VmidIpa(vmid, mask, start, end) => e.ipa != 0 && (e.vmid & mask) == (vmid & mask)
            && start <= e.ipa && e.ipa <= end,
        InvalidationScope::StreamPrefix(prefix, shift) => shift < 32 && (k.0 >> shift) == prefix,
    }
}

/// Whether an invalidation of `scope` removes the entry `e` held at slot `k`.
fn selects(scope: InvalidationScope, k: &Slot, e: &CacheEntry) -> (r: bool)
    ensures
        r == scope_selects(scope, *k, *e),
{
    match scope {
        InvalidationScope::All => true,
        InvalidationScope::Stream(stream) => k.0 == stream,
        InvalidationScope::Pasid(pasid) => k.1 == pasid,
        InvalidationScope::StreamPasid(stream, pasid) => k.0 == stream && k.1 == pasid,
        InvalidationScope::VaRange(stream, pasid, start, end) => k.0 == stream && k.1 == pasid && start <= k.2
            && k.2 <= end,
        InvalidationScope::Asid(asid) => e.asid == asid,
        InvalidationScope::Vmid(vmid) => e.vmid == vmid,
        InvalidationScope::VmidAsid(vmid, asid) => e.vmid == vmid && e.asid == asid,
        InvalidationScope::VaAsid(va, asid) => e.asid == asid && (e.iova.as_u64() & PAGE_MASK) == (va & PAGE_MASK),
        InvalidationScope::Va(va) => (e.iova.as_u64() & PAGE_MASK) == (va & PAGE_MASK),
        InvalidationScope::VaRangeAsid(start, end, asid) => e.asid == asid && start <= e.iova.as_u64()
            && e.iova.as_u64() <= end,
        InvalidationScope::VmidMasked(vmid, mask) => (e.vmid & mask) == (vmid & mask),
        InvalidationScope::VmidIpa(vmid, mask, start, end) => e.ipa != 0 && (e.vmid & mask) == (vmid & mask)
            && start <= e.ipa && e.ipa <= end,
        InvalidationScope::StreamPrefix(prefix, shift) => shift < 32 && (k.0 >> shift) == prefix,
    }
}

// ---------------------------------------------------------------------------------------------
// The cache
// ---------------------------------------------------------------------------------------------

/// The entry with its recency stamp replaced.
pub open spec fn stamped(e: CacheEntry, t: u64) -> CacheEntry {
    CacheEntry { timestamp: t, ..e }
}

/// Statistics after one lookup that hit (`hit`) or missed.
pub open spec fn counted_lookup(s: CacheStatistics, hit: bool) -> CacheStatistics {
    CacheStatistics {
        lookups: s.lookups.wrapping_add(1),
        hits: if hit { s.hits.wrapping_add(1) } else { s.hits },
        misses: if hit { s.misses } else { s.misses.wrapping_add(1) },
        ..s
    }
}

/// Statistics after one insertion that did (`evicted`) or did not evict an entry.
pub open spec fn counted_insertion(s: CacheStatistics, evicted: bool) -> CacheStatistics {
    CacheStatistics {
        insertions: s.insertions.wrapping_add(1),
        evictions: if evicted { s.evictions.wrapping_add(1) } else { s.evictions },
        ..s
    }
}

/// Statistics after `n` entries were invalidated.
pub open spec fn counted_invalidations(s: CacheStatistics, n: nat) -> CacheStatistics {
    CacheStatistics { invalidations: s.invalidations.wrapping_add(n as u64), ..s }
}

/// The table without the entries that an invalidation of `scope` removes.
pub open spec fn surviving(m: Map<Slot, CacheEntry>, scope: InvalidationScope) -> Map<Slot, CacheEntry> {
    m.filter_keys(|k: Slot| !scope_selects(scope, k, m[k]))
}

/// Translation lookaside buffer of bounded capacity.
#[derive(Debug)]
pub struct TlbCache {
    entries: SlotTable,
    capacity: usize,
    policy: ReplacementPolicy,
    timestamp: u64,
    statistics: CacheStatistics,
    clock_wrapped: bool,
}

impl View for TlbCache {
    type V = Map<Slot, CacheEntry>;

    /// The cached entries, by slot.
    closed spec fn view(&self) -> Map<Slot, CacheEntry> {
        table_contents(self.entries)
    }
}

impl TlbCache {
    /// The table is finite and the capacity positive.
    pub open spec fn table_ok(&self) -> bool {
        &&& self@.dom().finite()
        &&& 0 < self.spec_capacity()
    }

    /// A finite table holding at most `capacity` (a positive number) entries.
    pub open spec fn bounded(&self) -> bool {
        &&& self.table_ok()
        &&& self@.len() <= self.spec_capacity()
    }

    /// Well-formedness: the table is bounded, and until the clock has once run past its
    /// largest value every cached stamp is older than the clock.
    pub open spec fn wf(&self) -> bool {
        &&& self.bounded()
        &&& (self.clock_has_wrapped() || stamps_behind_clock(*self))
    }

    /// Whether the clock has ever advanced past its largest value.
    pub closed spec fn clock_has_wrapped(&self) -> bool {
        self.clock_wrapped
    }

    /// The capacity the cache was made with.
    pub closed spec fn spec_capacity(&self) -> usize {
        self.capacity
    }

    /// The replacement policy the cache was made with.
    pub closed spec fn spec_policy(&self) -> ReplacementPolicy {
        self.policy
    }

    /// The next recency stamp to hand out.
    pub closed spec fn clock(&self) -> u64 {
        self.timestamp
    }

    /// The current statistics.
    pub closed spec fn stats(&self) -> CacheStatistics {
        self.statistics
    }

    /// Whether `after` is this cache with the entries of `scope` invalidated and counted.
    pub open spec fn invalidated_into(&self, scope: InvalidationScope, after: &TlbCache) -> bool {
        &&& after.wf()
        &&& after@ == surviving(self@, scope)
        &&& after.stats() == counted_invalidations(self.stats(), (self@.len() - after@.len()) as nat)
        &&& after.clock() == self.clock()
        &&& after.clock_has_wrapped() == self.clock_has_wrapped()
        &&& after.spec_capacity() == self.spec_capacity()
        &&& after.spec_policy() == self.spec_policy()
    }

    /// Whether `after` and the result `r` are what a lookup of `key` in this cache gives: a hit
    /// returns the entry (under LRU stamped with the clock, which then advances, and stored
    /// so), a miss returns nothing; either way the lookup is counted.
    pub open spec fn looked_up_into(&self, key: CacheKey, r: Option<CacheEntry>, after: &TlbCache) -> bool {
        let s = slot_of(key);
        let hit = self@.contains_key(s);
        let refresh = hit && self.spec_policy() == ReplacementPolicy::Lru;
        &&& after.wf()
        &&& r == (if !hit {
            None
        } else if refresh {
            Some(stamped(self@[s], self.clock()))
        } else {
            Some(self@[s])
        })
        &&& after@ == (if refresh {
            self@.insert(s, stamped(self@[s], self.clock()))
        } else {
            self@
        })
        &&& after.clock() == (if refresh {
            self.clock().wrapping_add(1)
        } else {
            self.clock()
        })
        &&& after.clock_has_wrapped() == (self.clock_has_wrapped() || (refresh && self.clock() == u64::MAX))
        &&& after.stats() == counted_lookup(self.stats(), hit)
        &&& after.spec_capacity() == self.spec_capacity()
        &&& after.spec_policy() == self.spec_policy()
    }

    /// Whether `after` is what inserting `entry` under `key` into this cache gives: the entry,
    /// stamped with the clock (which advances), is stored; if that leaves more than `capacity`
    /// entries, one entry of the grown table with the smallest stamp is evicted (under LRU the
    /// least recently used, under FIFO the earliest inserted); the insertion (and an eviction)
    /// is counted.
    pub open spec fn inserted_into(&self, key: CacheKey, entry: CacheEntry, after: &TlbCache) -> bool {
        let grown = self@.insert(slot_of(key), stamped(entry, self.clock()));
        &&& after.wf()
        &&& after.clock() == self.clock().wrapping_add(1)
        &&& after.clock_has_wrapped() == (self.clock_has_wrapped() || self.clock() == u64::MAX)
        &&& if grown.len() <= self.spec_capacity() {
            &&& after@ == grown
            &&& after.stats() == counted_insertion(self.stats(), false)
        } else {
            &&& exists|victim: Slot|
                #![trigger grown.remove(victim)]
                grown.contains_key(victim) && after@ == grown.remove(victim) && forall|k: Slot|
                    #[trigger] grown.contains_key(k) ==> grown[victim].timestamp <= grown[k].timestamp
            &&& after.stats() == counted_insertion(self.stats(), true)
        }
        &&& after.spec_capacity() == self.spec_capacity()
        &&& after.spec_policy() == self.spec_policy()
    }

    /// An empty cache of the given (positive) capacity and policy. Room for at most
    /// `MAX_TLB_CAPACITY` entries is reserved up front; a larger table grows as it fills.
    pub fn new(capacity: usize, policy: ReplacementPolicy) -> (r: TlbCache)
        requires
            0 < capacity,
        ensures
            r.wf(),
            r@ == empty_table(),
            r.spec_capacity() == capacity,
            r.spec_policy() == policy,
            r.clock() == 0,
            !r.clock_has_wrapped(),
            r.stats() == zero_statistics(),
    {
        TlbCache {
            entries: table_with_capacity(
                if capacity <= MAX_TLB_CAPACITY {
                    capacity
                } else {
                    MAX_TLB_CAPACITY
                },
            ),
            capacity,
            policy,
            timestamp: 0,
            statistics: CacheStatistics::new(),
            clock_wrapped: false,
        }
    }

    /// Number of cached entries.
    pub fn len(&self) -> (r: usize)
        ensures
            r == self@.len(),
    {
        table_len(&self.entries)
    }

    /// Whether nothing is cached.
    pub fn is_empty(&self) -> (r: bool)
        ensures
            r == (self@.len() == 0),
    {
        table_is_empty(&self.entries)
    }

    /// The capacity.
    pub fn capacity(&self) -> (r: usize)
        ensures
            r == self.spec_capacity(),
    {
        self.capacity
    }

    /// The replacement policy.
    pub fn policy(&self) -> (r: ReplacementPolicy)
        ensures
            r == self.spec_policy(),
    {
        self.policy
    }

    /// The statistics.
    pub fn statistics(&self) -> (r: &CacheStatistics)
        ensures
            *r == self.stats(),
    {
        &self.statistics
    }

    /// Looks `key` up and counts the lookup. Under LRU a hit also stamps the entry with the
    /// clock, which then advances; under FIFO nothing but the statistics changes.
    pub fn lookup(&mut self, key: &CacheKey) -> (r: Option<CacheEntry>)
        requires
            old(self).wf(),
        ensures
            old(self).looked_up_into(*key, r, final(self)),
    {
        self.statistics.lookups = self.statistics.lookups.wrapping_add(1);
        let s = slot(key);
        match table_get(&self.entries, &s) {
            Some(found) => {
                self.statistics.hits = self.statistics.hits.wrapping_add(1);
                match self.policy {
                    ReplacementPolicy::Lru => {
                        let ts = self.timestamp;
                        self.timestamp = ts.wrapping_add(1);
                        self.clock_wrapped = self.clock_wrapped || ts == u64::MAX;
                        let refreshed = CacheEntry { timestamp: ts, ..found };
                        table_insert(&mut self.entries, s, refreshed);
                        assert(self@.dom() =~= old(self)@.dom());
                        assert(self.clock_has_wrapped() || stamps_behind_clock(*self));
                        Some(refreshed)
                    },
                    ReplacementPolicy::Fifo => Some(found),
                }
            },
            None => {
                self.statistics.misses = self.statistics.misses.wrapping_add(1);
                None
            },
        }
    }

    /// Removes one entry with the smallest stamp (the first such in table order): under LRU the
    /// least recently used, under FIFO the earliest inserted. Counts the eviction.
    fn evict_one(&mut self)
        requires
            old(self).table_ok(),
            old(self)@.len() > 0,
        ensures
            final(self).table_ok(),
            exists|victim: Slot|
                #![trigger old(self)@.remove(victim)]
                old(self)@.contains_key(victim) && final(self)@ == old(self)@.remove(victim) && forall|k: Slot|
                    #[trigger] old(self)@.contains_key(k) ==> old(self)@[victim].timestamp
                        <= old(self)@[k].timestamp,
            final(self)@.len() == old(self)@.len() - 1,
            final(self).stats() == (CacheStatistics {
                evictions: old(self).stats().evictions.wrapping_add(1),
                ..old(self).stats()
            }),
            final(self).clock() == old(self).clock(),
            final(self).clock_has_wrapped() == old(self).clock_has_wrapped(),
            final(self).spec_capacity() == old(self).spec_capacity(),
            final(self).spec_policy() == old(self).spec_policy(),
    {
        let pairs = table_pairs(&self.entries);
        let ghost m = self@;
        let mut best: usize = 0;
        let mut i: usize = 1;
        while i < pairs.len()
            invariant
                0 < pairs@.len(),
                best < i <= pairs@.len(),
                forall|j: int| 0 <= j < i ==> pairs@[best as int].1.timestamp <= #[trigger] pairs@[j].1.timestamp,
            decreases pairs@.len() - i,
        {
            if pairs[i].1.timestamp < pairs[best].1.timestamp {
                best = i;
            }
            i = i + 1;
        }
        let victim = pairs[best].0;
        assert(m.get(pairs@[best as int].0) == Some(pairs@[best as int].1));
        proof {
            assert forall|k: Slot| #[trigger] m.contains_key(k) implies m[victim].timestamp
                <= m[k].timestamp by {
                let j = choose|j: int| 0 <= j < pairs@.len() && pairs@[j].0 == k;
                assert(m.get(pairs@[j].0) == Some(pairs@[j].1));
            }
            m.lemma_remove_key_len(victim);
        }
        table_remove(&mut self.entries, &victim);
        self.statistics.evictions = self.statistics.evictions.wrapping_add(1);
        assert(self@ == m.remove(victim));
    }

    /// Caches `entry` under `key`, stamped with the clock (which advances), and counts the
    /// insertion. When the table then holds more than `capacity` entries, one is evicted as
    /// `evict_one` describes.
    pub fn insert(&mut self, key: CacheKey, entry: CacheEntry)
        requires
            old(self).wf(),
        ensures
            old(self).inserted_into(key, entry, final(self)),
    {
        let ts = self.timestamp;
        self.timestamp = ts.wrapping_add(1);
        self.clock_wrapped = self.clock_wrapped || ts == u64::MAX;
        let fresh = CacheEntry { timestamp: ts, ..entry };
        table_insert(&mut self.entries, slot(&key), fresh);
        assert(self.clock_has_wrapped() || stamps_behind_clock(*self));
        let ghost grown = self@;
        let ghost start_stats = self.statistics;
        proof {
            if old(self)@.contains_key(slot_of(key)) {
                assert(grown.dom() =~= old(self)@.dom());
            } else {
                assert(grown.dom() =~= old(self)@.dom().insert(slot_of(key)));
            }
        }
        assert(grown.len() <= self.capacity + 1);
        if table_len(&self.entries) > self.capacity {
            self.evict_one();
            assert(self.clock_has_wrapped() || stamps_behind_clock(*self)) by {
                if !self.clock_has_wrapped() {
                    assert forall|k: Slot| #[trigger] self@.contains_key(k) implies self@[k].timestamp
                        < self.clock() by {
                        assert(grown.contains_key(k));
                    }
                }
            }
        }
        self.statistics.insertions = self.statistics.insertions.wrapping_add(1);
    }

    /// Removes every entry that an invalidation of `scope` selects: the selected slots are
    /// first collected from one pass over the table, then removed one by one and counted.
    fn invalidate_matching(&mut self, scope: InvalidationScope)
        requires
            old(self).wf(),
        ensures
            old(self).invalidated_into(scope, final(self)),
    {
        let ghost m = self@;
        let pairs = table_pairs(&self.entries);
        let mut batch = slot_batch_new();
        let mut i: usize = 0;
        while i < pairs.len()
            invariant
                i <= pairs@.len(),
                forall|j: int| 0 <= j < pairs@.len() ==> #[trigger] m.get(pairs@[j].0) == Some(pairs@[j].1),
                forall|j: int, l: int| 0 <= j < l < pairs@.len() ==> #[trigger] pairs@[j].0 != #[trigger] pairs@[l].0,
                forall|a: int|
                    0 <= a < slot_batch_items(batch).len() ==> m.contains_key(#[trigger] slot_batch_items(batch)[a])
                        && scope_selects(scope, slot_batch_items(batch)[a], m[slot_batch_items(batch)[a]]),
                forall|a: int, b: int|
                    0 <= a < b < slot_batch_items(batch).len() ==> #[trigger] slot_batch_items(batch)[a]
                        != #[trigger] slot_batch_items(batch)[b],
                forall|a: int, j: int|
                    0 <= a < slot_batch_items(batch).len() && i <= j < pairs@.len() ==> #[trigger] slot_batch_items(
                        batch,
                    )[a] != #[trigger] pairs@[j].0,
                forall|j: int|
                    0 <= j < i && #[trigger] scope_selects(scope, pairs@[j].0, pairs@[j].1)
                        ==> slot_batch_items(batch).contains(pairs@[j].0),
            decreases pairs@.len() - i,
        {
            let (k, e) = pairs[i];
            let ghost before = slot_batch_items(batch);
            if selects(scope, &k, &e) {
                slot_batch_push(&mut batch, k);
            }
            let ghost after = slot_batch_items(batch);
            assert(m.get(pairs@[i as int].0) == Some(pairs@[i as int].1));
            assert forall|j: int|
                0 <= j < i + 1 && #[trigger] scope_selects(scope, pairs@[j].0, pairs@[j].1) implies after.contains(
                pairs@[j].0,
            ) by {
                if j < i {
                    let a = choose|a: int| 0 <= a < before.len() && before[a] == pairs@[j].0;
                    assert(after[a] == before[a]);
                } else {
                    assert(after[after.len() - 1] == k);
                }
            }
            i = i + 1;
        }
        let doomed = slot_batch_into_vec(batch);
        let ghost chosen = Set::new(|k: Slot| m.contains_key(k) && scope_selects(scope, k, m[k]));
        assert forall|k: Slot| #[trigger] chosen.contains(k) implies doomed@.contains(k) by {
            let j = choose|j: int| 0 <= j < pairs@.len() && pairs@[j].0 == k;
            assert(m.get(pairs@[j].0) == Some(pairs@[j].1));
        }
        let mut removed: u64 = 0;
        let mut j: usize = 0;
        while j < doomed.len()
            invariant
                self.table_ok(),
                j <= doomed@.len(),
                removed == j,
                forall|a: int| 0 <= a < doomed@.len() ==> #[trigger] chosen.contains(doomed@[a]),
                forall|a: int, b: int| 0 <= a < b < doomed@.len() ==> #[trigger] doomed@[a] != #[trigger] doomed@[b],
                forall|k: Slot| #[trigger] self@.contains_key(k) <==> m.contains_key(k) && !doomed@.take(j as int).contains(k),
                forall|k: Slot| #[trigger] self@.contains_key(k) ==> self@[k] == m[k],
                self@.len() == m.len() - j,
                self.statistics == old(self).statistics,
                self.timestamp == old(self).timestamp,
                self.clock_wrapped == old(self).clock_wrapped,
                self.capacity == old(self).capacity,
                self.policy == old(self).policy,
                m == old(self)@,
                m.dom().finite(),
                chosen.subset_of(m.dom()),
            decreases doomed@.len() - j,
        {
            let k = doomed[j];
            let ghost before = self@;
            assert(!doomed@.take(j as int).contains(k));
            proof {
                before.lemma_remove_key_len(k);
            }
            table_remove(&mut self.entries, &k);
            assert forall|x: Slot| #[trigger] self@.contains_key(x) <==> m.contains_key(x) && !doomed@.take(
                j + 1,
            ).contains(x) by {
                let shorter = doomed@.take(j as int);
                let longer = doomed@.take(j + 1);
                if shorter.contains(x) {
                    let a = choose|a: int| 0 <= a < shorter.len() && shorter[a] == x;
                    assert(longer[a] == x);
                }
                if x == k {
                    assert(longer[j as int] == x);
                }
                if longer.contains(x) {
                    let a = choose|a: int| 0 <= a < longer.len() && longer[a] == x;
                    if a < j {
                        assert(shorter[a] == x);
                    }
                }
            }
            removed = removed + 1;
            j = j + 1;
        }
        assert(doomed@.take(doomed@.len() as int) =~= doomed@);
        assert forall|k: Slot| #[trigger] doomed@.contains(k) implies chosen.contains(k) by {
            let a = choose|a: int| 0 <= a < doomed@.len() && doomed@[a] == k;
            assert(chosen.contains(doomed@[a]));
        }
        assert forall|k: Slot| #[trigger] self@.contains_key(k) <==> surviving(m, scope).contains_key(k) by {
            if m.contains_key(k) && scope_selects(scope, k, m[k]) {
                assert(chosen.contains(k));
            }
            if doomed@.contains(k) {
                assert(chosen.contains(k));
            }
        }
        assert(self@.dom() =~= surviving(m, scope).dom());
        assert(self@ =~= surviving(m, scope));
        self.statistics.invalidations = self.statistics.invalidations.wrapping_add(removed);
        assert(self.clock_has_wrapped() || stamps_behind_clock(*self)) by {
            if !self.clock_has_wrapped() {
                assert forall|k: Slot| #[trigger] self@.contains_key(k) implies self@[k].timestamp < self.clock() by {
                    assert(m.contains_key(k));
                }
            }
        }
    }

    /// Removes every entry that an invalidation of `scope` selects and counts them.
    pub fn invalidate_scope(&mut self, scope: InvalidationScope)
        requires
            old(self).wf(),
        ensures
            old(self).invalidated_into(scope, final(self)),
    {
        self.invalidate_matching(scope);
    }

    /// Removes every entry and counts them.
    pub fn invalidate_all(&mut self)
        requires
            old(self).wf(),
        ensures
            old(self).invalidated_into(InvalidationScope::All, final(self)),
    {
        let count = table_len(&self.entries);
        table_clear(&mut self.entries);
        self.statistics.invalidations = self.statistics.invalidations.wrapping_add(count as u64);
        assert(surviving(old(self)@, InvalidationScope::All) =~= empty_table());
    }

    /// Removes every entry of one stream, whatever its PASID.
    pub fn invalidate_by_stream(&mut self, stream_id: StreamID)
        requires
            old(self).wf(),
        ensures
            old(self).invalidated_into(InvalidationScope::Stream(stream_id@), final(self)),
    {
        self.invalidate_matching(InvalidationScope::Stream(stream_id.as_u32()));
    }

    /// Removes every entry of one PASID, whatever its stream.
    pub fn invalidate_by_pasid(&mut self, pasid: PASID)
        requires
            old(self).wf(),
        ensures
            old(self).invalidated_into(InvalidationScope::Pasid(pasid@), final(self)),
    {
        self.invalidate_matching(InvalidationScope::Pasid(pasid.as_u32()));
    }

    /// Removes every entry of one stream and PASID.
    pub fn invalidate_by_stream_pasid(&mut self, stream_id: StreamID, pasid: PASID)
        requires
            old(self).wf(),
        ensures
            old(self).invalidated_into(InvalidationScope::StreamPasid(stream_id@, pasid@), final(self)),
    {
        self.invalidate_matching(InvalidationScope::StreamPasid(stream_id.as_u32(), pasid.as_u32()));
    }

    /// Removes the entries of one stream and PASID whose key address lies in `[start, end]`.
    pub fn invalidate_by_va_range(&mut self, stream_id: StreamID, pasid: PASID, start: IOVA, end: IOVA)
        requires
            old(self).wf(),
        ensures
            old(self).invalidated_into(InvalidationScope::VaRange(stream_id@, pasid@, start@, end@), final(self)),
    {
        self.invalidate_matching(InvalidationScope::VaRange(stream_id.as_u32(), pasid.as_u32(), start.as_u64(), end.as_u64()));
    }

    /// Removes every entry tagged with the ASID.
    pub fn invalidate_by_asid(&mut self, target_asid: u16)
        requires
            old(self).wf(),
        ensures
            old(self).invalidated_into(InvalidationScope::Asid(target_asid), final(self)),
    {
        self.invalidate_matching(InvalidationScope::Asid(target_asid));
    }

    /// Removes every entry tagged with the VMID.
    pub fn invalidate_by_vmid(&mut self, target_vmid: u16)
        requires
            old(self).wf(),
        ensures
            old(self).invalidated_into(InvalidationScope::Vmid(target_vmid), final(self)),
    {
        self.invalidate_matching(InvalidationScope::Vmid(target_vmid));
    }

    /// Removes every entry tagged with both the VMID and the ASID.
    pub fn invalidate_by_vmid_and_asid(&mut self, target_vmid: u16, target_asid: u16)
        requires
            old(self).wf(),
        ensures
            old(self).invalidated_into(InvalidationScope::VmidAsid(target_vmid, target_asid), final(self)),
    {
        self.invalidate_matching(InvalidationScope::VmidAsid(target_vmid, target_asid));
    }

    /// Removes the entries tagged with the ASID whose address is on the page of `va`.
    pub fn invalidate_by_va_and_asid(&mut self, va: u64, target_asid: u16)
        requires
            old(self).wf(),
        ensures
            old(self).invalidated_into(InvalidationScope::VaAsid(va, target_asid), final(self)),
    {
        self.invalidate_matching(InvalidationScope::VaAsid(va, target_asid));
    }

    /// Removes the entries whose address is on the page of `va`, whatever their ASID.
    pub fn invalidate_by_va(&mut self, va: u64)
        requires
            old(self).wf(),
        ensures
            old(self).invalidated_into(InvalidationScope::Va(va), final(self)),
    {
        self.invalidate_matching(InvalidationScope::Va(va));
    }

    /// Removes the entries tagged with the ASID whose address lies in `[start, end]`.
    pub fn invalidate_by_va_range_and_asid(&mut self, start: u64, end: u64, target_asid: u16)
        requires
            old(self).wf(),
        ensures
            old(self).invalidated_into(InvalidationScope::VaRangeAsid(start, end, target_asid), final(self)),
    {
        self.invalidate_matching(InvalidationScope::VaRangeAsid(start, end, target_asid));
    }

    /// Removes the entries whose VMID agrees with `target_vmid` on the bits of `vmid_mask`
    /// (a mask of 0 selects every entry, 0xFFFF exactly one VMID).
    pub fn invalidate_by_vmid_with_mask(&mut self, target_vmid: u16, vmid_mask: u16)
        requires
            old(self).wf(),
        ensures
            old(self).invalidated_into(InvalidationScope::VmidMasked(target_vmid, vmid_mask), final(self)),
    {
        self.invalidate_matching(InvalidationScope::VmidMasked(target_vmid, vmid_mask));
    }

    /// Removes the two-stage entries (IPA not zero) whose VMID agrees with `target_vmid` on the
    /// bits of `vmid_mask` and whose IPA lies in `[ipa_start, ipa_end]`.
    pub fn invalidate_by_vmid_and_ipa(&mut self, target_vmid: u16, vmid_mask: u16, ipa_start: u64, ipa_end: u64)
        requires
            old(self).wf(),
        ensures
            old(self).invalidated_into(InvalidationScope::VmidIpa(target_vmid, vmid_mask, ipa_start, ipa_end), final(self)),
    {
        self.invalidate_matching(InvalidationScope::VmidIpa(target_vmid, vmid_mask, ipa_start, ipa_end));
    }

    /// Removes the entry of `key`, if any; the result says whether there was one, and only a
    /// removal is counted.
    pub fn invalidate_entry(&mut self, key: &CacheKey) -> (r: bool)
        requires
            old(self).wf(),
        ensures
            final(self).wf(),
            r == old(self)@.contains_key(slot_of(*key)),
            final(self)@ == old(self)@.remove(slot_of(*key)),
            final(self).stats() == counted_invalidations(old(self).stats(), if r { 1 } else { 0 }),
            final(self).clock() == old(self).clock(),
            final(self).clock_has_wrapped() == old(self).clock_has_wrapped(),
            final(self).spec_capacity() == old(self).spec_capacity(),
            final(self).spec_policy() == old(self).spec_policy(),
    {
        let s = slot(key);
        proof {
            if old(self)@.contains_key(s) {
                old(self)@.lemma_remove_key_len(s);
            } else {
                assert(old(self)@.remove(s) =~= old(self)@);
            }
        }
        let removed = table_remove(&mut self.entries, &s);
        assert(self.clock_has_wrapped() || stamps_behind_clock(*self)) by {
            if !self.clock_has_wrapped() {
                assert forall|k: Slot| #[trigger] self@.contains_key(k) implies self@[k].timestamp < self.clock() by {
                    assert(old(self)@.contains_key(k));
                }
            }
        }
        match removed {
            Some(_) => {
                self.statistics.invalidations = self.statistics.invalidations.wrapping_add(1);
                true
            },
            None => false,
        }
    }

    /// Sets every statistics counter back to zero; the entries stay.
    pub fn clear_statistics(&mut self)
        requires
            old(self).wf(),
        ensures
            final(self).wf(),
            final(self)@ == old(self)@,
            final(self).stats() == zero_statistics(),
            final(self).clock() == old(self).clock(),
            final(self).spec_capacity() == old(self).spec_capacity(),
            final(self).spec_policy() == old(self).spec_policy(),
    {
        self.statistics.reset();
    }
}

// ---------------------------------------------------------------------------------------------
// Laws of the cache
// ---------------------------------------------------------------------------------------------

/// A well-formed cache never holds more entries than its capacity.
pub proof fn lemma_cache_within_capacity(c: TlbCache)
    requires
        c.wf(),
    ensures
        c@.len() <= c.spec_capacity(),
{
}

/// Whether every cached stamp is older than the clock.
pub open spec fn stamps_behind_clock(c: TlbCache) -> bool {
    forall|k: Slot| #[trigger] c@.contains_key(k) ==> c@[k].timestamp < c.clock()
}

/// Inserting into a cache whose clock has never run past its largest value leaves the new
/// entry cached, newer than every other entry; the table holds one entry more when the key
/// was new, up to the capacity; an entry that had to go was an old entry with the smallest
/// stamp.
pub proof fn lemma_insert_outcome(c0: TlbCache, c1: TlbCache, key: CacheKey, entry: CacheEntry)
    requires
        c0.wf(),
        c0.inserted_into(key, entry, &c1),
        !c0.clock_has_wrapped(),
    ensures
        c1@.contains_key(slot_of(key)),
        c1@[slot_of(key)] == stamped(entry, c0.clock()),
        forall|k: Slot| #[trigger] c1@.contains_key(k) && k != slot_of(key) ==> c1@[k].timestamp < c1@[slot_of(
            key,
        )].timestamp,
        ({
            let n = c0@.len() + if c0@.contains_key(slot_of(key)) { 0int } else { 1int };
            c1@.len() == if n <= c0.spec_capacity() { n } else { c0.spec_capacity() as int }
        }),
        forall|k: Slot|
            #[trigger] c0@.contains_key(k) && !c1@.contains_key(k) ==> k != slot_of(key) && forall|j: Slot|
                #[trigger] c0@.contains_key(j) ==> c0@[k].timestamp <= c0@[j].timestamp,
{
    let s = slot_of(key);
    let fresh = stamped(entry, c0.clock());
    let grown = c0@.insert(s, fresh);
    if c0@.contains_key(s) {
        assert(grown.dom() =~= c0@.dom());
    } else {
        assert(grown.dom() =~= c0@.dom().insert(s));
    }
    if grown.len() > c0.spec_capacity() {
        let victim = choose|victim: Slot|
            #![trigger grown.remove(victim)]
            grown.contains_key(victim) && c1@ == grown.remove(victim) && forall|k: Slot|
                #[trigger] grown.contains_key(k) ==> grown[victim].timestamp <= grown[k].timestamp;
        assert(c0@.len() > 0);
        let other = c0@.dom().choose();
        assert(c0@.contains_key(other));
        assert(grown.contains_key(other) && grown[other] == c0@[other]);
        assert(victim != s);
        grown.lemma_remove_key_len(victim);
        assert forall|k: Slot|
            #[trigger] c0@.contains_key(k) && !c1@.contains_key(k) implies k != s && forall|j: Slot|
                #[trigger] c0@.contains_key(j) ==> c0@[k].timestamp <= c0@[j].timestamp by {
            assert(k == victim);
            assert forall|j: Slot| #[trigger] c0@.contains_key(j) implies c0@[k].timestamp <= c0@[j].timestamp by {
                assert(grown.contains_key(j));
            }
        }
    }
    assert(c1@.contains_key(s) && c1@[s] == fresh);
}

/// A lookup right after an insertion finds the inserted entry (with the stamp its policy
/// gives it), provided the insertion evicted nothing or the clock had never run past its
/// largest value.
pub proof fn lemma_lookup_finds_inserted(
    c0: TlbCache,
    c1: TlbCache,
    c2: TlbCache,
    key: CacheKey,
    entry: CacheEntry,
    r: Option<CacheEntry>,
)
    requires
        c0.wf(),
        c0.inserted_into(key, entry, &c1),
        c1.looked_up_into(key, r, &c2),
        c0@.len() < c0.spec_capacity() || c0@.contains_key(slot_of(key)) || !c0.clock_has_wrapped(),
    ensures
        c0.spec_policy() == ReplacementPolicy::Lru ==> r == Some(stamped(entry, c1.clock())),
        c0.spec_policy() == ReplacementPolicy::Fifo ==> r == Some(stamped(entry, c0.clock())),
{
    let s = slot_of(key);
    let fresh = stamped(entry, c0.clock());
    let grown = c0@.insert(s, fresh);
    if c0@.contains_key(s) {
        assert(grown.dom() =~= c0@.dom());
    } else {
        assert(grown.dom() =~= c0@.dom().insert(s));
    }
    if grown.len() > c0.spec_capacity() {
        let victim = choose|victim: Slot|
            #![trigger grown.remove(victim)]
            grown.contains_key(victim) && c1@ == grown.remove(victim) && forall|k: Slot|
                #[trigger] grown.contains_key(k) ==> grown[victim].timestamp <= grown[k].timestamp;
        assert(c0@.len() > 0);
        let other = c0@.dom().choose();
        assert(c0@.contains_key(other));
        assert(grown.contains_key(other) && grown[other] == c0@[other]);
        assert(victim != s);
        assert(c1@.contains_key(s) && c1@[s] == fresh);
    }
    assert(c1@.contains_key(s) && c1@[s] == fresh);
    assert(stamped(fresh, c1.clock()) == stamped(entry, c1.clock()));
}

/// Every stamp a well-formed cache holds is older than its clock, until the clock has once
/// run past its largest value; a lookup or an insertion wraps the clock only when it stands
/// at that value.
pub proof fn lemma_stamps_behind_until_wrap(c0: TlbCache, c1: TlbCache, key: CacheKey, r: Option<CacheEntry>)
    requires
        c0.wf(),
        !c0.clock_has_wrapped(),
        c0.looked_up_into(key, r, &c1),
    ensures
        stamps_behind_clock(c0),
        c0.clock() < u64::MAX ==> !c1.clock_has_wrapped() && stamps_behind_clock(c1),
{
}

/// After an invalidation nothing that its scope selects remains, everything else remains
/// unchanged.
pub proof fn lemma_invalidation_exact(c0: TlbCache, c1: TlbCache, scope: InvalidationScope)
    requires
        c0.wf(),
        c0.invalidated_into(scope, &c1),
    ensures
        forall|k: Slot| #[trigger] c1@.contains_key(k) ==> !scope_selects(scope, k, c1@[k]) && c1@[k] == c0@[k],
        forall|k: Slot|
            #[trigger] c0@.contains_key(k) && !scope_selects(scope, k, c0@[k]) ==> c1@.contains_key(k),
        c1@.len() <= c0@.len(),
{
    assert(c1@.dom().subset_of(c0@.dom()));
    vstd::set_lib::lemma_len_subset(c1@.dom(), c0@.dom());
}

/// Whether the lookup counter equals hits plus misses (modulo 2^64).
pub open spec fn lookups_balanced(s: CacheStatistics) -> bool {
    s.lookups == s.hits.wrapping_add(s.misses)
}

/// Counting a lookup keeps the lookup counter equal to hits plus misses, and zeroed
/// statistics are balanced; the other operations leave these three counters alone.
pub proof fn lemma_lookups_stay_balanced(s: CacheStatistics, hit: bool)
    requires
        lookups_balanced(s),
    ensures
        lookups_balanced(counted_lookup(s, hit)),
        lookups_balanced(zero_statistics()),
{
}

} // verus!
