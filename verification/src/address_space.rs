//! Sparse page table of one address space: mapping, unmapping, translation, range queries and
//! invalidation tracking.

use crate::types::{
    permits, AccessType, PageEntry, PagePermissions, SecurityState, TranslationData, TranslationError,
    TranslationResult, IOVA, PA, PAGE_SIZE,
};
use smallvec::SmallVec;
use std::collections::HashMap;
use std::sync::atomic::Ordering;
use vstd::std_specs::iter::IteratorSpec;
use vstd::prelude::*;

verus! {

broadcast use vstd::std_specs::hash::group_hash_axioms;

/// Largest accepted virtual address (52-bit address space).
pub const MAX_VIRTUAL_ADDRESS: u64 = 0x000F_FFFF_FFFF_FFFF;

/// Largest accepted physical address (52-bit physical address space).
pub const MAX_PHYSICAL_ADDRESS: u64 = 0x000F_FFFF_FFFF_FFFF;

/// Largest page number a mapping can have (`MAX_VIRTUAL_ADDRESS / PAGE_SIZE`).
pub const MAX_PAGE_NUMBER: u64 = 0xFF_FFFF_FFFF;

/// Why an address space operation was refused.
#[derive(Debug, Clone, Copy, PartialEq, Eq, Structural)]
pub enum AddressSpaceError {
    /// An address lies outside the supported address space or a range is reversed.
    InvalidAddress { address: u64 },
    /// The permissions grant nothing.
    InvalidPermissions,
    /// The security state is not acceptable.
    InvalidSecurityState,
    /// No mapping exists where one was needed.
    PageNotMapped,
    /// An internal failure.
    InternalError,
}

/// Page number of an address.
pub open spec fn page_of(addr: u64) -> u64 {
    addr / PAGE_SIZE
}

/// The address rounded down to its page.
pub open spec fn page_base(addr: u64) -> u64 {
    (addr - addr % PAGE_SIZE) as u64
}

/// Whether the permissions grant at least one right.
pub open spec fn grants_something(p: PagePermissions) -> bool {
    p.read || p.write || p.execute
}

/// The entry that `map_page` stores.
pub open spec fn mapped_entry(pa: PA, permissions: PagePermissions, security_state: SecurityState) -> PageEntry {
    PageEntry { physical_address: PA(page_base(pa@)), permissions, security_state, valid: true }
}

/// What translating `iova` for `access` in `security_state` yields on the page table `m`.
pub open spec fn translation_of(
    m: Map<u64, PageEntry>,
    iova: IOVA,
    access: AccessType,
    security_state: SecurityState,
) -> TranslationResult {
    let p = page_of(iova@);
    if !m.contains_key(p) || !m[p].valid {
        Err(TranslationError::PageNotMapped)
    } else if m[p].security_state != security_state {
        Err(TranslationError::SecurityViolation)
    } else if !permits(m[p].permissions, access) {
        Err(TranslationError::PermissionViolation { access })
    } else {
        Ok(
            TranslationData {
                physical_address: PA((m[p].physical_address@ + iova@ % PAGE_SIZE) as u64),
                permissions: m[p].permissions,
                security_state: m[p].security_state,
            },
        )
    }
}

/// One page of an `AddressRange`: its address and page number.
#[derive(Debug, Clone, Copy, PartialEq, Eq, Structural)]
pub struct PageInfo {
    iova: IOVA,
    page_number: u64,
}

impl View for PageInfo {
    type V = (IOVA, u64);

    closed spec fn view(&self) -> (IOVA, u64) {
        (self.iova, self.page_number)
    }
}

impl PageInfo {
    /// Address of the page.
    pub fn iova(&self) -> (r: IOVA)
        ensures
            r == self@.0,
    {
        self.iova
    }

    /// Page number of the page.
    pub fn page_number(&self) -> (r: u64)
        ensures
            r == self@.1,
    {
        self.page_number
    }
}

/// Walks the pages of an `AddressRange` one page at a time.
#[derive(Debug)]
pub struct AddressRangeIterator {
    current: u64,
    end: u64,
}

impl View for AddressRangeIterator {
    type V = (u64, u64);

    /// The next address to hand out and the last address of the range.
    closed spec fn view(&self) -> (u64, u64) {
        (self.current, self.end)
    }
}

impl AddressRangeIterator {
    /// The next page, or `None` once the end of the range is passed.
    pub fn next(&mut self) -> (r: Option<PageInfo>)
        requires
            old(self)@.0 <= old(self)@.1 ==> old(self)@.0 + PAGE_SIZE <= u64::MAX,
        ensures
            old(self)@.0 <= old(self)@.1 ==> r is Some && r->Some_0@ == (IOVA(old(self)@.0), page_of(old(self)@.0))
                && final(self)@ == ((old(self)@.0 + PAGE_SIZE) as u64, old(self)@.1),
            old(self)@.0 > old(self)@.1 ==> r == None::<PageInfo> && final(self)@ == old(self)@,
    {
        if self.current <= self.end {
            let iova = IOVA::const_new(self.current);
            let c = self.current;
            assert(c >> 12u64 == c / 4096) by (bit_vector);
            let page_number = c >> 12u64;
            self.current = self.current + PAGE_SIZE;
            Some(PageInfo { iova, page_number })
        } else {
            None
        }
    }
}

/// An inclusive range of addresses.
#[derive(Debug, Clone, Copy, PartialEq, Eq, Structural)]
pub struct AddressRange {
    /// First address of the range.
    pub start: IOVA,
    /// Last address of the range (inclusive).
    pub end: IOVA,
}

impl AddressRange {
    /// The range from `start` to `end`.
    pub fn new(start: IOVA, end: IOVA) -> (r: AddressRange)
        ensures
            r == (AddressRange { start, end }),
    {
        AddressRange { start, end }
    }

    /// Walks the pages of the range, starting at the page that holds `start`.
    pub fn into_iter(self) -> (r: AddressRangeIterator)
        ensures
            r@ == (page_base(self.start@), self.end@),
    {
        let s = self.start.as_u64();
        assert(s & !0xFFFu64 == s - s % 4096) by (bit_vector);
        AddressRangeIterator { current: s & !0xFFFu64, end: self.end.as_u64() }
    }
}

/// A mapped page together with its address.
#[derive(Debug, Clone, Copy, PartialEq, Eq, Structural)]
pub struct PageEntryRef {
    iova: IOVA,
    entry: PageEntry,
}

impl View for PageEntryRef {
    type V = (IOVA, PageEntry);

    closed spec fn view(&self) -> (IOVA, PageEntry) {
        (self.iova, self.entry)
    }
}

impl PageEntryRef {
    /// Address of the page.
    pub fn iova(&self) -> (r: IOVA)
        ensures
            r == self@.0,
    {
        self.iova
    }

    /// The page table entry.
    pub fn entry(&self) -> (r: &PageEntry)
        ensures
            *r == self@.1,
    {
        &self.entry
    }

    /// Physical address of the page.
    pub fn physical_address(&self) -> (r: PA)
        ensures
            r == self@.1.physical_address,
    {
        self.entry.physical_address()
    }

    /// Permissions of the page.
    pub fn permissions(&self) -> (r: PagePermissions)
        ensures
            r == self@.1.permissions,
    {
        self.entry.permissions()
    }

    /// Security state of the page.
    pub fn security_state(&self) -> (r: SecurityState)
        ensures
            r == self@.1.security_state,
    {
        self.entry.security_state()
    }
}

/// Counts of mapped pages in a range, by right.
#[derive(Debug, Clone, Copy, PartialEq, Eq, Structural)]
pub struct RangeStats {
    /// Mapped pages.
    pub total_pages: usize,
    /// Mapped readable pages.
    pub readable_pages: usize,
    /// Mapped writable pages.
    pub writable_pages: usize,
    /// Mapped executable pages.
    pub executable_pages: usize,
}

/// The mapped pages `lo <= p < hi` of `m` whose permissions satisfy `pred`.
pub open spec fn mapped_pages_where(
    m: Map<u64, PageEntry>,
    lo: u64,
    hi: u64,
    pred: spec_fn(PagePermissions) -> bool,
) -> Set<u64> {
    Set::new(|p: u64| lo <= p < hi && m.contains_key(p) && pred(m[p].permissions))
}

/// Read-only view of an address space.
#[derive(Debug)]
pub struct AddressSpaceQuery<'a> {
    addr_space: &'a AddressSpace,
}

impl<'a> View for AddressSpaceQuery<'a> {
    type V = Map<u64, PageEntry>;

    closed spec fn view(&self) -> Map<u64, PageEntry> {
        self.addr_space@
    }
}

impl<'a> AddressSpaceQuery<'a> {
    /// Number of mapped pages.
    pub fn page_count(&self) -> (r: usize)
        ensures
            r == self@.len(),
    {
        self.addr_space.page_table.len()
    }

    /// Whether the page of `iova` is mapped.
    pub fn is_mapped(&self, iova: IOVA) -> (r: bool)
        ensures
            r == self@.contains_key(page_of(iova@)),
    {
        let page_num = self.addr_space.page_number(iova);
        self.addr_space.page_table.contains_key(&page_num)
    }

    /// The entries of all mapped pages, each once.
    pub fn iter(&self) -> (r: Vec<PageEntry>)
        ensures
            r@.len() == self@.len(),
            exists|pages: Seq<u64>|
                pages.no_duplicates() && pages.to_set() == self@.dom() && pages.len() == r@.len() && forall|
                    i: int,
                |
                    0 <= i < r@.len() ==> #[trigger] r@[i] == self@[pages[i]],
    {
        let pages = self.addr_space.mapped_page_numbers();
        let mut out: Vec<PageEntry> = Vec::new();
        let mut i: usize = 0;
        while i < pages.len()
            invariant
                i <= pages@.len(),
                pages@.to_set() == self@.dom(),
                self@ == self.addr_space.page_table@,
                out@.len() == i,
                forall|j: int| 0 <= j < i ==> #[trigger] out@[j] == self@[pages@[j]],
            decreases pages@.len() - i,
        {
            assert(pages@.to_set().contains(pages@[i as int]));
            let e = match self.addr_space.page_table.get(&pages[i]) {
                Some(e) => *e,
                None => {
                    proof {
                        assert(false);
                    }
                    PageEntry::new(PA::const_new(0), PagePermissions::none())
                },
            };
            out.push(e);
            i = i + 1;
        }
        out
    }

    /// Counts the mapped pages from the page of `start` to the page of `end`, and among them the
    /// readable, writable and executable ones.
    pub fn range_statistics(&self, start: IOVA, end: IOVA) -> (r: RangeStats)
        ensures
            r.total_pages == mapped_pages_in(self@, page_of(start@), page_of(end@)).len(),
            r.readable_pages == mapped_pages_where(
                self@,
                page_of(start@),
                (page_of(end@) + 1) as u64,
                |q: PagePermissions| q.read,
            ).len(),
            r.writable_pages == mapped_pages_where(
                self@,
                page_of(start@),
                (page_of(end@) + 1) as u64,
                |q: PagePermissions| q.write,
            ).len(),
            r.executable_pages == mapped_pages_where(
                self@,
                page_of(start@),
                (page_of(end@) + 1) as u64,
                |q: PagePermissions| q.execute,
            ).len(),
    {
        let start_page = self.addr_space.page_number(start);
        let end_page = self.addr_space.page_number(end);
        let ghost m = self@;
        let ghost all = |q: PagePermissions| true;
        let ghost rd = |q: PagePermissions| q.read;
        let ghost wr = |q: PagePermissions| q.write;
        let ghost ex = |q: PagePermissions| q.execute;
        let mut stats = RangeStats { total_pages: 0, readable_pages: 0, writable_pages: 0, executable_pages: 0 };
        assert(end_page < u64::MAX) by {
            assert(end@ / 4096 <= u64::MAX / 4096);
        }
        proof {
            let ghost len = self.addr_space.page_table.len();
            assert(mapped_pages_where(m, start_page, start_page, all) =~= Set::<u64>::empty());
            assert(mapped_pages_where(m, start_page, start_page, rd) =~= Set::<u64>::empty());
            assert(mapped_pages_where(m, start_page, start_page, wr) =~= Set::<u64>::empty());
            assert(mapped_pages_where(m, start_page, start_page, ex) =~= Set::<u64>::empty());
        }
        let mut page_num = start_page;
        while page_num <= end_page
            invariant
                start_page <= page_num <= end_page + 1 || (page_num == start_page && start_page > end_page),
                end_page < u64::MAX,
                m == self@,
                m == self.addr_space.page_table@,
                m.dom().finite(),
                m.len() <= usize::MAX,
                all == (|q: PagePermissions| true),
                rd == (|q: PagePermissions| q.read),
                wr == (|q: PagePermissions| q.write),
                ex == (|q: PagePermissions| q.execute),
                stats.total_pages == mapped_pages_where(m, start_page, page_num, all).len(),
                stats.readable_pages == mapped_pages_where(m, start_page, page_num, rd).len(),
                stats.writable_pages == mapped_pages_where(m, start_page, page_num, wr).len(),
                stats.executable_pages == mapped_pages_where(m, start_page, page_num, ex).len(),
                mapped_pages_where(m, start_page, page_num, all).finite(),
                mapped_pages_where(m, start_page, page_num, rd).finite(),
                mapped_pages_where(m, start_page, page_num, wr).finite(),
                mapped_pages_where(m, start_page, page_num, ex).finite(),
            decreases end_page + 1 - page_num,
        {
            let ghost next = (page_num + 1) as u64;
            proof {
                lemma_where_step(m, start_page, page_num, all);
                lemma_where_step(m, start_page, page_num, rd);
                lemma_where_step(m, start_page, page_num, wr);
                lemma_where_step(m, start_page, page_num, ex);
            }
            match self.addr_space.page_table.get(&page_num) {
                Some(entry) => {
                    stats.total_pages = stats.total_pages + 1;
                    if entry.permissions().read() {
                        stats.readable_pages = stats.readable_pages + 1;
                    }
                    if entry.permissions().write() {
                        stats.writable_pages = stats.writable_pages + 1;
                    }
                    if entry.permissions().execute() {
                        stats.executable_pages = stats.executable_pages + 1;
                    }
                },
                None => {},
            }
            page_num = page_num + 1;
        }
        proof {
            assert(mapped_pages_in(m, start_page, end_page) =~= mapped_pages_where(m, start_page, page_num, all));
            if start_page > end_page {
                assert(mapped_pages_where(m, start_page, (end_page + 1) as u64, rd) =~= Set::<u64>::empty());
                assert(mapped_pages_where(m, start_page, (end_page + 1) as u64, wr) =~= Set::<u64>::empty());
                assert(mapped_pages_where(m, start_page, (end_page + 1) as u64, ex) =~= Set::<u64>::empty());
            }
        }
        stats
    }
}

/// One more page: the set over `[lo, p + 1)` is the set over `[lo, p)`, plus `p` when `p` is
/// mapped with permissions satisfying `pred`; it stays finite and no larger than the page table.
proof fn lemma_where_step(m: Map<u64, PageEntry>, lo: u64, p: u64, pred: spec_fn(PagePermissions) -> bool)
    requires
        lo <= p < u64::MAX,
        m.dom().finite(),
        mapped_pages_where(m, lo, p, pred).finite(),
    ensures
        mapped_pages_where(m, lo, (p + 1) as u64, pred).finite(),
        mapped_pages_where(m, lo, (p + 1) as u64, pred).len() <= m.len(),
        (m.contains_key(p) && pred(m[p].permissions)) ==> mapped_pages_where(m, lo, (p + 1) as u64, pred)
            == mapped_pages_where(m, lo, p, pred).insert(p) && !mapped_pages_where(m, lo, p, pred).contains(
            p,
        ),
        !(m.contains_key(p) && pred(m[p].permissions)) ==> mapped_pages_where(m, lo, (p + 1) as u64, pred)
            == mapped_pages_where(m, lo, p, pred),
{
    let before = mapped_pages_where(m, lo, p, pred);
    let after = mapped_pages_where(m, lo, (p + 1) as u64, pred);
    if m.contains_key(p) && pred(m[p].permissions) {
        assert(after =~= before.insert(p));
    } else {
        assert(after =~= before);
    }
    vstd::set_lib::lemma_len_subset(after, m.dom());
}

/// Whether the range holds the first byte of page `p`.
pub open spec fn range_covers_page(r: AddressRange, p: u64) -> bool {
    r.start@ <= p * PAGE_SIZE <= r.end@
}

/// `rs` lists the maximal runs of consecutive mapped pages of `m`, in ascending order: every
/// range starts and ends on page boundaries, ranges are separated by at least one unmapped page,
/// and a page is mapped exactly when some range covers it.
pub open spec fn ranges_are_runs_of(m: Map<u64, PageEntry>, rs: Seq<AddressRange>) -> bool {
    &&& forall|i: int|
        0 <= i < rs.len() ==> (#[trigger] rs[i]).start@ % PAGE_SIZE == 0 && rs[i].end@ % PAGE_SIZE == PAGE_SIZE
            - 1 && rs[i].start@ < rs[i].end@
    &&& forall|i: int, j: int| 0 <= i < j < rs.len() ==> (#[trigger] rs[i]).end@ + 1 < (#[trigger] rs[j]).start@
    &&& forall|p: u64|
        #![trigger m.contains_key(p)]
        m.contains_key(p) <==> exists|i: int| 0 <= i < rs.len() && #[trigger] range_covers_page(rs[i], p)
}

/// Whether some range of `rs` covers page `p`.
pub open spec fn covered_by(rs: Seq<AddressRange>, p: u64) -> bool {
    exists|k: int| 0 <= k < rs.len() && #[trigger] range_covers_page(rs[k], p)
}

/// Whether `p` occurs among the first `i` elements of `s`.
pub open spec fn in_prefix(s: Seq<u64>, i: int, p: u64) -> bool {
    exists|j: int| 0 <= j < i && s[j] == p
}

proof fn lemma_covered_by_push(rs: Seq<AddressRange>, r: AddressRange)
    ensures
        forall|p: u64| #[trigger]
            covered_by(rs.push(r), p) <==> (covered_by(rs, p) || range_covers_page(r, p)),
{
    assert forall|p: u64| #[trigger]
        covered_by(rs.push(r), p) <==> (covered_by(rs, p) || range_covers_page(r, p)) by {
        if covered_by(rs.push(r), p) {
            let k = choose|k: int| 0 <= k < rs.push(r).len() && #[trigger] range_covers_page(rs.push(r)[k], p);
            if k < rs.len() {
                assert(range_covers_page(rs[k], p));
            }
        }
        if covered_by(rs, p) {
            let k = choose|k: int| 0 <= k < rs.len() && #[trigger] range_covers_page(rs[k], p);
            assert(range_covers_page(rs.push(r)[k], p));
        }
        if range_covers_page(r, p) {
            assert(range_covers_page(rs.push(r)[rs.len() as int], p));
        }
    }
}

proof fn lemma_in_prefix_step(s: Seq<u64>, i: int, p: u64)
    requires
        0 <= i < s.len(),
    ensures
        in_prefix(s, i + 1, p) <==> (in_prefix(s, i, p) || s[i] == p),
{
    if in_prefix(s, i + 1, p) {
        let j = choose|j: int| 0 <= j < i + 1 && s[j] == p;
        if j < i {
            assert(in_prefix(s, i, p));
        }
    }
}

/// The invalidation count recorded for page `p` (0 when none is).
pub open spec fn count_of(m: Map<u64, u64>, p: u64) -> u64 {
    if m.contains_key(p) {
        m[p]
    } else {
        0
    }
}

/// The invalidation counts after invalidating every page of `pages` once (counts wrap).
pub open spec fn bump_all(m: Map<u64, u64>, pages: Set<u64>) -> Map<u64, u64> {
    Map::new(
        |p: u64| m.contains_key(p) || pages.contains(p),
        |p: u64|
            if pages.contains(p) {
                count_of(m, p).wrapping_add(1)
            } else {
                m[p]
            },
    )
}

/// The mapped pages `lo <= p < hi` of `m`.
pub open spec fn mapped_pages_before(m: Map<u64, PageEntry>, lo: u64, hi: u64) -> Set<u64> {
    Set::new(|p: u64| lo <= p < hi && m.contains_key(p))
}

/// The mapped pages `lo <= p <= hi` of `m`.
pub open spec fn mapped_pages_in(m: Map<u64, PageEntry>, lo: u64, hi: u64) -> Set<u64> {
    Set::new(|p: u64| lo <= p <= hi && m.contains_key(p))
}

/// Entries that `map_range` stores: page `lo + k` maps to `base_pa + k * PAGE_SIZE` for every page
/// `lo <= p < hi`.
pub open spec fn range_entries(lo: u64, hi: u64, base_pa: u64, permissions: PagePermissions) -> Map<
    u64,
    PageEntry,
> {
    Map::new(
        |p: u64| lo <= p < hi,
        |p: u64|
            PageEntry {
                physical_address: PA((base_pa + (p - lo) * PAGE_SIZE) as u64),
                permissions,
                security_state: SecurityState::NonSecure,
                valid: true,
            },
    )
}

/// The page numbers `lo <= p < hi`.
pub open spec fn pages_between(lo: u64, hi: u64) -> Set<u64> {
    Set::new(|p: u64| lo <= p < hi)
}

/// Whether some page `lo <= p <= hi` is mapped in `m`.
pub open spec fn any_mapped_in(m: Map<u64, PageEntry>, lo: u64, hi: u64) -> bool {
    exists|p: u64| lo <= p <= hi && #[trigger] m.contains_key(p)
}

/// Whether one `(IOVA, PA)` pair of a bulk mapping lies outside the supported address spaces.
pub open spec fn mapping_is_bad(m: (IOVA, PA)) -> bool {
    m.0@ > MAX_VIRTUAL_ADDRESS || m.1@ > MAX_PHYSICAL_ADDRESS
}

/// The address reported for a bad pair: the IOVA when it is out of range, else the PA.
pub open spec fn bad_mapping_address(m: (IOVA, PA)) -> u64 {
    if m.0@ > MAX_VIRTUAL_ADDRESS {
        m.0@
    } else {
        m.1@
    }
}

/// `i` is the first index of `s` that holds a bad pair.
pub open spec fn first_bad_mapping(s: Seq<(IOVA, PA)>, i: int) -> bool {
    &&& 0 <= i < s.len()
    &&& mapping_is_bad(s[i])
    &&& forall|j: int| 0 <= j < i ==> !mapping_is_bad(#[trigger] s[j])
}

/// `i` is the first index of `s` that holds an IOVA outside the supported address space.
pub open spec fn first_bad_iova(s: Seq<IOVA>, i: int) -> bool {
    &&& 0 <= i < s.len()
    &&& s[i]@ > MAX_VIRTUAL_ADDRESS
    &&& forall|j: int| 0 <= j < i ==> (#[trigger] s[j])@ <= MAX_VIRTUAL_ADDRESS
}

/// The page table after mapping each pair of `s` in order, later pairs overwriting earlier
/// ones.
pub open spec fn apply_mappings(m: Map<u64, PageEntry>, s: Seq<(IOVA, PA)>, permissions: PagePermissions) -> Map<
    u64,
    PageEntry,
>
    decreases s.len(),
{
    if s.len() == 0 {
        m
    } else {
        apply_mappings(m, s.drop_last(), permissions).insert(
            page_of(s.last().0@),
            PageEntry {
                physical_address: PA(page_base(s.last().1@)),
                permissions,
                security_state: SecurityState::NonSecure,
                valid: true,
            },
        )
    }
}

/// The page numbers of the IOVAs in `s`.
pub open spec fn pages_of(s: Seq<IOVA>) -> Set<u64> {
    Set::new(|p: u64| exists|i: int| 0 <= i < s.len() && page_of(s[i]@) == p)
}

/// `m` with the permissions of every mapped page in `pages` replaced by `permissions`.
pub open spec fn with_permissions_on(m: Map<u64, PageEntry>, pages: Set<u64>, permissions: PagePermissions) -> Map<
    u64,
    PageEntry,
> {
    Map::new(
        |p: u64| m.contains_key(p),
        |p: u64|
            if pages.contains(p) {
                PageEntry { permissions, ..m[p] }
            } else {
                m[p]
            },
    )
}

/// Every mapped page number is at most `MAX_PAGE_NUMBER` and every entry points at a
/// page-aligned address below 2^53.
pub open spec fn table_well_formed(m: Map<u64, PageEntry>) -> bool {
    forall|p: u64| #[trigger]
        m.contains_key(p) ==> p <= MAX_PAGE_NUMBER && m[p].physical_address@ % PAGE_SIZE == 0
            && m[p].physical_address@ < 0x20_0000_0000_0000
}

/// `slice::sort_unstable` on page numbers. Its documentation states that it sorts the slice in
/// ascending order; the contract claims that the elements come out ascending and are the same
/// elements, with the same multiplicities, as before.
#[verifier::external_body]
fn sort_ascending(v: &mut Vec<u64>)
    ensures
        final(v)@.to_multiset() == old(v)@.to_multiset(),
        forall|i: int, j: int| 0 <= i <= j < final(v)@.len() ==> final(v)@[i] <= final(v)@[j],
{
    v.sort_unstable();
}

/// A batch of staged page table updates, held in a `smallvec::SmallVec` that keeps its first
/// 16 items inline.
#[verifier::external_body]
pub struct PageBatch {
    items: SmallVec<[(u64, PageEntry); 16]>,
}

/// The items of a batch, in order.
pub uninterp spec fn batch_items(b: PageBatch) -> Seq<(u64, PageEntry)>;

/// `SmallVec::with_capacity`: an empty vector (with room for `n` items).
#[verifier::external_body]
fn batch_with_capacity(n: usize) -> (r: PageBatch)
    ensures
        batch_items(r) == Seq::<(u64, PageEntry)>::empty(),
{
    PageBatch { items: SmallVec::with_capacity(n) }
}

/// `SmallVec::push`: appends `item` at the end.
#[verifier::external_body]
fn batch_push(b: &mut PageBatch, item: (u64, PageEntry))
    ensures
        batch_items(*final(b)) == batch_items(*old(b)).push(item),
{
    b.items.push(item);
}

/// `SmallVec::into_vec`: the same items, in the same order, as a `Vec`.
#[verifier::external_body]
fn batch_into_vec(b: PageBatch) -> (r: Vec<(u64, PageEntry)>)
    ensures
        r@ == batch_items(b),
{
    b.items.into_vec()
}

/// Sparse page table keyed by page number, with per-page invalidation counters.
#[derive(Debug)]
pub struct AddressSpace {
    page_table: HashMap<u64, PageEntry>,
    invalidation_generation: u64,
    invalidation_map: HashMap<u64, u64>,
}

impl View for AddressSpace {
    type V = Map<u64, PageEntry>;

    /// The page table: page number to entry.
    closed spec fn view(&self) -> Map<u64, PageEntry> {
        self.page_table@
    }
}

impl AddressSpace {
    /// Every mapped page number is in range and every entry points at a page-aligned address
    /// below 2^53.
    #[verifier::type_invariant]
    closed spec fn well_formed(self) -> bool {
        table_well_formed(self.page_table@)
    }

    /// How many times each page number was invalidated.
    pub closed spec fn invalidation_counts(&self) -> Map<u64, u64> {
        self.invalidation_map@
    }

    /// The global invalidation generation counter.
    pub closed spec fn generation(&self) -> u64 {
        self.invalidation_generation
    }

    /// An empty address space.
    pub fn new() -> (r: AddressSpace)
        ensures
            r@ == Map::<u64, PageEntry>::empty(),
            r.invalidation_counts() == Map::<u64, u64>::empty(),
            r.generation() == 0,
    {
        AddressSpace { page_table: HashMap::new(), invalidation_generation: 0, invalidation_map: HashMap::new() }
    }

    /// An empty address space with room reserved for `capacity` pages.
    pub fn with_capacity(capacity: usize) -> (r: AddressSpace)
        ensures
            r@ == Map::<u64, PageEntry>::empty(),
            r.invalidation_counts() == Map::<u64, u64>::empty(),
            r.generation() == 0,
    {
        AddressSpace {
            page_table: HashMap::with_capacity(capacity),
            invalidation_generation: 0,
            invalidation_map: HashMap::with_capacity(capacity),
        }
    }

    /// Moves the page table out, leaving an empty one in its place.
    fn take_table(&mut self) -> (r: HashMap<u64, PageEntry>)
        ensures
            r@ == old(self)@,
            table_well_formed(r@),
            final(self)@ == Map::<u64, PageEntry>::empty(),
            final(self).invalidation_counts() == old(self).invalidation_counts(),
            final(self).generation() == old(self).generation(),
    {
        proof {
            use_type_invariant(&*self);
        }
        let mut table = HashMap::new();
        std::mem::swap(&mut table, &mut self.page_table);
        table
    }

    /// Page number of an IOVA.
    fn page_number(&self, iova: IOVA) -> (r: u64)
        ensures
            r == page_of(iova@),
    {
        let a = iova.as_u64();
        assert(a >> 12u64 == a / 4096) by (bit_vector);
        a >> 12u64
    }

    /// Maps the page of `iova` to the page of `pa`, replacing any earlier mapping of that page.
    pub fn map_page(
        &mut self,
        iova: IOVA,
        pa: PA,
        permissions: PagePermissions,
        security_state: SecurityState,
    ) -> (r: Result<(), AddressSpaceError>)
        ensures
            iova@ > MAX_VIRTUAL_ADDRESS ==> r == Err::<(), AddressSpaceError>(
                AddressSpaceError::InvalidAddress { address: iova@ },
            ),
            iova@ <= MAX_VIRTUAL_ADDRESS && pa@ > MAX_PHYSICAL_ADDRESS ==> r == Err::<(), AddressSpaceError>(
                AddressSpaceError::InvalidAddress { address: pa@ },
            ),
            iova@ <= MAX_VIRTUAL_ADDRESS && pa@ <= MAX_PHYSICAL_ADDRESS && !grants_something(permissions)
                ==> r == Err::<(), AddressSpaceError>(AddressSpaceError::InvalidPermissions),
            r is Ok <==> (iova@ <= MAX_VIRTUAL_ADDRESS && pa@ <= MAX_PHYSICAL_ADDRESS && grants_something(
                permissions,
            )),
            r is Ok ==> final(self)@ == old(self)@.insert(
                page_of(iova@),
                mapped_entry(pa, permissions, security_state),
            ),
            r is Ok ==> final(self)@.len() == old(self)@.len() + if old(self)@.contains_key(page_of(iova@)) {
                0int
            } else {
                1int
            },
            r is Err ==> final(self)@ == old(self)@,
            final(self)@.dom().finite(),
            final(self).invalidation_counts() == old(self).invalidation_counts(),
            final(self).generation() == old(self).generation(),
    {
        if iova.as_u64() > MAX_VIRTUAL_ADDRESS {
            return Err(AddressSpaceError::InvalidAddress { address: iova.as_u64() });
        }
        if pa.as_u64() > MAX_PHYSICAL_ADDRESS {
            return Err(AddressSpaceError::InvalidAddress { address: pa.as_u64() });
        }
        if !permissions.read() && !permissions.write() && !permissions.execute() {
            return Err(AddressSpaceError::InvalidPermissions);
        }
        let page_num = self.page_number(iova);
        let raw = pa.as_u64();
        let aligned = raw & !0xFFFu64;
        assert(raw & !0xFFFu64 == raw - raw % 4096) by (bit_vector);
        let entry = PageEntry::with_security_state(PA::const_new(aligned), permissions, security_state);
        let mut table = self.take_table();
        table.insert(page_num, entry);
        self.page_table = table;
        Ok(())
    }

    /// Removes the mapping of the page of `iova`.
    pub fn unmap_page(&mut self, iova: IOVA) -> (r: Result<(), AddressSpaceError>)
        ensures
            iova@ > MAX_VIRTUAL_ADDRESS ==> r == Err::<(), AddressSpaceError>(
                AddressSpaceError::InvalidAddress { address: iova@ },
            ),
            iova@ <= MAX_VIRTUAL_ADDRESS && !old(self)@.contains_key(page_of(iova@)) ==> r == Err::<
                (),
                AddressSpaceError,
            >(AddressSpaceError::PageNotMapped),
            r is Ok <==> (iova@ <= MAX_VIRTUAL_ADDRESS && old(self)@.contains_key(page_of(iova@))),
            r is Ok ==> final(self)@ == old(self)@.remove(page_of(iova@)),
            r is Ok ==> final(self)@.len() == old(self)@.len() - 1,
            r is Err ==> final(self)@ == old(self)@,
            final(self)@.dom().finite(),
            final(self).invalidation_counts() == old(self).invalidation_counts(),
            final(self).generation() == old(self).generation(),
    {
        if iova.as_u64() > MAX_VIRTUAL_ADDRESS {
            return Err(AddressSpaceError::InvalidAddress { address: iova.as_u64() });
        }
        let page_num = self.page_number(iova);
        if !self.page_table.contains_key(&page_num) {
            return Err(AddressSpaceError::PageNotMapped);
        }
        let mut table = self.take_table();
        table.remove(&page_num);
        self.page_table = table;
        Ok(())
    }

    /// Translates `iova` for `access_type` in `security_state`, keeping the page offset.
    pub fn translate_page(
        &self,
        iova: IOVA,
        access_type: AccessType,
        security_state: SecurityState,
    ) -> (r: TranslationResult)
        ensures
            r == translation_of(self@, iova, access_type, security_state),
    {
        proof {
            use_type_invariant(self);
        }
        let page_num = self.page_number(iova);
        let entry = match self.page_table.get(&page_num) {
            Some(e) => *e,
            None => {
                return Err(TranslationError::PageNotMapped);
            },
        };
        if !entry.is_valid() {
            return Err(TranslationError::PageNotMapped);
        }
        if entry.security_state() != security_state {
            return Err(TranslationError::SecurityViolation);
        }
        if !self.check_permissions(entry.permissions(), access_type) {
            return Err(TranslationError::PermissionViolation { access: access_type });
        }
        let raw = iova.as_u64();
        let page_offset = raw & 0xFFFu64;
        assert(raw & 0xFFFu64 == raw % 4096) by (bit_vector);
        let translated = PA::const_new(entry.physical_address().as_u64() + page_offset);
        Ok(TranslationData::new(translated, entry.permissions(), entry.security_state()))
    }

    /// Whether the page of `iova` is mapped.
    pub fn is_page_mapped(&self, iova: IOVA) -> (r: Result<bool, AddressSpaceError>)
        ensures
            iova@ > MAX_VIRTUAL_ADDRESS ==> r == Err::<bool, AddressSpaceError>(
                AddressSpaceError::InvalidAddress { address: iova@ },
            ),
            iova@ <= MAX_VIRTUAL_ADDRESS ==> r == Ok::<bool, AddressSpaceError>(
                self@.contains_key(page_of(iova@)),
            ),
    {
        if iova.as_u64() > MAX_VIRTUAL_ADDRESS {
            return Err(AddressSpaceError::InvalidAddress { address: iova.as_u64() });
        }
        let page_num = self.page_number(iova);
        Ok(self.page_table.contains_key(&page_num))
    }

    /// Permissions of the page of `iova`.
    pub fn get_page_permissions(&self, iova: IOVA) -> (r: Result<PagePermissions, AddressSpaceError>)
        ensures
            iova@ > MAX_VIRTUAL_ADDRESS ==> r == Err::<PagePermissions, AddressSpaceError>(
                AddressSpaceError::InvalidAddress { address: iova@ },
            ),
            iova@ <= MAX_VIRTUAL_ADDRESS && !self@.contains_key(page_of(iova@)) ==> r == Err::<
                PagePermissions,
                AddressSpaceError,
            >(AddressSpaceError::PageNotMapped),
            iova@ <= MAX_VIRTUAL_ADDRESS && self@.contains_key(page_of(iova@)) ==> r == Ok::<
                PagePermissions,
                AddressSpaceError,
            >(self@[page_of(iova@)].permissions),
    {
        if iova.as_u64() > MAX_VIRTUAL_ADDRESS {
            return Err(AddressSpaceError::InvalidAddress { address: iova.as_u64() });
        }
        let page_num = self.page_number(iova);
        match self.page_table.get(&page_num) {
            Some(entry) => Ok(entry.permissions()),
            None => Err(AddressSpaceError::PageNotMapped),
        }
    }

    /// Number of mapped pages.
    pub fn get_page_count(&self) -> (r: Result<usize, AddressSpaceError>)
        ensures
            r == Ok::<usize, AddressSpaceError>(self@.len() as usize),
            self@.len() <= usize::MAX,
            self@.dom().finite(),
    {
        Ok(self.page_table.len())
    }

    /// Removes every mapping.
    pub fn clear(&mut self) -> (r: Result<(), AddressSpaceError>)
        ensures
            r == Ok::<(), AddressSpaceError>(()),
            final(self)@ == Map::<u64, PageEntry>::empty(),
            final(self).invalidation_counts() == old(self).invalidation_counts(),
            final(self).generation() == old(self).generation(),
    {
        let mut table = self.take_table();
        table.clear();
        self.page_table = table;
        Ok(())
    }

    /// Whether `perms` allow `access_type`.
    fn check_permissions(&self, perms: PagePermissions, access_type: AccessType) -> (r: bool)
        ensures
            r == permits(perms, access_type),
    {
        perms.allows(access_type)
    }

    /// Maps every page from the page of `start_iova` to the page of `end_iova` (inclusive) to
    /// consecutive physical pages starting at the page of `start_pa`, as non-secure pages.
    pub fn map_range(
        &mut self,
        start_iova: IOVA,
        end_iova: IOVA,
        start_pa: PA,
        permissions: PagePermissions,
    ) -> (r: Result<(), AddressSpaceError>)
        ensures
            end_iova@ < start_iova@ ==> r == Err::<(), AddressSpaceError>(
                AddressSpaceError::InvalidAddress { address: end_iova@ },
            ),
            end_iova@ >= start_iova@ && (start_iova@ > MAX_VIRTUAL_ADDRESS || end_iova@
                > MAX_VIRTUAL_ADDRESS) ==> r == Err::<(), AddressSpaceError>(
                AddressSpaceError::InvalidAddress { address: start_iova@ },
            ),
            start_iova@ <= end_iova@ <= MAX_VIRTUAL_ADDRESS && start_pa@ > MAX_PHYSICAL_ADDRESS ==> r
                == Err::<(), AddressSpaceError>(AddressSpaceError::InvalidAddress { address: start_pa@ }),
            start_iova@ <= end_iova@ <= MAX_VIRTUAL_ADDRESS && start_pa@ <= MAX_PHYSICAL_ADDRESS
                && !grants_something(permissions) ==> r == Err::<(), AddressSpaceError>(
                AddressSpaceError::InvalidPermissions,
            ),
            r is Ok <==> (start_iova@ <= end_iova@ <= MAX_VIRTUAL_ADDRESS && start_pa@
                <= MAX_PHYSICAL_ADDRESS && grants_something(permissions)),
            r is Ok ==> final(self)@ == old(self)@.union_prefer_right(
                range_entries(
                    page_of(start_iova@),
                    (page_of(end_iova@) + 1) as u64,
                    page_base(start_pa@),
                    permissions,
                ),
            ),
            r is Err ==> final(self)@ == old(self)@,
            final(self).invalidation_counts() == old(self).invalidation_counts(),
            final(self).generation() == old(self).generation(),
    {
        if end_iova.as_u64() < start_iova.as_u64() {
            return Err(AddressSpaceError::InvalidAddress { address: end_iova.as_u64() });
        }
        if start_iova.as_u64() > MAX_VIRTUAL_ADDRESS || end_iova.as_u64() > MAX_VIRTUAL_ADDRESS {
            return Err(AddressSpaceError::InvalidAddress { address: start_iova.as_u64() });
        }
        if start_pa.as_u64() > MAX_PHYSICAL_ADDRESS {
            return Err(AddressSpaceError::InvalidAddress { address: start_pa.as_u64() });
        }
        if !permissions.read() && !permissions.write() && !permissions.execute() {
            return Err(AddressSpaceError::InvalidPermissions);
        }
        let s = start_iova.as_u64();
        let raw_pa = start_pa.as_u64();
        let aligned_start_iova = s & !0xFFFu64;
        let aligned_start_pa = raw_pa & !0xFFFu64;
        assert(s & !0xFFFu64 == s - s % 4096) by (bit_vector);
        assert(raw_pa & !0xFFFu64 == raw_pa - raw_pa % 4096) by (bit_vector);
        let start_page_num = self.page_number(IOVA::const_new(aligned_start_iova));
        let end_page_num = self.page_number(end_iova);
        assert(start_page_num == page_of(s));
        let ghost old_table = self@;
        let mut table = self.take_table();
        let mut page_num = start_page_num;
        let mut current_pa = aligned_start_pa;
        while page_num <= end_page_num
            invariant
                start_page_num <= page_num <= end_page_num + 1,
                end_page_num <= MAX_PAGE_NUMBER,
                aligned_start_pa == page_base(raw_pa),
                aligned_start_pa <= MAX_PHYSICAL_ADDRESS,
                aligned_start_pa % PAGE_SIZE == 0,
                current_pa == aligned_start_pa + (page_num - start_page_num) * PAGE_SIZE,
                table_well_formed(table@),
                table@ == old_table.union_prefer_right(
                    range_entries(start_page_num, page_num, aligned_start_pa, permissions),
                ),
            decreases end_page_num + 1 - page_num,
        {
            let entry = PageEntry::new(PA::const_new(current_pa), permissions);
            table.insert(page_num, entry);
            assert(table@ =~= old_table.union_prefer_right(
                range_entries(start_page_num, (page_num + 1) as u64, aligned_start_pa, permissions),
            ));
            page_num = page_num + 1;
            current_pa = current_pa + PAGE_SIZE;
        }
        self.page_table = table;
        Ok(())
    }

    /// Whether some page `lo <= p <= hi` is mapped.
    fn range_has_mapping(&self, lo: u64, hi: u64) -> (r: bool)
        requires
            lo <= hi < u64::MAX,
        ensures
            r == any_mapped_in(self@, lo, hi),
    {
        let mut p = lo;
        while p <= hi
            invariant
                lo <= p <= hi + 1,
                hi < u64::MAX,
                forall|q: u64| lo <= q < p ==> !self@.contains_key(q),
            decreases hi + 1 - p,
        {
            if self.page_table.contains_key(&p) {
                return true;
            }
            p = p + 1;
        }
        false
    }

    /// Removes every mapping from the page of `start_iova` to the page of `end_iova` (inclusive),
    /// provided at least one of them is mapped.
    pub fn unmap_range(&mut self, start_iova: IOVA, end_iova: IOVA) -> (r: Result<(), AddressSpaceError>)
        ensures
            end_iova@ < start_iova@ ==> r == Err::<(), AddressSpaceError>(
                AddressSpaceError::InvalidAddress { address: end_iova@ },
            ),
            end_iova@ >= start_iova@ && (start_iova@ > MAX_VIRTUAL_ADDRESS || end_iova@
                > MAX_VIRTUAL_ADDRESS) ==> r == Err::<(), AddressSpaceError>(
                AddressSpaceError::InvalidAddress { address: start_iova@ },
            ),
            start_iova@ <= end_iova@ <= MAX_VIRTUAL_ADDRESS && !any_mapped_in(
                old(self)@,
                page_of(start_iova@),
                page_of(end_iova@),
            ) ==> r == Err::<(), AddressSpaceError>(AddressSpaceError::PageNotMapped),
            r is Ok <==> (start_iova@ <= end_iova@ <= MAX_VIRTUAL_ADDRESS && any_mapped_in(
                old(self)@,
                page_of(start_iova@),
                page_of(end_iova@),
            )),
            r is Ok ==> final(self)@ == old(self)@.remove_keys(
                pages_between(page_of(start_iova@), (page_of(end_iova@) + 1) as u64),
            ),
            r is Err ==> final(self)@ == old(self)@,
            final(self).invalidation_counts() == old(self).invalidation_counts(),
            final(self).generation() == old(self).generation(),
    {
        if end_iova.as_u64() < start_iova.as_u64() {
            return Err(AddressSpaceError::InvalidAddress { address: end_iova.as_u64() });
        }
        if start_iova.as_u64() > MAX_VIRTUAL_ADDRESS || end_iova.as_u64() > MAX_VIRTUAL_ADDRESS {
            return Err(AddressSpaceError::InvalidAddress { address: start_iova.as_u64() });
        }
        let start_page_num = self.page_number(start_iova);
        let end_page_num = self.page_number(end_iova);
        if !self.range_has_mapping(start_page_num, end_page_num) {
            return Err(AddressSpaceError::PageNotMapped);
        }
        let ghost old_table = self@;
        let mut table = self.take_table();
        let mut page_num = start_page_num;
        while page_num <= end_page_num
            invariant
                start_page_num <= page_num <= end_page_num + 1,
                end_page_num <= MAX_PAGE_NUMBER,
                table_well_formed(table@),
                table@ == old_table.remove_keys(pages_between(start_page_num, page_num)),
            decreases end_page_num + 1 - page_num,
        {
            table.remove(&page_num);
            assert(table@ =~= old_table.remove_keys(pages_between(start_page_num, (page_num + 1) as u64)));
            page_num = page_num + 1;
        }
        self.page_table = table;
        Ok(())
    }

    /// Whether any page from the page of `start_iova` to the page of `end_iova` is mapped; a
    /// reversed range has none.
    pub fn has_overlapping_mappings(&self, start_iova: IOVA, end_iova: IOVA) -> (r: bool)
        ensures
            r == (start_iova@ <= end_iova@ && any_mapped_in(self@, page_of(start_iova@), page_of(end_iova@))),
    {
        if end_iova.as_u64() < start_iova.as_u64() {
            return false;
        }
        let start_page_num = self.page_number(start_iova);
        let end_page_num = self.page_number(end_iova);
        self.range_has_mapping(start_page_num, end_page_num)
    }

    /// Index of the first pair of `mappings` outside the supported address spaces, if any.
    fn find_bad_mapping(mappings: &[(IOVA, PA)]) -> (r: Option<usize>)
        ensures
            match r {
                Some(i) => first_bad_mapping(mappings@, i as int),
                None => forall|j: int| 0 <= j < mappings@.len() ==> !mapping_is_bad(#[trigger] mappings@[j]),
            },
    {
        let mut i: usize = 0;
        while i < mappings.len()
            invariant
                i <= mappings@.len(),
                forall|j: int| 0 <= j < i ==> !mapping_is_bad(#[trigger] mappings@[j]),
            decreases mappings@.len() - i,
        {
            let (iova, pa) = mappings[i];
            if iova.as_u64() > MAX_VIRTUAL_ADDRESS || pa.as_u64() > MAX_PHYSICAL_ADDRESS {
                return Some(i);
            }
            i = i + 1;
        }
        None
    }

    /// Index of the first IOVA of `iovas` outside the supported address space, if any.
    fn find_bad_iova(iovas: &[IOVA]) -> (r: Option<usize>)
        ensures
            match r {
                Some(i) => first_bad_iova(iovas@, i as int),
                None => forall|j: int| 0 <= j < iovas@.len() ==> (#[trigger] iovas@[j])@ <= MAX_VIRTUAL_ADDRESS,
            },
    {
        let mut i: usize = 0;
        while i < iovas.len()
            invariant
                i <= iovas@.len(),
                forall|j: int| 0 <= j < i ==> (#[trigger] iovas@[j])@ <= MAX_VIRTUAL_ADDRESS,
            decreases iovas@.len() - i,
        {
            if iovas[i].as_u64() > MAX_VIRTUAL_ADDRESS {
                return Some(i);
            }
            i = i + 1;
        }
        None
    }

    /// Maps each `(IOVA, PA)` pair in order as a non-secure page; nothing is mapped unless every
    /// pair lies in the supported address spaces.
    pub fn map_pages(&mut self, mappings: &[(IOVA, PA)], permissions: PagePermissions) -> (r: Result<
        (),
        AddressSpaceError,
    >)
        ensures
            !grants_something(permissions) ==> r == Err::<(), AddressSpaceError>(
                AddressSpaceError::InvalidPermissions,
            ),
            forall|i: int|
                grants_something(permissions) && #[trigger] first_bad_mapping(mappings@, i) ==> r == Err::<
                    (),
                    AddressSpaceError,
                >(AddressSpaceError::InvalidAddress { address: bad_mapping_address(mappings@[i]) }),
            r is Ok <==> (grants_something(permissions) && forall|j: int|
                0 <= j < mappings@.len() ==> !mapping_is_bad(#[trigger] mappings@[j])),
            r is Ok ==> final(self)@ == apply_mappings(old(self)@, mappings@, permissions),
            r is Err ==> final(self)@ == old(self)@,
            final(self).invalidation_counts() == old(self).invalidation_counts(),
            final(self).generation() == old(self).generation(),
    {
        if !permissions.read() && !permissions.write() && !permissions.execute() {
            return Err(AddressSpaceError::InvalidPermissions);
        }
        let ghost old_table = self@;
        let mut table = self.take_table();
        table.reserve(mappings.len());
        match Self::find_bad_mapping(mappings) {
            Some(i) => {
                self.page_table = table;
                let (iova, pa) = mappings[i];
                if iova.as_u64() > MAX_VIRTUAL_ADDRESS {
                    return Err(AddressSpaceError::InvalidAddress { address: iova.as_u64() });
                }
                return Err(AddressSpaceError::InvalidAddress { address: pa.as_u64() });
            },
            None => {},
        }
        let mut i: usize = 0;
        while i < mappings.len()
            invariant
                i <= mappings@.len(),
                forall|j: int| 0 <= j < mappings@.len() ==> !mapping_is_bad(#[trigger] mappings@[j]),
                table_well_formed(table@),
                table@ == apply_mappings(old_table, mappings@.take(i as int), permissions),
            decreases mappings@.len() - i,
        {
            let (iova, pa) = mappings[i];
            let page_num = self.page_number(iova);
            let raw = pa.as_u64();
            let aligned = raw & !0xFFFu64;
            assert(raw & !0xFFFu64 == raw - raw % 4096) by (bit_vector);
            let entry = PageEntry::new(PA::const_new(aligned), permissions);
            table.insert(page_num, entry);
            assert(mappings@.take(i + 1).drop_last() =~= mappings@.take(i as int));
            i = i + 1;
        }
        assert(mappings@.take(mappings@.len() as int) =~= mappings@);
        self.page_table = table;
        Ok(())
    }

    /// Whether the page of some IOVA of `iovas` is mapped.
    fn some_page_mapped(&self, iovas: &[IOVA]) -> (r: bool)
        ensures
            r == exists|i: int| 0 <= i < iovas@.len() && self@.contains_key(page_of((#[trigger] iovas@[i])@)),
    {
        let mut i: usize = 0;
        while i < iovas.len()
            invariant
                i <= iovas@.len(),
                forall|j: int| 0 <= j < i ==> !self@.contains_key(page_of((#[trigger] iovas@[j])@)),
            decreases iovas@.len() - i,
        {
            let page_num = self.page_number(iovas[i]);
            if self.page_table.contains_key(&page_num) {
                return true;
            }
            i = i + 1;
        }
        false
    }

    /// Removes the mappings of the pages of `iovas`, provided every IOVA is in range and at least
    /// one of those pages is mapped.
    pub fn unmap_pages(&mut self, iovas: &[IOVA]) -> (r: Result<(), AddressSpaceError>)
        ensures
            forall|i: int| #[trigger]
                first_bad_iova(iovas@, i) ==> r == Err::<(), AddressSpaceError>(
                    AddressSpaceError::InvalidAddress { address: iovas@[i]@ },
                ),
            (forall|j: int| 0 <= j < iovas@.len() ==> (#[trigger] iovas@[j])@ <= MAX_VIRTUAL_ADDRESS)
                && !(exists|i: int| 0 <= i < iovas@.len() && old(self)@.contains_key(page_of((#[trigger] iovas@[i])@)))
                ==> r == Err::<(), AddressSpaceError>(AddressSpaceError::PageNotMapped),
            r is Ok <==> ((forall|j: int| 0 <= j < iovas@.len() ==> (#[trigger] iovas@[j])@ <= MAX_VIRTUAL_ADDRESS)
                && exists|i: int| 0 <= i < iovas@.len() && old(self)@.contains_key(page_of((#[trigger] iovas@[i])@))),
            r is Ok ==> final(self)@ == old(self)@.remove_keys(pages_of(iovas@)),
            r is Err ==> final(self)@ == old(self)@,
            final(self).invalidation_counts() == old(self).invalidation_counts(),
            final(self).generation() == old(self).generation(),
    {
        match Self::find_bad_iova(iovas) {
            Some(i) => {
                return Err(AddressSpaceError::InvalidAddress { address: iovas[i].as_u64() });
            },
            None => {},
        }
        if !self.some_page_mapped(iovas) {
            return Err(AddressSpaceError::PageNotMapped);
        }
        let ghost old_table = self@;
        let mut table = self.take_table();
        let mut i: usize = 0;
        while i < iovas.len()
            invariant
                i <= iovas@.len(),
                table_well_formed(table@),
                table@ == old_table.remove_keys(pages_of(iovas@.take(i as int))),
            decreases iovas@.len() - i,
        {
            let page_num = self.page_number(iovas[i]);
            table.remove(&page_num);
            proof {
                let prev = iovas@.take(i as int);
                let next = iovas@.take(i + 1);
                assert(pages_of(next) =~= pages_of(prev).insert(page_num)) by {
                    assert forall|p: u64| pages_of(next).contains(p) implies pages_of(prev).insert(
                        page_num,
                    ).contains(p) by {
                        let k = choose|k: int| 0 <= k < next.len() && page_of(next[k]@) == p;
                        if k < i {
                            assert(prev[k] == next[k]);
                        }
                    }
                    assert forall|p: u64| pages_of(prev).insert(page_num).contains(p) implies pages_of(
                        next,
                    ).contains(p) by {
                        if p == page_num {
                            assert(next[i as int] == iovas@[i as int]);
                        } else {
                            let k = choose|k: int| 0 <= k < prev.len() && page_of(prev[k]@) == p;
                            assert(next[k] == prev[k]);
                        }
                    }
                }
                assert(table@ =~= old_table.remove_keys(pages_of(next)));
            }
            i = i + 1;
        }
        assert(iovas@.take(iovas@.len() as int) =~= iovas@);
        self.page_table = table;
        Ok(())
    }

    /// Same as `unmap_pages`.
    pub fn unmap_pages_batched(&mut self, iovas: &[IOVA]) -> (r: Result<(), AddressSpaceError>)
        ensures
            forall|i: int| #[trigger]
                first_bad_iova(iovas@, i) ==> r == Err::<(), AddressSpaceError>(
                    AddressSpaceError::InvalidAddress { address: iovas@[i]@ },
                ),
            (forall|j: int| 0 <= j < iovas@.len() ==> (#[trigger] iovas@[j])@ <= MAX_VIRTUAL_ADDRESS)
                && !(exists|i: int| 0 <= i < iovas@.len() && old(self)@.contains_key(page_of((#[trigger] iovas@[i])@)))
                ==> r == Err::<(), AddressSpaceError>(AddressSpaceError::PageNotMapped),
            r is Ok <==> ((forall|j: int| 0 <= j < iovas@.len() ==> (#[trigger] iovas@[j])@ <= MAX_VIRTUAL_ADDRESS)
                && exists|i: int| 0 <= i < iovas@.len() && old(self)@.contains_key(page_of((#[trigger] iovas@[i])@))),
            r is Ok ==> final(self)@ == old(self)@.remove_keys(pages_of(iovas@)),
            r is Err ==> final(self)@ == old(self)@,
            final(self).invalidation_counts() == old(self).invalidation_counts(),
            final(self).generation() == old(self).generation(),
    {
        self.unmap_pages(iovas)
    }

    /// Gives every mapped page among the pages of `iovas` the permissions `permissions`;
    /// unmapped pages are skipped.
    pub fn update_permissions_batched(&mut self, iovas: &[IOVA], permissions: PagePermissions) -> (r: Result<
        (),
        AddressSpaceError,
    >)
        ensures
            !grants_something(permissions) ==> r == Err::<(), AddressSpaceError>(
                AddressSpaceError::InvalidPermissions,
            ),
            forall|i: int|
                grants_something(permissions) && #[trigger] first_bad_iova(iovas@, i) ==> r == Err::<
                    (),
                    AddressSpaceError,
                >(AddressSpaceError::InvalidAddress { address: iovas@[i]@ }),
            r is Ok <==> (grants_something(permissions) && forall|j: int|
                0 <= j < iovas@.len() ==> (#[trigger] iovas@[j])@ <= MAX_VIRTUAL_ADDRESS),
            r is Ok ==> final(self)@ == with_permissions_on(old(self)@, pages_of(iovas@), permissions),
            r is Err ==> final(self)@ == old(self)@,
            final(self).invalidation_counts() == old(self).invalidation_counts(),
            final(self).generation() == old(self).generation(),
    {
        if !permissions.read() && !permissions.write() && !permissions.execute() {
            return Err(AddressSpaceError::InvalidPermissions);
        }
        match Self::find_bad_iova(iovas) {
            Some(i) => {
                return Err(AddressSpaceError::InvalidAddress { address: iovas[i].as_u64() });
            },
            None => {},
        }
        let ghost old_table = self@;
        let mut table = self.take_table();
        let mut i: usize = 0;
        while i < iovas.len()
            invariant
                i <= iovas@.len(),
                table_well_formed(table@),
                table@ == with_permissions_on(old_table, pages_of(iovas@.take(i as int)), permissions),
            decreases iovas@.len() - i,
        {
            let page_num = self.page_number(iovas[i]);
            let found = match table.get(&page_num) {
                Some(e) => Some(*e),
                None => None,
            };
            match found {
                Some(e) => {
                    table.insert(page_num, e.with_permissions(permissions));
                },
                None => {},
            }
            proof {
                let prev = iovas@.take(i as int);
                let next = iovas@.take(i + 1);
                assert(pages_of(next) =~= pages_of(prev).insert(page_num)) by {
                    assert forall|p: u64| pages_of(next).contains(p) implies pages_of(prev).insert(
                        page_num,
                    ).contains(p) by {
                        let k = choose|k: int| 0 <= k < next.len() && page_of(next[k]@) == p;
                        if k < i {
                            assert(prev[k] == next[k]);
                        }
                    }
                    assert forall|p: u64| pages_of(prev).insert(page_num).contains(p) implies pages_of(
                        next,
                    ).contains(p) by {
                        if p == page_num {
                            assert(next[i as int] == iovas@[i as int]);
                        } else {
                            let k = choose|k: int| 0 <= k < prev.len() && page_of(prev[k]@) == p;
                            assert(next[k] == prev[k]);
                        }
                    }
                }
                assert(table@ =~= with_permissions_on(old_table, pages_of(next), permissions));
            }
            i = i + 1;
        }
        assert(iovas@.take(iovas@.len() as int) =~= iovas@);
        self.page_table = table;
        Ok(())
    }

    /// The mapped page numbers, in no particular order and each once.
    fn mapped_page_numbers(&self) -> (r: Vec<u64>)
        ensures
            r@.to_set() == self@.dom(),
            r@.no_duplicates(),
            r@.len() == self@.len(),
    {
        let ghost all = IteratorSpec::remaining(&vstd::std_specs::hash::spec_keys_iter(&self.page_table)).unref();
        let mut keys: Vec<u64> = Vec::new();
        for k in it: self.page_table.keys()
            invariant
                keys@.len() == it.index(),
                it.seq().unref() == all,
                forall|j: int| 0 <= j < keys@.len() ==> keys@[j] == *it.seq()[j],
        {
            keys.push(*k);
        }
        assert(keys@ =~= all);
        keys
    }

    /// The mapped page numbers in strictly ascending order.
    fn sorted_mapped_pages(&self) -> (r: Vec<u64>)
        ensures
            r@.to_set() == self@.dom(),
            r@.len() == self@.len(),
            forall|i: int, j: int| 0 <= i < j < r@.len() ==> r@[i] < r@[j],
    {
        let mut v = self.mapped_page_numbers();
        let ghost before = v@;
        sort_ascending(&mut v);
        proof {
            before.to_multiset_ensures();
            v@.to_multiset_ensures();
            before.lemma_multiset_has_no_duplicates();
            v@.lemma_multiset_has_no_duplicates_conv();
            assert forall|x: u64| v@.contains(x) <==> before.contains(x) by {
                assert(v@.to_multiset().count(x) == before.to_multiset().count(x));
            }
            assert(v@.to_set() =~= before.to_set());
            assert forall|i: int, j: int| 0 <= i < j < v@.len() implies v@[i] < v@[j] by {
                assert(v@[i] != v@[j]);
            }
        }
        v
    }

    /// The mapped pages consolidated into maximal runs of consecutive pages, in ascending order.
    pub fn get_mapped_ranges(&self) -> (r: Vec<AddressRange>)
        ensures
            ranges_are_runs_of(self@, r@),
    {
        proof {
            use_type_invariant(self);
        }
        let mut ranges: Vec<AddressRange> = Vec::new();
        let pages = self.sorted_mapped_pages();
        if pages.len() == 0 {
            proof {
                assert forall|p: u64| !self@.contains_key(p) by {
                    if self@.contains_key(p) {
                        assert(pages@.to_set().contains(p));
                    }
                }
            }
            return ranges;
        }
        proof {
            assert forall|j: int| 0 <= j < pages@.len() implies #[trigger] pages@[j] <= MAX_PAGE_NUMBER by {
                assert(pages@.to_set().contains(pages@[j]));
            }
        }
        let mut range_start: u64 = pages[0] * PAGE_SIZE;
        let mut range_end: u64 = range_start + PAGE_SIZE - 1;
        let ghost mut first: u64 = pages@[0];
        let ghost mut last: u64 = pages@[0];
        let mut i: usize = 1;
        while i < pages.len()
            invariant
                1 <= i <= pages@.len(),
                forall|a: int, b: int| 0 <= a < b < pages@.len() ==> pages@[a] < pages@[b],
                forall|j: int| 0 <= j < pages@.len() ==> #[trigger] pages@[j] <= MAX_PAGE_NUMBER,
                first <= last,
                last == pages@[i - 1],
                range_start == first * PAGE_SIZE,
                range_end == last * PAGE_SIZE + PAGE_SIZE - 1,
                forall|k: int|
                    0 <= k < ranges@.len() ==> (#[trigger] ranges@[k]).start@ % PAGE_SIZE == 0
                        && ranges@[k].end@ % PAGE_SIZE == PAGE_SIZE - 1 && ranges@[k].start@ < ranges@[k].end@,
                forall|k1: int, k2: int|
                    0 <= k1 < k2 < ranges@.len() ==> (#[trigger] ranges@[k1]).end@ + 1 < (
                    #[trigger] ranges@[k2]).start@,
                forall|k: int| 0 <= k < ranges@.len() ==> (#[trigger] ranges@[k]).end@ + 1 < range_start,
                forall|p: u64| #[trigger]
                    in_prefix(pages@, i as int, p) <==> (covered_by(ranges@, p) || (first <= p <= last)),
            decreases pages@.len() - i,
        {
            let page_num = pages[i];
            let current_page_addr = page_num * PAGE_SIZE;
            let ghost old_ranges = ranges@;
            if current_page_addr == range_end + 1 {
                range_end = current_page_addr + PAGE_SIZE - 1;
                proof {
                    last = page_num;
                }
            } else {
                ranges.push(AddressRange::new(IOVA::const_new(range_start), IOVA::const_new(range_end)));
                proof {
                    lemma_covered_by_push(old_ranges, ranges@[old_ranges.len() as int]);
                    first = page_num;
                    last = page_num;
                }
                range_start = current_page_addr;
                range_end = range_start + PAGE_SIZE - 1;
            }
            proof {
                assert forall|p: u64| #[trigger]
                    in_prefix(pages@, i + 1, p) <==> (covered_by(ranges@, p) || (first <= p <= last)) by {
                    lemma_in_prefix_step(pages@, i as int, p);
                }
            }
            i = i + 1;
        }
        let ghost old_ranges = ranges@;
        ranges.push(AddressRange::new(IOVA::const_new(range_start), IOVA::const_new(range_end)));
        proof {
            lemma_covered_by_push(old_ranges, ranges@[old_ranges.len() as int]);
            assert forall|p: u64| #![trigger self@.contains_key(p)]
                self@.contains_key(p) <==> exists|k: int|
                    0 <= k < ranges@.len() && #[trigger] range_covers_page(ranges@[k], p) by {
                assert(self@.contains_key(p) <==> pages@.to_set().contains(p));
                assert(in_prefix(pages@, i as int, p) <==> pages@.contains(p));
                assert(covered_by(ranges@, p) <==> exists|k: int|
                    0 <= k < ranges@.len() && #[trigger] range_covers_page(ranges@[k], p));
            }
        }
        ranges
    }

    /// Bytes from the start of the lowest mapped page to the end of the highest one; 0 when
    /// nothing is mapped.
    pub fn get_address_space_size(&self) -> (r: u64)
        ensures
            self@.dom().is_empty() ==> r == 0,
            !self@.dom().is_empty() ==> exists|lo: u64, hi: u64|
                #![trigger self@.contains_key(lo), self@.contains_key(hi)]
                self@.contains_key(lo) && self@.contains_key(hi) && (forall|p: u64|
                    #[trigger] self@.contains_key(p) ==> lo <= p <= hi) && r == (hi - lo + 1) * PAGE_SIZE,
    {
        proof {
            use_type_invariant(self);
        }
        let pages = self.mapped_page_numbers();
        if pages.len() == 0 {
            proof {
                assert forall|p: u64| !self@.contains_key(p) by {
                    if self@.contains_key(p) {
                        assert(pages@.to_set().contains(p));
                    }
                }
                assert(self@.dom() =~= Set::<u64>::empty());
            }
            return 0;
        }
        proof {
            assert forall|j: int| 0 <= j < pages@.len() implies #[trigger] pages@[j] <= MAX_PAGE_NUMBER by {
                assert(pages@.to_set().contains(pages@[j]));
            }
        }
        let mut min_page_num = pages[0];
        let mut max_page_num = pages[0];
        let mut i: usize = 1;
        while i < pages.len()
            invariant
                1 <= i <= pages@.len(),
                forall|j: int| 0 <= j < pages@.len() ==> #[trigger] pages@[j] <= MAX_PAGE_NUMBER,
                pages@.contains(min_page_num),
                pages@.contains(max_page_num),
                forall|j: int| 0 <= j < i ==> min_page_num <= #[trigger] pages@[j] <= max_page_num,
            decreases pages@.len() - i,
        {
            if pages[i] < min_page_num {
                min_page_num = pages[i];
            }
            if pages[i] > max_page_num {
                max_page_num = pages[i];
            }
            i = i + 1;
        }
        proof {
            assert(pages@.to_set().contains(min_page_num));
            assert(pages@.to_set().contains(max_page_num));
            assert forall|p: u64| #[trigger] self@.contains_key(p) implies min_page_num <= p <= max_page_num by {
                assert(pages@.to_set().contains(p));
            }
        }
        let min_address = min_page_num * PAGE_SIZE;
        let max_address = max_page_num * PAGE_SIZE + PAGE_SIZE - 1;
        max_address - min_address + 1
    }

    /// Moves the invalidation counters out, leaving an empty map in their place.
    fn take_invalidations(&mut self) -> (r: HashMap<u64, u64>)
        ensures
            r@ == old(self).invalidation_counts(),
            final(self)@ == old(self)@,
            final(self).invalidation_counts() == Map::<u64, u64>::empty(),
            final(self).generation() == old(self).generation(),
            table_well_formed(final(self)@),
    {
        proof {
            use_type_invariant(&*self);
        }
        let mut m = HashMap::new();
        std::mem::swap(&mut m, &mut self.invalidation_map);
        m
    }

    /// Records one invalidation of `page_num`.
    fn bump_invalidation(m: &mut HashMap<u64, u64>, page_num: u64)
        ensures
            final(m)@ == old(m)@.insert(page_num, count_of(old(m)@, page_num).wrapping_add(1)),
    {
        let current = match m.get(&page_num) {
            Some(v) => *v,
            None => 0,
        };
        m.insert(page_num, current.wrapping_add(1));
    }

    /// Records an invalidation of the page of `iova` and advances the generation counter (both
    /// counters wrap).
    pub fn invalidate_page_atomic(&mut self, iova: IOVA)
        ensures
            final(self)@ == old(self)@,
            final(self).generation() == old(self).generation().wrapping_add(1),
            final(self).invalidation_counts() == old(self).invalidation_counts().insert(
                page_of(iova@),
                count_of(old(self).invalidation_counts(), page_of(iova@)).wrapping_add(1),
            ),
    {
        proof {
            use_type_invariant(&*self);
        }
        let page_num = self.page_number(iova);
        self.invalidation_generation = self.invalidation_generation.wrapping_add(1);
        let mut m = self.take_invalidations();
        Self::bump_invalidation(&mut m, page_num);
        self.invalidation_map = m;
    }

    /// Records an invalidation of every mapped page from the page of `start` to the page of `end`
    /// and advances the generation counter by their number, which it returns.
    pub fn invalidate_range_atomic(&mut self, start: IOVA, end: IOVA) -> (r: usize)
        ensures
            r == mapped_pages_in(old(self)@, page_of(start@), page_of(end@)).len(),
            final(self)@ == old(self)@,
            final(self).invalidation_counts() == bump_all(
                old(self).invalidation_counts(),
                mapped_pages_in(old(self)@, page_of(start@), page_of(end@)),
            ),
            final(self).generation() == old(self).generation().wrapping_add(r as u64),
    {
        let start_page = self.page_number(start);
        let end_page = self.page_number(end);
        let ghost table = self@;
        let ghost old_counts = self.invalidation_counts();
        let mut m = self.take_invalidations();
        let mut count: usize = 0;
        let mut page_num = start_page;
        assert(end_page < u64::MAX) by {
            assert(end@ / 4096 <= u64::MAX / 4096);
        }
        proof {
            let ghost len = self.page_table.len();
            assert(mapped_pages_before(table, start_page, start_page) =~= Set::<u64>::empty());
            assert(bump_all(old_counts, Set::<u64>::empty()) =~= old_counts);
        }
        while page_num <= end_page
            invariant
                start_page <= page_num <= end_page + 1 || (page_num == start_page && start_page > end_page),
                end_page < u64::MAX,
                self@ == table,
                table.dom().finite(),
                table.len() <= usize::MAX,
                table_well_formed(self@),
                count == mapped_pages_before(table, start_page, page_num).len(),
                mapped_pages_before(table, start_page, page_num).finite(),
                m@ == bump_all(old_counts, mapped_pages_before(table, start_page, page_num)),
            decreases end_page + 1 - page_num,
        {
            let ghost before = mapped_pages_before(table, start_page, page_num);
            if self.page_table.contains_key(&page_num) {
                Self::bump_invalidation(&mut m, page_num);
                proof {
                    let after = mapped_pages_before(table, start_page, (page_num + 1) as u64);
                    assert(after =~= before.insert(page_num));
                    assert(!before.contains(page_num));
                    vstd::set_lib::lemma_len_subset(after, table.dom());
                    assert(m@ =~= bump_all(old_counts, after));
                }
                count = count + 1;
            } else {
                proof {
                    let after = mapped_pages_before(table, start_page, (page_num + 1) as u64);
                    assert(after =~= before);
                    assert(m@ =~= bump_all(old_counts, after));
                }
            }
            page_num = page_num + 1;
        }
        proof {
            assert(mapped_pages_in(table, start_page, end_page) =~= mapped_pages_before(
                table,
                start_page,
                page_num,
            ));
        }
        self.invalidation_map = m;
        if count > 0 {
            self.invalidation_generation = self.invalidation_generation.wrapping_add(count as u64);
        }
        count
    }

    /// Same as `invalidate_page_atomic`; the memory ordering does not change the outcome.
    pub fn invalidate_page_with_ordering(&mut self, iova: IOVA, ordering: Ordering)
        ensures
            final(self)@ == old(self)@,
            final(self).generation() == old(self).generation().wrapping_add(1),
            final(self).invalidation_counts() == old(self).invalidation_counts().insert(
                page_of(iova@),
                count_of(old(self).invalidation_counts(), page_of(iova@)).wrapping_add(1),
            ),
    {
        self.invalidate_page_atomic(iova);
    }

    /// Whether the page of `iova` has a non-zero invalidation count.
    pub fn is_invalidated(&self, iova: IOVA) -> (r: bool)
        ensures
            r == (count_of(self.invalidation_counts(), page_of(iova@)) > 0),
    {
        let page_num = self.page_number(iova);
        match self.invalidation_map.get(&page_num) {
            Some(v) => *v > 0,
            None => false,
        }
    }

    /// Same as `is_invalidated`; the memory ordering does not change the outcome.
    pub fn is_invalidated_with_ordering(&self, iova: IOVA, ordering: Ordering) -> (r: bool)
        ensures
            r == (count_of(self.invalidation_counts(), page_of(iova@)) > 0),
    {
        self.is_invalidated(iova)
    }

    /// The global invalidation generation counter.
    pub fn invalidation_generation(&self) -> (r: u64)
        ensures
            r == self.generation(),
    {
        self.invalidation_generation
    }

    /// Sets the invalidation count of the page of `iova` (0 if it had none) to `new` (as 0 or 1)
    /// when it equals `current` (as 0 or 1), and reports whether it did; the page gets a count
    /// either way.
    pub fn compare_exchange_invalidate(&mut self, iova: IOVA, current: bool, new: bool, ordering: Ordering) -> (r:
        bool)
        ensures
            final(self)@ == old(self)@,
            final(self).generation() == old(self).generation(),
            r == (count_of(old(self).invalidation_counts(), page_of(iova@)) == (if current {
                1u64
            } else {
                0u64
            })),
            final(self).invalidation_counts() == old(self).invalidation_counts().insert(
                page_of(iova@),
                if r {
                    if new {
                        1u64
                    } else {
                        0u64
                    }
                } else {
                    count_of(old(self).invalidation_counts(), page_of(iova@))
                },
            ),
    {
        let page_num = self.page_number(iova);
        let current_val: u64 = if current {
            1
        } else {
            0
        };
        let new_val: u64 = if new {
            1
        } else {
            0
        };
        let mut m = self.take_invalidations();
        let existing = match m.get(&page_num) {
            Some(v) => *v,
            None => 0,
        };
        let swapped = existing == current_val;
        if swapped {
            m.insert(page_num, new_val);
        } else {
            m.insert(page_num, existing);
        }
        self.invalidation_map = m;
        swapped
    }

    /// Does nothing: the address space itself holds no cached translations, and invalidation of
    /// cached ones is coordinated by their holders.
    pub fn invalidate_page(&mut self, iova: IOVA)
        ensures
            final(self)@ == old(self)@,
            final(self).invalidation_counts() == old(self).invalidation_counts(),
            final(self).generation() == old(self).generation(),
    {
    }

    /// The mapped pages with their addresses, each once.
    pub fn iter(&self) -> (r: Vec<PageEntryRef>)
        ensures
            r@.len() == self@.len(),
            forall|i: int|
                0 <= i < r@.len() ==> (#[trigger] r@[i])@.0@ % PAGE_SIZE == 0 && self@.contains_key(
                    page_of(r@[i]@.0@),
                ) && r@[i]@.1 == self@[page_of(r@[i]@.0@)],
            forall|i: int, j: int| 0 <= i < j < r@.len() ==> (#[trigger] r@[i])@.0 != (#[trigger] r@[j])@.0,
            forall|p: u64| #[trigger]
                self@.contains_key(p) ==> exists|i: int| 0 <= i < r@.len() && (#[trigger] r@[i])@.0@ == p * PAGE_SIZE,
    {
        proof {
            use_type_invariant(self);
        }
        let pages = self.mapped_page_numbers();
        let mut out: Vec<PageEntryRef> = Vec::new();
        let mut i: usize = 0;
        while i < pages.len()
            invariant
                i <= pages@.len(),
                pages@.to_set() == self@.dom(),
                pages@.no_duplicates(),
                table_well_formed(self@),
                out@.len() == i,
                forall|j: int|
                    0 <= j < i ==> (#[trigger] out@[j])@.0@ == pages@[j] * PAGE_SIZE && out@[j]@.1 == self@[pages@[j]],
            decreases pages@.len() - i,
        {
            let p = pages[i];
            assert(pages@.to_set().contains(p));
            let e = match self.page_table.get(&p) {
                Some(e) => *e,
                None => {
                    proof {
                        assert(false);
                    }
                    PageEntry::new(PA::const_new(0), PagePermissions::none())
                },
            };
            out.push(PageEntryRef { iova: IOVA::const_new(p * PAGE_SIZE), entry: e });
            i = i + 1;
        }
        proof {
            assert forall|i: int|
                0 <= i < out@.len() implies (#[trigger] out@[i])@.0@ % PAGE_SIZE == 0 && self@.contains_key(
                    page_of(out@[i]@.0@),
                ) && out@[i]@.1 == self@[page_of(out@[i]@.0@)] by {
                assert(pages@.to_set().contains(pages@[i]));
                assert(page_of((pages@[i] * PAGE_SIZE) as u64) == pages@[i]);
            }
            assert forall|p: u64| #[trigger]
                self@.contains_key(p) implies exists|i: int| 0 <= i < out@.len() && (#[trigger] out@[i])@.0@ == p * PAGE_SIZE by {
                assert(pages@.to_set().contains(p));
                let i = choose|i: int| 0 <= i < pages@.len() && pages@[i] == p;
                assert(out@[i]@.0@ == p * PAGE_SIZE);
            }
        }
        out
    }

    /// A read-only view of this address space.
    pub fn query(&self) -> (r: AddressSpaceQuery<'_>)
        ensures
            r@ == self@,
    {
        AddressSpaceQuery { addr_space: self }
    }

    /// The entry of the page of `iova`, if it is mapped.
    pub fn query_page(&self, iova: IOVA) -> (r: Option<&PageEntry>)
        ensures
            self@.contains_key(page_of(iova@)) ==> r == Some(&self@[page_of(iova@)]),
            !self@.contains_key(page_of(iova@)) ==> r == None::<&PageEntry>,
    {
        let page_num = self.page_number(iova);
        self.page_table.get(&page_num)
    }

    /// Gives the mapped page of `iova` new permissions, keeping its frame and security state;
    /// the result says whether the page was mapped (an unmapped page is left unmapped). This is
    /// the in-place permission update that a mutable view of one page entry offers.
    pub fn set_page_permissions(&mut self, iova: IOVA, permissions: PagePermissions) -> (r: bool)
        ensures
            r == old(self)@.contains_key(page_of(iova@)),
            r ==> final(self)@ == old(self)@.insert(
                page_of(iova@),
                PageEntry { permissions, ..old(self)@[page_of(iova@)] },
            ),
            !r ==> final(self)@ == old(self)@,
            final(self).invalidation_counts() == old(self).invalidation_counts(),
            final(self).generation() == old(self).generation(),
    {
        let page_num = self.page_number(iova);
        let mut table = self.take_table();
        let found = match table.get(&page_num) {
            Some(e) => Some(*e),
            None => None,
        };
        let r = match found {
            Some(entry) => {
                table.insert(page_num, entry.with_permissions(permissions));
                true
            },
            None => false,
        };
        self.page_table = table;
        r
    }

    /// Does nothing: the address space itself holds no cached translations of a range.
    pub fn invalidate_range(&mut self, start_iova: IOVA, end_iova: IOVA)
        ensures
            final(self)@ == old(self)@,
            final(self).invalidation_counts() == old(self).invalidation_counts(),
            final(self).generation() == old(self).generation(),
    {
    }

    /// Does nothing: the address space itself holds no cached translations.
    pub fn invalidate_all(&mut self)
        ensures
            final(self)@ == old(self)@,
            final(self).invalidation_counts() == old(self).invalidation_counts(),
            final(self).generation() == old(self).generation(),
    {
    }

    /// Maps each `(IOVA, PA)` pair in order as a non-secure page, as `map_pages` does, staging the
    /// new entries in a small inline buffer before touching the page table.
    pub fn map_pages_batched(&mut self, mappings: &[(IOVA, PA)], permissions: PagePermissions) -> (r: Result<
        (),
        AddressSpaceError,
    >)
        ensures
            !grants_something(permissions) ==> r == Err::<(), AddressSpaceError>(
                AddressSpaceError::InvalidPermissions,
            ),
            forall|i: int|
                grants_something(permissions) && #[trigger] first_bad_mapping(mappings@, i) ==> r == Err::<
                    (),
                    AddressSpaceError,
                >(AddressSpaceError::InvalidAddress { address: bad_mapping_address(mappings@[i]) }),
            r is Ok <==> (grants_something(permissions) && forall|j: int|
                0 <= j < mappings@.len() ==> !mapping_is_bad(#[trigger] mappings@[j])),
            r is Ok ==> final(self)@ == apply_mappings(old(self)@, mappings@, permissions),
            r is Err ==> final(self)@ == old(self)@,
            final(self).invalidation_counts() == old(self).invalidation_counts(),
            final(self).generation() == old(self).generation(),
    {
        if !permissions.read() && !permissions.write() && !permissions.execute() {
            return Err(AddressSpaceError::InvalidPermissions);
        }
        let mut batch = batch_with_capacity(mappings.len());
        let mut i: usize = 0;
        while i < mappings.len()
            invariant
                i <= mappings@.len(),
                grants_something(permissions),
                self@ == old(self)@,
                self.invalidation_counts() == old(self).invalidation_counts(),
                self.generation() == old(self).generation(),
                forall|j: int| 0 <= j < i ==> !mapping_is_bad(#[trigger] mappings@[j]),
                batch_items(batch).len() == i,
                forall|j: int|
                    0 <= j < i ==> #[trigger] batch_items(batch)[j] == (
                        page_of(mappings@[j].0@),
                        PageEntry {
                            physical_address: PA(page_base(mappings@[j].1@)),
                            permissions,
                            security_state: SecurityState::NonSecure,
                            valid: true,
                        },
                    ),
            decreases mappings@.len() - i,
        {
            let (iova, pa) = mappings[i];
            if iova.as_u64() > MAX_VIRTUAL_ADDRESS {
                proof {
                    assert(first_bad_mapping(mappings@, i as int));
                }
                return Err(AddressSpaceError::InvalidAddress { address: iova.as_u64() });
            }
            if pa.as_u64() > MAX_PHYSICAL_ADDRESS {
                proof {
                    assert(first_bad_mapping(mappings@, i as int));
                }
                return Err(AddressSpaceError::InvalidAddress { address: pa.as_u64() });
            }
            let page_num = self.page_number(iova);
            let raw = pa.as_u64();
            let aligned = raw & !0xFFFu64;
            assert(raw & !0xFFFu64 == raw - raw % 4096) by (bit_vector);
            let entry = PageEntry::new(PA::const_new(aligned), permissions);
            batch_push(&mut batch, (page_num, entry));
            i = i + 1;
        }
        let items = batch_into_vec(batch);
        let ghost old_table = self@;
        let mut table = self.take_table();
        table.reserve(items.len());
        let mut k: usize = 0;
        while k < items.len()
            invariant
                k <= items@.len(),
                items@.len() == mappings@.len(),
                forall|j: int| 0 <= j < mappings@.len() ==> !mapping_is_bad(#[trigger] mappings@[j]),
                forall|j: int|
                    0 <= j < items@.len() ==> #[trigger] items@[j] == (
                        page_of(mappings@[j].0@),
                        PageEntry {
                            physical_address: PA(page_base(mappings@[j].1@)),
                            permissions,
                            security_state: SecurityState::NonSecure,
                            valid: true,
                        },
                    ),
                table_well_formed(table@),
                table@ == apply_mappings(old_table, mappings@.take(k as int), permissions),
            decreases items@.len() - k,
        {
            let (page_num, entry) = items[k];
            table.insert(page_num, entry);
            assert(mappings@.take(k + 1).drop_last() =~= mappings@.take(k as int));
            k = k + 1;
        }
        assert(mappings@.take(mappings@.len() as int) =~= mappings@);
        self.page_table = table;
        Ok(())
    }
}

impl Clone for AddressSpace {
    /// A copy with the same mappings, invalidation counters and generation.
    fn clone(&self) -> (r: AddressSpace)
        ensures
            r@ == self@,
            r.invalidation_counts() == self.invalidation_counts(),
            r.generation() == self.generation(),
    {
        proof {
            use_type_invariant(self);
        }
        AddressSpace {
            page_table: self.page_table.clone(),
            invalidation_generation: self.invalidation_generation,
            invalidation_map: self.invalidation_map.clone(),
        }
    }
}

impl Default for AddressSpace {
    /// An empty address space.
    fn default() -> (r: AddressSpace)
        ensures
            r@ == Map::<u64, PageEntry>::empty(),
            r.invalidation_counts() == Map::<u64, u64>::empty(),
            r.generation() == 0,
    {
        AddressSpace::new()
    }
}


// ---------------------------------------------------------------------------------------------
// Laws of translation
// ---------------------------------------------------------------------------------------------

/// After `map_page(iova, pa, permissions, security_state)` succeeds, an allowed access in the
/// same security state to any address on the page of `iova` translates to the page of `pa` plus
/// the address's page offset, with the mapping's permissions.
pub proof fn lemma_translate_after_map(
    m: Map<u64, PageEntry>,
    iova: IOVA,
    pa: PA,
    permissions: PagePermissions,
    security_state: SecurityState,
    probe: IOVA,
    access: AccessType,
)
    requires
        page_of(probe@) == page_of(iova@),
        permits(permissions, access),
    ensures
        translation_of(
            m.insert(page_of(iova@), mapped_entry(pa, permissions, security_state)),
            probe,
            access,
            security_state,
        ) == Ok::<TranslationData, TranslationError>(
            TranslationData {
                physical_address: PA((page_base(pa@) + probe@ % PAGE_SIZE) as u64),
                permissions,
                security_state,
            },
        ),
{
}

/// After the permissions of a mapped page were replaced, a translation on that page from its
/// own security state reaches the same frame with the new permissions, exactly when they
/// allow the access.
pub proof fn lemma_translate_after_permission_update(
    m: Map<u64, PageEntry>,
    iova: IOVA,
    permissions: PagePermissions,
    probe: IOVA,
    access: AccessType,
)
    requires
        m.contains_key(page_of(iova@)),
        m[page_of(iova@)].valid,
        page_of(probe@) == page_of(iova@),
    ensures
        translation_of(
            m.insert(page_of(iova@), PageEntry { permissions, ..m[page_of(iova@)] }),
            probe,
            access,
            m[page_of(iova@)].security_state,
        ) == (if permits(permissions, access) {
            Ok::<TranslationData, TranslationError>(
                TranslationData {
                    physical_address: PA((m[page_of(iova@)].physical_address@ + probe@ % PAGE_SIZE) as u64),
                    permissions,
                    security_state: m[page_of(iova@)].security_state,
                },
            )
        } else {
            Err(TranslationError::PermissionViolation { access })
        }),
{
}

/// A mapped page refuses an access its permissions do not allow, and any access from another
/// security state.
pub proof fn lemma_translate_refused(
    m: Map<u64, PageEntry>,
    iova: IOVA,
    pa: PA,
    permissions: PagePermissions,
    security_state: SecurityState,
    probe: IOVA,
    access: AccessType,
    other_state: SecurityState,
)
    requires
        page_of(probe@) == page_of(iova@),
    ensures
        !permits(permissions, access) ==> translation_of(
            m.insert(page_of(iova@), mapped_entry(pa, permissions, security_state)),
            probe,
            access,
            security_state,
        ) == Err::<TranslationData, TranslationError>(TranslationError::PermissionViolation { access }),
        other_state != security_state ==> translation_of(
            m.insert(page_of(iova@), mapped_entry(pa, permissions, security_state)),
            probe,
            access,
            other_state,
        ) == Err::<TranslationData, TranslationError>(TranslationError::SecurityViolation),
{
}

/// After `unmap_page(iova)` succeeds, every address on that page translates to `PageNotMapped`.
pub proof fn lemma_translate_after_unmap(
    m: Map<u64, PageEntry>,
    iova: IOVA,
    probe: IOVA,
    access: AccessType,
    security_state: SecurityState,
)
    requires
        page_of(probe@) == page_of(iova@),
    ensures
        translation_of(m.remove(page_of(iova@)), probe, access, security_state) == Err::<
            TranslationData,
            TranslationError,
        >(TranslationError::PageNotMapped),
{
}

/// Mapping or unmapping one page leaves the translation of every other page unchanged.
pub proof fn lemma_other_pages_unaffected(
    m: Map<u64, PageEntry>,
    page: u64,
    entry: PageEntry,
    probe: IOVA,
    access: AccessType,
    security_state: SecurityState,
)
    requires
        page_of(probe@) != page,
    ensures
        translation_of(m.insert(page, entry), probe, access, security_state) == translation_of(
            m,
            probe,
            access,
            security_state,
        ),
        translation_of(m.remove(page), probe, access, security_state) == translation_of(
            m,
            probe,
            access,
            security_state,
        ),
{
}

/// After `clear`, nothing translates.
pub proof fn lemma_cleared_translates_nothing(probe: IOVA, access: AccessType, security_state: SecurityState)
    ensures
        translation_of(Map::<u64, PageEntry>::empty(), probe, access, security_state) == Err::<
            TranslationData,
            TranslationError,
        >(TranslationError::PageNotMapped),
{
}

/// After `map_range(start, end, start_pa, permissions)` succeeds, a non-secure access that the
/// permissions allow to an address `k` pages past the page of `start`, up to the page of `end`,
/// translates to `k` pages past the page of `start_pa`, plus the page offset.
pub proof fn lemma_translate_after_map_range(
    m: Map<u64, PageEntry>,
    start: IOVA,
    end: IOVA,
    start_pa: PA,
    permissions: PagePermissions,
    probe: IOVA,
    access: AccessType,
)
    requires
        start@ <= probe@ <= end@ <= MAX_VIRTUAL_ADDRESS,
        start_pa@ <= MAX_PHYSICAL_ADDRESS,
        permits(permissions, access),
    ensures
        translation_of(
            m.union_prefer_right(
                range_entries(page_of(start@), (page_of(end@) + 1) as u64, page_base(start_pa@), permissions),
            ),
            probe,
            access,
            SecurityState::NonSecure,
        ) == Ok::<TranslationData, TranslationError>(
            TranslationData {
                physical_address: PA(
                    (page_base(start_pa@) + (page_of(probe@) - page_of(start@)) * PAGE_SIZE + probe@
                        % PAGE_SIZE) as u64,
                ),
                permissions,
                security_state: SecurityState::NonSecure,
            },
        ),
{
    let p = page_of(probe@);
    assert(page_of(start@) <= p <= page_of(end@)) by {
        vstd::arithmetic::div_mod::lemma_div_is_ordered(start@ as int, probe@ as int, 4096);
        vstd::arithmetic::div_mod::lemma_div_is_ordered(probe@ as int, end@ as int, 4096);
    }
    let base = (page_base(start_pa@) + (p - page_of(start@)) * PAGE_SIZE) as u64;
    assert((page_base(start_pa@) + (p - page_of(start@)) * PAGE_SIZE) < 0x20_0000_0000_0000) by (nonlinear_arith)
        requires
            page_base(start_pa@) <= start_pa@ <= MAX_PHYSICAL_ADDRESS,
            p - page_of(start@) <= page_of(end@),
            page_of(end@) <= MAX_PAGE_NUMBER,
            MAX_PHYSICAL_ADDRESS == 0x000F_FFFF_FFFF_FFFF,
            MAX_PAGE_NUMBER == 0xFF_FFFF_FFFF,
            PAGE_SIZE == 4096,
    ;
}

} // verus!
