//! A named virtual range with one mapping policy and one attribute set.

use vstd::prelude::*;
use crate::consts::{PAGE_SIZE, PHYSICAL_MEMORY_OFFSET};
use crate::machine::PhysicalMemory;
use crate::memory::frame_allocator::LinearFrameAllocator;
use crate::memory::manager::handler::{byframe_pte, linear_pte, Handler};
use crate::memory::manager::paging::range::{page_index, VirtualPageRange};
use crate::memory::manager::paging::table::{vpn, PageTable};
use crate::memory::memory_set::attr::MemoryAttr;

verus! {

/// The virtual page number of the page with index `idx`.
pub proof fn lemma_page_vpn(idx: u64)
    ensures
        vpn((idx * 4096) as u64) == idx & 0x7ff_ffff,
{
    assert((((idx * 4096) as u64 >> 12) & 0x7ff_ffff) == idx & 0x7ff_ffff) by (bit_vector);
}

/// Page indices less than the table span apart have distinct virtual page
/// numbers.
pub proof fn lemma_page_vpn_distinct(a: u64, b: u64)
    requires
        a < b,
        b - a < 0x800_0000,
    ensures
        a & 0x7ff_ffff != b & 0x7ff_ffff,
{
    assert(a < b && b - a < 0x800_0000 ==> a & 0x7ff_ffff != b & 0x7ff_ffff) by (bit_vector);
}

/// What the fields of a stub area are.
pub broadcast proof fn lemma_area_stub(start: u64, end: u64, handler: Handler, attr: MemoryAttr)
    ensures
        (#[trigger] Area::stub(start, end, handler, attr)).spec_start() == start,
        Area::stub(start, end, handler, attr).spec_end() == end,
        Area::stub(start, end, handler, attr).spec_handler() == handler,
        Area::stub(start, end, handler, attr).spec_attr() == attr,
{
}

/// Unsigned shift by twelve is division by the page size.
pub proof fn lemma_shr12(x: u64)
    ensures
        x >> 12 == x / 4096,
{
    assert(x >> 12 == x / 4096) by (bit_vector);
}

/// A half-open virtual range `[start, end)` with the policy that backs it
/// and the permissions it is mapped with.
pub struct Area {
    start: u64,
    end: u64,
    handler: Handler,
    attr: MemoryAttr,
}

impl Area {
    pub closed spec fn spec_start(self) -> u64 {
        self.start
    }

    pub closed spec fn spec_end(self) -> u64 {
        self.end
    }

    pub closed spec fn spec_handler(self) -> Handler {
        self.handler
    }

    pub closed spec fn spec_attr(self) -> MemoryAttr {
        self.attr
    }

    /// Number of pages the range covers.
    pub open spec fn page_count(self) -> int {
        page_index(self.spec_end() - 1) + 1 - page_index(self.spec_start() as int)
    }

    /// Start address of the range's `i`-th page.
    pub open spec fn page_addr(self, i: int) -> u64 {
        ((page_index(self.spec_start() as int) + i) * (PAGE_SIZE as int)) as u64
    }

    /// One of the range's first `k` pages has virtual page number `v`.
    pub open spec fn covers_prefix(self, k: int, v: u64) -> bool {
        exists|i: int| 0 <= i < k && vpn(#[trigger] self.page_addr(i)) == v
    }

    /// The range covers virtual page number `v`.
    pub open spec fn covers_vpn(self, v: u64) -> bool {
        self.covers_prefix(self.page_count(), v)
    }

    /// One of the first `k` pages is backed (under `pt`) by frame `g`.
    pub open spec fn frame_written_prefix(self, pt: PageTable, k: int, g: u64) -> bool {
        exists|i: int|
            0 <= i < k && pt.mapping()[vpn(#[trigger] self.page_addr(i))].ppn == g
    }

    /// The range is non-empty, page indices fit the hardware, and the span
    /// stays within one table.
    pub open spec fn spec_wf(self) -> bool {
        &&& self.spec_start() < self.spec_end()
        &&& page_index(self.spec_end() - 1) + 1 <= page_index(u64::MAX as int) + 1
        &&& self.page_count() <= 0x800_0000
        &&& (self.spec_handler() matches Handler::Linear(l) ==> l.spec_offset() % PAGE_SIZE == 0
            && l.spec_offset() <= self.spec_start())
    }

    /// The area value with the given fields.
    pub closed spec fn stub(start: u64, end: u64, handler: Handler, attr: MemoryAttr) -> Area {
        Area { start, end, handler, attr }
    }


    /// An area over `[start, end)`.
    pub fn new(start: u64, end: u64, handler: Handler, attr: MemoryAttr) -> (r: Area)
        ensures
            r == Area::stub(start, end, handler, attr),
            r.spec_start() == start,
            r.spec_end() == end,
            r.spec_handler() == handler,
            r.spec_attr() == attr,
    {
        Area { start, end, handler, attr }
    }

    /// Distinct pages of this area have distinct virtual page numbers.
    pub proof fn lemma_distinct_pages(self, i: int, j: int)
        requires
            self.spec_wf(),
            0 <= i < j < self.page_count(),
        ensures
            vpn(self.page_addr(i)) != vpn(self.page_addr(j)),
    {
        let base = page_index(self.spec_start() as int);
        assert(base >= 0 && base + self.page_count() <= page_index(u64::MAX as int) + 1);
        assert(page_index(u64::MAX as int) < 0x10_0000_0000_0000) by (nonlinear_arith)
            requires PAGE_SIZE == 4096;
        let a = (base + i) as u64;
        let b = (base + j) as u64;
        assert((a * 4096) as u64 == self.page_addr(i) && (b * 4096) as u64 == self.page_addr(j));
        lemma_page_vpn(a);
        lemma_page_vpn(b);
        lemma_page_vpn_distinct(a, b);
    }

    /// Map every page of the range with the area's policy and attribute.
    pub fn map(&self, page_table: &mut PageTable, allocator: &mut LinearFrameAllocator)
        requires
            self.spec_wf(),
            old(page_table).wf(),
            old(allocator).wf(),
            old(allocator).free_count() >= 3 * self.page_count(),
            old(allocator).offset + old(allocator).size <= 0x10_0000_0000_0000,
        ensures
            final(page_table).wf(),
            final(page_table).spec_token() == old(page_table).spec_token(),
            final(page_table).spec_root() == old(page_table).spec_root(),
            final(allocator).wf(),
            final(allocator).offset == old(allocator).offset,
            final(allocator).size == old(allocator).size,
            final(allocator).free_count() >= old(allocator).free_count() - 3 * self.page_count(),
            forall|f: u64| old(allocator).live(f) ==> final(allocator).live(f),
            forall|v: u64|
                !self.covers_vpn(v) ==> (final(page_table).mapping().contains_key(v) == old(
                    page_table,
                ).mapping().contains_key(v) && (old(page_table).mapping().contains_key(v)
                    ==> final(page_table).mapping()[v] == old(page_table).mapping()[v])),
            self.spec_handler() matches Handler::Linear(l) ==> forall|i: int|
                0 <= i < self.page_count() ==> final(page_table).mapping().contains_key(
                    vpn(#[trigger] self.page_addr(i)),
                ) && final(page_table).mapping()[vpn(self.page_addr(i))] == linear_pte(
                    self.spec_attr(),
                    l.spec_offset(),
                    self.page_addr(i),
                ),
            self.spec_handler() is ByFrame ==> (forall|i: int|
                0 <= i < self.page_count() ==> final(page_table).mapping().contains_key(
                    vpn(#[trigger] self.page_addr(i)),
                ) && final(page_table).mapping()[vpn(self.page_addr(i))] == byframe_pte(
                    self.spec_attr(),
                    final(page_table).mapping()[vpn(self.page_addr(i))].ppn,
                ) && !old(allocator).live(
                    final(page_table).mapping()[vpn(self.page_addr(i))].ppn,
                ) && final(allocator).live(
                    final(page_table).mapping()[vpn(self.page_addr(i))].ppn,
                )) && (forall|i: int, j: int|
                0 <= i < j < self.page_count() ==> final(page_table).mapping()[vpn(
                    #[trigger] self.page_addr(i),
                )].ppn != final(page_table).mapping()[vpn(#[trigger] self.page_addr(j))].ppn),
    {
        let mut range = VirtualPageRange::new(self.start, self.end);
        let ghost total = self.page_count();
        let ghost k: int = 0;
        proof {
            assert(range.pages().len() == total);
        }
        loop
            invariant_except_break
                self.spec_wf(),
                total == self.page_count(),
                0 <= k <= total,
                range.wf(),
                range.start_index() == page_index(self.spec_start() as int) + k,
                range.end_index() == page_index(self.spec_end() - 1) + 1,
                page_table.wf(),
                page_table.spec_token() == old(page_table).spec_token(),
                page_table.spec_root() == old(page_table).spec_root(),
                allocator.wf(),
                allocator.offset == old(allocator).offset,
                allocator.size == old(allocator).size,
                allocator.offset + allocator.size <= 0x10_0000_0000_0000,
                allocator.free_count() >= old(allocator).free_count() - 3 * k,
                old(allocator).free_count() >= 3 * total,
                forall|f: u64| old(allocator).live(f) ==> allocator.live(f),
                forall|v: u64|
                    !self.covers_prefix(k, v) ==> (page_table.mapping().contains_key(v) == old(
                        page_table,
                    ).mapping().contains_key(v) && (old(page_table).mapping().contains_key(v)
                        ==> page_table.mapping()[v] == old(page_table).mapping()[v])),
                self.spec_handler() matches Handler::Linear(l) ==> forall|i: int|
                    0 <= i < k ==> page_table.mapping().contains_key(
                        vpn(#[trigger] self.page_addr(i)),
                    ) && page_table.mapping()[vpn(self.page_addr(i))] == linear_pte(
                        self.spec_attr(),
                        l.spec_offset(),
                        self.page_addr(i),
                    ),
                self.spec_handler() is ByFrame ==> (forall|i: int|
                    0 <= i < k ==> page_table.mapping().contains_key(
                        vpn(#[trigger] self.page_addr(i)),
                    ) && page_table.mapping()[vpn(self.page_addr(i))] == byframe_pte(
                        self.spec_attr(),
                        page_table.mapping()[vpn(self.page_addr(i))].ppn,
                    ) && !old(allocator).live(
                        page_table.mapping()[vpn(self.page_addr(i))].ppn,
                    ) && allocator.live(page_table.mapping()[vpn(self.page_addr(i))].ppn))
                    && (forall|i: int, j: int|
                    0 <= i < j < k ==> page_table.mapping()[vpn(
                        #[trigger] self.page_addr(i),
                    )].ppn != page_table.mapping()[vpn(#[trigger] self.page_addr(j))].ppn),
            ensures
                k == total,
                page_table.wf(),
                page_table.spec_token() == old(page_table).spec_token(),
                page_table.spec_root() == old(page_table).spec_root(),
                allocator.wf(),
                allocator.offset == old(allocator).offset,
                allocator.size == old(allocator).size,
                allocator.free_count() >= old(allocator).free_count() - 3 * total,
                forall|f: u64| old(allocator).live(f) ==> allocator.live(f),
                forall|v: u64|
                    !self.covers_prefix(total, v) ==> (page_table.mapping().contains_key(v)
                        == old(page_table).mapping().contains_key(v) && (old(
                        page_table,
                    ).mapping().contains_key(v) ==> page_table.mapping()[v] == old(
                        page_table,
                    ).mapping()[v])),
                self.spec_handler() matches Handler::Linear(l) ==> forall|i: int|
                    0 <= i < total ==> page_table.mapping().contains_key(
                        vpn(#[trigger] self.page_addr(i)),
                    ) && page_table.mapping()[vpn(self.page_addr(i))] == linear_pte(
                        self.spec_attr(),
                        l.spec_offset(),
                        self.page_addr(i),
                    ),
                self.spec_handler() is ByFrame ==> (forall|i: int|
                    0 <= i < total ==> page_table.mapping().contains_key(
                        vpn(#[trigger] self.page_addr(i)),
                    ) && page_table.mapping()[vpn(self.page_addr(i))] == byframe_pte(
                        self.spec_attr(),
                        page_table.mapping()[vpn(self.page_addr(i))].ppn,
                    ) && !old(allocator).live(
                        page_table.mapping()[vpn(self.page_addr(i))].ppn,
                    ) && allocator.live(page_table.mapping()[vpn(self.page_addr(i))].ppn))
                    && (forall|i: int, j: int|
                    0 <= i < j < total ==> page_table.mapping()[vpn(
                        #[trigger] self.page_addr(i),
                    )].ppn != page_table.mapping()[vpn(#[trigger] self.page_addr(j))].ppn),
            decreases total - k,
        {
            let next = range.next();
            match next {
                Some(page) => {
                    proof {
                        assert(k < total);
                        assert(range.pages().len() == range.end_index() - range.start_index());
                        assert(range.start_index() == page_index(self.spec_start() as int) + k
                            + 1);
                        assert(k + 1 <= total);
                        assert(page == self.page_addr(k));
                        assert((page_index(self.spec_start() as int) + k) * (PAGE_SIZE as int)
                            <= page_index(u64::MAX as int) * (PAGE_SIZE as int) <= u64::MAX)
                            by (nonlinear_arith)
                            requires
                                PAGE_SIZE == 4096,
                                0 <= page_index(self.spec_start() as int) + k <= page_index(
                                    u64::MAX as int,
                                ),
                                page_index(u64::MAX as int) == u64::MAX as int / 4096,
                        ;
                        if self.spec_handler() is Linear {
                            let l = self.spec_handler()->Linear_0;
                            assert(l.spec_offset() <= page_index(self.spec_start() as int) * (
                            PAGE_SIZE as int)) by (nonlinear_arith)
                                requires
                                    PAGE_SIZE == 4096,
                                    l.spec_offset() % PAGE_SIZE == 0,
                                    l.spec_offset() <= self.spec_start(),
                                    page_index(self.spec_start() as int) == self.spec_start()
                                        as int / 4096,
                            ;
                            assert(page_index(self.spec_start() as int) * (PAGE_SIZE as int)
                                <= (page_index(self.spec_start() as int) + k) * (
                            PAGE_SIZE as int)) by (nonlinear_arith)
                                requires k >= 0 && PAGE_SIZE == 4096;
                        }
                    }
                    let ghost pre_pt = *page_table;
                    let ghost pre_alloc = *allocator;
                    self.handler.map(page_table, allocator, page, &self.attr);
                    proof {
                        k = k + 1;
                        let kk = k - 1;
                        assert forall|a: int, b: int| 0 <= a < b < total implies vpn(
                            self.page_addr(a),
                        ) != vpn(self.page_addr(b)) by {
                            self.lemma_distinct_pages(a, b);
                        }
                        let w = vpn(self.page_addr(kk));
                        if self.spec_handler() is ByFrame {
                            let f = choose|f: u64|
                                {
                                    &&& pre_alloc.is_lowest_free(f)
                                    &&& allocator.live(f)
                                    &&& page_table.mapping() == pre_pt.mapping().insert(
                                        w,
                                        byframe_pte(self.spec_attr(), f),
                                    )
                                };
                            assert(page_table.mapping() == pre_pt.mapping().insert(
                                w,
                                byframe_pte(self.spec_attr(), f),
                            ));
                            assert(!old(allocator).live(f));
                        }
                        assert forall|v: u64| v != w implies (page_table.mapping().contains_key(
                            v,
                        ) == pre_pt.mapping().contains_key(v) && (pre_pt.mapping().contains_key(
                            v,
                        ) ==> page_table.mapping()[v] == pre_pt.mapping()[v])) by {}
                        assert forall|v: u64|
                            !self.covers_prefix(k, v) implies (
                        page_table.mapping().contains_key(v) == old(
                            page_table,
                        ).mapping().contains_key(v) && (old(page_table).mapping().contains_key(v)
                            ==> page_table.mapping()[v] == old(page_table).mapping()[v])) by {
                            if vpn(self.page_addr(kk)) == v {
                                assert(self.covers_prefix(k, v));
                            }
                            if self.covers_prefix(kk, v) {
                                let i = choose|i: int|
                                    0 <= i < kk && vpn(#[trigger] self.page_addr(i)) == v;
                                assert(self.covers_prefix(k, v));
                            }
                            assert(!self.covers_prefix(kk, v));
                            assert(pre_pt.mapping().contains_key(v) == old(
                                page_table,
                            ).mapping().contains_key(v) && (old(page_table).mapping().contains_key(
                                v,
                            ) ==> pre_pt.mapping()[v] == old(page_table).mapping()[v]));
                        }
                        assert forall|i: int| 0 <= i < k implies page_table.mapping(
                        ).contains_key(vpn(#[trigger] self.page_addr(i))) by {
                            if i < kk {
                                assert(vpn(self.page_addr(i)) != w);
                                assert(pre_pt.mapping().contains_key(vpn(self.page_addr(i))));
                            }
                        }
                    }
                },
                None => {
                    proof {
                        assert(range.pages().len() == 0);
                        assert(k == total);
                    }
                    break;
                },
            }
        }
    }

    /// Unmap every page of the range.
    pub fn unmap(&self, page_table: &mut PageTable)
        requires
            self.spec_wf(),
            old(page_table).wf(),
            forall|i: int|
                0 <= i < self.page_count() ==> old(page_table).mapping().contains_key(
                    vpn(#[trigger] self.page_addr(i)),
                ),
        ensures
            final(page_table).wf(),
            final(page_table).spec_token() == old(page_table).spec_token(),
            final(page_table).spec_root() == old(page_table).spec_root(),
            forall|i: int|
                0 <= i < self.page_count() ==> !final(page_table).mapping().contains_key(
                    vpn(#[trigger] self.page_addr(i)),
                ),
            forall|v: u64|
                !self.covers_vpn(v) ==> (final(page_table).mapping().contains_key(v) == old(
                    page_table,
                ).mapping().contains_key(v) && (old(page_table).mapping().contains_key(v)
                    ==> final(page_table).mapping()[v] == old(page_table).mapping()[v])),
    {
        let mut range = VirtualPageRange::new(self.start, self.end);
        let ghost total = self.page_count();
        let ghost k: int = 0;
        loop
            invariant_except_break
                self.spec_wf(),
                total == self.page_count(),
                0 <= k <= total,
                range.wf(),
                range.start_index() == page_index(self.spec_start() as int) + k,
                range.end_index() == page_index(self.spec_end() - 1) + 1,
                page_table.wf(),
                page_table.spec_token() == old(page_table).spec_token(),
                page_table.spec_root() == old(page_table).spec_root(),
                forall|i: int|
                    k <= i < total ==> page_table.mapping().contains_key(
                        vpn(#[trigger] self.page_addr(i)),
                    ),
                forall|i: int|
                    0 <= i < k ==> !page_table.mapping().contains_key(
                        vpn(#[trigger] self.page_addr(i)),
                    ),
                forall|v: u64|
                    !self.covers_prefix(k, v) ==> (page_table.mapping().contains_key(v) == old(
                        page_table,
                    ).mapping().contains_key(v) && (old(page_table).mapping().contains_key(v)
                        ==> page_table.mapping()[v] == old(page_table).mapping()[v])),
            ensures
                k == total,
                page_table.wf(),
                page_table.spec_token() == old(page_table).spec_token(),
                page_table.spec_root() == old(page_table).spec_root(),
                forall|i: int|
                    0 <= i < total ==> !page_table.mapping().contains_key(
                        vpn(#[trigger] self.page_addr(i)),
                    ),
                forall|v: u64|
                    !self.covers_prefix(total, v) ==> (page_table.mapping().contains_key(v)
                        == old(page_table).mapping().contains_key(v) && (old(
                        page_table,
                    ).mapping().contains_key(v) ==> page_table.mapping()[v] == old(
                        page_table,
                    ).mapping()[v])),
            decreases total - k,
        {
            let next = range.next();
            match next {
                Some(page) => {
                    proof {
                        assert(k < total);
                        assert(range.pages().len() == range.end_index() - range.start_index());
                        assert(range.start_index() == page_index(self.spec_start() as int) + k
                            + 1);
                        assert(k + 1 <= total);
                        assert(page == self.page_addr(k));
                        assert forall|a: int, b: int| 0 <= a < b < total implies vpn(
                            self.page_addr(a),
                        ) != vpn(self.page_addr(b)) by {
                            self.lemma_distinct_pages(a, b);
                        }
                    }
                    let ghost pre_pt = *page_table;
                    self.handler.unmap(page_table, page);
                    proof {
                        k = k + 1;
                        let kk = k - 1;
                        let w = vpn(self.page_addr(kk));
                        assert forall|v: u64|
                            !self.covers_prefix(k, v) implies (
                        page_table.mapping().contains_key(v) == old(
                            page_table,
                        ).mapping().contains_key(v) && (old(page_table).mapping().contains_key(v)
                            ==> page_table.mapping()[v] == old(page_table).mapping()[v])) by {
                            if vpn(self.page_addr(kk)) == v {
                                assert(self.covers_prefix(k, v));
                            }
                            if self.covers_prefix(kk, v) {
                                let i = choose|i: int|
                                    0 <= i < kk && vpn(#[trigger] self.page_addr(i)) == v;
                                assert(self.covers_prefix(k, v));
                            }
                            assert(!self.covers_prefix(kk, v));
                            assert(pre_pt.mapping().contains_key(v) == old(
                                page_table,
                            ).mapping().contains_key(v) && (old(page_table).mapping().contains_key(
                                v,
                            ) ==> pre_pt.mapping()[v] == old(page_table).mapping()[v]));
                        }
                        assert forall|i: int| k <= i < total implies page_table.mapping(
                        ).contains_key(vpn(#[trigger] self.page_addr(i))) by {
                            assert(vpn(self.page_addr(i)) != w);
                            assert(pre_pt.mapping().contains_key(vpn(self.page_addr(i))));
                        }
                        assert forall|i: int| 0 <= i < k implies !page_table.mapping(
                        ).contains_key(vpn(#[trigger] self.page_addr(i))) by {
                            if i < kk {
                                assert(vpn(self.page_addr(i)) != w);
                                assert(!pre_pt.mapping().contains_key(vpn(self.page_addr(i))));
                            }
                        }
                    }
                },
                None => {
                    proof {
                        assert(k == total);
                    }
                    break;
                },
            }
        }
    }

    /// Whether this area, quantized to page boundaries, overlaps the range
    /// `[start, end)` quantized the same way: true unless one page interval
    /// lies entirely before the other.
    pub fn is_overlap_with(&self, start: u64, end: u64) -> (r: bool)
        requires
            self.spec_start() < self.spec_end(),
            0 < end,
        ensures
            r == !(page_index(self.spec_start() as int) >= page_index(end - 1) + 1 || page_index(
                self.spec_end() - 1,
            ) + 1 <= page_index(start as int)),
    {
        let p1 = self.start / PAGE_SIZE;
        let p2 = (self.end - 1) / PAGE_SIZE + 1;
        let p3 = start / PAGE_SIZE;
        let p4 = (end - 1) / PAGE_SIZE + 1;
        proof {
            assert(page_index(self.spec_end() - 1) <= page_index(u64::MAX as int))
                by (nonlinear_arith)
                requires self.spec_end() <= u64::MAX && PAGE_SIZE == 4096;
            assert(page_index(end - 1) <= page_index(u64::MAX as int)) by (nonlinear_arith)
                requires end <= u64::MAX && PAGE_SIZE == 4096;
        }
        !((p1 >= p4) || (p2 <= p3))
    }

    /// Copy a source buffer into the freshly mapped range, page by page:
    /// each page takes the next page-sized piece of the buffer, and what
    /// lies past `length` is zero-filled.
    pub fn page_copy(
        &self,
        page_table: &PageTable,
        ram: &mut PhysicalMemory,
        src: &Vec<u8>,
        length: usize,
    )
        requires
            self.spec_wf(),
            page_table.wf(),
            old(ram).wf(),
            length <= src.len(),
            self.page_count() * PAGE_SIZE <= usize::MAX,
            forall|i: int|
                0 <= i < self.page_count() ==> page_table.mapping().contains_key(
                    vpn(#[trigger] self.page_addr(i)),
                ),
            forall|i: int, j: int|
                0 <= i < j < self.page_count() ==> page_table.mapping()[vpn(
                    #[trigger] self.page_addr(i),
                )].ppn != page_table.mapping()[vpn(#[trigger] self.page_addr(j))].ppn,
            self.spec_handler() matches Handler::Linear(l) ==> l.spec_offset()
                == PHYSICAL_MEMORY_OFFSET && forall|i: int|
                0 <= i < self.page_count() ==> page_table.mapping()[vpn(
                    #[trigger] self.page_addr(i),
                )].ppn * PAGE_SIZE + l.spec_offset() == self.page_addr(i),
        ensures
            final(ram).wf(),
            forall|i: int|
                0 <= i < self.page_count() ==> final(ram).page_of(
                    page_table.mapping()[vpn(#[trigger] self.page_addr(i))].ppn,
                ) == Handler::copied_page(
                    src@,
                    i * PAGE_SIZE,
                    (if length - i * PAGE_SIZE > PAGE_SIZE {
                        PAGE_SIZE as int
                    } else if length - i * PAGE_SIZE > 0 {
                        length - i * PAGE_SIZE
                    } else {
                        0
                    }),
                ),
            forall|g: u64|
                !self.frame_written_prefix(*page_table, self.page_count(), g)
                    ==> final(ram).page_of(g) == old(ram).page_of(g),
    {
        let mut range = VirtualPageRange::new(self.start, self.end);
        let ghost total = self.page_count();
        let ghost k: int = 0;
        let mut src_off: usize = 0;
        let mut remaining: usize = length;
        loop
            invariant_except_break
                self.spec_wf(),
                total == self.page_count(),
                0 <= k <= total,
                range.wf(),
                range.start_index() == page_index(self.spec_start() as int) + k,
                range.end_index() == page_index(self.spec_end() - 1) + 1,
                page_table.wf(),
                ram.wf(),
                length <= src.len(),
                total * PAGE_SIZE <= usize::MAX,
                src_off == k * PAGE_SIZE,
                remaining == (if length - k * PAGE_SIZE > 0 {
                    length - k * PAGE_SIZE
                } else {
                    0
                }),
                forall|i: int|
                    0 <= i < total ==> page_table.mapping().contains_key(
                        vpn(#[trigger] self.page_addr(i)),
                    ),
                forall|i: int, j: int|
                    0 <= i < j < total ==> page_table.mapping()[vpn(
                        #[trigger] self.page_addr(i),
                    )].ppn != page_table.mapping()[vpn(#[trigger] self.page_addr(j))].ppn,
                self.spec_handler() matches Handler::Linear(l) ==> l.spec_offset()
                    == PHYSICAL_MEMORY_OFFSET && forall|i: int|
                    0 <= i < total ==> page_table.mapping()[vpn(
                        #[trigger] self.page_addr(i),
                    )].ppn * PAGE_SIZE + l.spec_offset() == self.page_addr(i),
                forall|i: int|
                    0 <= i < k ==> ram.page_of(
                        page_table.mapping()[vpn(#[trigger] self.page_addr(i))].ppn,
                    ) == Handler::copied_page(
                        src@,
                        i * PAGE_SIZE,
                        (if length - i * PAGE_SIZE > PAGE_SIZE {
                            PAGE_SIZE as int
                        } else if length - i * PAGE_SIZE > 0 {
                            length - i * PAGE_SIZE
                        } else {
                            0
                        }),
                    ),
                forall|g: u64|
                    !self.frame_written_prefix(*page_table, k, g) ==> ram.page_of(g) == old(
                        ram,
                    ).page_of(g),
            ensures
                k == total,
                ram.wf(),
                forall|i: int|
                    0 <= i < total ==> ram.page_of(
                        page_table.mapping()[vpn(#[trigger] self.page_addr(i))].ppn,
                    ) == Handler::copied_page(
                        src@,
                        i * PAGE_SIZE,
                        (if length - i * PAGE_SIZE > PAGE_SIZE {
                            PAGE_SIZE as int
                        } else if length - i * PAGE_SIZE > 0 {
                            length - i * PAGE_SIZE
                        } else {
                            0
                        }),
                    ),
                forall|g: u64|
                    !self.frame_written_prefix(*page_table, total, g) ==> ram.page_of(g) == old(
                        ram,
                    ).page_of(g),
            decreases total - k,
        {
            let next = range.next();
            match next {
                Some(page) => {
                    proof {
                        assert(k < total);
                        assert(range.pages().len() == range.end_index() - range.start_index());
                        assert(range.start_index() == page_index(self.spec_start() as int) + k
                            + 1);
                        assert(k + 1 <= total);
                        assert(page == self.page_addr(k));
                        assert((k + 1) * PAGE_SIZE == k * PAGE_SIZE + PAGE_SIZE)
                            by (nonlinear_arith);
                        assert(k * PAGE_SIZE >= 0) by (nonlinear_arith)
                            requires k >= 0 && PAGE_SIZE == 4096;
                        assert((k + 1) * PAGE_SIZE <= total * PAGE_SIZE) by (nonlinear_arith)
                            requires k + 1 <= total && PAGE_SIZE == 4096;
                    }
                    let piece = if remaining < 4096 {
                        remaining
                    } else {
                        4096
                    };
                    proof {
                        let a = (page_index(self.spec_start() as int) + k) as u64;
                        assert((a * 4096) as u64 >> 12 << 12 == (a * 4096) as u64)
                            by (bit_vector);
                        assert(page >> 12 << 12 == page);
                        if self.spec_handler() is Linear {
                            assert(page_table.mapping()[vpn(self.page_addr(k))].ppn * PAGE_SIZE
                                + self.spec_handler()->Linear_0.spec_offset() == self.page_addr(
                                k,
                            ));
                        }
                        if piece != 0 {
                            assert(src_off + piece <= src.len());
                        }
                    }
                    let ghost pre_ram = *ram;
                    self.handler.page_copy(page_table, ram, page, src, src_off, piece);
                    src_off = src_off + 4096;
                    if remaining >= 4096 {
                        remaining = remaining - 4096;
                    } else {
                        remaining = 0;
                    }
                    proof {
                        k = k + 1;
                        let kk = k - 1;
                        assert forall|a: int, b: int| 0 <= a < b < total implies vpn(
                            self.page_addr(a),
                        ) != vpn(self.page_addr(b)) by {
                            self.lemma_distinct_pages(a, b);
                        }
                        let fk = page_table.mapping()[vpn(self.page_addr(kk))].ppn;
                        assert forall|i: int| 0 <= i < k implies ram.page_of(
                            page_table.mapping()[vpn(#[trigger] self.page_addr(i))].ppn,
                        ) == Handler::copied_page(
                            src@,
                            i * PAGE_SIZE,
                            (if length - i * PAGE_SIZE > PAGE_SIZE {
                                PAGE_SIZE as int
                            } else if length - i * PAGE_SIZE > 0 {
                                length - i * PAGE_SIZE
                            } else {
                                0
                            }),
                        ) by {
                            if i < kk {
                                assert(page_table.mapping()[vpn(self.page_addr(i))].ppn != fk);
                            } else {
                                assert((piece as int) == (if length - kk * PAGE_SIZE > PAGE_SIZE {
                                    PAGE_SIZE as int
                                } else if length - kk * PAGE_SIZE > 0 {
                                    length - kk * PAGE_SIZE
                                } else {
                                    0
                                }));
                            }
                        }
                        assert forall|g: u64|
                            !self.frame_written_prefix(*page_table, k, g) implies ram.page_of(
                            g,
                        ) == old(ram).page_of(g) by {
                            if page_table.mapping()[vpn(self.page_addr(kk))].ppn == g {
                                assert(self.frame_written_prefix(*page_table, k, g));
                            }
                            if self.frame_written_prefix(*page_table, kk, g) {
                                let i = choose|i: int|
                                    0 <= i < kk && page_table.mapping()[vpn(
                                        #[trigger] self.page_addr(i),
                                    )].ppn == g;
                                assert(self.frame_written_prefix(*page_table, k, g));
                            }
                            assert(!self.frame_written_prefix(*page_table, kk, g));
                            assert(pre_ram.page_of(g) == old(ram).page_of(g));
                            assert(fk != g);
                        }
                    }
                },
                None => {
                    proof {
                        assert(k == total);
                    }
                    break;
                },
            }
        }
    }
}

} // verus!
