//! The earlier generation of a named virtual range: one policy, one
//! attribute set, covering every page its byte range touches.

use vstd::prelude::*;
use crate::consts::PAGE_SIZE;
use crate::memory::frame_allocator::LinearFrameAllocator;
use crate::memory::manager::area::Area;
use crate::memory::manager::handler::{byframe_pte, linear_pte};
use crate::memory::manager::paging::range::page_index;
use crate::memory::manager::paging::table::{vpn, PageTable};
use crate::memory::memory_set::attr::MemoryAttr;
use crate::memory::memory_set::handler::MemoryHandler;

verus! {

/// A half-open virtual range `[start, end)` with one policy and one
/// attribute set. Its pages are the page indices
/// `[floor(start / PAGE_SIZE), ceil(end / PAGE_SIZE))`.
pub struct MemoryArea {
    start: u64,
    end: u64,
    handler: MemoryHandler,
    attr: MemoryAttr,
}

impl MemoryArea {
    pub closed spec fn spec_start(self) -> u64 {
        self.start
    }

    pub closed spec fn spec_end(self) -> u64 {
        self.end
    }

    pub closed spec fn spec_handler(self) -> MemoryHandler {
        self.handler
    }

    pub closed spec fn spec_attr(self) -> MemoryAttr {
        self.attr
    }

    /// Number of pages the range covers.
    pub open spec fn page_count(self) -> int {
        page_index(self.spec_end() - 1) + 1 - page_index(self.spec_start() as int)
    }

    /// Start address of the range's `i`-th page.
    pub open spec fn page_addr(self, i: int) -> u64 {
        ((page_index(self.spec_start() as int) + i) * (PAGE_SIZE as int)) as u64
    }

    /// The same range as an area-manager area, which carries the mapping
    /// contracts.
    pub open spec fn spec_inner(self) -> Area {
        Area::stub(
            self.spec_start(),
            self.spec_end(),
            self.spec_handler().spec_to_handler(),
            self.spec_attr(),
        )
    }

    /// The conditions `map` and `unmap` need: a workable range and, for the
    /// linear policy, an aligned offset below the range.
    pub open spec fn spec_wf(self) -> bool {
        &&& self.spec_start() < self.spec_end()
        &&& page_index(self.spec_end() - 1) + 1 <= page_index(u64::MAX as int) + 1
        &&& self.page_count() <= 0x800_0000
        &&& (self.spec_handler() matches MemoryHandler::Linear(l) ==> l.spec_offset() % PAGE_SIZE
            == 0 && l.spec_offset() <= self.spec_start())
    }

    /// The area value with the given fields.
    pub closed spec fn stub(
        start: u64,
        end: u64,
        handler: MemoryHandler,
        attr: MemoryAttr,
    ) -> MemoryArea {
        MemoryArea { start, end, handler, attr }
    }

    /// An area over `[start, end)`.
    pub fn new(start: u64, end: u64, handler: MemoryHandler, attr: MemoryAttr) -> (r: MemoryArea)
        ensures
            r == MemoryArea::stub(start, end, handler, attr),
            r.spec_start() == start,
            r.spec_end() == end,
            r.spec_handler() == handler,
            r.spec_attr() == attr,
    {
        MemoryArea { start, end, handler, attr }
    }

    /// Map every page of the range with the area's policy and attribute.
    pub fn map(&self, page_table: &mut PageTable, allocator: &mut LinearFrameAllocator)
        requires
            self.spec_wf(),
            old(page_table).wf(),
            old(allocator).wf(),
            old(allocator).free_count() >= 3 * self.page_count(),
            old(allocator).offset + old(allocator).size <= 0x10_0000_0000_0000,
        ensures
            final(page_table).wf(),
            final(page_table).spec_token() == old(page_table).spec_token(),
            final(allocator).wf(),
            final(allocator).offset == old(allocator).offset,
            final(allocator).size == old(allocator).size,
            forall|f: u64| old(allocator).live(f) ==> final(allocator).live(f),
            final(allocator).free_count() >= old(allocator).free_count() - 3 * self.page_count(),
            forall|v: u64|
                !self.spec_inner().covers_vpn(v) ==> (final(page_table).mapping().contains_key(v)
                    == old(page_table).mapping().contains_key(v) && (old(
                    page_table,
                ).mapping().contains_key(v) ==> final(page_table).mapping()[v] == old(
                    page_table,
                ).mapping()[v])),
            self.spec_handler() matches MemoryHandler::Linear(l) ==> forall|i: int|
                0 <= i < self.page_count() ==> final(page_table).mapping().contains_key(
                    vpn(#[trigger] self.page_addr(i)),
                ) && final(page_table).mapping()[vpn(self.page_addr(i))] == linear_pte(
                    self.spec_attr(),
                    l.spec_offset(),
                    self.page_addr(i),
                ),
            self.spec_handler() is ByFrame ==> forall|i: int|
                0 <= i < self.page_count() ==> final(page_table).mapping().contains_key(
                    vpn(#[trigger] self.page_addr(i)),
                ) && final(page_table).mapping()[vpn(self.page_addr(i))] == byframe_pte(
                    self.spec_attr(),
                    final(page_table).mapping()[vpn(self.page_addr(i))].ppn,
                ),
    {
        let inner = Area::new(self.start, self.end, self.handler.to_handler(), self.attr);
        proof {
            broadcast use crate::memory::manager::area::lemma_area_stub;
            broadcast use crate::memory::manager::handler::lemma_linear_stub;

            assert(inner == self.spec_inner());
        }
        inner.map(page_table, allocator);
        proof {
            broadcast use crate::memory::manager::area::lemma_area_stub;
            broadcast use crate::memory::manager::handler::lemma_linear_stub;

            if self.spec_handler() is Linear {
                let l = self.spec_handler()->Linear_0;
                assert forall|i: int|
                    0 <= i < self.page_count() implies page_table.mapping().contains_key(
                    vpn(#[trigger] self.page_addr(i)),
                ) && page_table.mapping()[vpn(self.page_addr(i))] == linear_pte(
                    self.spec_attr(),
                    l.spec_offset(),
                    self.page_addr(i),
                ) by {
                    assert(self.page_addr(i) == inner.page_addr(i));
                    assert(page_table.mapping()[vpn(inner.page_addr(i))] == linear_pte(
                        inner.spec_attr(),
                        inner.spec_handler()->Linear_0.spec_offset(),
                        inner.page_addr(i),
                    ));
                }
            } else {
                assert forall|i: int|
                    0 <= i < self.page_count() implies page_table.mapping().contains_key(
                    vpn(#[trigger] self.page_addr(i)),
                ) && page_table.mapping()[vpn(self.page_addr(i))] == byframe_pte(
                    self.spec_attr(),
                    page_table.mapping()[vpn(self.page_addr(i))].ppn,
                ) by {
                    assert(self.page_addr(i) == inner.page_addr(i));
                    assert(page_table.mapping()[vpn(inner.page_addr(i))] == byframe_pte(
                        inner.spec_attr(),
                        page_table.mapping()[vpn(inner.page_addr(i))].ppn,
                    ));
                }
            }
        }
    }

    /// Unmap every page of the range.
    pub fn unmap(&self, page_table: &mut PageTable)
        requires
            self.spec_wf(),
            old(page_table).wf(),
            forall|i: int|
                0 <= i < self.page_count() ==> old(page_table).mapping().contains_key(
                    vpn(#[trigger] self.page_addr(i)),
                ),
        ensures
            final(page_table).wf(),
            final(page_table).spec_token() == old(page_table).spec_token(),
            forall|i: int|
                0 <= i < self.page_count() ==> !final(page_table).mapping().contains_key(
                    vpn(#[trigger] self.page_addr(i)),
                ),
            forall|v: u64|
                !self.spec_inner().covers_vpn(v) ==> (final(page_table).mapping().contains_key(v)
                    == old(page_table).mapping().contains_key(v) && (old(
                    page_table,
                ).mapping().contains_key(v) ==> final(page_table).mapping()[v] == old(
                    page_table,
                ).mapping()[v])),
    {
        let inner = Area::new(self.start, self.end, self.handler.to_handler(), self.attr);
        proof {
            broadcast use crate::memory::manager::area::lemma_area_stub;
            broadcast use crate::memory::manager::handler::lemma_linear_stub;

            assert(inner == self.spec_inner());
            assert forall|i: int|
                0 <= i < inner.page_count() implies page_table.mapping().contains_key(
                vpn(#[trigger] inner.page_addr(i)),
            ) by {
                assert(inner.page_addr(i) == self.page_addr(i));
            }
        }
        inner.unmap(page_table);
        proof {
            assert forall|i: int|
                0 <= i < self.page_count() implies !page_table.mapping().contains_key(
                vpn(#[trigger] self.page_addr(i)),
            ) by {
                assert(self.page_addr(i) == inner.page_addr(i));
            }
        }
    }

    /// Whether this area, quantized to page boundaries, overlaps the range
    /// `[start, end)` quantized the same way.
    pub fn is_overlap_with(&self, start: u64, end: u64) -> (r: bool)
        requires
            self.spec_start() < self.spec_end(),
            0 < end,
        ensures
            r == !(page_index(self.spec_start() as int) >= page_index(end - 1) + 1 || page_index(
                self.spec_end() - 1,
            ) + 1 <= page_index(start as int)),
    {
        let p1 = self.start / PAGE_SIZE;
        let p2 = (self.end - 1) / PAGE_SIZE + 1;
        let p3 = start / PAGE_SIZE;
        let p4 = (end - 1) / PAGE_SIZE + 1;
        proof {
            assert(page_index(self.spec_end() - 1) <= page_index(u64::MAX as int))
                by (nonlinear_arith)
                requires self.spec_end() <= u64::MAX && PAGE_SIZE == 4096;
            assert(page_index(end - 1) <= page_index(u64::MAX as int)) by (nonlinear_arith)
                requires end <= u64::MAX && PAGE_SIZE == 4096;
        }
        !((p1 >= p4) || (p2 <= p3))
    }
}

/// What the fields of a stub area are.
pub broadcast proof fn lemma_memory_area_stub(
    start: u64,
    end: u64,
    handler: MemoryHandler,
    attr: MemoryAttr,
)
    ensures
        (#[trigger] MemoryArea::stub(start, end, handler, attr)).spec_start() == start,
        MemoryArea::stub(start, end, handler, attr).spec_end() == end,
        MemoryArea::stub(start, end, handler, attr).spec_handler() == handler,
        MemoryArea::stub(start, end, handler, attr).spec_attr() == attr,
{
}

} // verus!
