//! Virtual-memory areas over one page table: the earlier generation of the
//! area manager, kept with its generation's names and behavior. Unlike the
//! later generation, nothing checks a new area against the recorded ones:
//! an overlapping push double-maps silently, which `test_free_area` lets a
//! caller detect first.

use vstd::prelude::*;

pub mod area;
pub mod attr;
pub mod handler;

use crate::consts::{PAGE_SIZE, PHYSICAL_MEMORY_END, PHYSICAL_MEMORY_OFFSET};
use crate::machine::Machine;
use crate::memory::frame_allocator::LinearFrameAllocator;
use crate::memory::manager::area::Area;
use crate::memory::manager::paging::range::page_index;
use crate::memory::manager::paging::table::PageTable;
use crate::memory::manager::{
    boot_area1, boot_area2, boot_area3, boot_area4, boot_area5, layout_page_count, layout_wf,
    phys_window_start, vpn_disjoint, KernelLayout,
};
use crate::memory::manager::handler::{byframe_pte, linear_pte};
use crate::memory::manager::paging::table::vpn;
use crate::memory::memory_set::area::MemoryArea;
use crate::memory::memory_set::attr::MemoryAttr;
use crate::memory::memory_set::handler::{Linear, MemoryHandler};

verus! {

/// Every page of area `a` is mapped linearly through the physical-memory
/// window with `a`'s own attribute.
pub open spec fn linear_area_mapped(pt: PageTable, a: Area) -> bool {
    forall|i: int|
        0 <= i < a.page_count() ==> pt.mapping().contains_key(vpn(#[trigger] a.page_addr(i)))
            && pt.mapping()[vpn(a.page_addr(i))] == linear_pte(
            a.spec_attr(),
            PHYSICAL_MEMORY_OFFSET,
            a.page_addr(i),
        )
}

/// A kept linear area's pages survive a later mapping that covers disjoint
/// virtual page numbers.
proof fn lemma_keep_linear(pre: PageTable, post: PageTable, kept: Area, newa: Area)
    requires
        vpn_disjoint(newa, kept),
        forall|v: u64|
            !newa.covers_vpn(v) ==> (post.mapping().contains_key(v) == pre.mapping().contains_key(
                v,
            ) && (pre.mapping().contains_key(v) ==> post.mapping()[v] == pre.mapping()[v])),
        linear_area_mapped(pre, kept),
    ensures
        linear_area_mapped(post, kept),
{
    assert forall|i: int|
        0 <= i < kept.page_count() implies post.mapping().contains_key(
        vpn(#[trigger] kept.page_addr(i)),
    ) && post.mapping()[vpn(kept.page_addr(i))] == linear_pte(
        kept.spec_attr(),
        PHYSICAL_MEMORY_OFFSET,
        kept.page_addr(i),
    ) by {
        let v = vpn(kept.page_addr(i));
        assert(kept.covers_vpn(v));
        assert(!newa.covers_vpn(v));
        assert(pre.mapping().contains_key(v));
    }
}

/// The ordered collection of memory areas over one page table.
pub struct MemorySet {
    areas: Vec<MemoryArea>,
    page_table: PageTable,
}

impl MemorySet {
    pub closed spec fn spec_areas(self) -> Seq<MemoryArea> {
        self.areas@
    }

    pub closed spec fn spec_table(self) -> PageTable {
        self.page_table
    }

    /// A memory set over a fresh page table with the kernel's own segments
    /// mapped, as the boot sequence lays them out.
    pub fn new(layout: &KernelLayout, allocator: &mut LinearFrameAllocator) -> (r: MemorySet)
        requires
            old(allocator).wf(),
            layout_wf(*layout),
            old(allocator).free_count() >= 3 * layout_page_count(*layout) + 1,
            old(allocator).offset + old(allocator).size <= 0x10_0000_0000_0000,
        ensures
            r.spec_table().wf(),
            r.spec_areas().len() == 5,
            final(allocator).wf(),
            final(allocator).offset == old(allocator).offset,
            final(allocator).size == old(allocator).size,
            forall|f: u64| old(allocator).live(f) ==> final(allocator).live(f),
    {
        proof {
            crate::memory::frame_allocator::lemma_free_count_can_alloc(*allocator);
            lemma_layout_counts(*layout);
        }
        let mut memory_set = MemorySet { areas: Vec::new(), page_table: PageTable::new(allocator) };
        memory_set.initialize(layout, allocator);
        memory_set
    }

    /// The fixed boot sequence: map the kernel's text (read and execute),
    /// read-only data, data, bss, and the remaining physical memory window,
    /// all linearly through the physical-memory offset.
    pub fn initialize(&mut self, layout: &KernelLayout, allocator: &mut LinearFrameAllocator)
        requires
            old(self).spec_table().wf(),
            old(allocator).wf(),
            layout_wf(*layout),
            old(allocator).free_count() >= 3 * layout_page_count(*layout),
            old(allocator).offset + old(allocator).size <= 0x10_0000_0000_0000,
        ensures
            final(self).spec_table().wf(),
            final(self).spec_table().spec_token() == old(self).spec_table().spec_token(),
            final(self).spec_areas() == old(self).spec_areas() + boot_memory_areas(*layout),
            linear_area_mapped(final(self).spec_table(), boot_area1(*layout)),
            linear_area_mapped(final(self).spec_table(), boot_area2(*layout)),
            linear_area_mapped(final(self).spec_table(), boot_area3(*layout)),
            linear_area_mapped(final(self).spec_table(), boot_area4(*layout)),
            linear_area_mapped(final(self).spec_table(), boot_area5(*layout)),
            final(allocator).wf(),
            final(allocator).offset == old(allocator).offset,
            final(allocator).size == old(allocator).size,
            forall|f: u64| old(allocator).live(f) ==> final(allocator).live(f),
    {
        let offset = PHYSICAL_MEMORY_OFFSET;
        proof {
            broadcast use crate::memory::memory_set::area::lemma_memory_area_stub;
            broadcast use crate::memory::memory_set::handler::lemma_early_linear_stub;
            broadcast use crate::memory::manager::area::lemma_area_stub;
            broadcast use crate::memory::manager::handler::lemma_linear_stub;
            broadcast use crate::memory::memory_set::attr::lemma_attr_stub;

            lemma_layout_counts(*layout);
            crate::memory::manager::lemma_layout_areas_wf(*layout);
        }
        let ghost t0 = self.spec_table();
        self.push(
            layout.stext,
            layout.etext,
            MemoryAttr::new().set_read_only().set_executable(),
            MemoryHandler::Linear(Linear::new(offset)),
            allocator,
        );
        let ghost t1 = self.spec_table();
        proof {
            lemma_inner_is_boot(*layout);
            assert(linear_area_mapped(t1, boot_area1(*layout))) by {
                broadcast use crate::memory::memory_set::area::lemma_memory_area_stub;
                broadcast use crate::memory::memory_set::handler::lemma_early_linear_stub;
                broadcast use crate::memory::manager::area::lemma_area_stub;
                broadcast use crate::memory::manager::handler::lemma_linear_stub;
                broadcast use crate::memory::memory_set::attr::lemma_attr_stub;

                let ma = boot_memory_areas(*layout)[0];
                let ba = boot_area1(*layout);
                assert forall|i: int|
                    0 <= i < ba.page_count() implies t1.mapping().contains_key(
                    vpn(#[trigger] ba.page_addr(i)),
                ) && t1.mapping()[vpn(ba.page_addr(i))] == linear_pte(
                    ba.spec_attr(),
                    PHYSICAL_MEMORY_OFFSET,
                    ba.page_addr(i),
                ) by {
                    assert(ba.page_addr(i) == ma.page_addr(i));
                    assert(t1.mapping().contains_key(vpn(ma.page_addr(i))));
                }
            }
        }
        self.push(
            layout.srodata,
            layout.erodata,
            MemoryAttr::new().set_read_only(),
            MemoryHandler::Linear(Linear::new(offset)),
            allocator,
        );
        let ghost t2 = self.spec_table();
        proof {
            lemma_inner_is_boot(*layout);
            assert(linear_area_mapped(t2, boot_area2(*layout))) by {
                broadcast use crate::memory::memory_set::area::lemma_memory_area_stub;
                broadcast use crate::memory::memory_set::handler::lemma_early_linear_stub;
                broadcast use crate::memory::manager::area::lemma_area_stub;
                broadcast use crate::memory::manager::handler::lemma_linear_stub;
                broadcast use crate::memory::memory_set::attr::lemma_attr_stub;

                let ma = boot_memory_areas(*layout)[1];
                let ba = boot_area2(*layout);
                assert forall|i: int|
                    0 <= i < ba.page_count() implies t2.mapping().contains_key(
                    vpn(#[trigger] ba.page_addr(i)),
                ) && t2.mapping()[vpn(ba.page_addr(i))] == linear_pte(
                    ba.spec_attr(),
                    PHYSICAL_MEMORY_OFFSET,
                    ba.page_addr(i),
                ) by {
                    assert(ba.page_addr(i) == ma.page_addr(i));
                    assert(t2.mapping().contains_key(vpn(ma.page_addr(i))));
                }
            }
            lemma_keep_linear(t1, t2, boot_area1(*layout), boot_area2(*layout));
        }
        self.push(
            layout.sdata,
            layout.edata,
            MemoryAttr::new(),
            MemoryHandler::Linear(Linear::new(offset)),
            allocator,
        );
        let ghost t3 = self.spec_table();
        proof {
            lemma_inner_is_boot(*layout);
            assert(linear_area_mapped(t3, boot_area3(*layout))) by {
                broadcast use crate::memory::memory_set::area::lemma_memory_area_stub;
                broadcast use crate::memory::memory_set::handler::lemma_early_linear_stub;
                broadcast use crate::memory::manager::area::lemma_area_stub;
                broadcast use crate::memory::manager::handler::lemma_linear_stub;
                broadcast use crate::memory::memory_set::attr::lemma_attr_stub;

                let ma = boot_memory_areas(*layout)[2];
                let ba = boot_area3(*layout);
                assert forall|i: int|
                    0 <= i < ba.page_count() implies t3.mapping().contains_key(
                    vpn(#[trigger] ba.page_addr(i)),
                ) && t3.mapping()[vpn(ba.page_addr(i))] == linear_pte(
                    ba.spec_attr(),
                    PHYSICAL_MEMORY_OFFSET,
                    ba.page_addr(i),
                ) by {
                    assert(ba.page_addr(i) == ma.page_addr(i));
                    assert(t3.mapping().contains_key(vpn(ma.page_addr(i))));
                }
            }
            lemma_keep_linear(t2, t3, boot_area1(*layout), boot_area3(*layout));
            lemma_keep_linear(t2, t3, boot_area2(*layout), boot_area3(*layout));
        }
        self.push(
            layout.sbss,
            layout.ebss,
            MemoryAttr::new(),
            MemoryHandler::Linear(Linear::new(offset)),
            allocator,
        );
        let ghost t4 = self.spec_table();
        proof {
            lemma_inner_is_boot(*layout);
            assert(linear_area_mapped(t4, boot_area4(*layout))) by {
                broadcast use crate::memory::memory_set::area::lemma_memory_area_stub;
                broadcast use crate::memory::memory_set::handler::lemma_early_linear_stub;
                broadcast use crate::memory::manager::area::lemma_area_stub;
                broadcast use crate::memory::manager::handler::lemma_linear_stub;
                broadcast use crate::memory::memory_set::attr::lemma_attr_stub;

                let ma = boot_memory_areas(*layout)[3];
                let ba = boot_area4(*layout);
                assert forall|i: int|
                    0 <= i < ba.page_count() implies t4.mapping().contains_key(
                    vpn(#[trigger] ba.page_addr(i)),
                ) && t4.mapping()[vpn(ba.page_addr(i))] == linear_pte(
                    ba.spec_attr(),
                    PHYSICAL_MEMORY_OFFSET,
                    ba.page_addr(i),
                ) by {
                    assert(ba.page_addr(i) == ma.page_addr(i));
                    assert(t4.mapping().contains_key(vpn(ma.page_addr(i))));
                }
            }
            lemma_keep_linear(t3, t4, boot_area1(*layout), boot_area4(*layout));
            lemma_keep_linear(t3, t4, boot_area2(*layout), boot_area4(*layout));
            lemma_keep_linear(t3, t4, boot_area3(*layout), boot_area4(*layout));
        }
        let window = (layout.end / PAGE_SIZE + 1) * PAGE_SIZE;
        proof {
            assert(window == phys_window_start(*layout));
        }
        self.push(
            window,
            (PHYSICAL_MEMORY_END + PHYSICAL_MEMORY_OFFSET) as u64,
            MemoryAttr::new(),
            MemoryHandler::Linear(Linear::new(offset)),
            allocator,
        );
        let ghost t5 = self.spec_table();
        proof {
            broadcast use crate::memory::memory_set::area::lemma_memory_area_stub;
            broadcast use crate::memory::memory_set::handler::lemma_early_linear_stub;
            broadcast use crate::memory::manager::area::lemma_area_stub;
            broadcast use crate::memory::manager::handler::lemma_linear_stub;
            broadcast use crate::memory::memory_set::attr::lemma_attr_stub;

            lemma_inner_is_boot(*layout);
            assert(linear_area_mapped(t5, boot_area5(*layout))) by {
                broadcast use crate::memory::memory_set::area::lemma_memory_area_stub;
                broadcast use crate::memory::memory_set::handler::lemma_early_linear_stub;
                broadcast use crate::memory::manager::area::lemma_area_stub;
                broadcast use crate::memory::manager::handler::lemma_linear_stub;
                broadcast use crate::memory::memory_set::attr::lemma_attr_stub;

                let ma = boot_memory_areas(*layout)[4];
                let ba = boot_area5(*layout);
                assert forall|i: int|
                    0 <= i < ba.page_count() implies t5.mapping().contains_key(
                    vpn(#[trigger] ba.page_addr(i)),
                ) && t5.mapping()[vpn(ba.page_addr(i))] == linear_pte(
                    ba.spec_attr(),
                    PHYSICAL_MEMORY_OFFSET,
                    ba.page_addr(i),
                ) by {
                    assert(ba.page_addr(i) == ma.page_addr(i));
                    assert(t5.mapping().contains_key(vpn(ma.page_addr(i))));
                }
            }
            lemma_keep_linear(t4, t5, boot_area1(*layout), boot_area5(*layout));
            lemma_keep_linear(t4, t5, boot_area2(*layout), boot_area5(*layout));
            lemma_keep_linear(t4, t5, boot_area3(*layout), boot_area5(*layout));
            lemma_keep_linear(t4, t5, boot_area4(*layout), boot_area5(*layout));
            assert(self.spec_areas() =~= old(self).spec_areas() + boot_memory_areas(*layout));
        }
    }

    /// Construct an area over `[start, end)`, map its pages at once, and
    /// record it. Nothing checks the new area against the recorded ones:
    /// an overlapping push double-maps silently.
    pub fn push(
        &mut self,
        start: u64,
        end: u64,
        attr: MemoryAttr,
        handler: MemoryHandler,
        allocator: &mut LinearFrameAllocator,
    )
        requires
            old(self).spec_table().wf(),
            old(allocator).wf(),
            start < end,
            page_index(end - 1) + 1 <= page_index(u64::MAX as int) + 1,
            page_index(end - 1) + 1 - page_index(start as int) <= 0x800_0000,
            handler matches MemoryHandler::Linear(l) ==> l.spec_offset() % PAGE_SIZE == 0
                && l.spec_offset() <= start,
            old(allocator).free_count() >= 3 * (page_index(end - 1) + 1 - page_index(
                start as int,
            )),
            old(allocator).offset + old(allocator).size <= 0x10_0000_0000_0000,
        ensures
            final(self).spec_table().wf(),
            final(self).spec_table().spec_token() == old(self).spec_table().spec_token(),
            final(self).spec_areas() == old(self).spec_areas().push(
                MemoryArea::stub(start, end, handler, attr),
            ),
            ({
                let a = MemoryArea::stub(start, end, handler, attr);
                &&& (handler matches MemoryHandler::Linear(l) ==> forall|i: int|
                    0 <= i < a.page_count() ==> final(self).spec_table().mapping().contains_key(
                        vpn(#[trigger] a.page_addr(i)),
                    ) && final(self).spec_table().mapping()[vpn(a.page_addr(i))] == linear_pte(
                        attr,
                        l.spec_offset(),
                        a.page_addr(i),
                    ))
                &&& (handler is ByFrame ==> forall|i: int|
                    0 <= i < a.page_count() ==> final(self).spec_table().mapping().contains_key(
                        vpn(#[trigger] a.page_addr(i)),
                    ) && final(self).spec_table().mapping()[vpn(a.page_addr(i))] == byframe_pte(
                        attr,
                        final(self).spec_table().mapping()[vpn(a.page_addr(i))].ppn,
                    ))
                &&& (forall|v: u64|
                    !a.spec_inner().covers_vpn(v)
                        ==> (final(self).spec_table().mapping().contains_key(v)
                        == old(self).spec_table().mapping().contains_key(v) && (old(
                        self,
                    ).spec_table().mapping().contains_key(v)
                        ==> final(self).spec_table().mapping()[v]
                        == old(self).spec_table().mapping()[v])))
            }),
            final(allocator).wf(),
            final(allocator).offset == old(allocator).offset,
            final(allocator).size == old(allocator).size,
            final(allocator).free_count() >= old(allocator).free_count() - 3 * (page_index(
                end - 1,
            ) + 1 - page_index(start as int)),
            forall|f: u64| old(allocator).live(f) ==> final(allocator).live(f),
    {
        let area = MemoryArea::new(start, end, handler, attr);
        area.map(&mut self.page_table, allocator);
        self.areas.push(area);
        proof {
            broadcast use crate::memory::memory_set::area::lemma_memory_area_stub;

            assert(self.spec_areas() =~= old(self).spec_areas().push(
                MemoryArea::stub(start, end, handler, attr),
            ));
        }
    }

    /// Whether the range `[start, end)` is free of every recorded area.
    pub fn test_free_area(&self, start: u64, end: u64) -> (r: bool)
        requires
            0 < end,
            forall|j: int|
                0 <= j < self.spec_areas().len() ==> (#[trigger] self.spec_areas()[j]).spec_start()
                    < self.spec_areas()[j].spec_end(),
        ensures
            r == forall|j: int|
                0 <= j < self.spec_areas().len() ==> (page_index(
                    (#[trigger] self.spec_areas()[j]).spec_start() as int,
                ) >= page_index(end - 1) + 1 || page_index(self.spec_areas()[j].spec_end() - 1)
                    + 1 <= page_index(start as int)),
    {
        let mut index: usize = 0;
        while index < self.areas.len()
            invariant
                0 < end,
                forall|j: int|
                    0 <= j < self.spec_areas().len() ==> (
                    #[trigger] self.spec_areas()[j]).spec_start() < self.spec_areas()[j].spec_end(),
                index <= self.areas.len(),
                forall|j: int|
                    0 <= j < index ==> (page_index(
                        (#[trigger] self.spec_areas()[j]).spec_start() as int,
                    ) >= page_index(end - 1) + 1 || page_index(
                        self.spec_areas()[j].spec_end() - 1,
                    ) + 1 <= page_index(start as int)),
            decreases self.areas.len() - index,
        {
            proof {
                assert(self.spec_areas()[index as int].spec_start() < self.spec_areas()[
                    index as int].spec_end());
            }
            if self.areas[index].is_overlap_with(start, end) {
                proof {
                    assert(!(page_index(self.spec_areas()[index as int].spec_start() as int)
                        >= page_index(end - 1) + 1 || page_index(
                        self.spec_areas()[index as int].spec_end() - 1,
                    ) + 1 <= page_index(start as int)));
                }
                return false;
            }
            index += 1;
        }
        true
    }

    /// Install this set's page table as the active one.
    pub fn activate(&self, m: &mut Machine)
        ensures
            final(m).satp == self.spec_table().spec_token(),
            *final(m) == (Machine { satp: self.spec_table().spec_token(), ..*old(m) }),
    {
        self.page_table.activate(m);
    }
}

/// The five boot areas in the earlier generation's own type.
pub open spec fn boot_memory_areas(l: KernelLayout) -> Seq<MemoryArea> {
    seq![
        MemoryArea::stub(
            l.stext,
            l.etext,
            MemoryHandler::Linear(Linear::stub(PHYSICAL_MEMORY_OFFSET)),
            MemoryAttr::stub(false, true, true),
        ),
        MemoryArea::stub(
            l.srodata,
            l.erodata,
            MemoryHandler::Linear(Linear::stub(PHYSICAL_MEMORY_OFFSET)),
            MemoryAttr::stub(false, true, false),
        ),
        MemoryArea::stub(
            l.sdata,
            l.edata,
            MemoryHandler::Linear(Linear::stub(PHYSICAL_MEMORY_OFFSET)),
            MemoryAttr::stub(false, false, false),
        ),
        MemoryArea::stub(
            l.sbss,
            l.ebss,
            MemoryHandler::Linear(Linear::stub(PHYSICAL_MEMORY_OFFSET)),
            MemoryAttr::stub(false, false, false),
        ),
        MemoryArea::stub(
            phys_window_start(l),
            (PHYSICAL_MEMORY_END + PHYSICAL_MEMORY_OFFSET) as u64,
            MemoryHandler::Linear(Linear::stub(PHYSICAL_MEMORY_OFFSET)),
            MemoryAttr::stub(false, false, false),
        ),
    ]
}

/// The early generation's boot areas mean the same ranges, policies and
/// attributes as the boot areas proper.
proof fn lemma_inner_is_boot(l: KernelLayout)
    requires
        layout_wf(l),
    ensures
        boot_memory_areas(l)[0].spec_inner() == boot_area1(l),
        boot_memory_areas(l)[1].spec_inner() == boot_area2(l),
        boot_memory_areas(l)[2].spec_inner() == boot_area3(l),
        boot_memory_areas(l)[3].spec_inner() == boot_area4(l),
        boot_memory_areas(l)[4].spec_inner() == boot_area5(l),
{
    broadcast use crate::memory::memory_set::area::lemma_memory_area_stub;
    broadcast use crate::memory::memory_set::handler::lemma_early_linear_stub;
    broadcast use crate::memory::manager::handler::lemma_linear_stub;

}

/// The early walk of each boot range covers at most as many pages as the
/// full range, and none is negative.
proof fn lemma_layout_counts(l: KernelLayout)
    requires
        layout_wf(l),
    ensures
        0 <= page_index(l.etext - 1) - page_index(l.stext as int),
        0 <= page_index(l.erodata - 1) - page_index(l.srodata as int),
        0 <= page_index(l.edata - 1) - page_index(l.sdata as int),
        0 <= page_index(l.ebss - 1) - page_index(l.sbss as int),
        0 <= page_index(PHYSICAL_MEMORY_END + PHYSICAL_MEMORY_OFFSET - 1) - page_index(
            phys_window_start(l) as int,
        ),
        layout_page_count(l) == (page_index(l.etext - 1) + 1 - page_index(l.stext as int)) + (
        page_index(l.erodata - 1) + 1 - page_index(l.srodata as int)) + (page_index(l.edata - 1)
            + 1 - page_index(l.sdata as int)) + (page_index(l.ebss - 1) + 1 - page_index(
            l.sbss as int,
        )) + (page_index(PHYSICAL_MEMORY_END + PHYSICAL_MEMORY_OFFSET - 1) + 1 - page_index(
            phys_window_start(l) as int,
        )),
        layout_page_count(l) >= 5,
{
    assert(page_index(l.stext as int) <= page_index(l.etext - 1) && page_index(l.srodata as int)
        <= page_index(l.erodata - 1) && page_index(l.sdata as int) <= page_index(l.edata - 1)
        && page_index(l.sbss as int) <= page_index(l.ebss - 1) && page_index(
        phys_window_start(l) as int,
    ) <= page_index(PHYSICAL_MEMORY_END + PHYSICAL_MEMORY_OFFSET - 1)) by (nonlinear_arith)
        requires
            PAGE_SIZE == 4096,
            layout_wf(l),
            page_index(l.stext as int) == l.stext as int / 4096,
            page_index(l.etext - 1) == (l.etext - 1) / 4096,
            page_index(l.srodata as int) == l.srodata as int / 4096,
            page_index(l.erodata - 1) == (l.erodata - 1) / 4096,
            page_index(l.sdata as int) == l.sdata as int / 4096,
            page_index(l.edata - 1) == (l.edata - 1) / 4096,
            page_index(l.sbss as int) == l.sbss as int / 4096,
            page_index(l.ebss - 1) == (l.ebss - 1) / 4096,
            page_index(phys_window_start(l) as int) == phys_window_start(l) as int / 4096,
            page_index(PHYSICAL_MEMORY_END + PHYSICAL_MEMORY_OFFSET - 1) == (PHYSICAL_MEMORY_END
                + PHYSICAL_MEMORY_OFFSET - 1) as int / 4096,
            l.stext < l.etext,
            l.srodata < l.erodata,
            l.sdata < l.edata,
            l.sbss < l.ebss,
            phys_window_start(l) < PHYSICAL_MEMORY_END + PHYSICAL_MEMORY_OFFSET,
    ;
}

} // verus!
