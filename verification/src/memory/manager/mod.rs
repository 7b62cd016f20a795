//! Composition of page-table edits into named virtual ranges with a
//! mapping policy.

use vstd::prelude::*;

pub mod area;
pub mod handler;
pub mod paging;

use crate::consts::{PAGE_SIZE, PHYSICAL_MEMORY_END, PHYSICAL_MEMORY_OFFSET};
use crate::machine::{Machine, PhysicalMemory};
use crate::memory::frame_allocator::LinearFrameAllocator;
use crate::memory::manager::area::{lemma_page_vpn, lemma_page_vpn_distinct, lemma_shr12, Area};
use crate::memory::manager::handler::{byframe_pte, linear_pte, Handler, Linear};
use crate::memory::manager::paging::range::page_index;
use crate::memory::manager::paging::table::{vpn, PageTable};
use crate::memory::memory_set::attr::MemoryAttr;

verus! {

/// The addresses of the kernel image's sections and the end of the loaded
/// image, as the boot linkage provides them.
pub struct KernelLayout {
    pub stext: u64,
    pub etext: u64,
    pub srodata: u64,
    pub erodata: u64,
    pub sdata: u64,
    pub edata: u64,
    pub sbss: u64,
    pub ebss: u64,
    pub end: u64,
}

/// First address past the loaded kernel image, rounded up to the next page:
/// where the linear mapping of the remaining physical memory begins.
pub open spec fn phys_window_start(l: KernelLayout) -> u64 {
    ((l.end as int / PAGE_SIZE as int + 1) * PAGE_SIZE as int) as u64
}

/// A sane boot layout: the sections rise in order, none of them empty, each
/// on its own pages, everything above the physical-memory window offset and
/// within one page-table span.
pub open spec fn layout_wf(l: KernelLayout) -> bool {
    &&& PHYSICAL_MEMORY_OFFSET <= l.stext
    &&& l.stext < l.etext
    &&& page_index(l.etext - 1) + 1 <= page_index(l.srodata as int)
    &&& l.srodata < l.erodata
    &&& page_index(l.erodata - 1) + 1 <= page_index(l.sdata as int)
    &&& l.sdata < l.edata
    &&& page_index(l.edata - 1) + 1 <= page_index(l.sbss as int)
    &&& l.sbss < l.ebss
    &&& l.ebss <= l.end
    &&& page_index(l.ebss - 1) + 1 <= page_index(phys_window_start(l) as int)
    &&& phys_window_start(l) < PHYSICAL_MEMORY_END + PHYSICAL_MEMORY_OFFSET
    &&& page_index(PHYSICAL_MEMORY_END + PHYSICAL_MEMORY_OFFSET - 1) < page_index(
        l.stext as int,
    ) + 0x800_0000
    &&& l.end as int / PAGE_SIZE as int * PAGE_SIZE as int + PAGE_SIZE <= u64::MAX
}

/// The boot areas' page count never goes negative, and each summand is at
/// least one.
pub proof fn lemma_layout_count_nonneg(l: KernelLayout)
    requires
        layout_wf(l),
    ensures
        layout_page_count(l) >= 5,
{
    assert(page_index(l.stext as int) <= page_index(l.etext - 1) && page_index(l.srodata as int)
        <= page_index(l.erodata - 1) && page_index(l.sdata as int) <= page_index(l.edata - 1)
        && page_index(l.sbss as int) <= page_index(l.ebss - 1) && page_index(
        phys_window_start(l) as int,
    ) <= page_index(PHYSICAL_MEMORY_END + PHYSICAL_MEMORY_OFFSET - 1)) by (nonlinear_arith)
        requires
            PAGE_SIZE == 4096,
            l.stext < l.etext,
            l.srodata < l.erodata,
            l.sdata < l.edata,
            l.sbss < l.ebss,
            phys_window_start(l) < PHYSICAL_MEMORY_END + PHYSICAL_MEMORY_OFFSET,
            page_index(l.stext as int) == l.stext as int / 4096,
            page_index(l.etext - 1) == (l.etext - 1) / 4096,
            page_index(l.srodata as int) == l.srodata as int / 4096,
            page_index(l.erodata - 1) == (l.erodata - 1) / 4096,
            page_index(l.sdata as int) == l.sdata as int / 4096,
            page_index(l.edata - 1) == (l.edata - 1) / 4096,
            page_index(l.sbss as int) == l.sbss as int / 4096,
            page_index(l.ebss - 1) == (l.ebss - 1) / 4096,
            page_index(phys_window_start(l) as int) == phys_window_start(l) as int / 4096,
            page_index(PHYSICAL_MEMORY_END + PHYSICAL_MEMORY_OFFSET - 1) == (PHYSICAL_MEMORY_END
                + PHYSICAL_MEMORY_OFFSET - 1) as int / 4096,
    ;
}

/// Compute how many pages the five boot areas cover.
pub fn layout_page_total(l: &KernelLayout) -> (r: u64)
    requires
        layout_wf(*l),
    ensures
        r == layout_page_count(*l),
        r <= 0x50_0000_0000_0000,
    {
    proof {
        lemma_layout_count_nonneg(*l);
        assert(page_index(l.etext - 1) <= page_index(u64::MAX as int) && page_index(l.erodata - 1)
            <= page_index(u64::MAX as int) && page_index(l.edata - 1) <= page_index(
            u64::MAX as int,
        ) && page_index(l.ebss - 1) <= page_index(u64::MAX as int) && page_index(
            PHYSICAL_MEMORY_END + PHYSICAL_MEMORY_OFFSET - 1,
        ) <= page_index(u64::MAX as int) && page_index(u64::MAX as int) < 0x10_0000_0000_0000)
            by (nonlinear_arith)
            requires
                PAGE_SIZE == 4096,
                l.etext <= u64::MAX,
                l.erodata <= u64::MAX,
                l.edata <= u64::MAX,
                l.ebss <= u64::MAX,
                0 < l.etext && 0 < l.erodata && 0 < l.edata && 0 < l.ebss,
                page_index(l.etext - 1) == (l.etext - 1) / 4096,
                page_index(l.erodata - 1) == (l.erodata - 1) / 4096,
                page_index(l.edata - 1) == (l.edata - 1) / 4096,
                page_index(l.ebss - 1) == (l.ebss - 1) / 4096,
                page_index(PHYSICAL_MEMORY_END + PHYSICAL_MEMORY_OFFSET - 1) == (
                PHYSICAL_MEMORY_END + PHYSICAL_MEMORY_OFFSET - 1) as int / 4096,
                page_index(u64::MAX as int) == u64::MAX as int / 4096,
        ;
    }
    let c1 = (l.etext - 1) / PAGE_SIZE + 1 - l.stext / PAGE_SIZE;
    let c2 = (l.erodata - 1) / PAGE_SIZE + 1 - l.srodata / PAGE_SIZE;
    let c3 = (l.edata - 1) / PAGE_SIZE + 1 - l.sdata / PAGE_SIZE;
    let c4 = (l.ebss - 1) / PAGE_SIZE + 1 - l.sbss / PAGE_SIZE;
    let window = (l.end / PAGE_SIZE + 1) * PAGE_SIZE;
    proof {
        assert(window == phys_window_start(*l));
        assert(page_index(phys_window_start(*l) as int) == window / PAGE_SIZE);
    }
    let c5 = ((PHYSICAL_MEMORY_END + PHYSICAL_MEMORY_OFFSET) as u64 - 1) / PAGE_SIZE + 1 - window
        / PAGE_SIZE;
    c1 + c2 + c3 + c4 + c5
}

/// How many pages the five boot areas cover together.
pub open spec fn layout_page_count(l: KernelLayout) -> int {
    (page_index(l.etext - 1) + 1 - page_index(l.stext as int)) + (page_index(l.erodata - 1) + 1
        - page_index(l.srodata as int)) + (page_index(l.edata - 1) + 1 - page_index(
        l.sdata as int,
    )) + (page_index(l.ebss - 1) + 1 - page_index(l.sbss as int)) + (page_index(
        PHYSICAL_MEMORY_END + PHYSICAL_MEMORY_OFFSET - 1,
    ) + 1 - page_index(phys_window_start(l) as int))
}

/// The first boot area: the kernel text, readable and executable.
pub open spec fn boot_area1(l: KernelLayout) -> Area {
    Area::stub(
        l.stext,
        l.etext,
        Handler::Linear(Linear::stub(PHYSICAL_MEMORY_OFFSET)),
        MemoryAttr::stub(false, true, true),
    )
}

/// The second boot area: read-only data.
pub open spec fn boot_area2(l: KernelLayout) -> Area {
    Area::stub(
        l.srodata,
        l.erodata,
        Handler::Linear(Linear::stub(PHYSICAL_MEMORY_OFFSET)),
        MemoryAttr::stub(false, true, false),
    )
}

/// The third boot area: the data section, read-write.
pub open spec fn boot_area3(l: KernelLayout) -> Area {
    Area::stub(
        l.sdata,
        l.edata,
        Handler::Linear(Linear::stub(PHYSICAL_MEMORY_OFFSET)),
        MemoryAttr::stub(false, false, false),
    )
}

/// The fourth boot area: the zero-initialized section, writable.
pub open spec fn boot_area4(l: KernelLayout) -> Area {
    Area::stub(
        l.sbss,
        l.ebss,
        Handler::Linear(Linear::stub(PHYSICAL_MEMORY_OFFSET)),
        MemoryAttr::stub(false, false, false),
    )
}

/// The fifth boot area: the remaining physical memory window, writable.
pub open spec fn boot_area5(l: KernelLayout) -> Area {
    Area::stub(
        phys_window_start(l),
        (PHYSICAL_MEMORY_END + PHYSICAL_MEMORY_OFFSET) as u64,
        Handler::Linear(Linear::stub(PHYSICAL_MEMORY_OFFSET)),
        MemoryAttr::stub(false, false, false),
    )
}

/// The five boot areas are well-formed and each later one is disjoint from
/// each earlier one.
pub proof fn lemma_layout_areas_wf(l: KernelLayout)
    requires
        layout_wf(l),
    ensures
        boot_area1(l).spec_wf(),
        boot_area2(l).spec_wf(),
        boot_area3(l).spec_wf(),
        boot_area4(l).spec_wf(),
        boot_area5(l).spec_wf(),
        vpn_disjoint(boot_area2(l), boot_area1(l)),
        vpn_disjoint(boot_area3(l), boot_area1(l)),
        vpn_disjoint(boot_area3(l), boot_area2(l)),
        vpn_disjoint(boot_area4(l), boot_area1(l)),
        vpn_disjoint(boot_area4(l), boot_area2(l)),
        vpn_disjoint(boot_area4(l), boot_area3(l)),
        vpn_disjoint(boot_area5(l), boot_area1(l)),
        vpn_disjoint(boot_area5(l), boot_area2(l)),
        vpn_disjoint(boot_area5(l), boot_area3(l)),
        vpn_disjoint(boot_area5(l), boot_area4(l)),
{
    broadcast use crate::memory::manager::area::lemma_area_stub;
    broadcast use crate::memory::manager::handler::lemma_linear_stub;
    broadcast use crate::memory::memory_set::attr::lemma_attr_stub;

    let w0 = page_index(l.stext as int);
    assert(PHYSICAL_MEMORY_OFFSET % PAGE_SIZE == 0);
    assert(phys_window_start(l) % PAGE_SIZE == 0 && l.end < phys_window_start(l))
        by (nonlinear_arith)
        requires
            PAGE_SIZE == 4096,
            layout_wf(l),
            phys_window_start(l) == ((l.end as int / 4096 + 1) * 4096) as u64,
            l.end as int / 4096 * 4096 + 4096 <= u64::MAX,
    ;
    lemma_vpn_disjoint(boot_area2(l), boot_area1(l), w0);
    lemma_vpn_disjoint(boot_area3(l), boot_area1(l), w0);
    lemma_vpn_disjoint(boot_area3(l), boot_area2(l), w0);
    lemma_vpn_disjoint(boot_area4(l), boot_area1(l), w0);
    lemma_vpn_disjoint(boot_area4(l), boot_area2(l), w0);
    lemma_vpn_disjoint(boot_area4(l), boot_area3(l), w0);
    lemma_vpn_disjoint(boot_area5(l), boot_area1(l), w0);
    lemma_vpn_disjoint(boot_area5(l), boot_area2(l), w0);
    lemma_vpn_disjoint(boot_area5(l), boot_area3(l), w0);
    lemma_vpn_disjoint(boot_area5(l), boot_area4(l), w0);
}

/// The entry area `a`'s `i`-th page should carry: the linear entry for the
/// page, or a by-frame entry around whatever frame actually backs it.
pub open spec fn area_pte(
    a: Area,
    i: int,
    actual_ppn: u64,
) -> crate::memory::manager::paging::entry::PageTableEntry {
    match a.spec_handler() {
        Handler::Linear(l) => linear_pte(a.spec_attr(), l.spec_offset(), a.page_addr(i)),
        Handler::ByFrame(_) => byframe_pte(a.spec_attr(), actual_ppn),
    }
}

/// No virtual page number is covered by both areas.
pub open spec fn vpn_disjoint(a: Area, b: Area) -> bool {
    forall|v: u64| !(a.covers_vpn(v) && #[trigger] b.covers_vpn(v))
}

/// Two well-formed areas with disjoint page-index ranges, both lying in one
/// span of the page-table's reach, cover disjoint virtual page numbers.
pub proof fn lemma_vpn_disjoint(a: Area, b: Area, w0: int)
    requires
        a.spec_wf(),
        b.spec_wf(),
        page_index(a.spec_end() - 1) + 1 <= page_index(b.spec_start() as int) || page_index(
            b.spec_end() - 1,
        ) + 1 <= page_index(a.spec_start() as int),
        w0 <= page_index(a.spec_start() as int),
        w0 <= page_index(b.spec_start() as int),
        page_index(a.spec_end() - 1) < w0 + 0x800_0000,
        page_index(b.spec_end() - 1) < w0 + 0x800_0000,
    ensures
        vpn_disjoint(a, b),
{
    assert forall|v: u64| !(a.covers_vpn(v) && #[trigger] b.covers_vpn(v)) by {
        if a.covers_vpn(v) && b.covers_vpn(v) {
            let i = choose|i: int|
                0 <= i < a.page_count() && vpn(#[trigger] a.page_addr(i)) == v;
            let j = choose|j: int|
                0 <= j < b.page_count() && vpn(#[trigger] b.page_addr(j)) == v;
            let pa = page_index(a.spec_start() as int) + i;
            let pb = page_index(b.spec_start() as int) + j;
            assert(page_index(u64::MAX as int) < 0x10_0000_0000_0000) by (nonlinear_arith)
                requires PAGE_SIZE == 4096;
            assert((pa * 4096) as u64 == a.page_addr(i) && (pb * 4096) as u64 == b.page_addr(j));
            lemma_page_vpn(pa as u64);
            lemma_page_vpn(pb as u64);
            assert(pa != pb);
            if pa < pb {
                lemma_page_vpn_distinct(pa as u64, pb as u64);
            } else {
                lemma_page_vpn_distinct(pb as u64, pa as u64);
            }
        }
    }
}

/// An area lying wholly inside the kernel's high window: at or above the
/// physical-memory offset, at or below the end of mapped physical memory.
pub open spec fn kernel_zone(a: Area) -> bool {
    &&& a.spec_start() < a.spec_end()
    &&& PHYSICAL_MEMORY_OFFSET <= a.spec_start()
    &&& a.spec_end() <= PHYSICAL_MEMORY_END + PHYSICAL_MEMORY_OFFSET
}

/// Two page-disjoint areas of the kernel window cover disjoint virtual page
/// numbers: the window spans fewer pages than one table holds.
pub proof fn lemma_kernel_zone_disjoint(a: Area, b: Area)
    requires
        a.spec_wf(),
        b.spec_wf(),
        kernel_zone(a),
        kernel_zone(b),
        page_index(a.spec_end() - 1) + 1 <= page_index(b.spec_start() as int) || page_index(
            b.spec_end() - 1,
        ) + 1 <= page_index(a.spec_start() as int),
    ensures
        vpn_disjoint(a, b),
{
    let w0 = page_index(PHYSICAL_MEMORY_OFFSET as int);
    assert(page_index(a.spec_start() as int) >= w0 && page_index(b.spec_start() as int) >= w0
        && page_index(a.spec_end() - 1) < w0 + 0x800_0000 && page_index(b.spec_end() - 1) < w0
        + 0x800_0000) by (nonlinear_arith)
        requires
            PAGE_SIZE == 4096,
            kernel_zone(a),
            kernel_zone(b),
            w0 == PHYSICAL_MEMORY_OFFSET as int / 4096,
            page_index(a.spec_start() as int) == a.spec_start() as int / 4096,
            page_index(b.spec_start() as int) == b.spec_start() as int / 4096,
            page_index(a.spec_end() - 1) == (a.spec_end() - 1) / 4096,
            page_index(b.spec_end() - 1) == (b.spec_end() - 1) / 4096,
            PHYSICAL_MEMORY_OFFSET == 0xffffffff_40000000,
            PHYSICAL_MEMORY_END == 0x88000000,
    ;
    lemma_vpn_disjoint(a, b, w0);
}

/// The five boot areas lie in the kernel window.
pub proof fn lemma_boot_areas_kernel_zone(l: KernelLayout)
    requires
        layout_wf(l),
    ensures
        kernel_zone(boot_area1(l)),
        kernel_zone(boot_area2(l)),
        kernel_zone(boot_area3(l)),
        kernel_zone(boot_area4(l)),
        kernel_zone(boot_area5(l)),
{
    broadcast use crate::memory::manager::area::lemma_area_stub;

    assert(l.etext <= l.srodata && l.erodata <= l.sdata && l.edata <= l.sbss && l.ebss
        <= phys_window_start(l) && phys_window_start(l) <= PHYSICAL_MEMORY_END
        + PHYSICAL_MEMORY_OFFSET) by (nonlinear_arith)
        requires
            PAGE_SIZE == 4096,
            layout_wf(l),
            page_index(l.etext - 1) == (l.etext - 1) / 4096,
            page_index(l.srodata as int) == l.srodata as int / 4096,
            page_index(l.erodata - 1) == (l.erodata - 1) / 4096,
            page_index(l.sdata as int) == l.sdata as int / 4096,
            page_index(l.edata - 1) == (l.edata - 1) / 4096,
            page_index(l.sbss as int) == l.sbss as int / 4096,
            page_index(l.ebss - 1) == (l.ebss - 1) / 4096,
            page_index(phys_window_start(l) as int) == phys_window_start(l) as int / 4096,
    ;
}

/// The ordered collection of memory areas over one page table. Areas are
/// kept non-overlapping (the preconditions of `push` demand it, where the
/// hardware would let overlapping areas double-map silently), and the
/// standing invariant says every recorded area is mapped exactly as its
/// policy and attribute dictate.
pub struct Manager {
    areas: Vec<Area>,
    page_table: PageTable,
}

impl Manager {
    pub closed spec fn spec_areas(self) -> Seq<Area> {
        self.areas@
    }

    pub closed spec fn spec_table(self) -> PageTable {
        self.page_table
    }

    /// Area `j` is mapped exactly as recorded: every page present, with the
    /// entry its policy and attribute dictate.
    pub open spec fn area_mapped(self, j: int) -> bool {
        let a = self.spec_areas()[j];
        forall|i: int|
            0 <= i < a.page_count() ==> self.spec_table().mapping().contains_key(
                vpn(#[trigger] a.page_addr(i)),
            ) && self.spec_table().mapping()[vpn(a.page_addr(i))] == area_pte(
                a,
                i,
                self.spec_table().mapping()[vpn(a.page_addr(i))].ppn,
            )
    }

    /// The manager's invariant: a consistent table, well-formed pairwise
    /// vpn-disjoint areas, each mapped as recorded.
    pub open spec fn wf(self) -> bool {
        &&& self.spec_table().wf()
        &&& forall|j: int| 0 <= j < self.spec_areas().len() ==> (#[trigger] self.spec_areas()[j]).spec_wf()
        &&& forall|j1: int, j2: int|
            0 <= j1 < j2 < self.spec_areas().len() ==> vpn_disjoint(
                self.spec_areas()[j1],
                self.spec_areas()[j2],
            )
        &&& forall|j: int| 0 <= j < self.spec_areas().len() ==> self.area_mapped(j)
    }

    /// An empty manager with a fresh page table; `initialize` then maps the
    /// kernel's own segments into it.
    pub fn new_empty(allocator: &mut LinearFrameAllocator) -> (r: Manager)
        requires
            old(allocator).wf(),
            old(allocator).can_alloc(),
        ensures
            r.wf(),
            r.spec_areas().len() == 0,
            r.spec_table().mapping() == Map::<
                u64,
                crate::memory::manager::paging::entry::PageTableEntry,
            >::empty(),
            final(allocator).wf(),
            final(allocator).offset == old(allocator).offset,
            final(allocator).size == old(allocator).size,
            final(allocator).free_count() == old(allocator).free_count() - 1,
            forall|f: u64| old(allocator).live(f) ==> final(allocator).live(f),
            old(allocator).is_lowest_free(r.spec_table().spec_root()),
    {
        Manager { areas: Vec::new(), page_table: PageTable::new(allocator) }
    }

    /// The register token that selects this manager's page table.
    pub fn token(&self) -> (r: u64)
        ensures
            r == self.spec_table().spec_token(),
    {
        self.page_table.token()
    }

    /// Construct an area over `[start, end)`, map it at once, copy the
    /// optional `(source, length)` data into it page by page, and record it.
    pub fn push(
        &mut self,
        start: u64,
        end: u64,
        attr: MemoryAttr,
        handler: Handler,
        data: Option<(&Vec<u8>, usize)>,
        allocator: &mut LinearFrameAllocator,
        ram: &mut PhysicalMemory,
    )
        requires
            old(self).wf(),
            old(allocator).wf(),
            old(ram).wf(),
            start < end,
            page_index(end - 1) + 1 <= page_index(u64::MAX as int) + 1,
            page_index(end - 1) + 1 - page_index(start as int) <= 0x800_0000,
            handler matches Handler::Linear(l) ==> l.spec_offset() % PAGE_SIZE == 0
                && l.spec_offset() <= start,
            forall|j: int|
                0 <= j < old(self).spec_areas().len() ==> vpn_disjoint(
                    Area::stub(start, end, handler, attr),
                    #[trigger] old(self).spec_areas()[j],
                ),
            old(allocator).free_count() >= 3 * (page_index(end - 1) + 1 - page_index(
                start as int,
            )),
            old(allocator).offset + old(allocator).size <= 0x10_0000_0000_0000,
            data matches Some((src, length)) ==> {
                &&& length <= src.len()
                &&& (page_index(end - 1) + 1 - page_index(start as int)) * PAGE_SIZE
                    <= usize::MAX
                &&& (handler matches Handler::Linear(l) ==> l.spec_offset()
                    == PHYSICAL_MEMORY_OFFSET)
            },
        ensures
            final(self).wf(),
            final(self).spec_areas() == old(self).spec_areas().push(
                Area::stub(start, end, handler, attr),
            ),
            final(self).spec_table().spec_token() == old(self).spec_table().spec_token(),
            final(self).spec_table().spec_root() == old(self).spec_table().spec_root(),
            final(allocator).wf(),
            final(allocator).offset == old(allocator).offset,
            final(allocator).size == old(allocator).size,
            final(allocator).free_count() >= old(allocator).free_count() - 3 * (page_index(
                end - 1,
            ) + 1 - page_index(start as int)),
            forall|f: u64| old(allocator).live(f) ==> final(allocator).live(f),
            final(ram).wf(),
            data is None ==> *final(ram) == *old(ram),
            forall|v: u64|
                !Area::stub(start, end, handler, attr).covers_vpn(v)
                    ==> (final(self).spec_table().mapping().contains_key(v)
                    == old(self).spec_table().mapping().contains_key(v) && (old(
                    self,
                ).spec_table().mapping().contains_key(v) ==> final(self).spec_table().mapping()[v]
                    == old(self).spec_table().mapping()[v])),
            handler is ByFrame ==> ({
                let a = Area::stub(start, end, handler, attr);
                &&& (forall|i: int|
                    0 <= i < a.page_count() ==> !old(allocator).live(
                        final(self).spec_table().mapping()[vpn(#[trigger] a.page_addr(i))].ppn,
                    ) && final(allocator).live(
                        final(self).spec_table().mapping()[vpn(a.page_addr(i))].ppn,
                    ))
                &&& (forall|i: int, j: int|
                    0 <= i < j < a.page_count() ==> final(self).spec_table().mapping()[vpn(
                        #[trigger] a.page_addr(i),
                    )].ppn != final(self).spec_table().mapping()[vpn(
                        #[trigger] a.page_addr(j),
                    )].ppn)
            }),
            data matches Some((src, length)) ==> ({
                let a = Area::stub(start, end, handler, attr);
                &&& (forall|i: int|
                    0 <= i < a.page_count() ==> final(ram).page_of(
                        final(self).spec_table().mapping()[vpn(#[trigger] a.page_addr(i))].ppn,
                    ) == crate::memory::manager::handler::Handler::copied_page(
                        src@,
                        i * PAGE_SIZE,
                        (if length - i * PAGE_SIZE > PAGE_SIZE {
                            PAGE_SIZE as int
                        } else if length - i * PAGE_SIZE > 0 {
                            length - i * PAGE_SIZE
                        } else {
                            0
                        }),
                    ))
                &&& (forall|g: u64|
                    !a.frame_written_prefix(final(self).spec_table(), a.page_count(), g)
                        ==> final(ram).page_of(g) == old(ram).page_of(g))
            }),
    {
        let area = Area::new(start, end, handler, attr);
        area.map(&mut self.page_table, allocator);
        proof {
            assert(area == Area::stub(start, end, handler, attr));
        }
        match data {
            Some((src, length)) => {
                proof {
                    if area.spec_handler() is Linear {
                        let l = area.spec_handler()->Linear_0;
                        let base = page_index(area.spec_start() as int);
                        let q = l.spec_offset() as int / 4096;
                        assert(l.spec_offset() == q * 4096) by (nonlinear_arith)
                            requires
                                l.spec_offset() % 4096 == 0,
                                q == l.spec_offset() as int / 4096,
                        ;
                        assert(page_index(u64::MAX as int) < 0x10_0000_0000_0000)
                            by (nonlinear_arith)
                            requires PAGE_SIZE == 4096;
                        assert(q * 4096 <= base * 4096 ==> q <= base) by (nonlinear_arith);
                        assert(q * 4096 <= base * 4096) by (nonlinear_arith)
                            requires
                                q * 4096 == l.spec_offset(),
                                l.spec_offset() <= area.spec_start(),
                                base == area.spec_start() as int / 4096,
                        ;
                        assert forall|i: int|
                            0 <= i < area.page_count() implies self.spec_table().mapping()[vpn(
                            #[trigger] area.page_addr(i),
                        )].ppn == base + i - q && self.spec_table().mapping()[vpn(
                            area.page_addr(i),
                        )].ppn * PAGE_SIZE + l.spec_offset() == area.page_addr(i) by {
                            let p = area.page_addr(i);
                            assert((base + i) * 4096 <= page_index(u64::MAX as int) * 4096
                                <= u64::MAX) by (nonlinear_arith)
                                requires 0 <= base + i <= page_index(u64::MAX as int)
                                    && page_index(u64::MAX as int) == u64::MAX as int / 4096;
                            assert(p as int == (base + i) * 4096);
                            assert(l.spec_offset() <= p as int) by (nonlinear_arith)
                                requires q <= base + i && l.spec_offset() == q * 4096 && p as int
                                    == (base + i) * 4096;
                            let d = (p - l.spec_offset()) as u64;
                            assert(d as int == (base + i - q) * 4096) by (nonlinear_arith)
                                requires p as int == (base + i) * 4096 && l.spec_offset() == q
                                    * 4096 && d == p - l.spec_offset();
                            lemma_shr12(d);
                            assert(d as int / 4096 == base + i - q) by (nonlinear_arith)
                                requires d as int == (base + i - q) * 4096 && base + i - q >= 0;
                            assert(self.spec_table().mapping()[vpn(p)] == linear_pte(
                                area.spec_attr(),
                                l.spec_offset(),
                                p,
                            ));
                            assert(self.spec_table().mapping()[vpn(p)].ppn == d >> 12);
                            assert((base + i - q) * 4096 + q * 4096 == (base + i) * 4096)
                                by (nonlinear_arith);
                        }
                        assert forall|i: int, j: int|
                            0 <= i < j < area.page_count() implies self.spec_table().mapping()[vpn(
                            #[trigger] area.page_addr(i),
                        )].ppn != self.spec_table().mapping()[vpn(
                            #[trigger] area.page_addr(j),
                        )].ppn by {}
                    }
                }
                area.page_copy(&self.page_table, ram, src, length);
            },
            None => {},
        }
        self.areas.push(area);
        proof {
            assert(self.spec_areas() =~= old(self).spec_areas().push(area));
            let n = self.spec_areas().len() - 1;
            assert forall|j: int| 0 <= j < self.spec_areas().len() implies (
            #[trigger] self.spec_areas()[j]).spec_wf() by {
                if j < n {
                    assert(old(self).spec_areas()[j].spec_wf());
                }
            }
            assert forall|j1: int, j2: int|
                0 <= j1 < j2 < self.spec_areas().len() implies vpn_disjoint(
                self.spec_areas()[j1],
                self.spec_areas()[j2],
            ) by {
                if j2 < n {
                    assert(vpn_disjoint(
                        old(self).spec_areas()[j1],
                        old(self).spec_areas()[j2],
                    ));
                } else {
                    assert(vpn_disjoint(area, old(self).spec_areas()[j1]));
                    assert forall|v: u64| !(self.spec_areas()[j1].covers_vpn(v)
                        && #[trigger] self.spec_areas()[j2].covers_vpn(v)) by {
                        assert(!(area.covers_vpn(v) && old(self).spec_areas()[j1].covers_vpn(
                            v,
                        )));
                    }
                }
            }
            assert forall|j: int| 0 <= j < self.spec_areas().len() implies self.area_mapped(
                j,
            ) by {
                let a = self.spec_areas()[j];
                if j < n {
                    assert(a == old(self).spec_areas()[j]);
                    assert(old(self).area_mapped(j));
                    assert forall|i: int|
                        0 <= i < a.page_count() implies self.spec_table().mapping().contains_key(
                        vpn(#[trigger] a.page_addr(i)),
                    ) && self.spec_table().mapping()[vpn(a.page_addr(i))] == area_pte(
                        a,
                        i,
                        self.spec_table().mapping()[vpn(a.page_addr(i))].ppn,
                    ) by {
                        let v = vpn(a.page_addr(i));
                        assert(a.covers_vpn(v));
                        assert(vpn_disjoint(area, a));
                        assert(!area.covers_vpn(v));
                        assert(old(self).spec_table().mapping().contains_key(v));
                        assert(self.spec_table().mapping().contains_key(v));
                        assert(self.spec_table().mapping()[v] == old(
                            self,
                        ).spec_table().mapping()[v]);
                        assert(old(self).spec_table().mapping()[v] == area_pte(
                            a,
                            i,
                            old(self).spec_table().mapping()[v].ppn,
                        ));
                    }
                } else {
                    assert(a == area);
                    assert forall|i: int|
                        0 <= i < a.page_count() implies self.spec_table().mapping().contains_key(
                        vpn(#[trigger] a.page_addr(i)),
                    ) && self.spec_table().mapping()[vpn(a.page_addr(i))] == area_pte(
                        a,
                        i,
                        self.spec_table().mapping()[vpn(a.page_addr(i))].ppn,
                    ) by {}
                }
            }
        }
    }

    /// The fixed boot-time sequence: map the kernel's text (read and
    /// execute), read-only data, data, bss, and the remaining physical
    /// memory window, all linearly through the physical-memory offset.
    pub fn initialize(
        &mut self,
        layout: &KernelLayout,
        allocator: &mut LinearFrameAllocator,
        ram: &mut PhysicalMemory,
    )
        requires
            old(self).wf(),
            old(self).spec_areas().len() == 0,
            old(allocator).wf(),
            old(ram).wf(),
            layout_wf(*layout),
            old(allocator).free_count() >= 3 * layout_page_count(*layout),
            old(allocator).offset + old(allocator).size <= 0x10_0000_0000_0000,
        ensures
            final(self).wf(),
            final(self).spec_table().spec_token() == old(self).spec_table().spec_token(),
            final(self).spec_table().spec_root() == old(self).spec_table().spec_root(),
            final(allocator).wf(),
            final(allocator).offset == old(allocator).offset,
            final(allocator).size == old(allocator).size,
            final(allocator).free_count() >= old(allocator).free_count() - 3 * layout_page_count(
                *layout,
            ),
            forall|f: u64| old(allocator).live(f) ==> final(allocator).live(f),
            *final(ram) == *old(ram),
            final(self).spec_areas() =~= seq![
                boot_area1(*layout),
                boot_area2(*layout),
                boot_area3(*layout),
                boot_area4(*layout),
                boot_area5(*layout),
            ],
    {
        let offset = PHYSICAL_MEMORY_OFFSET;
        proof {
            broadcast use crate::memory::manager::area::lemma_area_stub;
            broadcast use crate::memory::manager::handler::lemma_linear_stub;
            broadcast use crate::memory::memory_set::attr::lemma_attr_stub;

            lemma_layout_areas_wf(*layout);
            assert(page_index(layout.stext as int) <= page_index(layout.etext - 1) && page_index(
                layout.srodata as int,
            ) <= page_index(layout.erodata - 1) && page_index(layout.sdata as int) <= page_index(
                layout.edata - 1,
            ) && page_index(layout.sbss as int) <= page_index(layout.ebss - 1) && page_index(
                phys_window_start(*layout) as int,
            ) <= page_index(PHYSICAL_MEMORY_END + PHYSICAL_MEMORY_OFFSET - 1)) by (nonlinear_arith)
                requires
                    PAGE_SIZE == 4096,
                    layout.stext < layout.etext,
                    layout.srodata < layout.erodata,
                    layout.sdata < layout.edata,
                    layout.sbss < layout.ebss,
                    phys_window_start(*layout) < PHYSICAL_MEMORY_END + PHYSICAL_MEMORY_OFFSET,
            ;
            assert(phys_window_start(*layout) % PAGE_SIZE == 0 && layout.end
                < phys_window_start(*layout)) by (nonlinear_arith)
                requires
                    PAGE_SIZE == 4096,
                    layout_wf(*layout),
                    phys_window_start(*layout) == ((layout.end as int / 4096 + 1) * 4096) as u64,
                    layout.end as int / 4096 * 4096 + 4096 <= u64::MAX,
            ;
        }
        self.push(
            layout.stext,
            layout.etext,
            MemoryAttr::new().set_read_only().set_executable(),
            Handler::Linear(Linear::new(offset)),
            None,
            allocator,
            ram,
        );
        self.push(
            layout.srodata,
            layout.erodata,
            MemoryAttr::new().set_read_only(),
            Handler::Linear(Linear::new(offset)),
            None,
            allocator,
            ram,
        );
        self.push(
            layout.sdata,
            layout.edata,
            MemoryAttr::new(),
            Handler::Linear(Linear::new(offset)),
            None,
            allocator,
            ram,
        );
        self.push(
            layout.sbss,
            layout.ebss,
            MemoryAttr::new(),
            Handler::Linear(Linear::new(offset)),
            None,
            allocator,
            ram,
        );
        let window = (layout.end / PAGE_SIZE + 1) * PAGE_SIZE;
        proof {
            assert(window == phys_window_start(*layout));
        }
        self.push(
            window,
            (PHYSICAL_MEMORY_END + PHYSICAL_MEMORY_OFFSET) as u64,
            MemoryAttr::new(),
            Handler::Linear(Linear::new(offset)),
            None,
            allocator,
            ram,
        );
    }

    /// Whether the range `[start, end)` is free of every recorded area.
    pub fn test_free_area(&self, start: u64, end: u64) -> (r: bool)
        requires
            self.wf(),
            0 < end,
            forall|j: int|
                0 <= j < self.spec_areas().len() ==> (#[trigger] self.spec_areas()[j]).spec_start()
                    < self.spec_areas()[j].spec_end(),
        ensures
            r == forall|j: int|
                0 <= j < self.spec_areas().len() ==> (page_index(
                    (#[trigger] self.spec_areas()[j]).spec_start() as int,
                ) >= page_index(end - 1) + 1 || page_index(self.spec_areas()[j].spec_end() - 1)
                    + 1 <= page_index(start as int)),
    {
        let mut index: usize = 0;
        while index < self.areas.len()
            invariant
                self.wf(),
                0 < end,
                forall|j: int|
                    0 <= j < self.spec_areas().len() ==> (
                    #[trigger] self.spec_areas()[j]).spec_start() < self.spec_areas()[j].spec_end(),
                index <= self.areas.len(),
                forall|j: int|
                    0 <= j < index ==> (page_index(
                        (#[trigger] self.spec_areas()[j]).spec_start() as int,
                    ) >= page_index(end - 1) + 1 || page_index(
                        self.spec_areas()[j].spec_end() - 1,
                    ) + 1 <= page_index(start as int)),
            decreases self.areas.len() - index,
        {
            proof {
                assert(self.spec_areas()[index as int].spec_start() < self.spec_areas()[
                    index as int].spec_end());
            }
            if self.areas[index].is_overlap_with(start, end) {
                proof {
                    assert(!(page_index(self.spec_areas()[index as int].spec_start() as int)
                        >= page_index(end - 1) + 1 || page_index(
                        self.spec_areas()[index as int].spec_end() - 1,
                    ) + 1 <= page_index(start as int)));
                }
                return false;
            }
            index += 1;
        }
        true
    }

    /// Install this manager's page table as the active one.
    pub fn activate(&self, m: &mut Machine)
        ensures
            final(m).satp == self.spec_table().spec_token(),
            *final(m) == (Machine { satp: self.spec_table().spec_token(), ..*old(m) }),
    {
        self.page_table.activate(m);
    }
}

} // verus!
