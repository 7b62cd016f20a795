//! The virtual-memory manager: physical frame allocation, page-table
//! construction and mutation, and virtual-memory-area mapping policies.

use vstd::prelude::*;
use crate::consts::{MAX_PHYSICAL_PAGES, PAGE_SIZE, PHYSICAL_MEMORY_END, PHYSICAL_MEMORY_OFFSET};

pub mod allocator;
pub mod frame_allocator;
pub mod manager;
pub mod memory_set;
pub mod paging;

verus! {

use crate::machine::{Machine, PhysicalMemory};
use crate::memory::frame_allocator::LinearFrameAllocator;
use crate::memory::manager::area::Area;
use crate::memory::manager::handler::{Handler, Linear};
use crate::memory::manager::paging::range::page_index;
use crate::memory::manager::{
    kernel_zone, layout_page_count, layout_wf, lemma_kernel_zone_disjoint, phys_window_start,
    vpn_disjoint, KernelLayout, Manager,
};
use crate::memory::memory_set::attr::MemoryAttr;

/// Allocate one physical frame, or report exhaustion.
pub fn frame_alloc(allocator: &mut LinearFrameAllocator) -> (r: Option<u64>)
    requires
        old(allocator).wf(),
    ensures
        final(allocator).wf(),
        final(allocator).offset == old(allocator).offset,
        final(allocator).size == old(allocator).size,
        r is Some <==> old(allocator).can_alloc(),
        r is Some ==> {
            &&& old(allocator).in_range(r->0)
            &&& !old(allocator).live(r->0)
            &&& forall|f: u64| old(allocator).offset <= f < r->0 ==> old(allocator).live(f)
            &&& final(allocator).flags@ == old(allocator).flags@.update(
                r->0 - old(allocator).offset,
                true,
            )
        },
        r is None ==> *final(allocator) == *old(allocator),
{
    if allocator.has_free() {
        Some(allocator.allocate())
    } else {
        None
    }
}

/// Release one physical frame.
pub fn frame_dealloc(allocator: &mut LinearFrameAllocator, frame: u64)
    requires
        old(allocator).wf(),
        old(allocator).live(frame),
    ensures
        final(allocator).wf(),
        final(allocator).offset == old(allocator).offset,
        final(allocator).size == old(allocator).size,
        final(allocator).flags@ == old(allocator).flags@.update(
            frame - old(allocator).offset,
            false,
        ),
{
    allocator.dealloc(frame);
}

/// A linear kernel-window area over `[s, e)`, writable, kernel-only.
pub open spec fn window_area(s: u64, e: u64) -> Area {
    Area::stub(
        s,
        e,
        Handler::Linear(Linear::stub(PHYSICAL_MEMORY_OFFSET)),
        MemoryAttr::stub(false, false, false),
    )
}

/// The range `[s, e)` shares no page with any of the five boot areas.
pub open spec fn range_clear_of_boot(l: KernelLayout, s: u64, e: u64) -> bool {
    &&& page_index(e - 1) + 1 <= page_index(l.stext as int) || page_index(l.etext - 1) + 1
        <= page_index(s as int)
    &&& page_index(e - 1) + 1 <= page_index(l.srodata as int) || page_index(l.erodata - 1) + 1
        <= page_index(s as int)
    &&& page_index(e - 1) + 1 <= page_index(l.sdata as int) || page_index(l.edata - 1) + 1
        <= page_index(s as int)
    &&& page_index(e - 1) + 1 <= page_index(l.sbss as int) || page_index(l.ebss - 1) + 1
        <= page_index(s as int)
    &&& page_index(e - 1) + 1 <= page_index(phys_window_start(l) as int) || page_index(
        PHYSICAL_MEMORY_END + PHYSICAL_MEMORY_OFFSET - 1,
    ) + 1 <= page_index(s as int)
}

/// Two ranges share no page.
pub open spec fn ranges_clear(s1: u64, e1: u64, s2: u64, e2: u64) -> bool {
    ||| page_index(e1 - 1) + 1 <= page_index(s2 as int)
    ||| page_index(e2 - 1) + 1 <= page_index(s1 as int)
}

/// Pages a kernel-window range covers.
pub open spec fn range_pages(s: u64, e: u64) -> int {
    page_index(e - 1) + 1 - page_index(s as int)
}

/// The interrupt-controller window's bounds.
pub open spec fn plic_window() -> (u64, u64) {
    ((PHYSICAL_MEMORY_OFFSET + 0x0c00_2000) as u64, (PHYSICAL_MEMORY_OFFSET + 0x0c00_3000) as u64)
}

/// The serial-device window's bounds.
pub open spec fn uart_window() -> (u64, u64) {
    ((PHYSICAL_MEMORY_OFFSET + 0x1000_0000) as u64, (PHYSICAL_MEMORY_OFFSET + 0x1000_1000) as u64)
}

/// When a kernel remap succeeds: the boot stack and the two device windows
/// are clear of the boot areas and of one another, and the frames for the
/// root, the boot areas and the three windows are there.
pub open spec fn spec_remap_ok(
    l: KernelLayout,
    bs: u64,
    bst: u64,
    a: LinearFrameAllocator,
) -> bool {
    &&& range_clear_of_boot(l, bs, bst)
    &&& range_clear_of_boot(l, plic_window().0, plic_window().1)
    &&& range_clear_of_boot(l, uart_window().0, uart_window().1)
    &&& ranges_clear(bs, bst, plic_window().0, plic_window().1)
    &&& ranges_clear(bs, bst, uart_window().0, uart_window().1)
    &&& ranges_clear(plic_window().0, plic_window().1, uart_window().0, uart_window().1)
    &&& 1 + 3 * layout_page_count(l) + 3 * (range_pages(bs, bst) + range_pages(
        plic_window().0,
        plic_window().1,
    ) + range_pages(uart_window().0, uart_window().1)) <= a.free_count()
}

/// Remap the kernel under a fresh page table: its own segments through the
/// boot sequence, then the boot stack and the interrupt-controller and
/// serial-device windows, linearly; then install the table. The remap
/// succeeds exactly when those three ranges are page-disjoint from the
/// boot areas and one another and the frame budget suffices; a refused
/// remap changes nothing.
pub fn kernel_remap(
    layout: &KernelLayout,
    boot_stack: u64,
    boot_stack_top: u64,
    allocator: &mut LinearFrameAllocator,
    ram: &mut PhysicalMemory,
    m: &mut Machine,
) -> (r: Option<Manager>)
    requires
        old(allocator).wf(),
        old(ram).wf(),
        layout_wf(*layout),
        old(allocator).offset + old(allocator).size <= 0x10_0000_0000_0000,
        PHYSICAL_MEMORY_OFFSET <= boot_stack,
        boot_stack < boot_stack_top,
        boot_stack_top <= PHYSICAL_MEMORY_END + PHYSICAL_MEMORY_OFFSET,
    ensures
        final(allocator).wf(),
        final(allocator).offset == old(allocator).offset,
        final(allocator).size == old(allocator).size,
        final(ram).wf(),
        *final(ram) == *old(ram),
        final(m).sum == old(m).sum,
        r is Some <==> spec_remap_ok(*layout, boot_stack, boot_stack_top, *old(allocator)),
        r is None ==> *final(m) == *old(m) && *final(allocator) == *old(allocator),
        r matches Some(manager) ==> {
            &&& manager.wf()
            &&& manager.spec_areas() =~= seq![
                crate::memory::manager::boot_area1(*layout),
                crate::memory::manager::boot_area2(*layout),
                crate::memory::manager::boot_area3(*layout),
                crate::memory::manager::boot_area4(*layout),
                crate::memory::manager::boot_area5(*layout),
                window_area(boot_stack, boot_stack_top),
                window_area(plic_window().0, plic_window().1),
                window_area(uart_window().0, uart_window().1),
            ]
            &&& final(m).satp == manager.spec_table().spec_token()
            &&& *final(m) == (Machine { satp: final(m).satp, ..*old(m) })
        },
{
    proof {
        crate::memory::manager::lemma_layout_count_nonneg(*layout);
        crate::memory::frame_allocator::lemma_free_count_le_size(*allocator);
    }
    let plic_s = PHYSICAL_MEMORY_OFFSET + 0x0c00_2000;
    let plic_e = PHYSICAL_MEMORY_OFFSET + 0x0c00_3000;
    let uart_s = PHYSICAL_MEMORY_OFFSET + 0x1000_0000;
    let uart_e = PHYSICAL_MEMORY_OFFSET + 0x1000_1000;
    if !(range_clear_exec(layout, boot_stack, boot_stack_top) && range_clear_exec(
        layout,
        plic_s,
        plic_e,
    ) && range_clear_exec(layout, uart_s, uart_e) && ranges_clear_exec(
        boot_stack,
        boot_stack_top,
        plic_s,
        plic_e,
    ) && ranges_clear_exec(boot_stack, boot_stack_top, uart_s, uart_e) && ranges_clear_exec(
        plic_s,
        plic_e,
        uart_s,
        uart_e,
    )) {
        return None;
    }
    let layout_pages = crate::memory::manager::layout_page_total(layout);
    let p_bs = (boot_stack_top - 1) / PAGE_SIZE + 1 - boot_stack / PAGE_SIZE;
    let p_plic = (plic_e - 1) / PAGE_SIZE + 1 - plic_s / PAGE_SIZE;
    let p_uart = (uart_e - 1) / PAGE_SIZE + 1 - uart_s / PAGE_SIZE;
    proof {
        lemma_window_pages(*layout, boot_stack, boot_stack_top);
    }
    if !allocator.enough_free_u64(1 + 3 * layout_pages + 3 * (p_bs + p_plic + p_uart)) {
        return None;
    }
    proof {
        crate::memory::frame_allocator::lemma_free_count_can_alloc(*allocator);
    }
    let mut manager = Manager::new_empty(allocator);
    manager.initialize(layout, allocator, ram);
    proof {
        broadcast use crate::memory::manager::area::lemma_area_stub;
        broadcast use crate::memory::manager::handler::lemma_linear_stub;
        broadcast use crate::memory::memory_set::attr::lemma_attr_stub;

        crate::memory::manager::lemma_boot_areas_kernel_zone(*layout);
        assert forall|j: int|
            0 <= j < manager.spec_areas().len() implies kernel_zone(
            #[trigger] manager.spec_areas()[j],
        ) && manager.spec_areas()[j].spec_wf() by {
            assert(manager.spec_areas()[0] == crate::memory::manager::boot_area1(*layout));
            assert(manager.spec_areas()[1] == crate::memory::manager::boot_area2(*layout));
            assert(manager.spec_areas()[2] == crate::memory::manager::boot_area3(*layout));
            assert(manager.spec_areas()[3] == crate::memory::manager::boot_area4(*layout));
            assert(manager.spec_areas()[4] == crate::memory::manager::boot_area5(*layout));
        }
        lemma_boot_ranges_clear(manager, *layout, boot_stack, boot_stack_top);
    }
    push_window(&mut manager, layout, boot_stack, boot_stack_top, allocator, ram);
    proof {
        broadcast use crate::memory::manager::area::lemma_area_stub;
        broadcast use crate::memory::manager::handler::lemma_linear_stub;
        broadcast use crate::memory::memory_set::attr::lemma_attr_stub;

        assert forall|j: int|
            5 <= j < manager.spec_areas().len() implies ranges_clear(
            plic_s,
            plic_e,
            (#[trigger] manager.spec_areas()[j]).spec_start(),
            manager.spec_areas()[j].spec_end(),
        ) by {
            assert(manager.spec_areas()[5] == window_area(boot_stack, boot_stack_top));
        }
        lemma_boot_ranges_clear(manager, *layout, plic_s, plic_e);
    }
    push_window(&mut manager, layout, plic_s, plic_e, allocator, ram);
    proof {
        broadcast use crate::memory::manager::area::lemma_area_stub;
        broadcast use crate::memory::manager::handler::lemma_linear_stub;
        broadcast use crate::memory::memory_set::attr::lemma_attr_stub;

        assert forall|j: int|
            5 <= j < manager.spec_areas().len() implies ranges_clear(
            uart_s,
            uart_e,
            (#[trigger] manager.spec_areas()[j]).spec_start(),
            manager.spec_areas()[j].spec_end(),
        ) by {
            assert(manager.spec_areas()[5] == window_area(boot_stack, boot_stack_top));
            assert(manager.spec_areas()[6] == window_area(plic_s, plic_e));
        }
        lemma_boot_ranges_clear(manager, *layout, uart_s, uart_e);
    }
    push_window(&mut manager, layout, uart_s, uart_e, allocator, ram);
    manager.activate(m);
    proof {
        broadcast use crate::memory::manager::area::lemma_area_stub;
        broadcast use crate::memory::manager::handler::lemma_linear_stub;
        broadcast use crate::memory::memory_set::attr::lemma_attr_stub;

        assert(manager.spec_areas() =~= seq![
            crate::memory::manager::boot_area1(*layout),
            crate::memory::manager::boot_area2(*layout),
            crate::memory::manager::boot_area3(*layout),
            crate::memory::manager::boot_area4(*layout),
            crate::memory::manager::boot_area5(*layout),
            window_area(boot_stack, boot_stack_top),
            window_area(plic_window().0, plic_window().1),
            window_area(uart_window().0, uart_window().1),
        ]);
    }
    Some(manager)
}

/// Check one window range against the five boot areas.
fn range_clear_exec(l: &KernelLayout, s: u64, e: u64) -> (r: bool)
    requires
        0 < e <= u64::MAX,
        s < e,
        layout_wf(*l),
    ensures
        r == range_clear_of_boot(*l, s, e),
{
    let pe = (e - 1) / PAGE_SIZE + 1;
    let ps = s / PAGE_SIZE;
    let window = (l.end / PAGE_SIZE + 1) * PAGE_SIZE;
    proof {
        assert(window == phys_window_start(*l));
    }
    (pe <= l.stext / PAGE_SIZE || (l.etext - 1) / PAGE_SIZE + 1 <= ps) && (pe <= l.srodata
        / PAGE_SIZE || (l.erodata - 1) / PAGE_SIZE + 1 <= ps) && (pe <= l.sdata / PAGE_SIZE || (
    l.edata - 1) / PAGE_SIZE + 1 <= ps) && (pe <= l.sbss / PAGE_SIZE || (l.ebss - 1) / PAGE_SIZE
        + 1 <= ps) && (pe <= window / PAGE_SIZE || ((PHYSICAL_MEMORY_END
        + PHYSICAL_MEMORY_OFFSET) as u64 - 1) / PAGE_SIZE + 1 <= ps)
}

/// Check two ranges against each other.
fn ranges_clear_exec(s1: u64, e1: u64, s2: u64, e2: u64) -> (r: bool)
    requires
        0 < e1,
        0 < e2,
    ensures
        r == ranges_clear(s1, e1, s2, e2),
{
    (e1 - 1) / PAGE_SIZE + 1 <= s2 / PAGE_SIZE || (e2 - 1) / PAGE_SIZE + 1 <= s1 / PAGE_SIZE
}

/// The three windows cover few pages each.
proof fn lemma_window_pages(l: KernelLayout, bs: u64, bst: u64)
    requires
        PHYSICAL_MEMORY_OFFSET <= bs,
        bs < bst,
        bst <= PHYSICAL_MEMORY_END + PHYSICAL_MEMORY_OFFSET,
    ensures
        1 <= range_pages(bs, bst) <= 0x90000,
        range_pages(plic_window().0, plic_window().1) == 1,
        range_pages(uart_window().0, uart_window().1) == 1,
{
    assert(1 <= range_pages(bs, bst) <= 0x90000 && range_pages(
        plic_window().0,
        plic_window().1,
    ) == 1 && range_pages(uart_window().0, uart_window().1) == 1) by (nonlinear_arith)
        requires
            PAGE_SIZE == 4096,
            PHYSICAL_MEMORY_OFFSET == 0xffffffff_40000000,
            PHYSICAL_MEMORY_END == 0x88000000,
            PHYSICAL_MEMORY_OFFSET <= bs,
            bs < bst,
            bst <= PHYSICAL_MEMORY_END + PHYSICAL_MEMORY_OFFSET,
            range_pages(bs, bst) == (bst - 1) / 4096 + 1 - bs as int / 4096,
            range_pages(plic_window().0, plic_window().1) == (plic_window().1 - 1) / 4096 + 1
                - plic_window().0 as int / 4096,
            range_pages(uart_window().0, uart_window().1) == (uart_window().1 - 1) / 4096 + 1
                - uart_window().0 as int / 4096,
            plic_window().0 == PHYSICAL_MEMORY_OFFSET + 0x0c00_2000,
            plic_window().1 == PHYSICAL_MEMORY_OFFSET + 0x0c00_3000,
            uart_window().0 == PHYSICAL_MEMORY_OFFSET + 0x1000_0000,
            uart_window().1 == PHYSICAL_MEMORY_OFFSET + 0x1000_1000,
    ;
}

/// Every recorded area of the remap-in-progress is clear of the next
/// window: the boot areas by the boot-range checks, the earlier windows by
/// the pairwise checks.
proof fn lemma_boot_ranges_clear(manager: Manager, l: KernelLayout, s: u64, e: u64)
    requires
        layout_wf(l),
        manager.spec_areas().len() >= 5,
        manager.spec_areas()[0] == crate::memory::manager::boot_area1(l),
        manager.spec_areas()[1] == crate::memory::manager::boot_area2(l),
        manager.spec_areas()[2] == crate::memory::manager::boot_area3(l),
        manager.spec_areas()[3] == crate::memory::manager::boot_area4(l),
        manager.spec_areas()[4] == crate::memory::manager::boot_area5(l),
        range_clear_of_boot(l, s, e),
        forall|j: int|
            5 <= j < manager.spec_areas().len() ==> ranges_clear(
                s,
                e,
                (#[trigger] manager.spec_areas()[j]).spec_start(),
                manager.spec_areas()[j].spec_end(),
            ),
    ensures
        forall|j: int|
            0 <= j < manager.spec_areas().len() ==> ranges_clear(
                s,
                e,
                (#[trigger] manager.spec_areas()[j]).spec_start(),
                manager.spec_areas()[j].spec_end(),
            ),
{
    broadcast use crate::memory::manager::area::lemma_area_stub;
    broadcast use crate::memory::manager::handler::lemma_linear_stub;
    broadcast use crate::memory::memory_set::attr::lemma_attr_stub;

    assert forall|j: int|
        0 <= j < manager.spec_areas().len() implies ranges_clear(
        s,
        e,
        (#[trigger] manager.spec_areas()[j]).spec_start(),
        manager.spec_areas()[j].spec_end(),
    ) by {
        if j == 0 {
            assert(manager.spec_areas()[0].spec_start() == l.stext);
        } else if j == 1 {
            assert(manager.spec_areas()[1].spec_start() == l.srodata);
        } else if j == 2 {
            assert(manager.spec_areas()[2].spec_start() == l.sdata);
        } else if j == 3 {
            assert(manager.spec_areas()[3].spec_start() == l.sbss);
        } else if j == 4 {
            assert(manager.spec_areas()[4].spec_start() == phys_window_start(l));
        }
    }
}

/// Push one validated, writable linear window onto the manager.
fn push_window(
    manager: &mut Manager,
    layout: &KernelLayout,
    s: u64,
    e: u64,
    allocator: &mut LinearFrameAllocator,
    ram: &mut PhysicalMemory,
)
    requires
        old(manager).wf(),
        old(allocator).wf(),
        old(ram).wf(),
        layout_wf(*layout),
        old(allocator).offset + old(allocator).size <= 0x10_0000_0000_0000,
        PHYSICAL_MEMORY_OFFSET <= s,
        s < e,
        e <= PHYSICAL_MEMORY_END + PHYSICAL_MEMORY_OFFSET,
        old(allocator).free_count() >= 3 * range_pages(s, e),
        forall|j: int|
            0 <= j < old(manager).spec_areas().len() ==> kernel_zone(
                #[trigger] old(manager).spec_areas()[j],
            ) && old(manager).spec_areas()[j].spec_wf() && ranges_clear(
                s,
                e,
                old(manager).spec_areas()[j].spec_start(),
                old(manager).spec_areas()[j].spec_end(),
            ),
    ensures
        final(manager).wf(),
        final(manager).spec_table().spec_token() == old(manager).spec_table().spec_token(),
        final(manager).spec_areas() == old(manager).spec_areas().push(window_area(s, e)),
        final(allocator).wf(),
        final(allocator).offset == old(allocator).offset,
        final(allocator).size == old(allocator).size,
        final(allocator).free_count() >= old(allocator).free_count() - 3 * range_pages(s, e),
        forall|f: u64| old(allocator).live(f) ==> final(allocator).live(f),
        *final(ram) == *old(ram),
        final(ram).wf(),
        forall|j: int|
            0 <= j < final(manager).spec_areas().len() ==> kernel_zone(
                #[trigger] final(manager).spec_areas()[j],
            ) && final(manager).spec_areas()[j].spec_wf(),
{
    proof {
        broadcast use crate::memory::manager::area::lemma_area_stub;
        broadcast use crate::memory::manager::handler::lemma_linear_stub;
        broadcast use crate::memory::memory_set::attr::lemma_attr_stub;

        let new_area = window_area(s, e);
        assert(kernel_zone(new_area));
        assert(new_area.spec_wf()) by {
            assert(page_index(e - 1) + 1 <= page_index(u64::MAX as int) + 1 && page_index(e - 1)
                + 1 - page_index(s as int) <= 0x800_0000) by (nonlinear_arith)
                requires
                    PAGE_SIZE == 4096,
                    0 < e <= u64::MAX,
                    s < e,
                    PHYSICAL_MEMORY_OFFSET <= s,
                    e <= PHYSICAL_MEMORY_END + PHYSICAL_MEMORY_OFFSET,
                    PHYSICAL_MEMORY_OFFSET == 0xffffffff_40000000,
                    PHYSICAL_MEMORY_END == 0x88000000,
                    page_index(e - 1) == (e - 1) / 4096,
                    page_index(s as int) == s as int / 4096,
                    page_index(u64::MAX as int) == u64::MAX as int / 4096,
            ;
        }
        assert forall|j: int|
            0 <= j < manager.spec_areas().len() implies vpn_disjoint(
            new_area,
            #[trigger] manager.spec_areas()[j],
        ) by {
            lemma_kernel_zone_disjoint(new_area, manager.spec_areas()[j]);
        }
    }
    manager.push(
        s,
        e,
        MemoryAttr::new(),
        Handler::Linear(Linear::new(PHYSICAL_MEMORY_OFFSET)),
        None,
        allocator,
        ram,
    );
    proof {
        broadcast use crate::memory::manager::area::lemma_area_stub;
        broadcast use crate::memory::manager::handler::lemma_linear_stub;
        broadcast use crate::memory::memory_set::attr::lemma_attr_stub;

        let n = manager.spec_areas().len() - 1;
        assert forall|j: int|
            0 <= j < manager.spec_areas().len() implies kernel_zone(
            #[trigger] manager.spec_areas()[j],
        ) && manager.spec_areas()[j].spec_wf() by {
            if j < n {
                assert(manager.spec_areas()[j] == old(manager).spec_areas()[j]);
            } else {
                assert(manager.spec_areas()[j] == window_area(s, e));
            }
        }
    }
}

/// Bring the memory subsystem up at boot: let supervisor code reach user
/// pages, configure the frame allocator over the free physical range, and
/// remap the kernel under its own page table. Success is the remap\'s: the
/// boot stack and device windows clear of the boot areas and of one
/// another, and the range `[begin, end)` holding enough frames.
pub fn initialize(
    begin: u64,
    end: u64,
    layout: &KernelLayout,
    boot_stack: u64,
    boot_stack_top: u64,
    ram: &mut PhysicalMemory,
    m: &mut Machine,
) -> (r: Option<(LinearFrameAllocator, Manager)>)
    requires
        old(ram).wf(),
        begin <= end,
        end - begin <= MAX_PHYSICAL_PAGES,
        end <= 0x10_0000_0000_0000,
        layout_wf(*layout),
        PHYSICAL_MEMORY_OFFSET <= boot_stack,
        boot_stack < boot_stack_top,
        boot_stack_top <= PHYSICAL_MEMORY_END + PHYSICAL_MEMORY_OFFSET,
    ensures
        final(ram).wf(),
        *final(ram) == *old(ram),
        final(m).sum,
        r is Some <==> range_clear_of_boot(*layout, boot_stack, boot_stack_top)
            && range_clear_of_boot(*layout, plic_window().0, plic_window().1)
            && range_clear_of_boot(*layout, uart_window().0, uart_window().1) && ranges_clear(
            boot_stack,
            boot_stack_top,
            plic_window().0,
            plic_window().1,
        ) && ranges_clear(boot_stack, boot_stack_top, uart_window().0, uart_window().1)
            && ranges_clear(
            plic_window().0,
            plic_window().1,
            uart_window().0,
            uart_window().1,
        ) && 1 + 3 * layout_page_count(*layout) + 3 * (range_pages(boot_stack, boot_stack_top)
            + range_pages(plic_window().0, plic_window().1) + range_pages(
            uart_window().0,
            uart_window().1,
        )) <= end - begin,
        r matches Some((allocator, manager)) ==> {
            &&& allocator.wf()
            &&& manager.wf()
            &&& manager.spec_areas().len() == 8
            &&& final(m).satp == manager.spec_table().spec_token()
        },
{
    m.sum = true;
    let mut allocator = LinearFrameAllocator::new();
    allocator.initialize(begin, end);
    proof {
        crate::memory::frame_allocator::lemma_all_free_count(allocator);
    }
    match kernel_remap(layout, boot_stack, boot_stack_top, &mut allocator, ram, m) {
        Some(manager) => Some((allocator, manager)),
        None => None,
    }
}

/// Virtual address through which the kernel reaches physical address
/// `paddr`: the fixed physical-memory window.
pub fn paddr_to_vaddr(paddr: u64) -> (r: u64)
    requires
        paddr + PHYSICAL_MEMORY_OFFSET <= u64::MAX,
    ensures
        r == paddr + PHYSICAL_MEMORY_OFFSET,
{
    paddr + PHYSICAL_MEMORY_OFFSET
}

} // verus!
