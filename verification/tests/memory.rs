use rcore_os::consts::{PAGE_SIZE, PHYSICAL_MEMORY_END, PHYSICAL_MEMORY_OFFSET};
use rcore_os::machine::PhysicalMemory;
use rcore_os::memory::allocator::LinearAllocator;
use rcore_os::memory::frame_allocator::LinearFrameAllocator;
use rcore_os::memory::manager::area::Area;
use rcore_os::memory::manager::handler::{ByFrame, Handler, Linear};
use rcore_os::memory::manager::paging::range::VirtualPageRange;
use rcore_os::memory::manager::paging::table::PageTable;
use rcore_os::memory::manager::{KernelLayout, Manager};
use rcore_os::memory::memory_set::area::MemoryArea;
use rcore_os::memory::memory_set::attr::MemoryAttr;
use rcore_os::memory::memory_set::handler::{ByFrame as EarlyByFrame, MemoryHandler};
use rcore_os::memory::memory_set::MemorySet;
use rcore_os::memory::paging::PageRange;
use rcore_os::memory::{frame_alloc, frame_dealloc, paddr_to_vaddr};

fn fresh_allocator(l: u64, r: u64) -> LinearFrameAllocator {
    let mut a = LinearFrameAllocator::new();
    a.initialize(l, r);
    a
}

#[test]
fn frame_allocator_is_exclusive_and_lowest_first() {
    let mut a = fresh_allocator(10, 14);
    let f0 = a.allocate();
    let f1 = a.allocate();
    assert_eq!(f0, 10);
    assert_eq!(f1, 11);
    assert_ne!(f0, f1);
    a.dealloc(10);
    // A freed frame comes back only as the lowest free frame.
    assert_eq!(a.allocate(), 10);
    assert_eq!(a.allocate(), 12);
}

#[test]
fn frame_allocator_exhaustion() {
    let mut a = fresh_allocator(100, 104);
    for i in 0..4 {
        assert!(a.has_free());
        assert_eq!(a.allocate(), 100 + i);
    }
    // The whole range is live: one more allocation cannot succeed.
    assert!(!a.has_free());
    a.dealloc(102);
    assert!(a.has_free());
    assert_eq!(a.allocate(), 102);
}

#[test]
fn frame_alloc_reports_exhaustion() {
    let mut a = fresh_allocator(0, 1);
    assert_eq!(frame_alloc(&mut a), Some(0));
    assert_eq!(frame_alloc(&mut a), None);
    frame_dealloc(&mut a, 0);
    assert_eq!(frame_alloc(&mut a), Some(0));
}

#[test]
fn linear_allocator_matches() {
    let mut a = LinearAllocator::new();
    a.initialize(5, 8);
    assert_eq!(a.allocate(), 5);
    assert_eq!(a.allocate(), 6);
    a.dealloc(5);
    assert_eq!(a.allocate(), 5);
    assert_eq!(a.allocate(), 7);
}

#[test]
fn page_range_coverage() {
    // floor(4097 / 4096) = 1, ceil(9000 / 4096) = 3: exactly two pages.
    let mut r = VirtualPageRange::new(4097, 9000);
    assert_eq!(r.next(), Some(4096));
    assert_eq!(r.next(), Some(8192));
    assert_eq!(r.next(), None);
    assert_eq!(r.next(), None);

    let mut one = VirtualPageRange::new(0, 1);
    assert_eq!(one.next(), Some(0));
    assert_eq!(one.next(), None);

    let mut aligned = VirtualPageRange::new(8192, 16384);
    assert_eq!(aligned.next(), Some(8192));
    assert_eq!(aligned.next(), Some(12288));
    assert_eq!(aligned.next(), None);
}

#[test]
fn early_page_range_covers_every_page() {
    let mut r = PageRange::new(0, 8192);
    assert_eq!(r.next(), Some(0));
    assert_eq!(r.next(), Some(4096));
    assert_eq!(r.next(), None);
    let mut s = PageRange::new(4097, 9000);
    assert_eq!(s.next(), Some(4096));
    assert_eq!(s.next(), Some(8192));
    assert_eq!(s.next(), None);
}

#[test]
fn overlap_detection() {
    let attr = MemoryAttr::new();
    let a = Area::new(0, 4096, Handler::ByFrame(ByFrame::new()), attr);
    assert!(!a.is_overlap_with(4096, 8192));
    let b = Area::new(0, 8192, Handler::ByFrame(ByFrame::new()), attr);
    assert!(b.is_overlap_with(4096, 12288));
    // Sub-page ranges quantize to whole pages.
    let c = Area::new(10, 20, Handler::ByFrame(ByFrame::new()), attr);
    assert!(c.is_overlap_with(4000, 4096));
    assert!(!c.is_overlap_with(4096, 4097));
}

#[test]
fn page_table_maps_and_unmaps() {
    let mut a = fresh_allocator(0, 64);
    let mut pt = PageTable::new(&mut a);
    assert_eq!(pt.token(), 0u64 | 0x8000_0000_0000_0000);
    assert!(pt.get_entry(0x4000_0000).is_none());
    let entry = pt.map(&mut a, 0x4000_0000, 0x8000_1000);
    assert_eq!(entry.page, 0x4000_0000);
    assert!(entry.entry.valid && entry.entry.readable && entry.entry.writable);
    assert!(!entry.entry.executable && !entry.entry.user);
    assert_eq!(entry.entry.ppn, 0x8000_1);
    let found = pt.get_entry(0x4000_0123).expect("mapped page");
    assert_eq!(found.entry.ppn, 0x8000_1);
    pt.unmap(0x4000_0000);
    assert!(pt.get_entry(0x4000_0000).is_none());
}

#[test]
fn attr_apply_locks_flags_down() {
    let mut a = fresh_allocator(0, 16);
    let mut pt = PageTable::new(&mut a);
    let mut entry = pt.map(&mut a, 0x1000, 0x2000);
    let attr = MemoryAttr::new().set_user().set_read_only().set_executable();
    attr.apply(&mut entry);
    assert!(entry.entry.valid && entry.entry.readable);
    assert!(entry.entry.user);
    assert!(!entry.entry.writable);
    assert!(entry.entry.executable);
    entry.update(&mut pt);
    let stored = pt.get_entry(0x1000).expect("mapped page");
    assert!(stored.entry.user && !stored.entry.writable && stored.entry.executable);
}

#[test]
fn page_entry_accessors() {
    let mut a = fresh_allocator(0, 16);
    let mut pt = PageTable::new(&mut a);
    let mut e = pt.map(&mut a, 0x3000, 0x5000);
    assert!(e.present());
    assert!(e.writable());
    assert!(!e.user());
    assert!(!e.executable());
    assert!(!e.accessed());
    assert!(!e.dirty());
    e.set_user(true);
    e.set_executable(true);
    e.set_writable(false);
    assert!(e.user() && e.executable() && !e.writable());
    assert_eq!(e.target(), 0x5000);
    e.set_target(0x7000);
    assert_eq!(e.target(), 0x7000);
    e.set_present(false);
    assert!(!e.present());
}

#[test]
fn handler_map_linear_and_by_frame() {
    let mut a = fresh_allocator(0, 64);
    let mut pt = PageTable::new(&mut a);
    let attr = MemoryAttr::new().set_read_only();
    let linear = Handler::Linear(Linear::new(0x1000));
    linear.map(&mut pt, &mut a, 0x8000, &attr);
    let e = pt.get_entry(0x8000).expect("mapped");
    assert_eq!(e.entry.ppn, (0x8000 - 0x1000) >> 12);
    assert!(!e.entry.writable);

    let by_frame = Handler::ByFrame(ByFrame::new());
    let attr2 = MemoryAttr::new().set_user();
    by_frame.map(&mut pt, &mut a, 0x9000, &attr2);
    let e2 = pt.get_entry(0x9000).expect("mapped");
    assert!(e2.entry.user && e2.entry.writable);
    // The backing frame came fresh from the allocator.
    assert!(e2.entry.ppn < 64);
}

#[test]
fn area_map_and_page_copy() {
    let mut a = fresh_allocator(0, 64);
    let mut pt = PageTable::new(&mut a);
    let mut ram = PhysicalMemory::new();
    let area = Area::new(
        0x10000,
        0x12000,
        Handler::ByFrame(ByFrame::new()),
        MemoryAttr::new().set_user(),
    );
    area.map(&mut pt, &mut a);
    let first = pt.get_entry(0x10000).expect("mapped");
    let second = pt.get_entry(0x11000).expect("mapped");
    assert_ne!(first.entry.ppn, second.entry.ppn);

    let data: Vec<u8> = (0u16..5000u16).map(|i| (i % 251) as u8).collect();
    let len = data.len();
    area.page_copy(&pt, &mut ram, &data, len);
    // First page holds the first page-sized piece.
    assert_eq!(ram.read_byte(first.entry.ppn * 4096), data[0]);
    assert_eq!(ram.read_byte(first.entry.ppn * 4096 + 4095), data[4095]);
    // Second page holds the tail, zero-filled.
    assert_eq!(ram.read_byte(second.entry.ppn * 4096), data[4096]);
    assert_eq!(ram.read_byte(second.entry.ppn * 4096 + (5000 - 4096)), 0);
    assert_eq!(ram.read_byte(second.entry.ppn * 4096 + 4095), 0);
}

#[test]
fn area_unmap_removes_pages() {
    let mut a = fresh_allocator(0, 64);
    let mut pt = PageTable::new(&mut a);
    let area = Area::new(0x4000, 0x6000, Handler::ByFrame(ByFrame::new()), MemoryAttr::new());
    area.map(&mut pt, &mut a);
    assert!(pt.get_entry(0x4000).is_some());
    assert!(pt.get_entry(0x5000).is_some());
    area.unmap(&mut pt);
    assert!(pt.get_entry(0x4000).is_none());
    assert!(pt.get_entry(0x5000).is_none());
}

#[test]
fn manager_push_and_free_area_check() {
    let mut a = fresh_allocator(0, 128);
    let mut ram = PhysicalMemory::new();
    let mut manager = Manager::new_empty(&mut a);
    manager.push(
        0x10000,
        0x12000,
        MemoryAttr::new().set_user(),
        Handler::ByFrame(ByFrame::new()),
        None,
        &mut a,
        &mut ram,
    );
    assert!(manager.test_free_area(0x12000, 0x13000));
    assert!(!manager.test_free_area(0x11000, 0x13000));
    assert!(manager.test_free_area(0x1000, 0x2000));
}

#[test]
fn manager_boot_sequence_maps_kernel_segments() {
    let base: u64 = 0xffffffff_c0200000;
    let layout = KernelLayout {
        stext: base,
        etext: base + 0x1000,
        srodata: base + 0x1000,
        erodata: base + 0x2000,
        sdata: base + 0x2000,
        edata: base + 0x3000,
        sbss: base + 0x3000,
        ebss: base + 0x4000,
        end: PHYSICAL_MEMORY_END + PHYSICAL_MEMORY_OFFSET - 0x3000,
    };
    let mut a = fresh_allocator(0x80200, 0x80200 + 512);
    let mut ram = PhysicalMemory::new();
    let mut manager = Manager::new_empty(&mut a);
    manager.initialize(&layout, &mut a, &mut ram);
    // Nothing of the kernel window is free any more.
    assert!(!manager.test_free_area(base, base + 0x1000));
    assert!(manager.test_free_area(0x1000, 0x2000));
}

#[test]
fn paddr_to_vaddr_uses_the_window() {
    assert_eq!(paddr_to_vaddr(0), PHYSICAL_MEMORY_OFFSET);
    assert_eq!(paddr_to_vaddr(0x1234), PHYSICAL_MEMORY_OFFSET + 0x1234);
}

#[test]
fn physical_memory_reads_zero_until_written() {
    let mut ram = PhysicalMemory::new();
    assert_eq!(ram.read_byte(0x8000_1234), 0);
    ram.write_byte(0x8000_1234, 0xab);
    assert_eq!(ram.read_byte(0x8000_1234), 0xab);
    assert_eq!(ram.read_byte(0x8000_1233), 0);
    assert_eq!(ram.read_byte(0x8000_2234), 0);
}

#[test]
fn page_size_constant() {
    assert_eq!(PAGE_SIZE, 4096);
}

#[test]
fn memory_set_boot_and_overlap() {
    let base: u64 = 0xffffffff_c0200000;
    let layout = KernelLayout {
        stext: base,
        etext: base + 0x1000,
        srodata: base + 0x1000,
        erodata: base + 0x2000,
        sdata: base + 0x2000,
        edata: base + 0x3000,
        sbss: base + 0x3000,
        ebss: base + 0x4000,
        end: PHYSICAL_MEMORY_END + PHYSICAL_MEMORY_OFFSET - 0x3000,
    };
    let mut a = fresh_allocator(0x80200, 0x80200 + 512);
    let mut set = MemorySet::new(&layout, &mut a);
    assert!(!set.test_free_area(base, base + 0x1000));
    assert!(set.test_free_area(0x1000, 0x2000));
    set.push(
        0x10000,
        0x13000,
        MemoryAttr::new().set_user(),
        MemoryHandler::ByFrame(EarlyByFrame::new()),
        &mut a,
    );
    assert!(!set.test_free_area(0x10000, 0x11000));
    let mut m = rcore_os::machine::Machine::new();
    set.activate(&mut m);

    // The walk covers every page the byte range touches.
    let mut pt = rcore_os::memory::manager::paging::table::PageTable::new(&mut a);
    let area = MemoryArea::new(
        0x4000,
        0x6001,
        MemoryHandler::ByFrame(EarlyByFrame::new()),
        MemoryAttr::new(),
    );
    area.map(&mut pt, &mut a);
    assert!(pt.get_entry(0x4000).is_some());
    assert!(pt.get_entry(0x5000).is_some());
    assert!(pt.get_entry(0x6000).is_some());
    area.unmap(&mut pt);
    assert!(pt.get_entry(0x4000).is_none());
    assert!(pt.get_entry(0x6000).is_none());
}
