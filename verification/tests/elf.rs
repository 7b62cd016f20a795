use rcore_os::consts::{PHYSICAL_MEMORY_END, PHYSICAL_MEMORY_OFFSET, USER_STACK_OFFSET, USER_STACK_SIZE};
use rcore_os::machine::{Machine, PhysicalMemory};
use rcore_os::memory::frame_allocator::LinearFrameAllocator;
use rcore_os::memory::manager::KernelLayout;
use rcore_os::process::elf::{load_segments, new_manager, segment_attr, Segment};
use rcore_os::process::thread::Thread;

fn put_u16(v: &mut Vec<u8>, x: u16) {
    v.extend_from_slice(&x.to_le_bytes());
}

fn put_u32(v: &mut Vec<u8>, x: u32) {
    v.extend_from_slice(&x.to_le_bytes());
}

fn put_u64(v: &mut Vec<u8>, x: u64) {
    v.extend_from_slice(&x.to_le_bytes());
}

/// A minimal 64-bit little-endian executable image: one loadable segment of
/// four file bytes at virtual address 0x10000, entry point 0x10000.
fn tiny_elf() -> Vec<u8> {
    let mut v: Vec<u8> = Vec::new();
    // Identification: magic, 64-bit, little-endian, version 1.
    v.extend_from_slice(&[0x7f, b'E', b'L', b'F', 2, 1, 1, 0]);
    v.extend_from_slice(&[0u8; 8]);
    put_u16(&mut v, 2); // executable
    put_u16(&mut v, 0xf3); // RISC-V
    put_u32(&mut v, 1);
    put_u64(&mut v, 0x10000); // entry point
    put_u64(&mut v, 64); // program header table offset
    put_u64(&mut v, 0); // no section headers
    put_u32(&mut v, 0);
    put_u16(&mut v, 64); // header size
    put_u16(&mut v, 56); // program header size
    put_u16(&mut v, 1); // one program header
    put_u16(&mut v, 64);
    put_u16(&mut v, 0);
    put_u16(&mut v, 0);
    assert_eq!(v.len(), 64);
    // The one program header: loadable, readable and executable.
    put_u32(&mut v, 1); // load
    put_u32(&mut v, 5); // read + execute
    put_u64(&mut v, 120); // file offset of the data
    put_u64(&mut v, 0x10000); // virtual address
    put_u64(&mut v, 0x10000);
    put_u64(&mut v, 4); // file size
    put_u64(&mut v, 0x1000); // memory size
    put_u64(&mut v, 0x1000);
    assert_eq!(v.len(), 120);
    v.extend_from_slice(b"ABCD");
    v
}

fn layout() -> KernelLayout {
    let base: u64 = 0xffffffff_c0200000;
    KernelLayout {
        stext: base,
        etext: base + 0x1000,
        srodata: base + 0x1000,
        erodata: base + 0x2000,
        sdata: base + 0x2000,
        edata: base + 0x3000,
        sbss: base + 0x3000,
        ebss: base + 0x4000,
        end: PHYSICAL_MEMORY_END + PHYSICAL_MEMORY_OFFSET - 0x3000,
    }
}

#[test]
fn load_segments_reads_the_image() {
    let image = tiny_elf();
    let segments = load_segments(&image).expect("a reachable header table");
    assert_eq!(segments.len(), 1);
    assert_eq!(segments[0].vaddr, 0x10000);
    assert_eq!(segments[0].mem_size, 0x1000);
    assert!(segments[0].executable);
    assert_eq!(segments[0].data, b"ABCD".to_vec());
}

#[test]
fn malformed_header_tables_are_refused() {
    // A header table past the end of the image.
    let mut far_table = tiny_elf();
    far_table[32..40].copy_from_slice(&0x1000u64.to_le_bytes());
    assert!(load_segments(&far_table).is_none());
    let mut ram = PhysicalMemory::new();
    let mut m = Machine::new();
    let mut a = LinearFrameAllocator::new();
    a.initialize(0x80200, 0x80200 + 16384);
    assert!(Thread::new_user(&far_table, &layout(), &mut a, &mut ram, &mut m).is_none());
    // A wrong header-entry size.
    let mut odd_entry = tiny_elf();
    odd_entry[54..56].copy_from_slice(&40u16.to_le_bytes());
    assert!(load_segments(&odd_entry).is_none());
    // A loadable segment whose bytes lie outside the image.
    let mut far_data = tiny_elf();
    far_data[72..80].copy_from_slice(&0x4000u64.to_le_bytes());
    assert!(load_segments(&far_data).is_none());
    let mut a2 = LinearFrameAllocator::new();
    a2.initialize(0x80200, 0x80200 + 16384);
    assert!(Thread::new_user(&far_data, &layout(), &mut a2, &mut ram, &mut m).is_none());
}

#[test]
fn segment_attr_follows_the_execute_bit() {
    let exec = segment_attr(true);
    let plain = segment_attr(false);
    assert!(exec != plain);
    assert!(segment_attr(true) == exec);
}

#[test]
fn new_manager_maps_accepted_segments() {
    let mut a = LinearFrameAllocator::new();
    a.initialize(0x80200, 0x80200 + 4096);
    let mut ram = PhysicalMemory::new();
    let segments = vec![Segment {
        vaddr: 0x10000,
        mem_size: 0x1000,
        executable: true,
        data: b"ABCD".to_vec(),
    }];
    let manager = new_manager(&segments, &layout(), &mut a, &mut ram);
    assert!(manager.is_some());
}

#[test]
fn new_manager_refuses_a_misplaced_segment() {
    let mut a = LinearFrameAllocator::new();
    a.initialize(0x80200, 0x80200 + 4096);
    let mut ram = PhysicalMemory::new();
    // Unaligned start.
    let bad = vec![Segment { vaddr: 0x10001, mem_size: 0x100, executable: false, data: vec![] }];
    assert!(new_manager(&bad, &layout(), &mut a, &mut ram).is_none());
    // Outside the user zone.
    let mut a2 = LinearFrameAllocator::new();
    a2.initialize(0x80200, 0x80200 + 4096);
    let high = vec![Segment {
        vaddr: 0x8000_0000,
        mem_size: 0x1000,
        executable: false,
        data: vec![],
    }];
    assert!(new_manager(&high, &layout(), &mut a2, &mut ram).is_none());
    // Overlapping the user stack is caught when the stack is pushed.
    let mut a3 = LinearFrameAllocator::new();
    a3.initialize(0x80200, 0x80200 + 16384);
    let mut m = Machine::new();
    let image = tiny_elf();
    let t = Thread::new_user(&image, &layout(), &mut a3, &mut ram, &mut m);
    assert!(t.is_some());
}

#[test]
fn new_user_builds_a_thread_at_the_entry_point() {
    let mut a = LinearFrameAllocator::new();
    a.initialize(0x80200, 0x80200 + 16384);
    let mut ram = PhysicalMemory::new();
    let mut m = Machine::new();
    let image = tiny_elf();
    let thread = Thread::new_user(&image, &layout(), &mut a, &mut ram, &mut m)
        .expect("an executable image");
    let content = thread.context.content.as_ref().unwrap();
    assert_eq!(content.frame.sepc, 0x10000);
    assert_eq!(content.frame.x[2], USER_STACK_OFFSET + USER_STACK_SIZE);
    // A truncated image is refused, as is one that is not an executable.
    let mut a2 = LinearFrameAllocator::new();
    a2.initialize(0x80200, 0x80200 + 16384);
    assert!(Thread::new_user(&image[..40], &layout(), &mut a2, &mut ram, &mut m).is_none());
    let mut shared = tiny_elf();
    shared[16] = 3; // mark it a shared object
    let mut a3 = LinearFrameAllocator::new();
    a3.initialize(0x80200, 0x80200 + 16384);
    assert!(Thread::new_user(&shared, &layout(), &mut a3, &mut ram, &mut m).is_none());
}

#[test]
fn memory_initialize_and_remap() {
    let mut ram = PhysicalMemory::new();
    let mut m = Machine::new();
    let stack_base: u64 = 0xffffffff_c0100000;
    let r = rcore_os::memory::initialize(
        0x80200,
        0x80200 + 8192,
        &layout(),
        stack_base,
        stack_base + 0x10000,
        &mut ram,
        &mut m,
    );
    let (_allocator, manager) = r.expect("a clean boot layout");
    assert!(m.sum);
    assert_eq!(m.satp, manager.token());
}
