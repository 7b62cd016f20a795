//! Layout constants of the kernel: page geometry, the physical memory
//! window and the fixed sizes of kernel objects.
//!
//! Addresses, frame numbers and object sizes are `u64`: the modelled
//! processor is a 64-bit RISC-V-class machine.

use vstd::prelude::*;

verus! {

/// Size of one page (and one physical frame) in bytes.
pub const PAGE_SIZE: u64 = 4096;

/// End of the manageable physical address space.
pub const PHYSICAL_MEMORY_END: u64 = 0x88000000;

/// Physical address at which the kernel image begins.
pub const KERNEL_BEGIN_PADDR: u64 = 0x80200000;

/// Virtual address at which the kernel image begins.
pub const KERNEL_BEGIN_VADDR: u64 = 0xffffffffc0200000;

/// Largest amount of physical memory the frame allocator can manage.
pub const MAX_PHYSICAL_MEMORY: u64 = 0x8000000;

/// Largest number of physical pages the frame allocator can manage.
pub const MAX_PHYSICAL_PAGES: usize = 0x8000000 / 4096;

/// Size of the kernel heap in bytes.
pub const KERNEL_HEAP_SIZE: u64 = 0x800000;

/// Fixed offset between a physical address and the virtual address through
/// which the kernel reaches it.
pub const PHYSICAL_MEMORY_OFFSET: u64 = 0xffffffff_40000000;

/// Lowest virtual address of the kernel heap window.
pub const KERNEL_HEAP_BASE: u64 = 0xffffffff_d0000000;

/// Size of one kernel stack in bytes.
pub const KERNEL_STACK_SIZE: u64 = 0x80000;

/// Bottom virtual address of a user thread's stack area.
pub const USER_STACK_OFFSET: u64 = 0x80000000 - 0x800000;

/// Size of a user thread's stack area in bytes.
pub const USER_STACK_SIZE: u64 = 0x800000;

} // verus!
