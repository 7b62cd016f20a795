//! Kernel threads: a saved context plus the kernel stack it lives on.

use vstd::prelude::*;
use crate::consts::{KERNEL_STACK_SIZE, USER_STACK_OFFSET, USER_STACK_SIZE};
use crate::machine::{Machine, PhysicalMemory};
use crate::memory::frame_allocator::LinearFrameAllocator;
use crate::memory::manager::handler::{ByFrame, Handler};
use crate::memory::manager::area::Area;
use crate::memory::manager::paging::range::page_index;
use crate::memory::manager::{layout_page_count, layout_wf, KernelLayout};
use crate::memory::memory_set::attr::MemoryAttr;
use crate::process::context::{
    kernel_entry_sstatus, user_entry_sstatus, Context, CONTENT_SIZE, TRAP_RETURN,
};
use crate::process::elf::{
    elf_entry_of, elf_entry_point, elf_kind, elf_kind_of, header_ok, load_segments, new_manager,
    seg_views, spec_header_ok, spec_loads_ok, spec_segments, spec_table_ok, stack_clear_of,
    ElfKind,
};
use crate::process::stack::KernelStack;
use crate::process::{ExitCode, ThreadID};

verus! {

/// A thread: its saved context and the kernel stack that holds it.
pub struct Thread {
    pub context: Context,
    pub stack: KernelStack,
}

impl Thread {
    /// Suspend this thread and resume `target`, as one atomic register
    /// swap.
    pub fn switch_to(&mut self, target: &mut Thread, m: &mut Machine)
        requires
            old(target).context.spec_content() is Some,
        ensures
            final(self).context.content_addr == old(self).context.content_addr,
            final(self).context.spec_content() == old(m).cpu,
            final(self).stack == old(self).stack,
            final(target).context.content_addr == old(target).context.content_addr,
            final(target).context.spec_content() is None,
            final(target).stack == old(target).stack,
            final(m).cpu == old(target).context.spec_content(),
            final(m).satp == old(target).context.spec_content()->0.spec_satp(),
            *final(m) == (Machine { cpu: final(m).cpu, satp: final(m).satp, ..*old(m) }),
    {
        self.context.switch(&mut target.context, m);
    }

    /// A fresh kernel thread that will start at `entry` in supervisor mode,
    /// on a newly carved kernel stack, under the page table that is active
    /// now.
    pub fn new_kernel(entry: u64, m: &mut Machine) -> (r: Box<Thread>)
        requires
            old(m).heap_next + 2 * KERNEL_STACK_SIZE <= u64::MAX,
        ensures
            *final(m) == (Machine { heap_next: final(m).heap_next, ..*old(m) }),
            final(m).heap_next == r.stack.spec_bottom() + KERNEL_STACK_SIZE,
            r.stack.spec_bottom() >= old(m).heap_next,
            r.context.content_addr == r.stack.spec_bottom() + KERNEL_STACK_SIZE - CONTENT_SIZE,
            r.context.spec_content() matches Some(c) && {
                &&& c.ra == TRAP_RETURN
                &&& c.spec_satp() == old(m).satp
                &&& c.spec_frame().sepc == entry
                &&& c.spec_frame().x@ == Seq::new(32, |i: int| 0u64).update(
                    2,
                    (r.stack.spec_bottom() + KERNEL_STACK_SIZE) as u64,
                )
                &&& c.spec_frame().sstatus == kernel_entry_sstatus(*old(m))
            },
    {
        let stack = KernelStack::new(m);
        let top = stack.top();
        let context = Context::new_kernel(entry, top, m.satp, m);
        Box::new(Thread { context, stack })
    }

    /// A fresh user thread from a raw ELF image: parse it, refuse anything
    /// but an executable, build its address space (the kernel's mappings,
    /// one filled area per loadable segment, and a user stack), and
    /// synthesize its first trap frame at the entry point. The load
    /// succeeds exactly when the image is a well-formed little-endian
    /// 64-bit executable whose loadable segments are reachable, acceptable,
    /// pairwise disjoint and clear of the user stack, and the frame budget
    /// suffices; a refused load changes nothing.
    pub fn new_user(
        data: &[u8],
        layout: &KernelLayout,
        allocator: &mut LinearFrameAllocator,
        ram: &mut PhysicalMemory,
        m: &mut Machine,
    ) -> (r: Option<Box<Thread>>)
        requires
            old(allocator).wf(),
            old(ram).wf(),
            layout_wf(*layout),
            crate::process::elf::layout_high(*layout),
            old(allocator).offset + old(allocator).size <= 0x10_0000_0000_0000,
            old(m).heap_next + 2 * KERNEL_STACK_SIZE <= u64::MAX,
        ensures
            final(allocator).wf(),
            final(ram).wf(),
            r is Some <==> crate::process::elf::spec_user_image_ok(
                data@,
                *layout,
                *old(allocator),
            ),
            r is None ==> *final(allocator) == *old(allocator) && *final(ram) == *old(ram)
                && *final(m) == *old(m),
            r matches Some(t) ==> {
                &&& t.context.spec_content() matches Some(c) && {
                    &&& c.ra == TRAP_RETURN
                    &&& c.spec_frame().sepc == elf_entry_of(data@)
                    &&& c.spec_frame().x@ == Seq::new(32, |i: int| 0u64).update(
                        2,
                        (USER_STACK_OFFSET + USER_STACK_SIZE) as u64,
                    )
                    &&& c.spec_frame().sstatus == user_entry_sstatus(*old(m))
                    &&& (exists|root: u64|
                        old(allocator).is_lowest_free(root) && c.spec_satp() == root
                            | 0x8000_0000_0000_0000)
                }
                &&& t.stack.spec_bottom() >= old(m).heap_next
                &&& *final(m) == (Machine { heap_next: final(m).heap_next, ..*old(m) })
            },
    {
        if !header_ok(data) {
            return None;
        }
        match elf_kind(data) {
            ElfKind::Executable => {},
            ElfKind::SharedObject => {
                return None;
            },
            ElfKind::Other => {
                return None;
            },
        }
        let entry = elf_entry_point(data);
        let segments = match load_segments(data) {
            Some(segments) => segments,
            None => {
                return None;
            },
        };
        proof {
            assert(seg_views(segments@) =~= spec_segments(data@));
        }
        let stack_bottom = USER_STACK_OFFSET;
        let stack_top = USER_STACK_OFFSET + USER_STACK_SIZE;
        // The stack must be clear of every segment.
        let mut index: usize = 0;
        while index < segments.len()
            invariant
                seg_views(segments@) == spec_segments(data@),
                index <= segments.len(),
                stack_bottom == USER_STACK_OFFSET,
                stack_top == USER_STACK_OFFSET + USER_STACK_SIZE,
                *allocator == *old(allocator),
                *ram == *old(ram),
                *m == *old(m),
                allocator.wf(),
                ram.wf(),
                spec_header_ok(data@),
                elf_kind_of(data@) == ElfKind::Executable,
                spec_table_ok(data@),
                spec_loads_ok(data@),
                forall|j: int|
                    0 <= j < index ==> stack_clear_of(#[trigger] spec_segments(data@)[j]),
            decreases segments.len() - index,
        {
            let seg = &segments[index];
            proof {
                assert(spec_segments(data@)[index as int] == segments@[index as int].view());
            }
            if seg.mem_size > 0 && seg.vaddr <= u64::MAX - seg.mem_size {
                let p2 = (seg.vaddr + seg.mem_size - 1) / 4096 + 1;
                let p3 = stack_bottom / 4096;
                let p4 = (stack_top - 1) / 4096 + 1;
                let p1 = seg.vaddr / 4096;
                proof {
                    let sv = spec_segments(data@)[index as int];
                    assert(p2 == page_index(sv.vaddr + sv.mem_size - 1) + 1 && p1 == page_index(
                        sv.vaddr as int,
                    ) && p3 == page_index(USER_STACK_OFFSET as int) && p4 == page_index(
                        (USER_STACK_OFFSET + USER_STACK_SIZE) as int - 1,
                    ) + 1);
                }
                if !(p2 <= p3 || p4 <= p1) {
                    proof {
                        assert(!stack_clear_of(spec_segments(data@)[index as int]));
                    }
                    return None;
                }
            }
            index += 1;
        }
        let total = match crate::process::elf::segments_ok(&segments) {
            Some(total) => total,
            None => {
                proof {
                    crate::memory::manager::lemma_layout_count_nonneg(*layout);
                    crate::memory::frame_allocator::lemma_free_count_le_size(*allocator);
                }
                return None;
            },
        };
        let layout_pages = crate::memory::manager::layout_page_total(layout);
        proof {
            crate::memory::frame_allocator::lemma_free_count_le_size(*allocator);
            crate::memory::manager::lemma_layout_count_nonneg(*layout);
            crate::process::elf::lemma_total_nonneg(seg_views(segments@), segments@.len() as int);
        }
        if !allocator.enough_free_u64(1 + 3 * layout_pages + 3 * total + 3 * 2048) {
            return None;
        }
        let mut manager = match new_manager(&segments, layout, allocator, ram) {
            Some(manager) => manager,
            None => {
                return None;
            },
        };
        proof {
            crate::process::elf::lemma_stack_area_disjoint(manager, *layout, segments@);
            broadcast use crate::memory::manager::area::lemma_area_stub;
            broadcast use crate::memory::memory_set::attr::lemma_attr_stub;

            assert(crate::process::elf::stack_area() == Area::stub(
                stack_bottom,
                stack_top,
                Handler::ByFrame(crate::memory::manager::handler::ByFrame),
                MemoryAttr::stub(true, false, false),
            ));
            assert(page_index(stack_top - 1) + 1 - page_index(stack_bottom as int) == 2048)
                by (nonlinear_arith)
                requires
                    stack_bottom == 0x7f80_0000,
                    stack_top == 0x8000_0000,
                    page_index(stack_top - 1) == (stack_top - 1) / 4096,
                    page_index(stack_bottom as int) == stack_bottom as int / 4096,
            ;
        }
        manager.push(
            stack_bottom,
            stack_top,
            MemoryAttr::new().set_user(),
            Handler::ByFrame(ByFrame::new()),
            None,
            allocator,
            ram,
        );
        let kernel_stack = KernelStack::new(m);
        let kernel_top = kernel_stack.top();
        let context = Context::new_user(entry, stack_top, kernel_top, manager.token(), m);
        Some(Box::new(Thread { context, stack: kernel_stack }))
    }

    /// The throwaway thread whose context the boot path switches away from.
    pub fn boot() -> (r: Box<Thread>)
        ensures
            r.context.content_addr == 0,
            r.context.spec_content() is None,
            r.stack.spec_bottom() == 0,
    {
        Box::new(Thread { context: Context::null(), stack: KernelStack::new_empty() })
    }

    /// Patch up to three argument registers of a thread that has not yet
    /// run.
    pub fn append_args(&mut self, args: [u64; 3])
        requires
            old(self).context.spec_content() is Some,
        ensures
            final(self).stack == old(self).stack,
            final(self).context.content_addr == old(self).context.content_addr,
            final(self).context.spec_content() matches Some(c) && {
                let o = old(self).context.spec_content()->0;
                &&& c.ra == o.ra
                &&& c.spec_satp() == o.spec_satp()
                &&& c.spec_frame().sepc == o.spec_frame().sepc
                &&& c.spec_frame().sstatus == o.spec_frame().sstatus
                &&& c.spec_frame().x@ == o.spec_frame().x@.update(10, args@[0]).update(
                    11,
                    args@[1],
                ).update(12, args@[2])
            },
    {
        self.context.append_args(args);
    }
}

/// The lifecycle of a pooled thread: `Ready` to run, `Running` with its id,
/// `Sleeping` until woken, or `Exited` with its code (terminal).
pub enum ThreadStatus {
    Ready,
    Running(ThreadID),
    Sleeping,
    Exited(ExitCode),
}

/// One pool slot: the thread's status, and the thread itself — absent
/// exactly while the processor runs it.
pub struct ThreadInfo {
    pub status: ThreadStatus,
    pub thread: Option<Box<Thread>>,
}

} // verus!
