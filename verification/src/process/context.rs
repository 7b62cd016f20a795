//! Saved register contexts and the switch between two of them.

use vstd::prelude::*;
use crate::machine::Machine;
use crate::trap::frame::TrapFrame;

verus! {

/// Supervisor interrupt-enable bit of the status register.
pub const SSTATUS_SIE: u64 = 0x2;

/// Previous interrupt-enable bit: restored into `SIE` on trap return.
pub const SSTATUS_SPIE: u64 = 0x20;

/// Previous privilege bit: set for a return to supervisor mode.
pub const SSTATUS_SPP: u64 = 0x100;

/// Permit supervisor access to user-mode pages.
pub const SSTATUS_SUM: u64 = 0x40000;

/// Address of the trap-return stub. A fresh thread's saved return address
/// points here, so its first switch-in pops the synthesized trap frame as
/// if the thread were resuming from a trap.
pub const TRAP_RETURN: u64 = 0xffffffff_c0100000;

/// Size in bytes of a `Content` block as it sits at the top of a kernel
/// stack: return address, page-table token, twelve callee-saved registers,
/// and the trap frame of thirty-six words.
pub const CONTENT_SIZE: u64 = 400;

/// The status-register value a kernel thread starts with: return to
/// supervisor mode with interrupts re-enabled on return.
pub open spec fn kernel_entry_sstatus(m: Machine) -> u64 {
    if m.sum {
        SSTATUS_SPP | SSTATUS_SPIE | SSTATUS_SUM
    } else {
        SSTATUS_SPP | SSTATUS_SPIE
    }
}

/// The status-register value a user thread starts with: return to user
/// mode with interrupts re-enabled on return.
pub open spec fn user_entry_sstatus(m: Machine) -> u64 {
    if m.sum {
        SSTATUS_SPIE | SSTATUS_SUM
    } else {
        SSTATUS_SPIE
    }
}

/// What a switch saves and restores, stored at the top of a kernel stack:
/// the return address, the page-table token, the callee-saved registers,
/// and a trap frame that the trap-return stub pops on first entry.
pub struct Content {
    /// Return address loaded by the switch that resumes this context.
    pub ra: u64,
    /// Page-table token this context runs with.
    pub satp: u64,
    /// Callee-saved registers.
    pub s: [u64; 12],
    /// The synthesized trap frame popped on first entry.
    pub frame: TrapFrame,
}

impl Content {
    /// The page-table token this context runs with.
    pub open spec fn spec_satp(self) -> u64 {
        self.satp
    }

    /// The callee-saved registers.
    pub open spec fn spec_s(self) -> Seq<u64> {
        self.s@
    }

    /// The synthesized trap frame.
    pub open spec fn spec_frame(self) -> TrapFrame {
        self.frame
    }

    /// The content of a fresh kernel thread: a zeroed trap frame whose
    /// stack pointer is the kernel stack top and whose saved program
    /// counter is the entry function, marked for a supervisor-mode return
    /// with interrupts re-enabled.
    fn new_kernel(entry: u64, kernel_stack_top: u64, satp: u64, m: &Machine) -> (r: Content)
        ensures
            r.ra == TRAP_RETURN,
            r.spec_satp() == satp,
            r.spec_s() == Seq::new(12, |i: int| 0u64),
            r.spec_frame().x@ == Seq::new(32, |i: int| 0u64).update(2, kernel_stack_top),
            r.spec_frame().sepc == entry,
            r.spec_frame().sstatus == kernel_entry_sstatus(*m),
    {
        let mut frame = TrapFrame::zeroed();
        frame.x[2] = kernel_stack_top;
        frame.sepc = entry;
        frame.sstatus = if m.sum {
            SSTATUS_SPP | SSTATUS_SPIE | SSTATUS_SUM
        } else {
            SSTATUS_SPP | SSTATUS_SPIE
        };
        let r = Content { ra: TRAP_RETURN, satp, s: [0u64; 12], frame };
        proof {
            assert(r.spec_s() =~= Seq::new(12, |i: int| 0u64));
            assert(r.spec_frame().x@ =~= Seq::new(32, |i: int| 0u64).update(
                2,
                kernel_stack_top,
            ));
        }
        r
    }

    /// The content of a fresh user thread: as for a kernel thread, but the
    /// stack pointer is the user stack top and the return goes to user mode.
    fn new_user(entry: u64, user_stack_top: u64, satp: u64, m: &Machine) -> (r: Content)
        ensures
            r.ra == TRAP_RETURN,
            r.spec_satp() == satp,
            r.spec_s() == Seq::new(12, |i: int| 0u64),
            r.spec_frame().x@ == Seq::new(32, |i: int| 0u64).update(2, user_stack_top),
            r.spec_frame().sepc == entry,
            r.spec_frame().sstatus == user_entry_sstatus(*m),
    {
        let mut frame = TrapFrame::zeroed();
        frame.x[2] = user_stack_top;
        frame.sepc = entry;
        frame.sstatus = if m.sum {
            SSTATUS_SPIE | SSTATUS_SUM
        } else {
            SSTATUS_SPIE
        };
        let r = Content { ra: TRAP_RETURN, satp, s: [0u64; 12], frame };
        proof {
            assert(r.spec_s() =~= Seq::new(12, |i: int| 0u64));
            assert(r.spec_frame().x@ =~= Seq::new(32, |i: int| 0u64).update(2, user_stack_top));
        }
        r
    }

    /// Place this content at the top of the stack whose top address is
    /// `stack_top`, and hand back the context that points at it.
    fn push_at(self, stack_top: u64) -> (r: Context)
        requires
            stack_top >= CONTENT_SIZE,
        ensures
            r.content_addr == stack_top - CONTENT_SIZE,
            r.spec_content() == Some(self),
    {
        Context { content_addr: stack_top - CONTENT_SIZE, content: Some(self) }
    }
}

/// A suspended execution context: the address of its saved content at the
/// top of its kernel stack, and — while it is not running — the content
/// itself. While the context runs, the machine holds the content.
pub struct Context {
    /// Where the saved content sits on the kernel stack.
    pub content_addr: u64,
    /// The saved content, absent exactly while the context is running.
    pub content: Option<Content>,
}

impl Context {
    /// The saved content, absent while the context is running.
    pub open spec fn spec_content(self) -> Option<Content> {
        self.content
    }

    /// The throwaway context the boot path switches away from.
    pub fn null() -> (r: Context)
        ensures
            r.content_addr == 0,
            r.spec_content() is None,
    {
        Context { content_addr: 0, content: None }
    }

    /// The context of a fresh kernel thread, synthesized at the top of its
    /// kernel stack.
    pub fn new_kernel(entry: u64, kernel_stack_top: u64, satp: u64, m: &Machine) -> (r: Context)
        requires
            kernel_stack_top >= CONTENT_SIZE,
        ensures
            r.content_addr == kernel_stack_top - CONTENT_SIZE,
            r.spec_content() matches Some(c) && c.ra == TRAP_RETURN && c.spec_satp() == satp
                && c.spec_s() == Seq::new(12, |i: int| 0u64) && c.spec_frame().x@ == Seq::new(
                32,
                |i: int| 0u64,
            ).update(2, kernel_stack_top) && c.spec_frame().sepc == entry
                && c.spec_frame().sstatus == kernel_entry_sstatus(*m),
    {
        Content::new_kernel(entry, kernel_stack_top, satp, m).push_at(kernel_stack_top)
    }

    /// The context of a fresh user thread: its trap frame starts on the
    /// user stack, its saved content sits on the kernel stack.
    pub fn new_user(
        entry: u64,
        user_stack_top: u64,
        kernel_stack_top: u64,
        satp: u64,
        m: &Machine,
    ) -> (r: Context)
        requires
            kernel_stack_top >= CONTENT_SIZE,
        ensures
            r.content_addr == kernel_stack_top - CONTENT_SIZE,
            r.spec_content() matches Some(c) && c.ra == TRAP_RETURN && c.spec_satp() == satp
                && c.spec_s() == Seq::new(12, |i: int| 0u64) && c.spec_frame().x@ == Seq::new(
                32,
                |i: int| 0u64,
            ).update(2, user_stack_top) && c.spec_frame().sepc == entry
                && c.spec_frame().sstatus == user_entry_sstatus(*m),
    {
        Content::new_user(entry, user_stack_top, satp, m).push_at(kernel_stack_top)
    }

    /// Patch the synthesized trap frame's first three argument registers,
    /// so the entry function receives up to three word-sized arguments.
    pub fn append_args(&mut self, args: [u64; 3])
        requires
            old(self).spec_content() is Some,
        ensures
            final(self).content_addr == old(self).content_addr,
            final(self).spec_content() matches Some(c) && {
                let o = old(self).spec_content()->0;
                &&& c.ra == o.ra
                &&& c.spec_satp() == o.spec_satp()
                &&& c.spec_s() == o.spec_s()
                &&& c.spec_frame().sepc == o.spec_frame().sepc
                &&& c.spec_frame().sstatus == o.spec_frame().sstatus
                &&& c.spec_frame().stval == o.spec_frame().stval
                &&& c.spec_frame().scause == o.spec_frame().scause
                &&& c.spec_frame().x@ == o.spec_frame().x@.update(10, args@[0]).update(
                    11,
                    args@[1],
                ).update(12, args@[2])
            },
    {
        if let Some(mut c) = self.content.take() {
            c.frame.x[10] = args[0];
            c.frame.x[11] = args[1];
            c.frame.x[12] = args[2];
            self.content = Some(c);
        } else {
            proof {
                assert(false);
            }
        }
    }

    /// Switch execution from this context to `target`: save the running
    /// register state into this context, and load `target`'s saved state —
    /// including its page-table token — into the machine. The only way back
    /// is a symmetric switch initiated by the other side.
    pub fn switch(&mut self, target: &mut Context, m: &mut Machine)
        requires
            old(target).spec_content() is Some,
        ensures
            final(self).content_addr == old(self).content_addr,
            final(self).spec_content() == old(m).cpu,
            final(target).content_addr == old(target).content_addr,
            final(target).spec_content() is None,
            final(m).cpu == old(target).spec_content(),
            final(m).satp == old(target).spec_content()->0.spec_satp(),
            *final(m) == (Machine { cpu: final(m).cpu, satp: final(m).satp, ..*old(m) }),
    {
        let saved = m.cpu.take();
        if let Some(incoming) = target.content.take() {
            m.satp = incoming.satp;
            m.cpu = Some(incoming);
        } else {
            proof {
                assert(false);
            }
        }
        self.content = saved;
    }
}

} // verus!
