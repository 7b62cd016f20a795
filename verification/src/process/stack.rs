//! Kernel stacks, carved from the kernel heap window.

use vstd::prelude::*;
use crate::consts::KERNEL_STACK_SIZE;
use crate::machine::Machine;

verus! {

/// One kernel stack; the value is the stack's bottom address.
pub struct KernelStack(u64);

impl KernelStack {
    /// The stack's bottom address.
    pub closed spec fn spec_bottom(self) -> u64 {
        self.0
    }

    /// Carve a fresh, aligned kernel stack out of the heap window. The
    /// model heap only grows, so distinct stacks never overlap.
    pub fn new(m: &mut Machine) -> (r: KernelStack)
        requires
            old(m).heap_next + 2 * KERNEL_STACK_SIZE <= u64::MAX,
        ensures
            r.spec_bottom() % KERNEL_STACK_SIZE == 0,
            old(m).heap_next <= r.spec_bottom() < old(m).heap_next + KERNEL_STACK_SIZE,
            final(m).heap_next == r.spec_bottom() + KERNEL_STACK_SIZE,
            *final(m) == (Machine { heap_next: final(m).heap_next, ..*old(m) }),
    {
        let ghost h = old(m).heap_next as int;
        let ghost k = KERNEL_STACK_SIZE as int;
        let ghost b = (h + k - 1) / k * k;
        proof {
            assert(b % k == 0 && h <= b && b < h + k) by (nonlinear_arith)
                requires
                    k == 0x80000,
                    h >= 0,
                    b == (h + k - 1) / k * k,
            ;
        }
        let sum = m.heap_next + KERNEL_STACK_SIZE - 1;
        let q = sum / KERNEL_STACK_SIZE;
        proof {
            assert(q == (h + k - 1) / k);
            assert(q * k == b);
        }
        let bottom = q * KERNEL_STACK_SIZE;
        m.heap_next = bottom + KERNEL_STACK_SIZE;
        proof {
            assert(bottom % KERNEL_STACK_SIZE == 0 && h <= bottom < h + k);
        }
        KernelStack(bottom)
    }

    /// The empty stack of the throwaway boot thread.
    pub fn new_empty() -> (r: KernelStack)
        ensures
            r.spec_bottom() == 0,
    {
        KernelStack(0)
    }

    /// The stack's top address: contexts are synthesized there.
    pub fn top(&self) -> (r: u64)
        requires
            self.spec_bottom() + KERNEL_STACK_SIZE <= u64::MAX,
        ensures
            r == self.spec_bottom() + KERNEL_STACK_SIZE,
    {
        self.0 + KERNEL_STACK_SIZE
    }
}

} // verus!
