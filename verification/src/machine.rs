//! Explicit model of the hardware the kernel drives: control and status
//! registers, the timer, the firmware console, and physical memory.
//!
//! The kernel's logic is written and proved against this state value; a
//! real machine supplies the same interface through control-register and
//! firmware instructions.

use vstd::prelude::*;
use crate::consts::{KERNEL_HEAP_BASE, PAGE_SIZE};
use crate::process::context::Content;

verus! {

/// The contents of an all-zero page: what RAM holds before its first write.
pub open spec fn zero_page() -> Seq<u8> {
    Seq::new(PAGE_SIZE as nat, |i: int| 0u8)
}

/// Physical memory, page by page. A frame that was never written reads as
/// zeroes.
pub struct PhysicalMemory {
    pages: Vec<(u64, Vec<u8>)>,
}

impl PhysicalMemory {
    /// Every written frame is recorded once, as one whole page.
    pub closed spec fn wf(self) -> bool {
        &&& forall|i: int, j: int|
            0 <= i < j < self.pages.len() ==> self.pages[i].0 != self.pages[j].0
        &&& forall|i: int| 0 <= i < self.pages.len() ==> #[trigger] self.pages[i].1.len()
            == PAGE_SIZE
    }

    /// The bytes of the page in frame number `frame`.
    pub closed spec fn page_of(self, frame: u64) -> Seq<u8> {
        if exists|i: int| 0 <= i < self.pages.len() && self.pages[i].0 == frame {
            let i = choose|i: int| 0 <= i < self.pages.len() && self.pages[i].0 == frame;
            self.pages[i].1@
        } else {
            zero_page()
        }
    }

    /// The byte at physical address `paddr`.
    pub open spec fn byte_at(self, paddr: u64) -> u8 {
        self.page_of(paddr / PAGE_SIZE)[(paddr % PAGE_SIZE) as int]
    }

    /// Memory in its power-on state: all zeroes.
    pub fn new() -> (r: PhysicalMemory)
        ensures
            r.wf(),
            forall|f: u64| r.page_of(f) == zero_page(),
    {
        PhysicalMemory { pages: Vec::new() }
    }

    /// Overwrite the whole page in frame number `frame`.
    pub fn store_page(&mut self, frame: u64, page: Vec<u8>)
        requires
            old(self).wf(),
            page.len() == PAGE_SIZE,
        ensures
            final(self).wf(),
            final(self).page_of(frame) == page@,
            forall|g: u64| g != frame ==> final(self).page_of(g) == old(self).page_of(g),
    {
        let mut index: usize = 0;
        while index < self.pages.len()
            invariant
                *self == *old(self),
                self.wf(),
                page.len() == PAGE_SIZE,
                index <= self.pages.len(),
                forall|i: int| 0 <= i < index ==> self.pages[i].0 != frame,
            decreases self.pages.len() - index,
        {
            if self.pages[index].0 == frame {
                self.pages[index] = (frame, page);
                proof {
                    assert forall|g: u64| g != frame implies final(self).page_of(g) == old(
                        self,
                    ).page_of(g) by {
                        assert(forall|i: int|
                            0 <= i < self.pages.len() && i != index ==> self.pages[i] == old(
                                self,
                            ).pages[i]);
                        if exists|i: int|
                            0 <= i < old(self).pages.len() && old(self).pages[i].0 == g {
                            let w = choose|i: int|
                                0 <= i < old(self).pages.len() && old(self).pages[i].0 == g;
                            assert(self.pages[w].0 == g);
                            let v = choose|i: int|
                                0 <= i < self.pages.len() && self.pages[i].0 == g;
                            assert(old(self).pages[v].0 == g);
                            assert(old(self).pages[v].1@ == old(self).page_of(g));
                            assert(v == w && self.pages[v] == old(self).pages[v]);
                        } else {
                            assert(forall|i: int|
                                0 <= i < self.pages.len() ==> self.pages[i].0 != g);
                        }
                    }
                    let v = choose|i: int|
                        0 <= i < self.pages.len() && self.pages[i].0 == frame;
                    assert(v == index);
                }
                return;
            }
            index += 1;
        }
        self.pages.push((frame, page));
        proof {
            let n = self.pages.len() - 1;
            assert(self.pages[n].0 == frame && self.pages[n].1 == page);
            let v = choose|i: int| 0 <= i < self.pages.len() && self.pages[i].0 == frame;
            assert(v == n);
            assert forall|g: u64| g != frame implies final(self).page_of(g) == old(self).page_of(
                g,
            ) by {
                assert(forall|i: int| 0 <= i < n ==> self.pages[i] == old(self).pages[i]);
                if exists|i: int| 0 <= i < old(self).pages.len() && old(self).pages[i].0 == g {
                    let w = choose|i: int|
                        0 <= i < old(self).pages.len() && old(self).pages[i].0 == g;
                    assert(self.pages[w].0 == g);
                    let u = choose|i: int| 0 <= i < self.pages.len() && self.pages[i].0 == g;
                    assert(old(self).pages[u].0 == g);
                } else {
                    assert(forall|i: int| 0 <= i < self.pages.len() ==> self.pages[i].0 != g);
                }
            }
        }
    }

    /// Overwrite the byte at physical address `paddr`.
    pub fn write_byte(&mut self, paddr: u64, b: u8)
        requires
            old(self).wf(),
        ensures
            final(self).wf(),
            final(self).page_of(paddr / PAGE_SIZE) == old(self).page_of(paddr / PAGE_SIZE).update(
                (paddr % PAGE_SIZE) as int,
                b,
            ),
            forall|g: u64|
                g != paddr / PAGE_SIZE ==> final(self).page_of(g) == old(self).page_of(g),
            final(self).byte_at(paddr) == b,
    {
        let frame = paddr / PAGE_SIZE;
        let off = (paddr % PAGE_SIZE) as usize;
        proof {
            assert(frame * 4096 + 4095 <= u64::MAX) by (nonlinear_arith)
                requires frame == paddr / PAGE_SIZE && paddr <= u64::MAX && PAGE_SIZE == 4096;
            if exists|i: int| 0 <= i < self.pages.len() && self.pages[i].0 == frame {
                let i = choose|i: int| 0 <= i < self.pages.len() && self.pages[i].0 == frame;
                assert(self.pages[i].1.len() == PAGE_SIZE);
            }
            assert(self.page_of(frame).len() == 4096);
        }
        let mut page: Vec<u8> = Vec::new();
        let mut index: usize = 0;
        while index < 4096
            invariant
                self.wf(),
                *self == *old(self),
                index <= 4096,
                page.len() == index,
                frame == paddr / PAGE_SIZE,
                frame * 4096 + 4095 <= u64::MAX,
                forall|i: int| 0 <= i < index ==> page[i] == self.page_of(frame)[i],
            decreases 4096 - index,
        {
            let addr = frame * 4096 + index as u64;
            proof {
                assert(addr / 4096 == frame && addr % 4096 == index) by (nonlinear_arith)
                    requires 0 <= index < 4096 && addr == frame * 4096 + index;
            }
            page.push(self.read_byte(addr));
            index += 1;
        }
        page[off] = b;
        proof {
            assert(page@ =~= old(self).page_of(paddr / PAGE_SIZE).update(
                (paddr % PAGE_SIZE) as int,
                b,
            ));
        }
        self.store_page(frame, page);
        proof {
            assert(final(self).byte_at(paddr) == b);
        }
    }

    /// Read the byte at physical address `paddr`.
    pub fn read_byte(&self, paddr: u64) -> (r: u8)
        requires
            self.wf(),
        ensures
            r == self.byte_at(paddr),
    {
        let frame = paddr / PAGE_SIZE;
        let off = (paddr % PAGE_SIZE) as usize;
        let mut index: usize = 0;
        while index < self.pages.len()
            invariant
                self.wf(),
                off < PAGE_SIZE,
                frame == paddr / PAGE_SIZE,
                off == paddr % PAGE_SIZE,
                index <= self.pages.len(),
                forall|i: int| 0 <= i < index ==> self.pages[i].0 != frame,
            decreases self.pages.len() - index,
        {
            if self.pages[index].0 == frame {
                proof {
                    let v = choose|i: int|
                        0 <= i < self.pages.len() && self.pages[i].0 == frame;
                    assert(v == index);
                    assert(self.pages[index as int].1.len() == PAGE_SIZE);
                }
                let page: &Vec<u8> = &self.pages[index].1;
                return page[off];
            }
            index += 1;
        }
        proof {
            assert(self.page_of(frame) == zero_page());
        }
        0
    }
}

/// The machine state the kernel programs: control and status registers,
/// the interrupt controller and serial device, the timer, the firmware
/// console, the kernel heap window, and RAM.
pub struct Machine {
    /// Page-table base register: the token of the active page table.
    pub satp: u64,
    /// Supervisor interrupt-enable bit of the status register.
    pub sie: bool,
    /// Permit supervisor access to user-mode pages (status `SUM` bit).
    pub sum: bool,
    /// Trap-vector base register.
    pub stvec: u64,
    /// Supervisor scratch register.
    pub sscratch: u64,
    /// Supervisor external-interrupt enable.
    pub sext_enabled: bool,
    /// Supervisor timer-interrupt enable.
    pub stimer_enabled: bool,
    /// Current value of the hardware time counter.
    pub time: u64,
    /// Programmed timer compare value: the next tick fires when `time`
    /// reaches it.
    pub timer: u64,
    /// Every byte written to the firmware console so far, in order.
    pub console_out: Vec<u8>,
    /// Bytes waiting to be read from the console, front first.
    pub console_in: Vec<u8>,
    /// The platform interrupt controller forwards serial interrupts.
    pub serial_irq_enabled: bool,
    /// The serial device itself raises receive interrupts.
    pub uart_ready: bool,
    /// Bump pointer of the kernel heap, from which kernel stacks are carved.
    pub heap_next: u64,
    /// Physical memory contents.
    pub ram: PhysicalMemory,
    /// The execution context the processor currently runs with, once the
    /// kernel has switched away from the boot context. Exactly one context
    /// is live at a time: a switch moves one in and saves the other out.
    pub cpu: Option<Content>,
}

impl Machine {
    /// The machine as the boot loader hands it over.
    pub fn new() -> (r: Machine)
        ensures
            r.ram.wf(),
            forall|f: u64| r.ram.page_of(f) == zero_page(),
            r.satp == 0,
            !r.sie && !r.sum && !r.sext_enabled && !r.stimer_enabled,
            !r.serial_irq_enabled && !r.uart_ready,
            r.console_out@ == Seq::<u8>::empty(),
            r.console_in@ == Seq::<u8>::empty(),
            r.heap_next == KERNEL_HEAP_BASE,
            r.time == 0 && r.timer == 0 && r.stvec == 0 && r.sscratch == 0,
            r.cpu is None,
    {
        Machine {
            satp: 0,
            sie: false,
            sum: false,
            stvec: 0,
            sscratch: 0,
            sext_enabled: false,
            stimer_enabled: false,
            time: 0,
            timer: 0,
            console_out: Vec::new(),
            console_in: Vec::new(),
            serial_irq_enabled: false,
            uart_ready: false,
            heap_next: KERNEL_HEAP_BASE,
            ram: PhysicalMemory::new(),
            cpu: None,
        }
    }
}

} // verus!
