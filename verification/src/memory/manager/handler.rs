//! Mapping policies: how one virtual page of an area gets its physical
//! backing.

use vstd::prelude::*;
use crate::consts::{PAGE_SIZE, PHYSICAL_MEMORY_OFFSET};
use crate::machine::PhysicalMemory;
use crate::memory::frame_allocator::{lemma_free_count_can_alloc, LinearFrameAllocator};
use crate::memory::manager::paging::entry::{PageEntry, PageTableEntry};
use crate::memory::manager::paging::table::{lemma_vpn_page_aligned, vpn, PageTable};
use crate::memory::memory_set::attr::MemoryAttr;

verus! {

/// Linear policy: map a page to the physical address `vaddr - offset`. The
/// backing already exists (kernel image, device window), so no frame is
/// consumed.
#[derive(Clone, Copy, PartialEq, Eq, Structural)]
pub struct Linear {
    offset: u64,
}

impl Linear {
    /// The fixed virtual-to-physical offset.
    pub closed spec fn spec_offset(self) -> u64 {
        self.offset
    }

    /// The linear policy with the given offset.
    pub closed spec fn stub(offset: u64) -> Linear {
        Linear { offset }
    }

    pub fn new(offset: u64) -> (r: Linear)
        ensures
            r == Linear::stub(offset),
            r.spec_offset() == offset,
    {
        Linear { offset }
    }

    /// The offset, readable at run time.
    pub fn offset(&self) -> (r: u64)
        ensures
            r == self.spec_offset(),
    {
        self.offset
    }
}

/// By-frame policy: allocate one fresh physical frame per page. Used for
/// user memory and stacks.
#[derive(Clone, Copy, PartialEq, Eq, Structural)]
pub struct ByFrame;

impl ByFrame {
    pub fn new() -> (r: ByFrame) {
        ByFrame
    }
}

/// The closed set of mapping policies an area can use.
#[derive(Clone, Copy, PartialEq, Eq, Structural)]
pub enum Handler {
    Linear(Linear),
    ByFrame(ByFrame),
}

/// What the offset of a stub linear policy is.
pub broadcast proof fn lemma_linear_stub(offset: u64)
    ensures
        (#[trigger] Linear::stub(offset)).spec_offset() == offset,
{
}

/// The leaf entry a linear mapping of `vaddr` installs under `attr`.
pub open spec fn linear_pte(attr: MemoryAttr, offset: u64, vaddr: u64) -> PageTableEntry {
    attr.applied(
        PageTableEntry {
            valid: true,
            readable: true,
            writable: true,
            executable: false,
            user: false,
            accessed: false,
            dirty: false,
            ppn: (((vaddr - offset) as u64) >> 12) as u64,
        },
    )
}

/// The leaf entry a by-frame mapping installs under `attr`, backed by
/// frame `f`.
pub open spec fn byframe_pte(attr: MemoryAttr, f: u64) -> PageTableEntry {
    attr.applied(
        PageTableEntry {
            valid: true,
            readable: true,
            writable: true,
            executable: false,
            user: false,
            accessed: false,
            dirty: false,
            ppn: f,
        },
    )
}

impl Handler {
    /// Map one virtual page of an area and lock its permission bits down to
    /// `attr`. The linear policy consumes at most the two frames the table
    /// walk may need; the by-frame policy also consumes one backing frame.
    pub fn map(
        &self,
        page_table: &mut PageTable,
        allocator: &mut LinearFrameAllocator,
        vaddr: u64,
        attr: &MemoryAttr,
    )
        requires
            old(page_table).wf(),
            old(allocator).wf(),
            old(allocator).free_count() >= 3,
            old(allocator).offset + old(allocator).size <= 0x10_0000_0000_0000,
            self matches Handler::Linear(l) ==> l.spec_offset() <= vaddr,
        ensures
            final(page_table).wf(),
            final(page_table).spec_token() == old(page_table).spec_token(),
            final(page_table).spec_root() == old(page_table).spec_root(),
            final(allocator).wf(),
            final(allocator).offset == old(allocator).offset,
            final(allocator).size == old(allocator).size,
            final(allocator).free_count() >= old(allocator).free_count() - 3,
            forall|f: u64| old(allocator).live(f) ==> final(allocator).live(f),
            self matches Handler::Linear(l) ==> final(page_table).mapping() == old(
                page_table,
            ).mapping().insert(vpn(vaddr), linear_pte(*attr, l.spec_offset(), vaddr)),
            self is ByFrame ==> exists|f: u64|
                {
                    &&& old(allocator).is_lowest_free(f)
                    &&& final(allocator).live(f)
                    &&& final(page_table).mapping() == old(page_table).mapping().insert(
                        vpn(vaddr),
                        byframe_pte(*attr, f),
                    )
                },
    {
        match self {
            Handler::Linear(linear) => {
                let paddr = vaddr - linear.offset;
                let mut entry = page_table.map(allocator, vaddr, paddr);
                attr.apply(&mut entry);
                proof {
                    lemma_vpn_page_aligned(vaddr);
                }
                entry.update(page_table);
                proof {
                    assert(page_table.mapping() =~= old(page_table).mapping().insert(
                        vpn(vaddr),
                        linear_pte(*attr, linear.spec_offset(), vaddr),
                    ));
                }
            },
            Handler::ByFrame(_) => {
                proof {
                    lemma_free_count_can_alloc(*allocator);
                }
                let frame = allocator.allocate();
                proof {
                    assert(frame < 0x10_0000_0000_0000);
                    assert((frame << 12) >> 12 == frame) by (bit_vector)
                        requires frame < 0x10_0000_0000_0000;
                }
                let paddr = frame << 12;
                let mut entry = page_table.map(allocator, vaddr, paddr);
                attr.apply(&mut entry);
                proof {
                    lemma_vpn_page_aligned(vaddr);
                }
                entry.update(page_table);
                proof {
                    assert(old(allocator).is_lowest_free(frame));
                    assert(allocator.live(frame));
                    assert(page_table.mapping() =~= old(page_table).mapping().insert(
                        vpn(vaddr),
                        byframe_pte(*attr, frame),
                    ));
                }
            },
        }
    }

    /// Unmap one virtual page of an area.
    pub fn unmap(&self, page_table: &mut PageTable, vaddr: u64)
        requires
            old(page_table).wf(),
            old(page_table).mapping().contains_key(vpn(vaddr)),
        ensures
            final(page_table).wf(),
            final(page_table).spec_token() == old(page_table).spec_token(),
            final(page_table).spec_root() == old(page_table).spec_root(),
            final(page_table).mapping() == old(page_table).mapping().remove(vpn(vaddr)),
    {
        page_table.unmap(vaddr);
    }

    /// The page contents `page_copy` writes: `length` bytes of `src`
    /// starting at `src_off`, zero-filled to a whole page.
    pub open spec fn copied_page(src: Seq<u8>, src_off: int, length: int) -> Seq<u8> {
        Seq::new(
            PAGE_SIZE as nat,
            |i: int|
                if i < length {
                    src[src_off + i]
                } else {
                    0u8
                },
        )
    }

    /// Copy up to `length` bytes of `src` (from `src_off`) into the freshly
    /// mapped page at `vaddr`, zero-filling the remainder of the page. This
    /// is how segment contents reach their destination without the
    /// destination being mapped at a known address.
    pub fn page_copy(
        &self,
        page_table: &PageTable,
        ram: &mut PhysicalMemory,
        vaddr: u64,
        src: &Vec<u8>,
        src_off: usize,
        length: usize,
    )
        requires
            page_table.wf(),
            old(ram).wf(),
            page_table.mapping().contains_key(vpn(vaddr)),
            length != 0 ==> src_off + length <= src.len(),
            length <= PAGE_SIZE,
            self matches Handler::Linear(l) ==> l.spec_offset() == PHYSICAL_MEMORY_OFFSET
                && page_table.mapping()[vpn(vaddr)].ppn * PAGE_SIZE + l.spec_offset() == vaddr
                    >> 12 << 12,
        ensures
            final(ram).wf(),
            final(ram).page_of(page_table.mapping()[vpn(vaddr)].ppn) == Handler::copied_page(
                src@,
                src_off as int,
                length as int,
            ),
            forall|g: u64|
                g != page_table.mapping()[vpn(vaddr)].ppn ==> final(ram).page_of(g) == old(
                    ram,
                ).page_of(g),
    {
        let entry = match page_table.get_entry(vaddr) {
            Some(e) => e,
            None => unreached(),
        };
        let frame = entry.entry.ppn;
        let mut page: Vec<u8> = Vec::new();
        let mut index: usize = 0;
        while index < length
            invariant
                length != 0 ==> src_off + length <= src.len(),
                length <= PAGE_SIZE,
                index <= length,
                page.len() == index,
                forall|i: int| 0 <= i < index ==> page[i] == src[src_off + i],
            decreases length - index,
        {
            page.push(src[src_off + index]);
            index += 1;
        }
        while index < 4096
            invariant
                length <= index <= 4096,
                page.len() == index,
                forall|i: int| 0 <= i < length ==> page[i] == src[src_off + i],
                forall|i: int| length <= i < index ==> page[i] == 0,
            decreases 4096 - index,
        {
            page.push(0);
            index += 1;
        }
        proof {
            assert(page@ =~= Handler::copied_page(src@, src_off as int, length as int));
        }
        ram.store_page(frame, page);
    }
}

} // verus!
