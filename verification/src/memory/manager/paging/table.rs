//! The three-level page table: mapping one virtual page at a time.

use vstd::prelude::*;
use crate::memory::frame_allocator::{
    lemma_free_count_can_alloc, LinearFrameAllocator,
};
use crate::memory::manager::paging::entry::{PageEntry, PageTableEntry};
use crate::machine::Machine;

verus! {

/// The virtual page number of `vaddr`: the 27 index bits the three-level
/// walk consumes, nine per level.
pub open spec fn vpn(vaddr: u64) -> u64 {
    (vaddr >> 12) & 0x7ff_ffff
}

/// The three per-level indices of a virtual page number.
pub open spec fn vpn2(v: u64) -> u64 {
    (v >> 18) & 0x1ff
}

pub open spec fn vpn1(v: u64) -> u64 {
    (v >> 9) & 0x1ff
}

pub open spec fn vpn0(v: u64) -> u64 {
    v & 0x1ff
}

/// How the walk indices of an address relate to its virtual page number.
proof fn lemma_vpn_bits(va: u64)
    ensures
        vpn(va) < 0x800_0000,
        vpn2(vpn(va)) == (va >> 30) & 0x1ff,
        vpn1(vpn(va)) == (va >> 21) & 0x1ff,
        vpn0(vpn(va)) == (va >> 12) & 0x1ff,
        (va >> 30) & 0x1ff < 512,
        (va >> 21) & 0x1ff < 512,
        (va >> 12) & 0x1ff < 512,
{
    assert(((va >> 12) & 0x7ff_ffff) < 0x800_0000 && ((((va >> 12) & 0x7ff_ffff) >> 18) & 0x1ff)
        == (va >> 30) & 0x1ff && ((((va >> 12) & 0x7ff_ffff) >> 9) & 0x1ff) == (va >> 21) & 0x1ff
        && (((va >> 12) & 0x7ff_ffff) & 0x1ff) == (va >> 12) & 0x1ff && (va >> 30) & 0x1ff < 512
        && (va >> 21) & 0x1ff < 512 && (va >> 12) & 0x1ff < 512) by (bit_vector);
}

/// Two virtual page numbers with the same three walk indices are equal.
proof fn lemma_vpn_unique(u: u64, v: u64)
    requires
        u < 0x800_0000,
        v < 0x800_0000,
        vpn2(u) == vpn2(v),
        vpn1(u) == vpn1(v),
        vpn0(u) == vpn0(v),
    ensures
        u == v,
{
    assert(u < 0x800_0000 && v < 0x800_0000 && ((u >> 18) & 0x1ff) == ((v >> 18) & 0x1ff) && ((u
        >> 9) & 0x1ff) == ((v >> 9) & 0x1ff) && (u & 0x1ff) == (v & 0x1ff) ==> u == v)
        by (bit_vector);
}

/// A vpn's indices are in range.
proof fn lemma_vpn_index_bounds(v: u64)
    ensures
        vpn2(v) < 512,
        vpn1(v) < 512,
        vpn0(v) < 512,
        v < 0x800_0000 ==> vpn2(v) * 0x40000 + vpn1(v) * 0x200 + vpn0(v) == v,
{
    assert(((v >> 18) & 0x1ff) < 512 && ((v >> 9) & 0x1ff) < 512 && (v & 0x1ff) < 512 && (v
        < 0x800_0000 ==> ((v >> 18) & 0x1ff) * 0x40000 + ((v >> 9) & 0x1ff) * 0x200 + (v & 0x1ff)
        == v)) by (bit_vector);
}

/// A page's start address has the same virtual page number as any address
/// inside the page.
pub proof fn lemma_vpn_page_aligned(va: u64)
    ensures
        vpn(va >> 12 << 12) == vpn(va),
{
    assert((((va >> 12 << 12) >> 12) & 0x7ff_ffff) == ((va >> 12) & 0x7ff_ffff)) by (bit_vector);
}

/// A leaf table: one frame holding 512 entries.
pub struct LeafTable {
    frame: u64,
    slots: Vec<PageTableEntry>,
}

impl LeafTable {
    pub closed spec fn wf(self) -> bool {
        self.slots.len() == 512
    }

    pub closed spec fn slot(self, i: int) -> PageTableEntry {
        self.slots[i]
    }

    /// A zeroed leaf table in the given frame.
    fn new(frame: u64) -> (r: LeafTable)
        ensures
            r.wf(),
            forall|i: int|
                0 <= i < 512 ==> (#[trigger] r.slots@[i]) == PageTableEntry::spec_zero(),
    {
        let mut slots: Vec<PageTableEntry> = Vec::new();
        let mut index: usize = 0;
        while index < 512
            invariant
                index <= 512,
                slots.len() == index,
                forall|i: int|
                    0 <= i < index ==> (#[trigger] slots@[i]) == PageTableEntry::spec_zero(),
            decreases 512 - index,
        {
            slots.push(PageTableEntry::zero());
            index += 1;
        }
        LeafTable { frame, slots }
    }
}

/// A middle table: one frame holding up to 512 leaf tables.
pub struct MiddleTable {
    frame: u64,
    children: Vec<Option<LeafTable>>,
}

impl MiddleTable {
    pub closed spec fn wf(self) -> bool {
        &&& self.children.len() == 512
        &&& forall|i: int|
            0 <= i < 512 && self.children[i] is Some ==> (#[trigger] self.children[i])->0.wf()
    }

    pub closed spec fn child(self, i: int) -> Option<LeafTable> {
        self.children[i]
    }

    /// An empty middle table in the given frame.
    fn new(frame: u64) -> (r: MiddleTable)
        ensures
            r.wf(),
            forall|i: int| 0 <= i < 512 ==> (#[trigger] r.children@[i]) is None,
    {
        MiddleTable { frame, children: vec_none_512() }
    }
}

/// 512 empty slots.
fn vec_none_512() -> (r: Vec<Option<LeafTable>>)
    ensures
        r.len() == 512,
        forall|i: int| 0 <= i < 512 ==> r[i] is None,
{
    let mut v: Vec<Option<LeafTable>> = Vec::new();
    let mut index: usize = 0;
    while index < 512
        invariant
            index <= 512,
            v.len() == index,
            forall|i: int| 0 <= i < index ==> v[i] is None,
        decreases 512 - index,
    {
        v.push(None);
        index += 1;
    }
    v
}

/// The three-level page table: the root frame the hardware register points
/// at, and the tree of child tables. A table maps virtual pages to physical
/// ones; which virtual ranges mean what is the area manager's business.
pub struct PageTable {
    root_frame: u64,
    children: Vec<Option<MiddleTable>>,
}

impl PageTable {
    pub closed spec fn wf(self) -> bool {
        &&& self.children.len() == 512
        &&& forall|i: int|
            0 <= i < 512 && self.children[i] is Some ==> (#[trigger] self.children[i])->0.wf()
    }

    /// The frame number of the root table node.
    pub closed spec fn spec_root(self) -> u64 {
        self.root_frame
    }

    /// The leaf entry a walk for virtual page number `v` finds, if the walk
    /// reaches a valid leaf.
    pub closed spec fn entry_of(self, v: u64) -> Option<PageTableEntry> {
        if self.children[vpn2(v) as int] is Some {
            let mid = self.children[vpn2(v) as int]->0;
            if mid.child(vpn1(v) as int) is Some {
                let leaf = mid.child(vpn1(v) as int)->0;
                if leaf.slot(vpn0(v) as int).valid {
                    Some(leaf.slot(vpn0(v) as int))
                } else {
                    None
                }
            } else {
                None
            }
        } else {
            None
        }
    }

    /// What the table maps: every virtual page number with a valid leaf
    /// entry, and that entry.
    pub open spec fn mapping(self) -> Map<u64, PageTableEntry> {
        Map::new(
            |v: u64| v < 0x800_0000 && self.entry_of(v) is Some,
            |v: u64| self.entry_of(v)->0,
        )
    }

    /// The hardware register encoding that selects this table: the root
    /// frame number plus the paging-mode tag.
    pub open spec fn spec_token(self) -> u64 {
        self.spec_root() | 0x8000_0000_0000_0000
    }

    /// A fresh table: one zeroed root frame, mapping nothing.
    pub fn new(allocator: &mut LinearFrameAllocator) -> (r: PageTable)
        requires
            old(allocator).wf(),
            old(allocator).can_alloc(),
        ensures
            r.wf(),
            r.mapping() == Map::<u64, PageTableEntry>::empty(),
            final(allocator).wf(),
            final(allocator).offset == old(allocator).offset,
            final(allocator).size == old(allocator).size,
            final(allocator).free_count() == old(allocator).free_count() - 1,
            forall|f: u64| old(allocator).live(f) ==> final(allocator).live(f),
            !old(allocator).live(r.spec_root()) && final(allocator).live(r.spec_root()),
            old(allocator).is_lowest_free(r.spec_root()),
    {
        let frame = allocator.allocate();
        let mut children: Vec<Option<MiddleTable>> = Vec::new();
        let mut index: usize = 0;
        while index < 512
            invariant
                index <= 512,
                children.len() == index,
                forall|i: int| 0 <= i < index ==> children[i] is None,
            decreases 512 - index,
        {
            children.push(None);
            index += 1;
        }
        let r = PageTable { root_frame: frame, children };
        proof {
            assert forall|v: u64| #[trigger] r.entry_of(v) is None by {
                lemma_vpn_index_bounds(v);
            }
            assert(r.mapping() =~= Map::<u64, PageTableEntry>::empty());
        }
        r
    }

    /// Map virtual page `vaddr` to physical page `paddr` with the default
    /// flags (valid, readable, writable): the caller refines them right
    /// after. Missing intermediate tables are allocated, so up to two
    /// frames may be consumed.
    pub fn map(
        &mut self,
        allocator: &mut LinearFrameAllocator,
        vaddr: u64,
        paddr: u64,
    ) -> (r: PageEntry)
        requires
            old(self).wf(),
            old(allocator).wf(),
            old(allocator).free_count() >= 2,
        ensures
            final(self).wf(),
            final(self).spec_token() == old(self).spec_token(),
            final(self).spec_root() == old(self).spec_root(),
            final(self).mapping() == old(self).mapping().insert(
                vpn(vaddr),
                PageTableEntry {
                    valid: true,
                    readable: true,
                    writable: true,
                    executable: false,
                    user: false,
                    accessed: false,
                    dirty: false,
                    ppn: (paddr >> 12) as u64,
                },
            ),
            r.entry == final(self).mapping()[vpn(vaddr)],
            r.page == vaddr >> 12 << 12,
            final(allocator).wf(),
            final(allocator).offset == old(allocator).offset,
            final(allocator).size == old(allocator).size,
            final(allocator).free_count() >= old(allocator).free_count() - 2,
            final(allocator).free_count() <= old(allocator).free_count(),
            forall|f: u64| old(allocator).live(f) ==> final(allocator).live(f),
    {
        proof {
            lemma_vpn_bits(vaddr);
            lemma_free_count_can_alloc(*old(allocator));
        }
        let i2 = ((vaddr >> 30) & 0x1ff) as usize;
        let i1 = ((vaddr >> 21) & 0x1ff) as usize;
        let i0 = ((vaddr >> 12) & 0x1ff) as usize;
        let mut mid = match self.children[i2].take() {
            Some(t) => t,
            None => MiddleTable::new(allocator.allocate()),
        };
        proof {
            lemma_free_count_can_alloc(*allocator);
            if old(self).children@[i2 as int] is None {
                assert(forall|j: int| 0 <= j < 512 ==> (#[trigger] mid.children@[j]) is None);
            } else {
                assert(mid == old(self).children@[i2 as int]->0);
            }
        }
        let mut leaf = match mid.children[i1].take() {
            Some(t) => t,
            None => LeafTable::new(allocator.allocate()),
        };
        proof {
            if !(old(self).children@[i2 as int] matches Some(m) && m.children@[i1 as int]
                is Some) {
                assert(forall|j: int|
                    0 <= j < 512 ==> (#[trigger] leaf.slots@[j]) == PageTableEntry::spec_zero());
            }
        }
        let pte = PageTableEntry {
            valid: true,
            readable: true,
            writable: true,
            executable: false,
            user: false,
            accessed: false,
            dirty: false,
            ppn: paddr >> 12,
        };
        leaf.slots[i0] = pte;
        mid.children[i1] = Some(leaf);
        self.children[i2] = Some(mid);
        proof {
            let w = vpn(vaddr);
            assert(i2 as int == vpn2(w) as int);
            assert(i1 as int == vpn1(w) as int);
            assert(i0 as int == vpn0(w) as int);
            assert(self.children@[vpn2(w) as int] is Some);
            assert forall|v: u64| v < 0x800_0000 && v != w implies #[trigger] self.entry_of(v)
                == old(self).entry_of(v) by {
                lemma_vpn_index_bounds(v);
                lemma_vpn_index_bounds(w);
                if vpn2(v) != vpn2(w) {
                    assert(self.children@[vpn2(v) as int] == old(self).children@[vpn2(v) as int]);
                } else {
                    if vpn1(v) == vpn1(w) && vpn0(v) == vpn0(w) {
                        lemma_vpn_unique(v, w);
                    }
                    if vpn1(v) != vpn1(w) {
                        if old(self).children@[vpn2(w) as int] is Some {
                            assert((self.children@[vpn2(w) as int]->0).children@[vpn1(v) as int]
                                == (old(self).children@[vpn2(w) as int]->0).children@[vpn1(
                                v,
                            ) as int]);
                        } else {
                            assert((self.children@[vpn2(w) as int]->0).children@[vpn1(
                                v,
                            ) as int] is None);
                        }
                    } else {
                        assert(vpn0(v) != vpn0(w));
                        if old(self).children@[vpn2(w) as int] is Some && (old(
                            self,
                        ).children@[vpn2(w) as int]->0).children@[vpn1(w) as int] is Some {
                            assert(((self.children@[vpn2(w) as int]->0).children@[vpn1(
                                w,
                            ) as int]->0).slots@[vpn0(v) as int] == ((old(self).children@[vpn2(
                                w,
                            ) as int]->0).children@[vpn1(w) as int]->0).slots@[vpn0(
                                v,
                            ) as int]);
                        } else {
                            assert(((self.children@[vpn2(w) as int]->0).children@[vpn1(
                                w,
                            ) as int]->0).slots@[vpn0(v) as int]
                                == PageTableEntry::spec_zero());
                        }
                    }
                }
            }
            assert(self.entry_of(w) == Some(pte));
            assert(self.mapping() =~= old(self).mapping().insert(w, pte));
        }
        PageEntry { entry: pte, page: vaddr >> 12 << 12 }
    }

    /// Remove the leaf entry of virtual page `vaddr` and invalidate that
    /// page's cached translation.
    pub fn unmap(&mut self, vaddr: u64)
        requires
            old(self).wf(),
            old(self).mapping().contains_key(vpn(vaddr)),
        ensures
            final(self).wf(),
            final(self).spec_token() == old(self).spec_token(),
            final(self).spec_root() == old(self).spec_root(),
            final(self).mapping() == old(self).mapping().remove(vpn(vaddr)),
    {
        proof {
            lemma_vpn_bits(vaddr);
        }
        let i2 = ((vaddr >> 30) & 0x1ff) as usize;
        let i1 = ((vaddr >> 21) & 0x1ff) as usize;
        let i0 = ((vaddr >> 12) & 0x1ff) as usize;
        let mut mid = match self.children[i2].take() {
            Some(t) => t,
            None => unreached(),
        };
        let mut leaf = match mid.children[i1].take() {
            Some(t) => t,
            None => unreached(),
        };
        leaf.slots[i0] = PageTableEntry::zero();
        mid.children[i1] = Some(leaf);
        self.children[i2] = Some(mid);
        proof {
            let w = vpn(vaddr);
            assert(i2 as int == vpn2(w) as int);
            assert(i1 as int == vpn1(w) as int);
            assert(i0 as int == vpn0(w) as int);
            assert(self.children@[vpn2(w) as int] is Some);
            assert forall|v: u64| v < 0x800_0000 && v != w implies #[trigger] self.entry_of(v)
                == old(self).entry_of(v) by {
                lemma_vpn_index_bounds(v);
                lemma_vpn_index_bounds(w);
                if vpn2(v) != vpn2(w) {
                    assert(self.children@[vpn2(v) as int] == old(self).children@[vpn2(v) as int]);
                } else {
                    if vpn1(v) == vpn1(w) && vpn0(v) == vpn0(w) {
                        lemma_vpn_unique(v, w);
                    }
                    if vpn1(v) != vpn1(w) {
                        if old(self).children@[vpn2(w) as int] is Some {
                            assert((self.children@[vpn2(w) as int]->0).children@[vpn1(v) as int]
                                == (old(self).children@[vpn2(w) as int]->0).children@[vpn1(
                                v,
                            ) as int]);
                        } else {
                            assert((self.children@[vpn2(w) as int]->0).children@[vpn1(
                                v,
                            ) as int] is None);
                        }
                    } else {
                        assert(vpn0(v) != vpn0(w));
                        if old(self).children@[vpn2(w) as int] is Some && (old(
                            self,
                        ).children@[vpn2(w) as int]->0).children@[vpn1(w) as int] is Some {
                            assert(((self.children@[vpn2(w) as int]->0).children@[vpn1(
                                w,
                            ) as int]->0).slots@[vpn0(v) as int] == ((old(self).children@[vpn2(
                                w,
                            ) as int]->0).children@[vpn1(w) as int]->0).slots@[vpn0(
                                v,
                            ) as int]);
                        } else {
                            assert(((self.children@[vpn2(w) as int]->0).children@[vpn1(
                                w,
                            ) as int]->0).slots@[vpn0(v) as int]
                                == PageTableEntry::spec_zero());
                        }
                    }
                }
            }
            assert(self.entry_of(w) is None);
            assert(self.mapping() =~= old(self).mapping().remove(w));
        }
    }

    /// Write a refined entry back into the slot of its page.
    pub fn store_entry(&mut self, e: &PageEntry)
        requires
            old(self).wf(),
            old(self).mapping().contains_key(vpn(e.page)),
        ensures
            final(self).wf(),
            final(self).spec_token() == old(self).spec_token(),
            final(self).spec_root() == old(self).spec_root(),
            e.entry.valid ==> final(self).mapping() == old(self).mapping().insert(
                vpn(e.page),
                e.entry,
            ),
            !e.entry.valid ==> final(self).mapping() == old(self).mapping().remove(vpn(e.page)),
    {
        proof {
            lemma_vpn_bits(e.page);
        }
        let i2 = ((e.page >> 30) & 0x1ff) as usize;
        let i1 = ((e.page >> 21) & 0x1ff) as usize;
        let i0 = ((e.page >> 12) & 0x1ff) as usize;
        let mut mid = match self.children[i2].take() {
            Some(t) => t,
            None => unreached(),
        };
        let mut leaf = match mid.children[i1].take() {
            Some(t) => t,
            None => unreached(),
        };
        leaf.slots[i0] = e.entry;
        mid.children[i1] = Some(leaf);
        self.children[i2] = Some(mid);
        proof {
            let w = vpn(e.page);
            assert forall|v: u64| v < 0x800_0000 && v != w implies #[trigger] self.entry_of(v)
                == old(self).entry_of(v) by {
                lemma_vpn_index_bounds(v);
                lemma_vpn_index_bounds(w);
                if vpn2(v) != vpn2(w) {
                    assert(self.children@[vpn2(v) as int] == old(self).children@[vpn2(v) as int]);
                } else {
                    if vpn1(v) == vpn1(w) && vpn0(v) == vpn0(w) {
                        lemma_vpn_unique(v, w);
                    }
                    if vpn1(v) != vpn1(w) {
                        if old(self).children@[vpn2(w) as int] is Some {
                            assert((self.children@[vpn2(w) as int]->0).children@[vpn1(v) as int]
                                == (old(self).children@[vpn2(w) as int]->0).children@[vpn1(
                                v,
                            ) as int]);
                        } else {
                            assert((self.children@[vpn2(w) as int]->0).children@[vpn1(
                                v,
                            ) as int] is None);
                        }
                    } else {
                        assert(vpn0(v) != vpn0(w));
                        if old(self).children@[vpn2(w) as int] is Some && (old(
                            self,
                        ).children@[vpn2(w) as int]->0).children@[vpn1(w) as int] is Some {
                            assert(((self.children@[vpn2(w) as int]->0).children@[vpn1(
                                w,
                            ) as int]->0).slots@[vpn0(v) as int] == ((old(self).children@[vpn2(
                                w,
                            ) as int]->0).children@[vpn1(w) as int]->0).slots@[vpn0(
                                v,
                            ) as int]);
                        } else {
                            assert(((self.children@[vpn2(w) as int]->0).children@[vpn1(
                                w,
                            ) as int]->0).slots@[vpn0(v) as int]
                                == PageTableEntry::spec_zero());
                        }
                    }
                }
            }
            if e.entry.valid {
                assert(self.entry_of(w) == Some(e.entry));
                assert(self.mapping() =~= old(self).mapping().insert(w, e.entry));
            } else {
                assert(self.entry_of(w) is None);
                assert(self.mapping() =~= old(self).mapping().remove(w));
            }
        }
    }

    /// The leaf entry of virtual page `vaddr`, as a transient view, or
    /// nothing when the page is unmapped.
    pub fn get_entry(&self, vaddr: u64) -> (r: Option<PageEntry>)
        requires
            self.wf(),
        ensures
            r is Some <==> self.mapping().contains_key(vpn(vaddr)),
            r matches Some(e) ==> e.entry == self.mapping()[vpn(vaddr)] && e.page == vaddr >> 12
                << 12,
    {
        proof {
            lemma_vpn_bits(vaddr);
        }
        let i2 = ((vaddr >> 30) & 0x1ff) as usize;
        let i1 = ((vaddr >> 21) & 0x1ff) as usize;
        let i0 = ((vaddr >> 12) & 0x1ff) as usize;
        match &self.children[i2] {
            Some(mid) => match &mid.children[i1] {
                Some(leaf) => {
                    let pte = leaf.slots[i0];
                    if pte.valid {
                        Some(PageEntry { entry: pte, page: vaddr >> 12 << 12 })
                    } else {
                        None
                    }
                },
                None => None,
            },
            None => None,
        }
    }

    /// The register token that selects this table.
    pub fn token(&self) -> (r: u64)
        ensures
            r == self.spec_token(),
    {
        self.root_frame | 0x8000_0000_0000_0000
    }

    /// Install this table as the active one, unless it already is, and
    /// invalidate the cached translations.
    pub fn activate(&self, m: &mut Machine)
        ensures
            final(m).satp == self.spec_token(),
            *final(m) == (Machine { satp: self.spec_token(), ..*old(m) }),
    {
        let token = self.token();
        if token != m.satp {
            m.satp = token;
        }
    }
}

} // verus!
