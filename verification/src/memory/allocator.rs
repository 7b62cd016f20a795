//! General-purpose bitmap allocator over a contiguous index range.

use vstd::prelude::*;
use crate::consts::MAX_PHYSICAL_PAGES;

verus! {

/// Allocator over the index range `[offset, offset + size)`, handing out the
/// lowest free index first.
pub struct LinearAllocator {
    flags: Vec<bool>,
    offset: u64,
    size: usize,
}

impl LinearAllocator {
    /// The bitmap covers the configured range and indices stay representable.
    pub closed spec fn wf(self) -> bool {
        &&& self.flags.len() == MAX_PHYSICAL_PAGES
        &&& self.size <= MAX_PHYSICAL_PAGES
        &&& self.offset + self.size <= u64::MAX
    }

    /// Index `index` lies in the manageable range.
    pub closed spec fn in_range(self, index: u64) -> bool {
        self.offset <= index < self.offset + self.size
    }

    /// Index `index` is currently handed out.
    pub closed spec fn live(self, index: u64) -> bool {
        self.in_range(index) && self.flags[index - self.offset]
    }

    /// Some index of the range is still free.
    pub closed spec fn can_alloc(self) -> bool {
        exists|i: int| 0 <= i < self.size && !self.flags[i]
    }

    /// No index at all is handed out, whatever range is configured.
    pub closed spec fn all_free(self) -> bool {
        forall|i: int| 0 <= i < self.flags.len() ==> !self.flags[i]
    }

    /// First index of the range.
    pub closed spec fn spec_offset(self) -> u64 {
        self.offset
    }

    /// Number of indices in the range.
    pub closed spec fn spec_size(self) -> usize {
        self.size
    }

    /// A fresh allocator; it manages nothing until `initialize` sets its
    /// range.
    pub fn new() -> (r: LinearAllocator)
        ensures
            r.wf(),
            r.spec_offset() == 0,
            r.spec_size() == 0,
            r.all_free(),
            forall|i: u64| !r.live(i),
    {
        LinearAllocator { flags: vec![false; MAX_PHYSICAL_PAGES], offset: 0, size: 0 }
    }

    /// Set the manageable index range to `[l, r)`. Called once, on a fresh
    /// allocator.
    pub fn initialize(&mut self, l: u64, r: u64)
        requires
            old(self).wf(),
            old(self).all_free(),
            l <= r,
            r - l <= MAX_PHYSICAL_PAGES,
        ensures
            final(self).wf(),
            final(self).spec_offset() == l,
            final(self).spec_size() == r - l,
            final(self).all_free(),
            forall|i: u64| !final(self).live(i),
    {
        self.offset = l;
        self.size = (r - l) as usize;
    }

    /// Hand out the lowest free index of the range and mark it used.
    /// Exhaustion is a fatal condition and is excluded by precondition.
    pub fn allocate(&mut self) -> (r: u64)
        requires
            old(self).wf(),
            old(self).can_alloc(),
        ensures
            final(self).wf(),
            final(self).spec_offset() == old(self).spec_offset(),
            final(self).spec_size() == old(self).spec_size(),
            old(self).in_range(r),
            !old(self).live(r),
            forall|i: u64| old(self).spec_offset() <= i < r ==> old(self).live(i),
            final(self).live(r),
            forall|i: u64| i != r ==> final(self).live(i) == old(self).live(i),
    {
        let mut index: usize = 0;
        while index < self.size
            invariant
                *self == *old(self),
                self.wf(),
                self.can_alloc(),
                index <= self.size,
                forall|j: int| 0 <= j < index ==> self.flags[j],
            decreases self.size - index,
        {
            if !self.flags[index] {
                let result = self.offset + index as u64;
                self.flags[index] = true;
                proof {
                    assert(self.flags@ == old(self).flags@.update(index as int, true));
                    assert(result - old(self).offset == index as int);
                }
                return result;
            }
            index += 1;
        }
        proof {
            let i = choose|i: int| 0 <= i < self.size && !self.flags[i];
            assert(self.flags[i]);
        }
        unreached()
    }

    /// Release index `index`. Releasing an index outside the range or one
    /// that is already free is a programming error, excluded by
    /// precondition.
    pub fn dealloc(&mut self, index: u64)
        requires
            old(self).wf(),
            old(self).live(index),
        ensures
            final(self).wf(),
            final(self).spec_offset() == old(self).spec_offset(),
            final(self).spec_size() == old(self).spec_size(),
            !final(self).live(index),
            forall|i: u64| i != index ==> final(self).live(i) == old(self).live(i),
    {
        let rel = (index - self.offset) as usize;
        self.flags[rel] = false;
    }
}

} // verus!
