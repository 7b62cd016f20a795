//! Bitmap-based allocator for physical page frames.

use vstd::prelude::*;
use crate::consts::MAX_PHYSICAL_PAGES;

verus! {

/// Allocator over the fixed physical page range `[offset, offset + size)`.
///
/// Each flag records whether the frame at the corresponding relative index
/// is currently handed out. Allocation is deterministic: the lowest free
/// index is always chosen, so allocation order is reproducible.
pub struct LinearFrameAllocator {
    pub flags: Vec<bool>,
    pub offset: u64,
    pub size: usize,
}

impl LinearFrameAllocator {
    /// The bitmap covers the configured range and frame numbers stay
    /// representable.
    pub open spec fn wf(self) -> bool {
        &&& self.flags.len() == MAX_PHYSICAL_PAGES
        &&& self.size <= MAX_PHYSICAL_PAGES
        &&& self.offset + self.size <= u64::MAX
    }

    /// Frame number `frame` lies in the manageable range.
    pub open spec fn in_range(self, frame: u64) -> bool {
        self.offset <= frame < self.offset + self.size
    }

    /// Frame number `frame` is currently handed out (allocated and not yet
    /// deallocated).
    pub open spec fn live(self, frame: u64) -> bool {
        self.in_range(frame) && self.flags[frame - self.offset]
    }

    /// Some frame of the range is still free.
    pub open spec fn can_alloc(self) -> bool {
        exists|i: int| 0 <= i < self.size && !self.flags[i]
    }

    /// Frame `f` is the one `alloc` hands out next: the lowest free frame.
    pub open spec fn is_lowest_free(self, f: u64) -> bool {
        &&& self.in_range(f)
        &&& !self.live(f)
        &&& forall|g: u64| self.offset <= g < f ==> self.live(g)
    }

    /// Number of frames still free, counting the relative indices below `n`.
    pub closed spec fn free_below(self, n: int) -> int
        decreases n,
    {
        if n <= 0 {
            0
        } else {
            self.free_below(n - 1) + if self.flags[n - 1] { 0int } else { 1int }
        }
    }

    /// Number of frames of the range that are still free.
    pub open spec fn free_count(self) -> int {
        self.free_below(self.size as int)
    }

    /// A fresh allocator; it manages nothing until `initialize` sets its
    /// range.
    pub fn new() -> (r: LinearFrameAllocator)
        ensures
            r.wf(),
            r.offset == 0,
            r.size == 0,
            forall|f: u64| !r.live(f),
            forall|i: int| 0 <= i < MAX_PHYSICAL_PAGES ==> !r.flags[i],
    {
        LinearFrameAllocator { flags: vec![false; MAX_PHYSICAL_PAGES], offset: 0, size: 0 }
    }

    /// Set the manageable frame range to `[l, r)`. Called once at boot.
    pub fn initialize(&mut self, l: u64, r: u64)
        requires
            old(self).wf(),
            l <= r,
            r - l <= MAX_PHYSICAL_PAGES,
        ensures
            final(self).wf(),
            final(self).offset == l,
            final(self).size == r - l,
            final(self).flags == old(self).flags,
    {
        self.offset = l;
        self.size = (r - l) as usize;
    }

    /// Hand out the lowest-numbered free frame of the range and mark it used.
    ///
    /// The result is exclusive: it was not live before the call, and it is
    /// the lowest such frame, so a just-freed frame is returned again only
    /// when no lower-numbered frame is free. Exhaustion (no free frame) is a
    /// fatal out-of-memory condition and is excluded by precondition.
    pub fn allocate(&mut self) -> (r: u64)
        requires
            old(self).wf(),
            old(self).can_alloc(),
        ensures
            final(self).wf(),
            final(self).offset == old(self).offset,
            final(self).size == old(self).size,
            old(self).in_range(r),
            !old(self).live(r),
            forall|f: u64| old(self).offset <= f < r ==> old(self).live(f),
            final(self).flags@ == old(self).flags@.update(r - old(self).offset, true),
            final(self).live(r),
            final(self).free_count() == old(self).free_count() - 1,
            forall|f: u64| old(self).live(f) ==> final(self).live(f),
            forall|f: u64| f != r ==> final(self).live(f) == old(self).live(f),
    {
        let mut index: usize = 0;
        while index < self.size
            invariant
                *self == *old(self),
                self.wf(),
                self.can_alloc(),
                index <= self.size,
                forall|j: int| 0 <= j < index ==> self.flags[j],
            decreases self.size - index,
        {
            if !self.flags[index] {
                let frame = self.offset + index as u64;
                self.flags[index] = true;
                proof {
                    assert(self.flags@ == old(self).flags@.update(index as int, true));
                    assert(frame - old(self).offset == index as int);
                    lemma_free_count_alloc(*old(self), *self, index as int);
                }
                return frame;
            }
            index += 1;
        }
        proof {
            let i = choose|i: int| 0 <= i < self.size && !self.flags[i];
            assert(self.flags[i]);
        }
        unreached()
    }

    /// Release frame number `index`. Releasing a frame outside the range or
    /// one that is already free is a double-free programming error and is
    /// excluded by precondition.
    pub fn dealloc(&mut self, index: u64)
        requires
            old(self).wf(),
            old(self).live(index),
        ensures
            final(self).wf(),
            final(self).offset == old(self).offset,
            final(self).size == old(self).size,
            final(self).flags@ == old(self).flags@.update(index - old(self).offset, false),
            !final(self).live(index),
            forall|f: u64| f != index ==> final(self).live(f) == old(self).live(f),
            final(self).free_count() == old(self).free_count() + 1,
    {
        let rel = (index - self.offset) as usize;
        self.flags[rel] = false;
        proof {
            assert(self.flags@ == old(self).flags@.update(rel as int, false));
            lemma_free_count_dealloc(*old(self), *self, rel as int);
        }
    }

    /// Whether at least `n` frames are still free.
    pub fn enough_free(&self, n: usize) -> (b: bool)
        requires
            self.wf(),
        ensures
            b == (self.free_count() >= n),
    {
        let mut count: usize = 0;
        let mut index: usize = 0;
        while index < self.size
            invariant
                self.wf(),
                index <= self.size,
                count == self.free_below(index as int),
                count <= index,
            decreases self.size - index,
        {
            if !self.flags[index] {
                count += 1;
            }
            index += 1;
        }
        count >= n
    }

    /// Whether at least `n` frames are still free, for any word-sized `n`.
    pub fn enough_free_u64(&self, n: u64) -> (b: bool)
        requires
            self.wf(),
        ensures
            b == (self.free_count() >= n),
    {
        let mut count: usize = 0;
        let mut index: usize = 0;
        while index < self.size
            invariant
                self.wf(),
                index <= self.size,
                count == self.free_below(index as int),
                count <= index,
            decreases self.size - index,
        {
            if !self.flags[index] {
                count += 1;
            }
            index += 1;
        }
        count as u64 >= n
    }

    /// Whether a further `alloc` can succeed.
    pub fn has_free(&self) -> (b: bool)
        requires
            self.wf(),
        ensures
            b == self.can_alloc(),
    {
        let mut index: usize = 0;
        while index < self.size
            invariant
                self.wf(),
                index <= self.size,
                forall|j: int| 0 <= j < index ==> self.flags[j],
            decreases self.size - index,
        {
            if !self.flags[index] {
                return true;
            }
            index += 1;
        }
        false
    }
}

/// How the count of free frames changes when one flag flips.
proof fn lemma_free_below_update(a: LinearFrameAllocator, b: LinearFrameAllocator, idx: int, v: bool, n: int)
    requires
        b.size == a.size,
        b.flags@ == a.flags@.update(idx, v),
        0 <= idx < a.flags.len(),
        a.flags[idx] != v,
        n <= a.flags.len(),
    ensures
        b.free_below(n) == a.free_below(n) + (if idx < n {
            if v {
                -1int
            } else {
                1int
            }
        } else {
            0int
        }),
    decreases n,
{
    if n > 0 {
        lemma_free_below_update(a, b, idx, v, n - 1);
    }
}

/// Allocating the free frame at relative index `idx` lowers the free count
/// by one.
pub proof fn lemma_free_count_alloc(a: LinearFrameAllocator, b: LinearFrameAllocator, idx: int)
    requires
        a.wf(),
        b.wf(),
        b.size == a.size,
        b.flags@ == a.flags@.update(idx, true),
        0 <= idx < a.size,
        !a.flags[idx],
    ensures
        b.free_count() == a.free_count() - 1,
{
    lemma_free_below_update(a, b, idx, true, a.size as int);
}

/// Releasing the used frame at relative index `idx` raises the free count
/// by one.
pub proof fn lemma_free_count_dealloc(a: LinearFrameAllocator, b: LinearFrameAllocator, idx: int)
    requires
        a.wf(),
        b.wf(),
        b.size == a.size,
        b.flags@ == a.flags@.update(idx, false),
        0 <= idx < a.size,
        a.flags[idx],
    ensures
        b.free_count() == a.free_count() + 1,
{
    lemma_free_below_update(a, b, idx, false, a.size as int);
}

/// Free frames below `n` exist exactly when the count is positive, and the
/// count never goes negative.
proof fn lemma_free_below_pos(a: LinearFrameAllocator, n: int)
    requires
        n <= a.size,
    ensures
        0 <= a.free_below(n),
        a.free_below(n) > 0 <==> exists|i: int| 0 <= i < n && !a.flags[i],
    decreases n,
{
    if n > 0 {
        lemma_free_below_pos(a, n - 1);
        if a.free_below(n) > 0 && a.free_below(n - 1) == 0 {
            assert(!a.flags[n - 1]);
        }
        if exists|i: int| 0 <= i < n && !a.flags[i] {
            let i = choose|i: int| 0 <= i < n && !a.flags[i];
            if i < n - 1 {
                assert(exists|j: int| 0 <= j < n - 1 && !a.flags[j]);
            }
        }
    }
}

/// The count of free frames never exceeds the range's size.
pub proof fn lemma_free_count_le_size(a: LinearFrameAllocator)
    ensures
        a.free_count() <= a.size,
{
    lemma_free_below_le(a, a.size as int);
}

/// Counting free frames below `n` never exceeds `n`.
proof fn lemma_free_below_le(a: LinearFrameAllocator, n: int)
    ensures
        a.free_below(n) <= (if n >= 0 {
            n
        } else {
            0int
        }),
    decreases (if n >= 0 {
        n
    } else {
        0int
    }),
{
    if n > 0 {
        lemma_free_below_le(a, n - 1);
    }
}

/// A frame can be allocated exactly when the free count is positive.
pub proof fn lemma_free_count_can_alloc(a: LinearFrameAllocator)
    requires
        a.wf(),
    ensures
        a.free_count() >= 0,
        a.can_alloc() <==> a.free_count() > 0,
{
    lemma_free_below_pos(a, a.size as int);
}

/// A freshly configured allocator has its whole range free.
pub proof fn lemma_all_free_count(a: LinearFrameAllocator)
    requires
        a.wf(),
        forall|i: int| 0 <= i < MAX_PHYSICAL_PAGES ==> !a.flags[i],
    ensures
        a.free_count() == a.size,
{
    lemma_free_below_all(a, a.size as int);
}

/// Counting free frames below `n` when every flag is clear.
proof fn lemma_free_below_all(a: LinearFrameAllocator, n: int)
    requires
        a.wf(),
        n <= a.size,
        forall|i: int| 0 <= i < MAX_PHYSICAL_PAGES ==> !a.flags[i],
    ensures
        a.free_below(n) == (if n >= 0 {
            n
        } else {
            0int
        }),
    decreases (if n >= 0 {
        n
    } else {
        0int
    }),
{
    if n > 0 {
        lemma_free_below_all(a, n - 1);
    }
}

/// Exclusivity of allocation: the frame that `alloc` returns (the lowest
/// free frame) differs from every frame that is currently live, so no two
/// concurrently-live allocation results are ever equal.
pub proof fn lemma_alloc_exclusive(a: LinearFrameAllocator, r: u64, f: u64)
    requires
        a.wf(),
        a.in_range(r),
        !a.live(r),
        a.live(f),
    ensures
        r != f,
{
}

/// Exhaustion: once every frame of the range is live, no free frame is left
/// and a further allocation must fail.
pub proof fn lemma_exhaustion(a: LinearFrameAllocator)
    requires
        a.wf(),
        forall|f: u64| a.in_range(f) ==> a.live(f),
    ensures
        !a.can_alloc(),
{
    assert forall|i: int| 0 <= i < a.size implies a.flags[i] by {
        assert(a.live((a.offset + i) as u64));
    }
}

} // verus!
