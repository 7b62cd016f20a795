//! A lazy, finite sequence of page-aligned virtual addresses.

use vstd::prelude::*;
use crate::consts::PAGE_SIZE;

verus! {

/// Index of the page that holds address `a`.
pub open spec fn page_index(a: int) -> int {
    a / (PAGE_SIZE as int)
}

/// The ascending sequence of page start addresses covering the virtual
/// address range `[start, end)`: one address for each page index in
/// `[floor(start / PAGE_SIZE), ceil(end / PAGE_SIZE))`.
#[derive(Clone, Copy, PartialEq, Eq, Structural)]
pub struct VirtualPageRange {
    // Both bounds are page indices, not addresses.
    start: u64,
    end: u64,
}

impl VirtualPageRange {
    /// Page index of the next address to yield.
    pub closed spec fn start_index(self) -> u64 {
        self.start
    }

    /// Page index one past the last address to yield.
    pub closed spec fn end_index(self) -> u64 {
        self.end
    }

    /// Page indices stay small enough that every yielded address fits in a
    /// machine word.
    pub open spec fn wf(self) -> bool {
        &&& self.start_index() <= self.end_index()
        &&& self.end_index() <= page_index(u64::MAX as int) + 1
    }

    /// The page-aligned addresses still to be yielded, in ascending order.
    pub open spec fn pages(self) -> Seq<u64> {
        Seq::new(
            (self.end_index() - self.start_index()) as nat,
            |i: int| ((self.start_index() + i) * PAGE_SIZE) as u64,
        )
    }

    /// The range of pages covering the addresses `[start, end)`.
    pub fn new(start: u64, end: u64) -> (r: VirtualPageRange)
        requires
            start < end,
        ensures
            r.wf(),
            r.start_index() == page_index(start as int),
            r.end_index() == page_index(end - 1) + 1,
            r.pages().len() == page_index(end - 1) + 1 - page_index(start as int),
    {
        proof {
            assert(page_index(end - 1) <= page_index(u64::MAX as int)) by (nonlinear_arith)
                requires end <= u64::MAX && PAGE_SIZE == 4096;
            assert(page_index(start as int) <= page_index(end - 1)) by (nonlinear_arith)
                requires 0 < end <= u64::MAX && start < end && PAGE_SIZE == 4096;
            assert(page_index(start as int) == start / PAGE_SIZE);
            assert(page_index(end - 1) == ((end - 1) as u64) / PAGE_SIZE);
        }
        VirtualPageRange { start: start / PAGE_SIZE, end: (end - 1) / PAGE_SIZE + 1 }
    }

    /// Yield the next page address, ascending, or report that the range is
    /// exhausted.
    pub fn next(&mut self) -> (r: Option<u64>)
        requires
            old(self).wf(),
        ensures
            final(self).wf(),
            old(self).pages().len() > 0 ==> {
                &&& r == Some(old(self).pages()[0])
                &&& final(self).pages() == old(self).pages().skip(1)
                &&& final(self).end_index() == old(self).end_index()
            },
            old(self).pages().len() == 0 ==> r is None && *final(self) == *old(self),
    {
        if self.start < self.end {
            proof {
                assert(self.start * PAGE_SIZE <= page_index(u64::MAX as int) * PAGE_SIZE
                    <= u64::MAX) by (nonlinear_arith)
                    requires self.start <= page_index(u64::MAX as int) && PAGE_SIZE == 4096;
            }
            let page = self.start * PAGE_SIZE;
            self.start += 1;
            proof {
                assert(final(self).pages() =~= old(self).pages().skip(1));
            }
            Some(page)
        } else {
            None
        }
    }
}

/// Coverage of a page range: `VirtualPageRange::new(start, end)` yields
/// exactly `ceil(end / PAGE_SIZE) - floor(start / PAGE_SIZE)` addresses,
/// each page-aligned, in strictly ascending order (so each exactly once),
/// and they are exactly the consecutive pages from the one holding `start`.
pub proof fn lemma_page_range_coverage(r: VirtualPageRange, start: u64, end: u64)
    requires
        start < end,
        r.wf(),
        r.start_index() == page_index(start as int),
        r.end_index() == page_index(end - 1) + 1,
    ensures
        r.pages().len() == page_index(end - 1) + 1 - page_index(start as int),
        forall|i: int|
            0 <= i < r.pages().len() ==> r.pages()[i] == (page_index(start as int) + i) * PAGE_SIZE,
        forall|i: int| 0 <= i < r.pages().len() ==> r.pages()[i] % PAGE_SIZE == 0,
        forall|i: int, j: int|
            0 <= i < j < r.pages().len() ==> r.pages()[i] < r.pages()[j],
{
    assert forall|i: int| 0 <= i < r.pages().len() implies r.pages()[i] % PAGE_SIZE == 0 by {
        let p = r.start_index() + i;
        assert(p * PAGE_SIZE <= page_index(u64::MAX as int) * PAGE_SIZE <= u64::MAX)
            by (nonlinear_arith)
            requires 0 <= p <= page_index(u64::MAX as int) && PAGE_SIZE == 4096;
        assert((p * (PAGE_SIZE as int)) % (PAGE_SIZE as int) == 0) by (nonlinear_arith)
            requires p >= 0 && PAGE_SIZE == 4096;
        assert(r.pages()[i] == p * PAGE_SIZE);
    }
    assert forall|i: int, j: int|
        0 <= i < j < r.pages().len() implies r.pages()[i] < r.pages()[j] by {
        let p = r.start_index() + i;
        let q = r.start_index() + j;
        assert(p * PAGE_SIZE < q * PAGE_SIZE <= page_index(u64::MAX as int) * PAGE_SIZE
            <= u64::MAX) by (nonlinear_arith)
            requires 0 <= p < q <= page_index(u64::MAX as int) && PAGE_SIZE == 4096;
        assert(r.pages()[i] == p * PAGE_SIZE && r.pages()[j] == q * PAGE_SIZE);
    }
}

} // verus!
