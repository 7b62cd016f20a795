//! Early paging helper: a page iterator over a virtual address range.

use vstd::prelude::*;
use crate::consts::PAGE_SIZE;
use crate::memory::manager::paging::range::page_index;

verus! {

/// The ascending sequence of page start addresses covering the virtual
/// address range `[start, end)`: one address for each page index in
/// `[floor(start / PAGE_SIZE), ceil(end / PAGE_SIZE))`.
#[derive(Clone, Copy, PartialEq, Eq, Structural)]
pub struct PageRange {
    // Both bounds are page indices, not addresses.
    start: u64,
    end: u64,
}

impl PageRange {
    /// Page index of the next address to yield.
    pub closed spec fn start_index(self) -> u64 {
        self.start
    }

    /// Page index one past the last address to yield.
    pub closed spec fn end_index(self) -> u64 {
        self.end
    }

    /// Page indices stay small enough that every yielded address fits in a
    /// machine word.
    pub open spec fn wf(self) -> bool {
        &&& self.start_index() <= self.end_index()
        &&& self.end_index() <= page_index(u64::MAX as int) + 1
    }

    /// The page-aligned addresses still to be yielded, in ascending order.
    pub open spec fn pages(self) -> Seq<u64> {
        Seq::new(
            (self.end_index() - self.start_index()) as nat,
            |i: int| ((self.start_index() + i) * PAGE_SIZE) as u64,
        )
    }

    /// The page iterator for the addresses `[start, end)`.
    pub fn new(start: u64, end: u64) -> (r: PageRange)
        requires
            start < end,
        ensures
            r.wf(),
            r.start_index() == page_index(start as int),
            r.end_index() == page_index(end - 1) + 1,
            r.pages().len() == page_index(end - 1) + 1 - page_index(start as int),
    {
        proof {
            assert(page_index(end - 1) <= page_index(u64::MAX as int)) by (nonlinear_arith)
                requires end <= u64::MAX && PAGE_SIZE == 4096;
            assert(page_index(start as int) <= page_index(end - 1)) by (nonlinear_arith)
                requires 0 < end <= u64::MAX && start < end && PAGE_SIZE == 4096;
            assert(page_index(start as int) == start / PAGE_SIZE);
            assert(page_index(end - 1) == ((end - 1) as u64) / PAGE_SIZE);
        }
        PageRange { start: start / PAGE_SIZE, end: (end - 1) / PAGE_SIZE + 1 }
    }

    /// Yield the next page address, ascending, or report that the range is
    /// exhausted.
    pub fn next(&mut self) -> (r: Option<u64>)
        requires
            old(self).wf(),
        ensures
            final(self).wf(),
            old(self).pages().len() > 0 ==> {
                &&& r == Some(old(self).pages()[0])
                &&& final(self).pages() == old(self).pages().skip(1)
                &&& final(self).end_index() == old(self).end_index()
            },
            old(self).pages().len() == 0 ==> r is None && *final(self) == *old(self),
    {
        if self.start < self.end {
            proof {
                assert(self.start * PAGE_SIZE <= page_index(u64::MAX as int) * PAGE_SIZE
                    <= u64::MAX) by (nonlinear_arith)
                    requires self.start <= page_index(u64::MAX as int) && PAGE_SIZE == 4096;
            }
            let page = self.start * PAGE_SIZE;
            self.start += 1;
            proof {
                assert(final(self).pages() =~= old(self).pages().skip(1));
            }
            Some(page)
        } else {
            None
        }
    }
}

} // verus!
