//! The earlier generation of the mapping policies, kept with its own
//! names: how one virtual page of a memory area gets its physical backing.

use vstd::prelude::*;
use crate::memory::manager::handler::{self, Handler};

verus! {

/// Linear policy: map a page to the physical address `vaddr - offset`.
#[derive(Clone, Copy, PartialEq, Eq, Structural)]
pub struct Linear {
    offset: u64,
}

impl Linear {
    /// The fixed virtual-to-physical offset.
    pub closed spec fn spec_offset(self) -> u64 {
        self.offset
    }

    /// The linear policy with the given offset.
    pub closed spec fn stub(offset: u64) -> Linear {
        Linear { offset }
    }

    pub fn new(offset: u64) -> (r: Linear)
        ensures
            r == Linear::stub(offset),
            r.spec_offset() == offset,
    {
        Linear { offset }
    }
}

/// What the offset of a stub linear policy is.
pub broadcast proof fn lemma_early_linear_stub(offset: u64)
    ensures
        (#[trigger] Linear::stub(offset)).spec_offset() == offset,
{
}

/// By-frame policy: allocate one fresh physical frame per page.
#[derive(Clone, Copy, PartialEq, Eq, Structural)]
pub struct ByFrame;

impl ByFrame {
    pub fn new() -> (r: ByFrame) {
        ByFrame
    }
}

/// The closed set of policies a memory area can use.
#[derive(Clone, Copy, PartialEq, Eq, Structural)]
pub enum MemoryHandler {
    Linear(Linear),
    ByFrame(ByFrame),
}

impl MemoryHandler {
    /// The same policy in the area manager's representation, which carries
    /// the mapping contracts.
    pub open spec fn spec_to_handler(self) -> Handler {
        match self {
            MemoryHandler::Linear(l) => Handler::Linear(handler::Linear::stub(l.spec_offset())),
            MemoryHandler::ByFrame(_) => Handler::ByFrame(handler::ByFrame),
        }
    }

    /// Convert this policy to the area manager's representation.
    pub fn to_handler(&self) -> (r: Handler)
        ensures
            r == self.spec_to_handler(),
    {
        match self {
            MemoryHandler::Linear(l) => Handler::Linear(handler::Linear::new(l.offset)),
            MemoryHandler::ByFrame(_) => Handler::ByFrame(handler::ByFrame::new()),
        }
    }
}

} // verus!
