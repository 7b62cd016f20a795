//! Core of a small protected-mode kernel for a single-core RISC-V-class
//! processor, written as a verified, executable model.
//!
//! Hardware effects (control registers, the firmware console, physical
//! memory) are represented by explicit state values, so that the kernel
//! logic — frame allocation, page-table construction, virtual-memory areas,
//! scheduling, the thread pool, the processor state machine and trap
//! dispatch — can be stated and proved over them.

use vstd::prelude::*;

pub mod consts;
pub mod interrupt;
pub mod fs;
pub mod io;
pub mod machine;
pub mod memory;
pub mod process;
pub mod sbi;
pub mod sync;
pub mod syscall;
pub mod timer;
pub mod trap;
pub mod usr;

verus! {

} // verus!
