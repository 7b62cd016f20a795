//! The paging primitives: page-table entries, page ranges and the
//! three-level page table itself.

pub mod entry;
pub mod range;
pub mod table;
