//! Page-table entries and the transient view onto one table slot.

use vstd::prelude::*;
use crate::memory::manager::paging::table::{vpn, PageTable};

verus! {

/// One leaf entry of the page table: the permission bits and the physical
/// page number the virtual page maps to.
#[derive(Clone, Copy, PartialEq, Eq, Structural)]
pub struct PageTableEntry {
    pub valid: bool,
    pub readable: bool,
    pub writable: bool,
    pub executable: bool,
    pub user: bool,
    pub accessed: bool,
    pub dirty: bool,
    pub ppn: u64,
}

impl PageTableEntry {
    /// The empty entry: every bit clear, mapping nothing.
    pub open spec fn spec_zero() -> PageTableEntry {
        PageTableEntry {
            valid: false,
            readable: false,
            writable: false,
            executable: false,
            user: false,
            accessed: false,
            dirty: false,
            ppn: 0,
        }
    }

    /// The empty entry: every bit clear, mapping nothing.
    pub fn zero() -> (r: PageTableEntry)
        ensures
            r == PageTableEntry::spec_zero(),
    {
        PageTableEntry {
            valid: false,
            readable: false,
            writable: false,
            executable: false,
            user: false,
            accessed: false,
            dirty: false,
            ppn: 0,
        }
    }
}

/// A transient view onto the page-table slot of one virtual page: a copy of
/// the entry plus the page's start address. Refine the copy through the
/// accessors, then write it back with `update`.
pub struct PageEntry {
    pub entry: PageTableEntry,
    pub page: u64,
}

impl PageEntry {
    /// Write the refined entry back into its slot and invalidate that
    /// page's cached translation.
    pub fn update(&self, page_table: &mut PageTable)
        requires
            old(page_table).wf(),
            old(page_table).mapping().contains_key(vpn(self.page)),
        ensures
            final(page_table).wf(),
            final(page_table).spec_token() == old(page_table).spec_token(),
            final(page_table).spec_root() == old(page_table).spec_root(),
            self.entry.valid ==> final(page_table).mapping() == old(
                page_table,
            ).mapping().insert(vpn(self.page), self.entry),
            !self.entry.valid ==> final(page_table).mapping() == old(
                page_table,
            ).mapping().remove(vpn(self.page)),
    {
        page_table.store_entry(self);
    }

    pub fn accessed(&self) -> (r: bool)
        ensures
            r == self.entry.accessed,
    {
        self.entry.accessed
    }

    pub fn clear_accessed(&mut self)
        ensures
            *final(self) == (PageEntry {
                entry: PageTableEntry { accessed: false, ..old(self).entry },
                ..*old(self)
            }),
    {
        self.entry.accessed = false;
    }

    pub fn dirty(&self) -> (r: bool)
        ensures
            r == self.entry.dirty,
    {
        self.entry.dirty
    }

    pub fn clear_dirty(&mut self)
        ensures
            *final(self) == (PageEntry {
                entry: PageTableEntry { dirty: false, ..old(self).entry },
                ..*old(self)
            }),
    {
        self.entry.dirty = false;
    }

    pub fn writable(&self) -> (r: bool)
        ensures
            r == self.entry.writable,
    {
        self.entry.writable
    }

    pub fn set_writable(&mut self, value: bool)
        ensures
            *final(self) == (PageEntry {
                entry: PageTableEntry { writable: value, ..old(self).entry },
                ..*old(self)
            }),
    {
        self.entry.writable = value;
    }

    /// Present means both valid and readable.
    pub fn present(&self) -> (r: bool)
        ensures
            r == (self.entry.valid && self.entry.readable),
    {
        self.entry.valid && self.entry.readable
    }

    pub fn set_present(&mut self, value: bool)
        ensures
            *final(self) == (PageEntry {
                entry: PageTableEntry { valid: value, readable: value, ..old(self).entry },
                ..*old(self)
            }),
    {
        self.entry.valid = value;
        self.entry.readable = value;
    }

    pub fn user(&self) -> (r: bool)
        ensures
            r == self.entry.user,
    {
        self.entry.user
    }

    pub fn set_user(&mut self, value: bool)
        ensures
            *final(self) == (PageEntry {
                entry: PageTableEntry { user: value, ..old(self).entry },
                ..*old(self)
            }),
    {
        self.entry.user = value;
    }

    pub fn executable(&self) -> (r: bool)
        ensures
            r == self.entry.executable,
    {
        self.entry.executable
    }

    pub fn set_executable(&mut self, value: bool)
        ensures
            *final(self) == (PageEntry {
                entry: PageTableEntry { executable: value, ..old(self).entry },
                ..*old(self)
            }),
    {
        self.entry.executable = value;
    }

    /// The physical address the entry points at.
    pub fn target(&self) -> (r: u64)
        requires
            self.entry.ppn << 12 == self.entry.ppn * 4096,
        ensures
            r == self.entry.ppn * 4096,
    {
        self.entry.ppn << 12
    }

    /// Point the entry at physical address `target`.
    pub fn set_target(&mut self, target: u64)
        ensures
            *final(self) == (PageEntry {
                entry: PageTableEntry { ppn: (target >> 12) as u64, ..old(self).entry },
                ..*old(self)
            }),
    {
        self.entry.ppn = target >> 12;
    }
}

} // verus!
