//! Permission attributes applied to a page-table entry at map time.

use vstd::prelude::*;
use crate::memory::manager::paging::entry::{PageEntry, PageTableEntry};

verus! {

/// The permission flags of one memory area: an immutable builder value.
#[derive(Clone, Copy, PartialEq, Eq, Structural)]
pub struct MemoryAttr {
    user: bool,
    read_only: bool,
    executable: bool,
}

impl MemoryAttr {
    /// The attribute value with the given flags.
    pub closed spec fn stub(user: bool, read_only: bool, executable: bool) -> MemoryAttr {
        MemoryAttr { user, read_only, executable }
    }

    /// Reachable from user mode.
    pub closed spec fn spec_user(self) -> bool {
        self.user
    }

    /// Not writable.
    pub closed spec fn spec_read_only(self) -> bool {
        self.read_only
    }

    /// Executable.
    pub closed spec fn spec_executable(self) -> bool {
        self.executable
    }

    /// The entry `apply` produces from `pte` under this attribute: present,
    /// with the user, write and execute bits set accordingly.
    pub open spec fn applied(self, pte: PageTableEntry) -> PageTableEntry {
        PageTableEntry {
            valid: true,
            readable: true,
            user: self.spec_user(),
            writable: !self.spec_read_only(),
            executable: self.spec_executable(),
            ..pte
        }
    }

    /// Kernel-only, writable, non-executable.
    pub fn new() -> (r: MemoryAttr)
        ensures
            r == MemoryAttr::stub(false, false, false),
            !r.spec_user() && !r.spec_read_only() && !r.spec_executable(),
    {
        MemoryAttr { user: false, read_only: false, executable: false }
    }

    /// Make the area reachable from user mode.
    pub fn set_user(self) -> (r: MemoryAttr)
        ensures
            r == MemoryAttr::stub(true, self.spec_read_only(), self.spec_executable()),
            r.spec_user() && r.spec_read_only() == self.spec_read_only() && r.spec_executable()
                == self.spec_executable(),
    {
        MemoryAttr { user: true, ..self }
    }

    /// Make the area read-only.
    pub fn set_read_only(self) -> (r: MemoryAttr)
        ensures
            r == MemoryAttr::stub(self.spec_user(), true, self.spec_executable()),
            r.spec_read_only() && r.spec_user() == self.spec_user() && r.spec_executable()
                == self.spec_executable(),
    {
        MemoryAttr { read_only: true, ..self }
    }

    /// Make the area executable.
    pub fn set_executable(self) -> (r: MemoryAttr)
        ensures
            r == MemoryAttr::stub(self.spec_user(), self.spec_read_only(), true),
            r.spec_executable() && r.spec_user() == self.spec_user() && r.spec_read_only()
                == self.spec_read_only(),
    {
        MemoryAttr { executable: true, ..self }
    }

    /// Refine a freshly mapped entry: lock the permission bits down to this
    /// attribute.
    pub fn apply(&self, entry: &mut PageEntry)
        ensures
            final(entry).page == old(entry).page,
            final(entry).entry == self.applied(old(entry).entry),
    {
        entry.set_present(true);
        entry.set_user(self.user);
        entry.set_writable(!self.read_only);
        entry.set_executable(self.executable);
    }
}

/// What the flags of a stub attribute are.
pub broadcast proof fn lemma_attr_stub(user: bool, read_only: bool, executable: bool)
    ensures
        (#[trigger] MemoryAttr::stub(user, read_only, executable)).spec_user() == user,
        MemoryAttr::stub(user, read_only, executable).spec_read_only() == read_only,
        MemoryAttr::stub(user, read_only, executable).spec_executable() == executable,
{
}

} // verus!
