//! The register frame the hardware saves on a trap.

use vstd::prelude::*;

verus! {

/// Why a trap was taken: the decoded cause register.
#[derive(Clone, Copy, PartialEq, Eq, Structural)]
pub enum Trap {
    /// Breakpoint exception.
    Breakpoint,
    /// Supervisor timer interrupt.
    SupervisorTimer,
    /// Page fault on an instruction fetch.
    InstructionPageFault,
    /// Page fault on a load.
    LoadPageFault,
    /// Page fault on a store.
    StorePageFault,
    /// Environment call from user mode: a syscall.
    UserEnvCall,
    /// Supervisor external interrupt: a device, here the serial port.
    SupervisorExternal,
    /// Illegal instruction exception.
    IllegalInstruction,
    /// Any cause this kernel does not handle.
    Unknown,
}

/// What the hardware saves when a trap is taken, in its fixed layout:
/// the 32 general-purpose registers, then the status register, the
/// exception program counter, the trap value and the cause.
pub struct TrapFrame {
    /// General-purpose registers x0 to x31; x2 is the stack pointer,
    /// x10 to x17 carry call arguments and results.
    pub x: [u64; 32],
    /// Supervisor status register at the time of the trap.
    pub sstatus: u64,
    /// Address of the instruction that trapped.
    pub sepc: u64,
    /// Faulting address or other trap value.
    pub stval: u64,
    /// Decoded cause of the trap.
    pub scause: Trap,
}

impl TrapFrame {
    /// A frame with every register zero, as thread creation synthesizes it.
    pub fn zeroed() -> (r: TrapFrame)
        ensures
            r.x@ == Seq::new(32, |i: int| 0u64),
            r.sstatus == 0 && r.sepc == 0 && r.stval == 0,
            r.scause == Trap::Unknown,
    {
        let r = TrapFrame { x: [0u64; 32], sstatus: 0, sepc: 0, stval: 0, scause: Trap::Unknown };
        proof {
            assert(r.x@ =~= Seq::new(32, |i: int| 0u64));
        }
        r
    }
}

} // verus!
