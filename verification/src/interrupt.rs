//! Trap dispatch and interrupt-enable control.

use vstd::prelude::*;
use vstd::string::StringSliceAdditionalSpecFns;
use crate::fs::stdio::Stdin;
use crate::io::{hex_of, put_hex, putchar, puts};
use crate::machine::Machine;
use crate::process::context::SSTATUS_SIE;
use crate::process::processor::Processor;
use crate::process::scheduler::Scheduler;
use crate::syscall::{syscall, syscall_pre, SyscallControl, SYS_EXEC, SYS_EXIT, SYS_READ, SYS_WRITE};
use crate::trap::frame::{Trap, TrapFrame};

verus! {

/// What the dispatcher tells the trap stub to do next: return to the
/// interrupted code, finish an exec request first, or halt — a page fault
/// or unknown cause is fatal in this kernel, which has no demand paging.
pub enum TrapControl {
    Resume,
    Exec(u64),
    Halt,
}

/// Point the hardware at the trap entry stub, enable interrupts, and open
/// the external-interrupt path from the serial device.
pub fn initialize(m: &mut Machine, trap_entry: u64)
    ensures
        final(m).sscratch == 0,
        final(m).stvec == trap_entry,
        final(m).sie,
        final(m).sext_enabled,
        final(m).serial_irq_enabled,
        final(m).uart_ready,
        *final(m) == (Machine {
            sscratch: 0,
            stvec: trap_entry,
            sie: true,
            sext_enabled: true,
            serial_irq_enabled: true,
            uart_ready: true,
            ..*old(m)
        }),
{
    m.sscratch = 0;
    m.stvec = trap_entry;
    m.sie = true;
    m.sext_enabled = true;
    init_external_interrupt(m);
    enable_serial_interrupt(m);
}

/// Tell the platform interrupt controller to forward serial interrupts.
pub fn init_external_interrupt(m: &mut Machine)
    ensures
        *final(m) == (Machine { serial_irq_enabled: true, ..*old(m) }),
{
    m.serial_irq_enabled = true;
}

/// Tell the serial device to raise receive interrupts.
pub fn enable_serial_interrupt(m: &mut Machine)
    ensures
        *final(m) == (Machine { uart_ready: true, ..*old(m) }),
{
    m.uart_ready = true;
}

/// A breakpoint resumes past the two-byte breakpoint instruction.
pub fn breakpoint_handler(sepc: &mut u64)
    requires
        *old(sepc) + 2 <= u64::MAX,
    ensures
        *final(sepc) == *old(sepc) + 2,
{
    *sepc = *sepc + 2;
}

/// A timer interrupt: arm the next tick, then spend one quantum unit.
pub fn supervisor_timer_handler(p: &mut Processor, m: &mut Machine) -> (switched: bool)
    requires
        old(p).inv(),
        old(m).time + crate::timer::TIME_BASE <= u64::MAX,
        old(p).st().current matches Some((id, th)) ==> {
            &&& old(p).st().pool.scheduler.current() == Some(id)
            &&& old(p).st().pool.scheduler.time_left(id) > 0
            &&& old(p).st().idle.context.spec_content() is Some
        },
    ensures
        final(p).inv(),
        final(m).timer == old(m).time + crate::timer::TIME_BASE,
        final(m).ram == old(m).ram,
        final(m).console_out == old(m).console_out,
        old(p).st().current is None ==> !switched && *final(p) == *old(p),
        old(p).st().current matches Some((id, th)) ==> {
            &&& final(p).st().pool.scheduler.time_left(id) == old(
                p,
            ).st().pool.scheduler.time_left(id) - 1
            &&& (switched <==> old(p).st().pool.scheduler.time_left(id) == 1)
            &&& (switched ==> final(m).cpu == old(p).st().idle.context.spec_content())
        },
{
    crate::timer::set_next_event(m);
    p.tick(m)
}

/// A serial interrupt: read one character and queue it for readers, with
/// carriage return turned into line feed.
pub fn external_handler(p: &mut Processor, m: &mut Machine, stdin: &mut Stdin)
    requires
        old(p).inv(),
        old(stdin).can_push(*old(p)),
    ensures
        final(p).inv(),
        final(m).ram == old(m).ram,
        final(m).console_out == old(m).console_out,
        old(m).console_in@.len() == 0 ==> *final(stdin) == *old(stdin) && *final(p) == *old(p)
            && *final(m) == *old(m),
        old(m).console_in@.len() > 0 ==> {
            &&& final(m).console_in@ == old(m).console_in@.skip(1)
            &&& final(stdin).spec_buf() == old(stdin).spec_buf().push(
                (if old(m).console_in@[0] == 13 {
                    10u8
                } else {
                    old(m).console_in@[0]
                }),
            )
        },
{
    match crate::io::getchar_option(m) {
        Some(ch) => {
            let b: u8 = ch as u8;
            proof {
                if old(m).console_in@.len() > 0 {
                    let x: u8 = old(m).console_in@[0];
                    assert(x as char as u8 == x);
                }
            }
            if b == 13 {
                stdin.push(10, p);
            } else {
                stdin.push(b, p);
            }
        },
        None => {},
    }
}

/// An environment call: step past the `ecall` instruction, dispatch the
/// call with the argument registers, and write the result into the return
/// register.
pub fn syscall_handler(
    frame: &mut TrapFrame,
    p: &mut Processor,
    m: &mut Machine,
    stdin: &mut Stdin,
) -> (r: TrapControl)
    requires
        old(frame).sepc + 4 <= u64::MAX,
        syscall_pre(
            old(frame).x@[17],
            [old(frame).x@[10], old(frame).x@[11], old(frame).x@[12]],
            *old(p),
            *old(stdin),
        ),
        old(m).ram.wf(),
    ensures
        final(m).ram.wf(),
        final(frame).sepc == old(frame).sepc + 4,
        ({
            let id = old(frame).x@[17];
            let a0 = old(frame).x@[10];
            &&& (id == SYS_WRITE ==> r is Resume && final(m).console_out@ == old(
                m,
            ).console_out@.push(a0 as u8) && *final(m) == (Machine {
                console_out: final(m).console_out,
                ..*old(m)
            }) && final(frame).x@ == old(frame).x@.update(10, 0u64) && *final(p) == *old(p)
                && *final(stdin) == *old(stdin))
            &&& (id == SYS_EXIT ==> r is Resume && final(p).inv()
                && final(p).st().pool.threads@ == old(p).st().pool.threads@.update(
                (old(p).st().current->0).0 as int,
                None,
            ) && final(m).cpu == old(p).st().idle.context.spec_content())
            &&& (id == SYS_READ ==> r is Resume && final(stdin).spec_buf() == old(
                stdin,
            ).spec_buf().skip(1) && final(m).ram.byte_at(old(frame).x@[11]) == old(
                stdin,
            ).spec_buf()[0] && final(frame).x@ == old(frame).x@.update(10, 1u64) && *final(p)
                == *old(p))
            &&& (id == SYS_EXEC ==> r == TrapControl::Exec(a0) && final(frame).x@ == old(
                frame,
            ).x@.update(10, 0u64) && *final(p) == *old(p) && *final(m) == *old(m)
                && *final(stdin) == *old(stdin))
        }),
{
    frame.sepc = frame.sepc + 4;
    let id = frame.x[17];
    let args = [frame.x[10], frame.x[11], frame.x[12]];
    let control = syscall(id, args, p, m, stdin);
    match control {
        SyscallControl::Done(ret) => {
            frame.x[10] = ret as u64;
            proof {
                if id == SYS_WRITE || id == SYS_EXEC {
                    assert(0i64 as u64 == 0u64);
                }
                if id == SYS_READ {
                    assert(1i64 as u64 == 1u64);
                }
            }
            TrapControl::Resume
        },
        SyscallControl::Exec(path) => {
            frame.x[10] = 0;
            TrapControl::Exec(path)
        },
    }
}

/// The console note a breakpoint leaves: the address of the breakpoint
/// instruction, then a line feed.
pub open spec fn breakpoint_note(sepc: u64) -> Seq<u8> {
    "breakpoint at 0x".spec_bytes() + hex_of(sepc) + seq![10u8]
}

/// The label a fatal cause is reported under.
pub open spec fn fatal_label(t: Trap) -> Seq<u8> {
    match t {
        Trap::InstructionPageFault => "instruction page fault".spec_bytes(),
        Trap::LoadPageFault => "load page fault".spec_bytes(),
        Trap::StorePageFault => "store page fault".spec_bytes(),
        Trap::IllegalInstruction => "illegal instruction".spec_bytes(),
        _ => "unhandled trap".spec_bytes(),
    }
}

/// The console note a fatal trap leaves before the kernel halts: its
/// label, the faulting address, and the address of the interrupted
/// instruction.
pub open spec fn fatal_note(t: Trap, stval: u64, sepc: u64) -> Seq<u8> {
    fatal_label(t) + ", address 0x".spec_bytes() + hex_of(stval) + " at 0x".spec_bytes() + hex_of(
        sepc,
    ) + seq![10u8]
}

/// Report a fatal trap on the console: this kernel has no recovery path,
/// so the note is the last word before the halt.
fn fatal_handler(frame: &TrapFrame, m: &mut Machine) -> (r: TrapControl)
    requires
        frame.scause is InstructionPageFault || frame.scause is LoadPageFault
            || frame.scause is StorePageFault || frame.scause is IllegalInstruction
            || frame.scause is Unknown,
    ensures
        r is Halt,
        final(m).console_out@ == old(m).console_out@ + fatal_note(
            frame.scause,
            frame.stval,
            frame.sepc,
        ),
        *final(m) == (Machine { console_out: final(m).console_out, ..*old(m) }),
{
    proof {
        reveal_strlit("instruction page fault");
        reveal_strlit("load page fault");
        reveal_strlit("store page fault");
        reveal_strlit("illegal instruction");
        reveal_strlit("unhandled trap");
        reveal_strlit(", address 0x");
        reveal_strlit(" at 0x");
    }
    match frame.scause {
        Trap::InstructionPageFault => puts(m, "instruction page fault"),
        Trap::LoadPageFault => puts(m, "load page fault"),
        Trap::StorePageFault => puts(m, "store page fault"),
        Trap::IllegalInstruction => puts(m, "illegal instruction"),
        _ => puts(m, "unhandled trap"),
    }
    puts(m, ", address 0x");
    put_hex(m, frame.stval);
    puts(m, " at 0x");
    put_hex(m, frame.sepc);
    putchar(m, '\n');
    proof {
        assert('\n' as u8 == 10);
        assert(m.console_out@ =~= old(m).console_out@ + fatal_note(
            frame.scause,
            frame.stval,
            frame.sepc,
        ));
    }
    TrapControl::Halt
}

/// Route one trap to its handler by cause. A breakpoint leaves a note on
/// the console and resumes; page faults, illegal instructions and unknown
/// causes leave one and are fatal: this kernel has no recovery path for
/// them.
pub fn trap_handler(
    frame: &mut TrapFrame,
    p: &mut Processor,
    m: &mut Machine,
    stdin: &mut Stdin,
) -> (r: TrapControl)
    requires
        old(p).inv(),
        old(m).ram.wf(),
        old(frame).scause is Breakpoint ==> old(frame).sepc + 2 <= u64::MAX,
        old(frame).scause is SupervisorTimer ==> old(m).time + crate::timer::TIME_BASE
            <= u64::MAX && (old(p).st().current matches Some((id, th)) ==> {
            &&& old(p).st().pool.scheduler.current() == Some(id)
            &&& old(p).st().pool.scheduler.time_left(id) > 0
            &&& old(p).st().idle.context.spec_content() is Some
        }),
        old(frame).scause is UserEnvCall ==> old(frame).sepc + 4 <= u64::MAX && syscall_pre(
            old(frame).x@[17],
            [old(frame).x@[10], old(frame).x@[11], old(frame).x@[12]],
            *old(p),
            *old(stdin),
        ),
        old(frame).scause is SupervisorExternal ==> old(stdin).can_push(*old(p)),
    ensures
        final(p).inv(),
        final(m).ram.wf(),
        old(frame).scause is Breakpoint ==> r is Resume && final(frame).sepc == old(frame).sepc
            + 2 && *final(p) == *old(p) && final(m).console_out@ == old(m).console_out@
            + breakpoint_note(old(frame).sepc) && *final(m) == (Machine {
            console_out: final(m).console_out,
            ..*old(m)
        }),
        old(frame).scause is SupervisorTimer ==> final(m).timer == old(m).time
            + crate::timer::TIME_BASE && r is Resume && *final(frame) == *old(frame),
        old(frame).scause is UserEnvCall ==> final(frame).sepc == old(frame).sepc + 4 && ({
            let id = old(frame).x@[17];
            &&& (id == SYS_WRITE ==> r is Resume && final(m).console_out@ == old(
                m,
            ).console_out@.push(old(frame).x@[10] as u8) && *final(m) == (Machine {
                console_out: final(m).console_out,
                ..*old(m)
            }) && final(frame).x@ == old(frame).x@.update(10, 0u64) && *final(p) == *old(p)
                && *final(stdin) == *old(stdin))
            &&& (id == SYS_EXIT ==> r is Resume && final(p).st().pool.threads@ == old(
                p,
            ).st().pool.threads@.update((old(p).st().current->0).0 as int, None))
            &&& (id == SYS_READ ==> r is Resume && final(stdin).spec_buf() == old(
                stdin,
            ).spec_buf().skip(1) && final(m).ram.byte_at(old(frame).x@[11]) == old(
                stdin,
            ).spec_buf()[0] && final(frame).x@ == old(frame).x@.update(10, 1u64))
            &&& (id == SYS_EXEC ==> r == TrapControl::Exec(old(frame).x@[10]) && final(frame).x@ == old(frame).x@.update(10, 0u64) && *final(p) == *old(p)
                && *final(m) == *old(m) && *final(stdin) == *old(stdin))
        }),
        old(frame).scause is SupervisorExternal ==> r is Resume && (old(m).console_in@.len() > 0
            ==> final(stdin).spec_buf() == old(stdin).spec_buf().push(
            (if old(m).console_in@[0] == 13 {
                10u8
            } else {
                old(m).console_in@[0]
            }),
        )),
        (old(frame).scause is InstructionPageFault || old(frame).scause is LoadPageFault || old(
            frame,
        ).scause is StorePageFault || old(frame).scause is IllegalInstruction || old(
            frame,
        ).scause is Unknown) ==> r is Halt && *final(p) == *old(p) && *final(frame) == *old(frame)
            && final(m).console_out@ == old(m).console_out@ + fatal_note(
            old(frame).scause,
            old(frame).stval,
            old(frame).sepc,
        ) && *final(m) == (Machine { console_out: final(m).console_out, ..*old(m) }),
{
    match frame.scause {
        Trap::Breakpoint => {
            proof {
                reveal_strlit("breakpoint at 0x");
            }
            puts(m, "breakpoint at 0x");
            put_hex(m, frame.sepc);
            putchar(m, '\n');
            breakpoint_handler(&mut frame.sepc);
            proof {
                assert('\n' as u8 == 10);
                assert(m.console_out@ =~= old(m).console_out@ + breakpoint_note(
                    old(frame).sepc,
                ));
            }
            TrapControl::Resume
        },
        Trap::SupervisorTimer => {
            supervisor_timer_handler(p, m);
            TrapControl::Resume
        },
        Trap::InstructionPageFault => fatal_handler(frame, m),
        Trap::LoadPageFault => fatal_handler(frame, m),
        Trap::StorePageFault => fatal_handler(frame, m),
        Trap::UserEnvCall => syscall_handler(frame, p, m, stdin),
        Trap::SupervisorExternal => {
            external_handler(p, m, stdin);
            TrapControl::Resume
        },
        Trap::IllegalInstruction => fatal_handler(frame, m),
        Trap::Unknown => fatal_handler(frame, m),
    }
}

/// Disable asynchronous interrupts and hand back the previous enable state,
/// for a critical section around a switch.
pub fn disable_and_store(m: &mut Machine) -> (flags: u64)
    ensures
        flags == (if old(m).sie {
            SSTATUS_SIE
        } else {
            0
        }),
        !final(m).sie,
        *final(m) == (Machine { sie: false, ..*old(m) }),
{
    let flags: u64 = if m.sie {
        SSTATUS_SIE
    } else {
        0
    };
    m.sie = false;
    flags
}

/// Restore the interrupt-enable state that `disable_and_store` saved: set
/// the saved bits again.
pub fn restore(m: &mut Machine, flags: u64)
    ensures
        final(m).sie == (old(m).sie || flags & SSTATUS_SIE != 0),
        *final(m) == (Machine { sie: final(m).sie, ..*old(m) }),
{
    if flags & SSTATUS_SIE != 0 {
        m.sie = true;
    }
}

/// Enable interrupts and wait for the next one. The wait itself is the
/// driver's edge; the model records the enable.
pub fn enable_and_wfi(m: &mut Machine)
    ensures
        final(m).sie,
        *final(m) == (Machine { sie: true, ..*old(m) }),
{
    m.sie = true;
}

} // verus!
