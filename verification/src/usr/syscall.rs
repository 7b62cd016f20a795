//! User-side syscall stubs: the environment-call ABI.

use vstd::prelude::*;
use crate::fs::stdio::Stdin;
use crate::interrupt::trap_handler;
use crate::machine::Machine;
use crate::process::processor::Processor;
use crate::process::scheduler::Scheduler;
use crate::syscall::{syscall_pre, SYS_EXEC, SYS_EXIT, SYS_READ, SYS_WRITE};
use crate::trap::frame::{Trap, TrapFrame};

verus! {

/// Issue one environment call: load the id and arguments into the argument
/// registers, trap, and read the result register back.
pub fn sys_call(
    id: u64,
    arg0: u64,
    arg1: u64,
    arg2: u64,
    arg3: u64,
    p: &mut Processor,
    m: &mut Machine,
    stdin: &mut Stdin,
) -> (r: i64)
    requires
        old(p).inv(),
        old(m).ram.wf(),
        syscall_pre(id, [arg0, arg1, arg2], *old(p), *old(stdin)),
    ensures
        final(p).inv(),
        final(m).ram.wf(),
        id == SYS_WRITE ==> r == 0 && final(m).console_out@ == old(m).console_out@.push(
            arg0 as u8,
        ) && *final(m) == (Machine { console_out: final(m).console_out, ..*old(m) }) && *final(p)
            == *old(p) && *final(stdin) == *old(stdin),
        id == SYS_EXIT ==> final(p).st().pool.threads@ == old(p).st().pool.threads@.update(
            (old(p).st().current->0).0 as int,
            None,
        ),
        id == SYS_READ ==> r == 1 && final(stdin).spec_buf() == old(stdin).spec_buf().skip(1)
            && final(m).ram.byte_at(arg1) == old(stdin).spec_buf()[0],
        id == SYS_EXEC ==> r == 0 && *final(p) == *old(p),
{
    let mut frame = TrapFrame::zeroed();
    frame.x[17] = id;
    frame.x[10] = arg0;
    frame.x[11] = arg1;
    frame.x[12] = arg2;
    frame.x[13] = arg3;
    frame.scause = Trap::UserEnvCall;
    trap_handler(&mut frame, p, m, stdin);
    let ret = frame.x[10];
    proof {
        if id == SYS_WRITE || id == SYS_EXEC {
            assert(ret == 0 && 0u64 as i64 == 0i64);
        }
        if id == SYS_READ {
            assert(ret == 1 && 1u64 as i64 == 1i64);
        }
    }
    ret as i64
}

/// Write one character to the console.
pub fn sys_write(ch: u8, p: &mut Processor, m: &mut Machine, stdin: &mut Stdin) -> (r: i64)
    requires
        old(p).inv(),
        old(m).ram.wf(),
    ensures
        final(p).inv(),
        final(m).ram.wf(),
        r == 0,
        final(m).console_out@ == old(m).console_out@.push(ch),
        *final(m) == (Machine { console_out: final(m).console_out, ..*old(m) }),
        *final(p) == *old(p),
        *final(stdin) == *old(stdin),
{
    let r = sys_call(SYS_WRITE, ch as u64, 0, 0, 0, p, m, stdin);
    proof {
        assert(ch as u64 as u8 == ch);
    }
    r
}

/// End the calling thread. On hardware this never returns; the model
/// records the state change and hands control back to the driver's idle
/// loop.
pub fn sys_exit(code: u64, p: &mut Processor, m: &mut Machine, stdin: &mut Stdin) -> (r: i64)
    requires
        old(p).inv(),
        old(m).ram.wf(),
        old(p).st().current is Some,
        old(p).st().pool.scheduler.current() == Some((old(p).st().current->0).0),
        old(p).st().idle.context.spec_content() is Some,
    ensures
        final(p).inv(),
        final(m).ram.wf(),
        final(p).st().pool.threads@ == old(p).st().pool.threads@.update(
            (old(p).st().current->0).0 as int,
            None,
        ),
{
    sys_call(SYS_EXIT, code, 0, 0, 0, p, m, stdin)
}

/// Read one byte of console input into the buffer at `base`.
pub fn sys_read(
    fd: u64,
    base: u64,
    len: u64,
    p: &mut Processor,
    m: &mut Machine,
    stdin: &mut Stdin,
) -> (r: i64)
    requires
        old(p).inv(),
        old(m).ram.wf(),
        old(stdin).spec_buf().len() > 0,
    ensures
        final(p).inv(),
        final(m).ram.wf(),
        r == 1,
        final(stdin).spec_buf() == old(stdin).spec_buf().skip(1),
        final(m).ram.byte_at(base) == old(stdin).spec_buf()[0],
{
    sys_call(SYS_READ, fd, base, len, 0, p, m, stdin)
}

/// Ask the kernel to load and schedule the program named by the string at
/// `path`. The driver finishes the request through the filesystem
/// collaborator.
pub fn sys_exec(path: u64, p: &mut Processor, m: &mut Machine, stdin: &mut Stdin) -> (r: i64)
    requires
        old(p).inv(),
        old(m).ram.wf(),
    ensures
        final(p).inv(),
        final(m).ram.wf(),
        r == 0,
        *final(p) == *old(p),
{
    sys_call(SYS_EXEC, path, 0, 0, 0, p, m, stdin)
}

} // verus!
