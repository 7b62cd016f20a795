//! The syscall switch: from a numeric id and three word arguments to the
//! kernel operation they name.

use vstd::prelude::*;
use crate::consts::KERNEL_STACK_SIZE;
use crate::fs::stdio::Stdin;
use crate::machine::{Machine, PhysicalMemory};
use crate::memory::frame_allocator::LinearFrameAllocator;
use crate::memory::manager::{layout_wf, KernelLayout};
use crate::process::elf::{layout_high, spec_user_image_ok};
use crate::process::processor::Processor;
use crate::process::scheduler::Scheduler;
use crate::process::thread::{Thread, ThreadInfo, ThreadStatus};

verus! {

/// Read one byte of console input.
pub const SYS_READ: u64 = 63;

/// Write one character to the console.
pub const SYS_WRITE: u64 = 64;

/// End the calling thread.
pub const SYS_EXIT: u64 = 93;

/// Load and schedule the program named by a user string.
pub const SYS_EXEC: u64 = 221;

/// What the dispatcher decided: a finished call with its return value, or
/// an exec request that the driver must finish by resolving the named
/// program through the filesystem collaborator.
pub enum SyscallControl {
    Done(i64),
    Exec(u64),
}

/// The preconditions under which the switch itself is defined, by id. An
/// unknown id is a fatal condition. An exiting or reading thread must be
/// the running one, in the shape `Processor::exit` and the stdin queue
/// demand.
pub open spec fn syscall_pre(id: u64, args: [u64; 3], p: Processor, s: Stdin) -> bool {
    &&& (id == SYS_READ || id == SYS_WRITE || id == SYS_EXIT || id == SYS_EXEC)
    &&& (id == SYS_EXIT ==> {
        &&& p.inv()
        &&& p.st().current is Some
        &&& p.st().pool.scheduler.current() == Some((p.st().current->0).0)
        &&& p.st().idle.context.spec_content() is Some
    })
    &&& (id == SYS_READ ==> s.spec_buf().len() > 0)
}

/// Dispatch one system call.
///
/// * `SYS_WRITE` emits the character in the first argument on the console
///   and returns zero.
/// * `SYS_EXIT` frees the calling thread and switches to the idle loop; on
///   hardware it never returns.
/// * `SYS_READ` drains one queued input byte into the caller's buffer
///   (whose address the second argument gives) and returns one. A reader
///   must have input queued; waiting for input goes through `Stdin::wait`.
/// * `SYS_EXEC` is decided here and finished through `finish_exec`: the
///   result names the user string's address; the driver resolves it with
///   `from_cstr` and the filesystem collaborator, and `finish_exec` loads,
///   schedules and blocks the caller.
pub fn syscall(
    id: u64,
    args: [u64; 3],
    p: &mut Processor,
    m: &mut Machine,
    stdin: &mut Stdin,
) -> (r: SyscallControl)
    requires
        syscall_pre(id, args, *old(p), *old(stdin)),
        old(m).ram.wf(),
    ensures
        final(m).ram.wf(),
        id == SYS_WRITE ==> {
            &&& r == SyscallControl::Done(0)
            &&& final(m).console_out@ == old(m).console_out@.push(args@[0] as u8)
            &&& *final(m) == (Machine { console_out: final(m).console_out, ..*old(m) })
            &&& *final(p) == *old(p)
            &&& *final(stdin) == *old(stdin)
        },
        id == SYS_EXIT ==> {
            &&& r == SyscallControl::Done(0)
            &&& final(p).inv()
            &&& final(p).st().pool.threads@ == old(p).st().pool.threads@.update(
                (old(p).st().current->0).0 as int,
                None,
            )
            &&& final(p).st().pool.queue() == old(p).st().pool.queue()
            &&& final(m).cpu == old(p).st().idle.context.spec_content()
            &&& *final(stdin) == *old(stdin)
        },
        id == SYS_READ ==> {
            &&& r == SyscallControl::Done(1)
            &&& final(stdin).spec_buf() == old(stdin).spec_buf().skip(1)
            &&& final(stdin).spec_waiters() == old(stdin).spec_waiters()
            &&& final(m).ram.byte_at(args@[1]) == old(stdin).spec_buf()[0]
            &&& *final(p) == *old(p)
            &&& final(m).console_out == old(m).console_out
        },
        id == SYS_EXEC ==> {
            &&& r == SyscallControl::Exec(args@[0])
            &&& *final(p) == *old(p)
            &&& *final(m) == *old(m)
            &&& *final(stdin) == *old(stdin)
        },
{
    if id == SYS_WRITE {
        crate::io::putchar(m, (args[0] as u8) as char);
        proof {
            assert(((args@[0] as u8) as char) as u8 == args@[0] as u8);
        }
        SyscallControl::Done(0)
    } else if id == SYS_EXIT {
        p.exit(args[0] as usize, m);
        SyscallControl::Done(0)
    } else if id == SYS_READ {
        let b = match stdin.pop() {
            Some(b) => b,
            None => unreached(),
        };
        m.ram.write_byte(args[1], b);
        SyscallControl::Done(1)
    } else {
        SyscallControl::Exec(args[0])
    }
}

/// The NUL-terminated byte string starting at `addr`, or nothing when no
/// NUL byte follows before the address space ends.
pub open spec fn spec_cstr(ram: PhysicalMemory, addr: u64) -> Option<Seq<u8>>
    decreases u64::MAX - addr,
{
    if ram.byte_at(addr) == 0 {
        Some(Seq::empty())
    } else if addr == u64::MAX {
        None
    } else {
        match spec_cstr(ram, (addr + 1) as u64) {
            Some(tail) => Some(seq![ram.byte_at(addr)] + tail),
            None => None,
        }
    }
}

/// Read the NUL-terminated string an exec request names, byte by byte from
/// memory.
pub fn from_cstr(ram: &PhysicalMemory, addr: u64) -> (r: Option<Vec<u8>>)
    requires
        ram.wf(),
    ensures
        r matches Some(v) ==> spec_cstr(*ram, addr) == Some(v@),
        r is None ==> spec_cstr(*ram, addr) is None,
{
    let mut bytes: Vec<u8> = Vec::new();
    let mut cur = addr;
    loop
        invariant_except_break
            ram.wf(),
            addr <= cur,
            spec_cstr(*ram, addr) == (match spec_cstr(*ram, cur) {
                Some(tail) => Some(bytes@ + tail),
                None => None::<Seq<u8>>,
            }),
        ensures
            spec_cstr(*ram, addr) == Some(bytes@),
        decreases u64::MAX - cur,
    {
        let b = ram.read_byte(cur);
        if b == 0 {
            proof {
                assert(spec_cstr(*ram, cur) == Some(Seq::<u8>::empty()));
                assert(bytes@ + Seq::<u8>::empty() =~= bytes@);
            }
            break;
        }
        if cur == u64::MAX {
            proof {
                assert(spec_cstr(*ram, cur) is None);
            }
            return None;
        }
        bytes.push(b);
        proof {
            assert(spec_cstr(*ram, cur) == (match spec_cstr(*ram, (cur + 1) as u64) {
                Some(tail) => Some(seq![ram.byte_at(cur)] + tail),
                None => None::<Seq<u8>>,
            }));
            if spec_cstr(*ram, (cur + 1) as u64) is Some {
                assert(bytes@.drop_last() + (seq![ram.byte_at(cur)] + spec_cstr(
                    *ram,
                    (cur + 1) as u64,
                )->0) =~= bytes@ + spec_cstr(*ram, (cur + 1) as u64)->0);
            }
        }
        cur = cur + 1;
    }
    Some(bytes)
}

/// Finish an exec request with the image the filesystem collaborator
/// resolved (or none): load and schedule the named program, and block the
/// caller until it can proceed, exactly as the original call does. Reports
/// whether the program was loaded.
pub fn finish_exec(
    image: Option<&Vec<u8>>,
    layout: &KernelLayout,
    p: &mut Processor,
    allocator: &mut LinearFrameAllocator,
    ram: &mut PhysicalMemory,
    m: &mut Machine,
) -> (loaded: bool)
    requires
        old(p).inv(),
        old(p).st().pool.has_free_slot(),
        old(p).st().current is Some
            ==> old(p).st().pool.threads@[(old(p).st().current->0).0 as int] is Some
            && old(p).st().idle.context.spec_content() is Some,
        old(allocator).wf(),
        old(ram).wf(),
        layout_wf(*layout),
        layout_high(*layout),
        old(allocator).offset + old(allocator).size <= 0x10_0000_0000_0000,
        old(m).heap_next + 2 * KERNEL_STACK_SIZE <= u64::MAX,
    ensures
        final(p).inv(),
        final(allocator).wf(),
        final(ram).wf(),
        image is None ==> !loaded && *final(p) == *old(p) && *final(m) == *old(m)
            && *final(allocator) == *old(allocator) && *final(ram) == *old(ram),
        image matches Some(data) ==> (loaded <==> spec_user_image_ok(
            data@,
            *layout,
            *old(allocator),
        )),
        loaded ==> (old(p).st().current is Some ==> (final(p).st().pool.threads@[(old(
            p,
        ).st().current->0).0 as int] matches Some(info) && info.status is Sleeping)
            && final(m).cpu == old(p).st().idle.context.spec_content()),
{
    match image {
        Some(data) => {
            match Thread::new_user(data.as_slice(), layout, allocator, ram, m) {
                Some(thread) => {
                    proof {
                        if old(p).st().current is Some {
                            let id = (old(p).st().current->0).0;
                            assert(old(p).st().pool.threads@[id as int] is Some);
                        }
                    }
                    p.add_thread(thread);
                    p.sleep(m);
                    true
                },
                None => false,
            }
        },
        None => false,
    }
}

} // verus!
