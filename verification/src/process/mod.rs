//! The thread and scheduling core: saved contexts, kernel threads, the
//! round-robin scheduler, the thread pool and the processor state machine.

use vstd::prelude::*;

pub mod context;
pub mod elf;
pub mod pool;
pub mod processor;
pub mod scheduler;
pub mod stack;
pub mod status;
pub mod thread;

verus! {

use crate::consts::KERNEL_STACK_SIZE;
use crate::machine::Machine;
use crate::process::pool::ThreadPool;
use crate::process::processor::Processor;
use crate::process::scheduler::{RoundRobinScheduler, Scheduler};
use crate::process::thread::{Thread, ThreadInfo, ThreadStatus};

/// Index of a thread's slot in the pool: its stable identity for the
/// thread's lifetime.
pub type ThreadID = usize;

/// Code a thread exits with.
pub type ExitCode = usize;

/// Boot the scheduling core: a round-robin scheduler with a quantum of two
/// ticks, a pool of 128 slots, and the idle thread that will run the
/// dispatch loop starting at `idle_entry`.
pub fn initialize(m: &mut Machine, idle_entry: u64) -> (r: Processor)
    requires
        old(m).heap_next + 2 * KERNEL_STACK_SIZE <= u64::MAX,
    ensures
        r.inv(),
        r.st().current is None,
        r.st().pool.threads.len() == 128,
        forall|i: int| 0 <= i < 128 ==> r.st().pool.threads[i] is None,
        r.st().pool.queue().len() == 0,
        r.st().pool.scheduler.quantum() == 2,
        r.st().idle.context.spec_content() is Some,
        *final(m) == (Machine { heap_next: final(m).heap_next, ..*old(m) }),
{
    let scheduler = RoundRobinScheduler::new(2);
    let pool = ThreadPool::new(128, scheduler);
    let idle = Thread::new_kernel(idle_entry, m);
    let mut processor = Processor::new();
    processor.initialize(idle, Box::new(pool));
    processor
}

/// Enter the idle loop for good; the boot context is abandoned.
pub fn run(p: &mut Processor, m: &mut Machine)
    requires
        old(p).initialized(),
        old(p).st().idle.context.spec_content() is Some,
    ensures
        final(p).initialized(),
        final(p).st().idle.context.spec_content() is None,
        final(m).cpu == old(p).st().idle.context.spec_content(),
        old(p).inv() ==> final(p).inv(),
{
    p.run(m);
}

/// The running thread exits with `code`; control goes back to the idle
/// loop and never returns to the thread.
pub fn exit(p: &mut Processor, code: ExitCode, m: &mut Machine)
    requires
        old(p).inv(),
        old(p).st().current is Some,
        old(p).st().pool.scheduler.current() == Some((old(p).st().current->0).0),
        old(p).st().idle.context.spec_content() is Some,
    ensures
        final(p).inv(),
        final(p).st().pool.threads@ == old(p).st().pool.threads@.update(
            (old(p).st().current->0).0 as int,
            None,
        ),
        final(m).cpu == old(p).st().idle.context.spec_content(),
{
    p.exit(code, m);
}

/// A timer tick arrived: spend one quantum unit of the running thread.
pub fn tick(p: &mut Processor, m: &mut Machine) -> (switched: bool)
    requires
        old(p).inv(),
        old(p).st().current matches Some((id, th)) ==> {
            &&& old(p).st().pool.scheduler.current() == Some(id)
            &&& old(p).st().pool.scheduler.time_left(id) > 0
            &&& old(p).st().idle.context.spec_content() is Some
        },
    ensures
        final(p).inv(),
        old(p).st().current is None ==> !switched && *final(p) == *old(p) && *final(m) == *old(m),
        old(p).st().current matches Some((id, th)) ==> {
            &&& final(p).st().pool.scheduler.time_left(id) == old(
                p,
            ).st().pool.scheduler.time_left(id) - 1
            &&& (switched <==> old(p).st().pool.scheduler.time_left(id) == 1)
        },
{
    p.tick(m)
}

/// The running thread sleeps until something wakes it: its slot turns
/// sleeping, it leaves no trace in the ready queue, and control moves back
/// to the idle loop. With no current thread nothing happens.
pub fn sleep(p: &mut Processor, m: &mut Machine)
    requires
        old(p).inv(),
        old(p).st().current matches Some((id, th)) ==> {
            &&& old(p).st().pool.threads[id as int] is Some
            &&& old(p).st().idle.context.spec_content() is Some
        },
    ensures
        final(p).inv(),
        old(p).st().current is None ==> *final(p) == *old(p) && *final(m) == *old(m),
        old(p).st().current matches Some((id, th)) ==> {
            &&& final(p).st().pool.threads@ == old(p).st().pool.threads@.update(
                id as int,
                Some(
                    ThreadInfo {
                        status: ThreadStatus::Sleeping,
                        thread: old(p).st().pool.threads@[id as int]->0.thread,
                    },
                ),
            )
            &&& final(p).st().pool.queue() == old(p).st().pool.queue()
            &&& final(p).st().current matches Some((cid, cth)) && cid == id
                && cth.context.spec_content() == old(m).cpu && cth.stack == th.stack
            &&& final(p).st().idle.context.spec_content() is None
            &&& final(m).cpu == old(p).st().idle.context.spec_content()
            &&& final(m).satp == old(p).st().idle.context.spec_content()->0.spec_satp()
            &&& *final(m) == (Machine { cpu: final(m).cpu, satp: final(m).satp, ..*old(m) })
        },
{
    p.sleep(m);
}

/// Make the sleeping thread `id` ready again.
pub fn wake_up(p: &mut Processor, id: ThreadID)
    requires
        old(p).inv(),
        id < old(p).st().pool.threads.len(),
        old(p).st().pool.threads[id as int] matches Some(info) && info.status is Sleeping && (
        info.thread matches Some(t) && t.context.spec_content() is Some),
        old(p).st().current matches Some((c, th)) ==> c != id,
    ensures
        final(p).inv(),
        final(p).st().pool.queue() == old(p).st().pool.queue().push(id),
{
    p.wake_up(id);
}

/// The id of the thread running now.
pub fn current_tid(p: &Processor) -> (r: ThreadID)
    requires
        p.initialized(),
        p.st().current is Some,
    ensures
        r == (p.st().current->0).0,
{
    p.current_tid()
}

} // verus!
