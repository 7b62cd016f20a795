//! The processor: the single execution-state machine that owns the thread
//! pool, the idle thread, and whatever thread is running now.
//!
//! On hardware the idle loop and the running thread alternate by context
//! switches; here each step of that protocol is a call that performs the
//! same state change, and the driver at the edge performs the actual
//! switch and wait-for-interrupt instructions.

use vstd::prelude::*;
use crate::machine::Machine;
use crate::process::pool::{retrieve_queue, retrieve_slots, ThreadPool};
use crate::process::scheduler::Scheduler;
use crate::process::thread::{Thread, ThreadInfo, ThreadStatus};
use crate::process::{ExitCode, ThreadID};

verus! {

/// Everything the processor owns once initialized: the pool, the idle
/// thread, and the currently running `(id, thread)` pair.
pub struct Status {
    pub pool: Box<ThreadPool>,
    pub idle: Box<Thread>,
    pub current: Option<(ThreadID, Box<Thread>)>,
}

/// The processor singleton: uninitialized at boot, then running forever.
pub struct Processor {
    pub status: Option<Status>,
}

impl Processor {
    /// The processor is initialized.
    pub open spec fn initialized(self) -> bool {
        self.status is Some
    }

    /// Its state, once initialized.
    pub open spec fn st(self) -> Status {
        self.status->0
    }

    /// The standing consistency of the processor: the pool is consistent,
    /// and the running thread — if any — has an in-range slot index and is
    /// not also waiting in the queue.
    pub open spec fn inv(self) -> bool {
        &&& self.initialized()
        &&& self.st().pool.wf()
        &&& (self.st().current matches Some((id, th)) ==> {
            &&& id < self.st().pool.threads.len()
            &&& !self.st().pool.queue().contains(id)
        })
    }

    /// An empty processor; `initialize` must run before anything else.
    pub fn new() -> (r: Processor)
        ensures
            !r.initialized(),
    {
        Processor { status: None }
    }

    /// Install the pool and the idle thread, once, at boot.
    pub fn initialize(&mut self, idle: Box<Thread>, pool: Box<ThreadPool>)
        requires
            pool.wf(),
        ensures
            final(self).initialized(),
            final(self).st().pool == pool,
            final(self).st().idle == idle,
            final(self).st().current is None,
            final(self).inv(),
    {
        self.status = Some(Status { pool, idle, current: None });
    }

    /// Leave the boot context for good and enter the idle thread. The boot
    /// stack is never returned to.
    pub fn run(&mut self, m: &mut Machine)
        requires
            old(self).initialized(),
            old(self).st().idle.context.spec_content() is Some,
        ensures
            final(self).initialized(),
            final(self).st().pool == old(self).st().pool,
            final(self).st().current == old(self).st().current,
            final(self).st().idle.stack == old(self).st().idle.stack,
            final(self).st().idle.context.spec_content() is None,
            final(m).cpu == old(self).st().idle.context.spec_content(),
            final(m).satp == old(self).st().idle.context.spec_content()->0.spec_satp(),
            *final(m) == (Machine { cpu: final(m).cpu, satp: final(m).satp, ..*old(m) }),
            old(self).inv() ==> final(self).inv(),
    {
        let mut boot = Thread::boot();
        if let Some(st) = self.status.as_mut() {
            boot.switch_to(&mut st.idle, m);
        }
    }

    /// Hand a fresh thread to the pool.
    pub fn add_thread(&mut self, thread: Box<Thread>)
        requires
            old(self).inv(),
            old(self).st().pool.has_free_slot(),
            thread.context.spec_content() is Some,
            old(self).st().current matches Some((id, th)) ==> old(
                self,
            ).st().pool.threads@[id as int] is Some,
        ensures
            final(self).inv(),
            final(self).st().idle == old(self).st().idle,
            final(self).st().current == old(self).st().current,
            final(self).st().pool.threads@ == old(self).st().pool.threads@.update(
                old(self).st().pool.free_slot(),
                Some(ThreadInfo { status: ThreadStatus::Ready, thread: Some(thread) }),
            ),
            final(self).st().pool.queue() == old(self).st().pool.queue().push(
                old(self).st().pool.free_slot() as ThreadID,
            ),
            final(self).st().pool.scheduler.current() == old(
                self,
            ).st().pool.scheduler.current(),
            (old(self).st().current is Some && old(self).st().pool.threads@[(old(
                self,
            ).st().current->0).0 as int] is Some) ==> final(self).st().pool.threads@[(old(
                self,
            ).st().current->0).0 as int] is Some,
    {
        if let Some(st) = self.status.as_mut() {
            st.pool.add(thread);
        }
        proof {
            if self.st().current is Some {
                let id = (self.st().current->0).0;
                let fs = old(self).st().pool.free_slot();
                if self.st().pool.queue().contains(id) {
                    let i = choose|i: int|
                        0 <= i < self.st().pool.queue().len() && self.st().pool.queue()[i] == id;
                    if i < self.st().pool.queue().len() - 1 {
                        assert(self.st().pool.queue()[i] == old(self).st().pool.queue()[i]);
                        assert(old(self).st().pool.queue()[i] == id);
                        assert(old(self).st().pool.queue().contains(id));
                    } else {
                        assert(self.st().pool.queue()[i] == fs);
                        assert(old(self).st().pool.threads@[fs] is None);
                    }
                }
            }
        }
    }

    /// One iteration of the idle loop. First, if a thread just yielded back,
    /// give it to the pool (rescheduling it if it was preempted, dropping it
    /// if it exited). Then dispatch the thread that has waited longest and
    /// switch into it, reporting true; or report false when nothing is
    /// ready, in which case the driver waits for an interrupt and calls
    /// again.
    pub fn idle_main(&mut self, m: &mut Machine) -> (dispatched: bool)
        requires
            old(self).inv(),
            old(self).st().current matches Some((id, th)) ==> th.context.spec_content() is Some,
        ensures
            final(self).inv(),
            final(self).st().idle.stack == old(self).st().idle.stack,
            final(self).st().pool.threads.len() == old(self).st().pool.threads.len(),
            ({
                let cur = old(self).st().current;
                let ts1 = (if cur is Some {
                    retrieve_slots(old(self).st().pool.threads@, (cur->0).0, (cur->0).1)
                } else {
                    old(self).st().pool.threads@
                });
                let q1 = (if cur is Some {
                    retrieve_queue(
                        old(self).st().pool.threads@,
                        old(self).st().pool.queue(),
                        (cur->0).0,
                    )
                } else {
                    old(self).st().pool.queue()
                });
                &&& dispatched == (q1.len() > 0)
                &&& (!dispatched ==> {
                    &&& final(self).st().current is None
                    &&& final(self).st().pool.threads@ == ts1
                    &&& final(self).st().pool.queue() == q1
                    &&& final(self).st().idle == old(self).st().idle
                    &&& *final(m) == *old(m)
                })
                &&& (dispatched ==> {
                    let did = q1[0];
                    let dth = ts1[did as int]->0.thread->0;
                    &&& final(self).st().current matches Some((cid, cth)) && cid == did
                        && cth.context.spec_content() is None && cth.context.content_addr
                        == dth.context.content_addr && cth.stack == dth.stack
                    &&& final(self).st().pool.threads@ == ts1.update(
                        did as int,
                        Some(ThreadInfo { status: ThreadStatus::Running(did), thread: None }),
                    )
                    &&& final(self).st().pool.queue() == q1.skip(1)
                    &&& final(self).st().pool.scheduler.current() == Some(did)
                    &&& final(self).st().pool.scheduler.time_left(did) >= 1
                    &&& final(self).st().idle.context.spec_content() == old(m).cpu
                    &&& final(self).st().idle.context.content_addr == old(
                        self,
                    ).st().idle.context.content_addr
                    &&& final(m).cpu == dth.context.spec_content()
                    &&& final(m).satp == dth.context.spec_content()->0.spec_satp()
                    &&& *final(m) == (Machine {
                        cpu: final(m).cpu,
                        satp: final(m).satp,
                        ..*old(m)
                    })
                })
            }),
    {
        let mut dispatched = false;
        if let Some(st) = self.status.as_mut() {
            if let Some((id, thread)) = st.current.take() {
                st.pool.retrieve(id, thread);
            }
            match st.pool.acquire() {
                Some((id, mut thread)) => {
                    st.idle.switch_to(&mut thread, m);
                    st.current = Some((id, thread));
                    dispatched = true;
                    proof {
                        let q = st.pool.queue();
                        if q.contains(id) {
                            let i = choose|i: int| 0 <= i < q.len() && q[i] == id;
                        }
                    }
                },
                None => {},
            }
        }
        dispatched
    }

    /// A timer tick arrived while a thread may be running: spend one unit
    /// of its quantum; when the quantum is exhausted, switch back to the
    /// idle loop (reported as true, so the driver resumes `idle_main`).
    /// With no current thread the tick is idle-time and nothing changes.
    pub fn tick(&mut self, m: &mut Machine) -> (switched: bool)
        requires
            old(self).inv(),
            old(self).st().current matches Some((id, th)) ==> {
                &&& old(self).st().pool.scheduler.current() == Some(id)
                &&& old(self).st().pool.scheduler.time_left(id) > 0
                &&& old(self).st().idle.context.spec_content() is Some
            },
        ensures
            final(self).inv(),
            old(self).st().current is None ==> !switched && *final(self) == *old(self)
                && *final(m) == *old(m),
            old(self).st().current matches Some((id, th)) ==> {
                &&& final(self).st().pool.scheduler.time_left(id) == old(
                    self,
                ).st().pool.scheduler.time_left(id) - 1
                &&& (switched <==> old(self).st().pool.scheduler.time_left(id) == 1)
                &&& final(self).st().pool.threads == old(self).st().pool.threads
                &&& final(self).st().pool.queue() == old(self).st().pool.queue()
                &&& (!switched ==> *final(m) == *old(m) && final(self).st().current == old(
                    self,
                ).st().current && final(self).st().idle == old(self).st().idle)
                &&& (switched ==> {
                    &&& final(self).st().current matches Some((cid, cth)) && cid == id
                        && cth.context.spec_content() == old(m).cpu && cth.stack == th.stack
                        && cth.context.content_addr == th.context.content_addr
                    &&& final(self).st().idle.context.spec_content() is None
                    &&& final(m).cpu == old(self).st().idle.context.spec_content()
                    &&& final(m).satp == old(
                        self,
                    ).st().idle.context.spec_content()->0.spec_satp()
                    &&& *final(m) == (Machine {
                        cpu: final(m).cpu,
                        satp: final(m).satp,
                        ..*old(m)
                    })
                })
            },
    {
        let mut switched = false;
        if let Some(st) = self.status.as_mut() {
            if st.current.is_some() {
                if st.pool.tick() {
                    switched = true;
                    let flags = crate::interrupt::disable_and_store(m);
                    let (id, mut thread) = match st.current.take() {
                        Some(pair) => pair,
                        None => unreached(),
                    };
                    thread.switch_to(&mut st.idle, m);
                    st.current = Some((id, thread));
                    crate::interrupt::restore(m, flags);
                    proof {
                        assert((2u64 & 2u64) != 0 && (0u64 & 2u64) == 0) by (bit_vector);
                    }
                }
            }
        }
        switched
    }

    /// Put the current thread to sleep: mark its slot sleeping (without
    /// rescheduling it) and switch back to the idle loop. Only a later
    /// `wake_up` makes it ready again. With no current thread nothing
    /// happens.
    pub fn sleep(&mut self, m: &mut Machine)
        requires
            old(self).inv(),
            old(self).st().current matches Some((id, th)) ==> {
                &&& old(self).st().pool.threads[id as int] is Some
                &&& old(self).st().idle.context.spec_content() is Some
            },
        ensures
            final(self).inv(),
            old(self).st().current is None ==> *final(self) == *old(self) && *final(m) == *old(m),
            old(self).st().current matches Some((id, th)) ==> {
                &&& final(self).st().pool.threads@ == old(self).st().pool.threads@.update(
                    id as int,
                    Some(
                        ThreadInfo {
                            status: ThreadStatus::Sleeping,
                            thread: old(self).st().pool.threads@[id as int]->0.thread,
                        },
                    ),
                )
                &&& final(self).st().pool.queue() == old(self).st().pool.queue()
                &&& final(self).st().current matches Some((cid, cth)) && cid == id
                    && cth.context.spec_content() == old(m).cpu && cth.stack == th.stack
                &&& final(self).st().idle.context.spec_content() is None
                &&& final(m).cpu == old(self).st().idle.context.spec_content()
                &&& final(m).satp == old(self).st().idle.context.spec_content()->0.spec_satp()
                &&& *final(m) == (Machine { cpu: final(m).cpu, satp: final(m).satp, ..*old(m) })
            },
    {
        if let Some(st) = self.status.as_mut() {
            if st.current.is_some() {
                let flags = crate::interrupt::disable_and_store(m);
                let tid = match st.current.as_ref() {
                    Some((id, _)) => *id,
                    None => unreached(),
                };
                let info_opt = st.pool.threads[tid].take();
                let mut info = match info_opt {
                    Some(info) => info,
                    None => unreached(),
                };
                info.status = ThreadStatus::Sleeping;
                st.pool.threads[tid] = Some(info);
                proof {
                    assert(st.pool.threads@ =~= old(self).st().pool.threads@.update(
                        tid as int,
                        Some(
                            ThreadInfo {
                                status: ThreadStatus::Sleeping,
                                thread: old(self).st().pool.threads@[tid as int]->0.thread,
                            },
                        ),
                    ));
                    assert forall|i: int|
                        0 <= i < st.pool.queue().len() implies #[trigger] st.pool.slot_ready(
                        st.pool.queue()[i],
                    ) by {
                        assert(old(self).st().pool.slot_ready(old(self).st().pool.queue()[i]));
                        assert(old(self).st().pool.queue()[i] != tid);
                    }
                }
                let (id, mut thread) = match st.current.take() {
                    Some(pair) => pair,
                    None => unreached(),
                };
                thread.switch_to(&mut st.idle, m);
                st.current = Some((id, thread));
                crate::interrupt::restore(m, flags);
                proof {
                    assert((2u64 & 2u64) != 0 && (0u64 & 2u64) == 0) by (bit_vector);
                }
            }
        }
    }

    /// Make a sleeping thread ready again.
    pub fn wake_up(&mut self, id: ThreadID)
        requires
            old(self).inv(),
            id < old(self).st().pool.threads.len(),
            old(self).st().pool.threads[id as int] matches Some(info) && info.status is Sleeping
                && (info.thread matches Some(t) && t.context.spec_content() is Some),
            old(self).st().current matches Some((c, th)) ==> c != id,
        ensures
            final(self).inv(),
            final(self).st().current == old(self).st().current,
            final(self).st().idle == old(self).st().idle,
            final(self).st().pool.threads@ == old(self).st().pool.threads@.update(
                id as int,
                Some(
                    ThreadInfo {
                        status: ThreadStatus::Ready,
                        thread: old(self).st().pool.threads@[id as int]->0.thread,
                    },
                ),
            ),
            final(self).st().pool.queue() == old(self).st().pool.queue().push(id),
    {
        if let Some(st) = self.status.as_mut() {
            st.pool.wake_up(id);
        }
        proof {
            if self.st().current is Some {
                let c = (self.st().current->0).0;
                if self.st().pool.queue().contains(c) {
                    let i = choose|i: int|
                        0 <= i < self.st().pool.queue().len() && self.st().pool.queue()[i] == c;
                    if i < self.st().pool.queue().len() - 1 {
                        assert(old(self).st().pool.queue().contains(c));
                    }
                }
            }
        }
    }

    /// The id of the thread that is running now.
    pub fn current_tid(&self) -> (r: ThreadID)
        requires
            self.initialized(),
            self.st().current is Some,
        ensures
            r == (self.st().current->0).0,
    {
        match &self.status {
            Some(st) => match &st.current {
                Some((id, _)) => *id,
                None => unreached(),
            },
            None => unreached(),
        }
    }

    /// The current thread exits: free its slot, forget it in the scheduler,
    /// and switch back to the idle loop for good. On hardware this call
    /// never returns into the thread; the freed thread object is dropped by
    /// the next `idle_main` iteration.
    pub fn exit(&mut self, code: ExitCode, m: &mut Machine)
        requires
            old(self).inv(),
            old(self).st().current matches Some((id, th)),
            old(self).st().pool.scheduler.current() == Some((old(self).st().current->0).0),
            old(self).st().idle.context.spec_content() is Some,
        ensures
            final(self).inv(),
            ({
                let id = (old(self).st().current->0).0;
                &&& final(self).st().pool.threads@ == old(self).st().pool.threads@.update(
                    id as int,
                    None,
                )
                &&& final(self).st().pool.queue() == old(self).st().pool.queue()
                &&& final(self).st().pool.scheduler.current() is None
                &&& final(self).st().current matches Some((cid, cth)) && cid == id
                    && cth.context.spec_content() == old(m).cpu
                &&& final(self).st().idle.context.spec_content() is None
                &&& final(m).cpu == old(self).st().idle.context.spec_content()
                &&& final(m).satp == old(self).st().idle.context.spec_content()->0.spec_satp()
                &&& *final(m) == (Machine {
                    cpu: final(m).cpu,
                    satp: final(m).satp,
                    sie: false,
                    ..*old(m)
                })
            }),
    {
        crate::interrupt::disable_and_store(m);
        if let Some(st) = self.status.as_mut() {
            let tid = match st.current.as_ref() {
                Some((id, _)) => *id,
                None => unreached(),
            };
            st.pool.exit(tid);
            let (id, mut thread) = match st.current.take() {
                Some(pair) => pair,
                None => unreached(),
            };
            thread.switch_to(&mut st.idle, m);
            st.current = Some((id, thread));
        }
    }
}

} // verus!
