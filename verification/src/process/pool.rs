//! The thread pool: fixed-capacity slots that own the threads, plus the
//! scheduler that decides their run order.

use vstd::prelude::*;
use crate::process::scheduler::{RoundRobinScheduler, Scheduler};
use crate::process::thread::{Thread, ThreadInfo, ThreadStatus};
use crate::process::ThreadID;

verus! {

/// The slot array after a thread is given back: a freed slot swallows the
/// thread; any other slot takes it, and a slot still marked running goes
/// back to ready.
pub open spec fn retrieve_slots(
    threads: Seq<Option<ThreadInfo>>,
    id: ThreadID,
    th: Box<Thread>,
) -> Seq<Option<ThreadInfo>> {
    if threads[id as int] is None {
        threads
    } else {
        let info = threads[id as int]->0;
        if info.status matches ThreadStatus::Running(_) {
            threads.update(
                id as int,
                Some(ThreadInfo { status: ThreadStatus::Ready, thread: Some(th) }),
            )
        } else {
            threads.update(id as int, Some(ThreadInfo { status: info.status, thread: Some(th) }))
        }
    }
}

/// The waiting list after a thread is given back: a slot still marked
/// running is rescheduled at the tail.
pub open spec fn retrieve_queue(
    threads: Seq<Option<ThreadInfo>>,
    q: Seq<ThreadID>,
    id: ThreadID,
) -> Seq<ThreadID> {
    if threads[id as int] matches Some(info) && info.status matches ThreadStatus::Running(_) {
        q.push(id)
    } else {
        q
    }
}

/// Fixed-capacity array of thread slots plus the scheduler. A slot's index
/// is the thread's stable id for its lifetime.
pub struct ThreadPool {
    pub threads: Vec<Option<ThreadInfo>>,
    pub scheduler: RoundRobinScheduler,
}

impl ThreadPool {
    /// The ids waiting to run, in the order the scheduler will hand them
    /// out.
    pub open spec fn queue(self) -> Seq<ThreadID> {
        self.scheduler.queue()
    }

    /// Slot `id` holds a thread that is ready to run.
    pub open spec fn slot_ready(self, id: ThreadID) -> bool {
        &&& id < self.threads.len()
        &&& self.threads[id as int] matches Some(info) && info.status is Ready
            && (info.thread matches Some(t) && t.context.spec_content() is Some)
    }

    /// Pool consistency: every queued id names a distinct, ready slot that
    /// still has quantum left.
    pub open spec fn wf(self) -> bool {
        &&& self.scheduler.wf()
        &&& self.scheduler.quantum() >= 1
        &&& self.threads.len() + 2 <= usize::MAX
        &&& forall|i: int|
            0 <= i < self.queue().len() ==> #[trigger] self.slot_ready(self.queue()[i])
        &&& forall|i: int, j: int|
            0 <= i < j < self.queue().len() ==> self.queue()[i] != self.queue()[j]
        &&& forall|i: int|
            0 <= i < self.queue().len() ==> #[trigger] self.scheduler.time_left(self.queue()[i])
                >= 1
    }

    /// The lowest free slot index.
    pub open spec fn free_slot(self) -> int {
        choose|i: int|
            0 <= i < self.threads.len() && self.threads[i] is None && (forall|j: int|
                0 <= j < i ==> self.threads[j] is Some)
    }

    /// Some slot is still free.
    pub open spec fn has_free_slot(self) -> bool {
        exists|i: int| 0 <= i < self.threads.len() && self.threads[i] is None
    }

    /// A pool of `size` empty slots driven by `scheduler`.
    pub fn new(size: usize, scheduler: RoundRobinScheduler) -> (r: ThreadPool)
        requires
            scheduler.wf(),
            scheduler.quantum() >= 1,
            scheduler.queue().len() == 0,
            size + 2 <= usize::MAX,
        ensures
            r.wf(),
            r.threads.len() == size,
            forall|i: int| 0 <= i < size ==> r.threads[i] is None,
            r.scheduler == scheduler,
            r.queue().len() == 0,
    {
        let mut threads: Vec<Option<ThreadInfo>> = Vec::new();
        let mut index: usize = 0;
        while index < size
            invariant
                index <= size,
                threads.len() == index,
                forall|i: int| 0 <= i < index ==> threads[i] is None,
            decreases size - index,
        {
            threads.push(None);
            index += 1;
        }
        ThreadPool { threads, scheduler }
    }

    /// Whether some slot is still free.
    pub fn has_vacancy(&self) -> (r: bool)
        ensures
            r == self.has_free_slot(),
    {
        let mut index: usize = 0;
        while index < self.threads.len()
            invariant
                index <= self.threads.len(),
                forall|j: int| 0 <= j < index ==> self.threads[j] is Some,
            decreases self.threads.len() - index,
        {
            if self.threads[index].is_none() {
                return true;
            }
            index += 1;
        }
        proof {
            if self.has_free_slot() {
                let i = choose|i: int| 0 <= i < self.threads.len() && self.threads[i] is None;
                assert(self.threads[i] is Some);
            }
        }
        false
    }

    /// The lowest free slot. Slot exhaustion is fatal and excluded by
    /// precondition.
    fn alloc_id(&self) -> (r: ThreadID)
        requires
            self.has_free_slot(),
        ensures
            r == self.free_slot(),
            r < self.threads.len(),
            self.threads[r as int] is None,
            forall|j: int| 0 <= j < r ==> self.threads[j] is Some,
    {
        let mut index: usize = 0;
        while index < self.threads.len()
            invariant
                self.has_free_slot(),
                index <= self.threads.len(),
                forall|j: int| 0 <= j < index ==> self.threads[j] is Some,
            decreases self.threads.len() - index,
        {
            if self.threads[index].is_none() {
                proof {
                    let w = self.free_slot();
                    assert(self.threads[w] is None && (forall|j: int|
                        0 <= j < w ==> self.threads[j] is Some));
                }
                return index;
            }
            index += 1;
        }
        proof {
            let i = choose|i: int| 0 <= i < self.threads.len() && self.threads[i] is None;
            assert(self.threads[i] is Some);
        }
        unreached()
    }

    /// Install `thread` in the lowest free slot, mark it ready and schedule
    /// it.
    pub fn add(&mut self, thread: Box<Thread>)
        requires
            old(self).wf(),
            old(self).has_free_slot(),
            thread.context.spec_content() is Some,
        ensures
            final(self).wf(),
            final(self).threads.len() == old(self).threads.len(),
            0 <= old(self).free_slot() < old(self).threads.len(),
            old(self).threads@[old(self).free_slot()] is None,
            final(self).threads@ == old(self).threads@.update(
                old(self).free_slot(),
                Some(
                    ThreadInfo {
                        status: ThreadStatus::Ready,
                        thread: Some(thread),
                    },
                ),
            ),
            final(self).queue() == old(self).queue().push(old(self).free_slot() as ThreadID),
            final(self).scheduler.current() == old(self).scheduler.current(),
            final(self).scheduler.quantum() == old(self).scheduler.quantum(),
    {
        let id = self.alloc_id();
        self.threads[id] = Some(ThreadInfo { status: ThreadStatus::Ready, thread: Some(thread) });
        proof {
            assert(self.threads@ =~= old(self).threads@.update(
                id as int,
                Some(ThreadInfo { status: ThreadStatus::Ready, thread: Some(thread) }),
            ));
            if old(self).queue().contains(id) {
                let i = choose|i: int|
                    0 <= i < old(self).queue().len() && old(self).queue()[i] == id;
                assert(old(self).slot_ready(old(self).queue()[i]));
            }
            assert(self.queue() == old(self).queue());
        }
        self.scheduler.push(id);
        proof {
            assert forall|i: int|
                0 <= i < self.queue().len() implies #[trigger] self.slot_ready(
                self.queue()[i],
            ) by {
                if i < self.queue().len() - 1 {
                    assert(self.queue()[i] == old(self).queue()[i]);
                    assert(old(self).slot_ready(old(self).queue()[i]));
                } else {
                    assert(self.queue()[i] == id);
                }
            }
            assert forall|i: int, j: int|
                0 <= i < j < self.queue().len() implies self.queue()[i] != self.queue()[j] by {
                if j < self.queue().len() - 1 {
                    assert(self.queue()[i] == old(self).queue()[i]);
                    assert(self.queue()[j] == old(self).queue()[j]);
                } else {
                    assert(self.queue()[j] == id);
                    assert(self.queue()[i] == old(self).queue()[i]);
                    if old(self).queue()[i] == id {
                        assert(old(self).queue().contains(id));
                    }
                }
            }
            assert forall|i: int|
                0 <= i < self.queue().len() implies #[trigger] self.scheduler.time_left(
                self.queue()[i],
            ) >= 1 by {
                if i < self.queue().len() - 1 {
                    assert(self.queue()[i] == old(self).queue()[i]);
                    assert(old(self).scheduler.time_left(old(self).queue()[i]) >= 1);
                    if old(self).queue()[i] == id {
                        assert(old(self).queue().contains(id));
                    }
                } else {
                    assert(self.queue()[i] == id);
                }
            }
        }
    }

    /// Pop the id that has waited longest, mark its slot running, and take
    /// the thread out: exactly one owner (the caller) holds it while it
    /// runs.
    pub fn acquire(&mut self) -> (r: Option<(ThreadID, Box<Thread>)>)
        requires
            old(self).wf(),
        ensures
            final(self).wf(),
            final(self).threads.len() == old(self).threads.len(),
            final(self).scheduler.quantum() == old(self).scheduler.quantum(),
            forall|j: ThreadID|
                final(self).scheduler.time_left(j) == old(self).scheduler.time_left(j),
            old(self).queue().len() == 0 ==> r is None && *final(self) == *old(self),
            old(self).queue().len() > 0 ==> (r matches Some((id, th)) && {
                &&& id == old(self).queue()[0]
                &&& id < old(self).threads.len()
                &&& old(self).threads[id as int] matches Some(info) && info.thread == Some(th)
                &&& th.context.spec_content() is Some
                &&& final(self).threads@ == old(self).threads@.update(
                    id as int,
                    Some(ThreadInfo { status: ThreadStatus::Running(id), thread: None }),
                )
                &&& final(self).queue() == old(self).queue().skip(1)
                &&& final(self).scheduler.current() == Some(id)
                &&& old(self).scheduler.time_left(id) >= 1
            }),
    {
        proof {
            if old(self).queue().len() > 0 {
                assert(old(self).slot_ready(old(self).queue()[0]));
            }
        }
        match self.scheduler.pop() {
            Some(id) => {
                let info_opt = self.threads[id].take();
                let mut info = match info_opt {
                    Some(info) => info,
                    None => unreached(),
                };
                let thread = match info.thread.take() {
                    Some(t) => t,
                    None => unreached(),
                };
                info.status = ThreadStatus::Running(id);
                self.threads[id] = Some(info);
                proof {
                    assert(self.threads@ =~= old(self).threads@.update(
                        id as int,
                        Some(ThreadInfo { status: ThreadStatus::Running(id), thread: None }),
                    ));
                    assert forall|i: int|
                        0 <= i < self.queue().len() implies #[trigger] self.slot_ready(
                        self.queue()[i],
                    ) by {
                        assert(self.queue()[i] == old(self).queue()[i + 1]);
                        assert(old(self).slot_ready(old(self).queue()[i + 1]));
                        assert(old(self).queue()[i + 1] != id);
                    }
                }
                Some((id, thread))
            },
            None => None,
        }
    }

    /// Give a thread back after its run segment. If the slot still exists,
    /// the thread is reinstalled; a slot that was still marked running goes
    /// back to ready and is rescheduled. If the slot was freed by an exit,
    /// the thread is dropped.
    pub fn retrieve(&mut self, id: ThreadID, thread: Box<Thread>)
        requires
            old(self).wf(),
            id < old(self).threads.len(),
            !old(self).queue().contains(id),
            thread.context.spec_content() is Some,
        ensures
            final(self).wf(),
            final(self).threads.len() == old(self).threads.len(),
            final(self).scheduler.quantum() == old(self).scheduler.quantum(),
            old(self).threads[id as int] is None ==> *final(self) == *old(self),
            final(self).threads@ == retrieve_slots(old(self).threads@, id, thread),
            final(self).queue() == retrieve_queue(old(self).threads@, old(self).queue(), id),
            final(self).scheduler.current() == old(self).scheduler.current(),
            forall|j: ThreadID|
                j != id ==> final(self).scheduler.time_left(j) == old(self).scheduler.time_left(
                    j,
                ),
            final(self).scheduler.time_left(id) >= old(self).scheduler.time_left(id),
    {
        if self.threads[id].is_none() {
            return;
        }
        let info_opt = self.threads[id].take();
        let mut info = match info_opt {
            Some(info) => info,
            None => unreached(),
        };
        info.thread = Some(thread);
        let was_running = matches!(info.status, ThreadStatus::Running(_));
        if was_running {
            info.status = ThreadStatus::Ready;
        }
        self.threads[id] = Some(info);
        proof {
            assert(self.threads@ =~= old(self).threads@.update(
                id as int,
                self.threads@[id as int],
            ));
            assert forall|i: int|
                0 <= i < self.queue().len() implies #[trigger] self.slot_ready(
                self.queue()[i],
            ) by {
                assert(old(self).slot_ready(old(self).queue()[i]));
                assert(old(self).queue()[i] != id);
            }
        }
        if was_running {
            self.scheduler.push(id);
            proof {
                assert forall|i: int|
                    0 <= i < self.queue().len() implies #[trigger] self.slot_ready(
                    self.queue()[i],
                ) by {
                    if i < self.queue().len() - 1 {
                        assert(self.queue()[i] == old(self).queue()[i]);
                        assert(old(self).slot_ready(old(self).queue()[i]));
                        assert(old(self).queue()[i] != id);
                    } else {
                        assert(self.queue()[i] == id);
                    }
                }
                assert forall|i: int, j: int|
                    0 <= i < j < self.queue().len() implies self.queue()[i] != self.queue()[j] by {
                    if j < self.queue().len() - 1 {
                        assert(self.queue()[i] == old(self).queue()[i]);
                        assert(self.queue()[j] == old(self).queue()[j]);
                    } else {
                        assert(self.queue()[j] == id);
                        assert(self.queue()[i] == old(self).queue()[i]);
                        if old(self).queue()[i] == id {
                                assert(old(self).queue().contains(id));
                        }
                    }
                }
                assert forall|i: int|
                    0 <= i < self.queue().len() implies #[trigger] self.scheduler.time_left(
                    self.queue()[i],
                ) >= 1 by {
                    if i < self.queue().len() - 1 {
                        assert(self.queue()[i] == old(self).queue()[i]);
                        assert(old(self).scheduler.time_left(old(self).queue()[i]) >= 1);
                        if old(self).queue()[i] == id {
                                assert(old(self).queue().contains(id));
                        }
                    } else {
                        assert(self.queue()[i] == id);
                    }
                }
            }
        } else {
            proof {
                assert(self.queue() == old(self).queue());
                assert forall|i: int|
                    0 <= i < self.queue().len() implies #[trigger] self.slot_ready(
                    self.queue()[i],
                ) by {
                    assert(old(self).slot_ready(old(self).queue()[i]));
                    assert(old(self).queue()[i] != id);
                }
                assert forall|i: int|
                    0 <= i < self.queue().len() implies #[trigger] self.scheduler.time_left(
                    self.queue()[i],
                ) >= 1 by {
                    assert(old(self).scheduler.time_left(old(self).queue()[i]) >= 1);
                }
            }
        }
    }

    /// One timer tick, delegated to the scheduler: true exactly when the
    /// caller must switch away from the current thread.
    pub fn tick(&mut self) -> (r: bool)
        requires
            old(self).wf(),
            old(self).scheduler.current() matches Some(c) ==> old(self).scheduler.time_left(c) > 0
                && !old(self).queue().contains(c),
        ensures
            final(self).wf(),
            final(self).threads == old(self).threads,
            final(self).queue() == old(self).queue(),
            final(self).scheduler.current() == old(self).scheduler.current(),
            final(self).scheduler.quantum() == old(self).scheduler.quantum(),
            old(self).scheduler.current() is None ==> r && final(self).scheduler == old(
                self,
            ).scheduler,
            old(self).scheduler.current() matches Some(c) ==> {
                &&& final(self).scheduler.time_left(c) == old(self).scheduler.time_left(c) - 1
                &&& (r <==> old(self).scheduler.time_left(c) == 1)
                &&& forall|j: ThreadID|
                    j != c ==> final(self).scheduler.time_left(j) == old(self).scheduler.time_left(
                        j,
                    )
            },
    {
        let r = self.scheduler.tick();
        proof {
            assert(self.queue() == old(self).queue());
            assert forall|i: int|
                0 <= i < self.queue().len() implies #[trigger] self.slot_ready(
                self.queue()[i],
            ) by {
                assert(old(self).slot_ready(old(self).queue()[i]));
            }
            if old(self).scheduler.current() is Some {
                let c = old(self).scheduler.current()->0;
                assert forall|i: int|
                    0 <= i < self.queue().len() implies #[trigger] self.scheduler.time_left(
                    self.queue()[i],
                ) >= 1 by {
                    assert(old(self).scheduler.time_left(old(self).queue()[i]) >= 1);
                    assert(self.queue()[i] != c);
                }
            } else {
                assert forall|i: int|
                    0 <= i < self.queue().len() implies #[trigger] self.scheduler.time_left(
                    self.queue()[i],
                ) >= 1 by {
                    assert(old(self).scheduler.time_left(old(self).queue()[i]) >= 1);
                }
            }
        }
        r
    }

    /// Make a sleeping thread ready again and schedule it. Waking a freed
    /// or running slot is a programming error, excluded by precondition.
    pub fn wake_up(&mut self, id: ThreadID)
        requires
            old(self).wf(),
            id < old(self).threads.len(),
            old(self).threads[id as int] matches Some(info) && info.status is Sleeping && (
            info.thread matches Some(t) && t.context.spec_content() is Some),
        ensures
            final(self).wf(),
            final(self).threads.len() == old(self).threads.len(),
            final(self).threads@ == old(self).threads@.update(
                id as int,
                Some(
                    ThreadInfo {
                        status: ThreadStatus::Ready,
                        thread: old(self).threads[id as int]->0.thread,
                    },
                ),
            ),
            final(self).queue() == old(self).queue().push(id),
            final(self).scheduler.current() == old(self).scheduler.current(),
            final(self).scheduler.quantum() == old(self).scheduler.quantum(),
    {
        proof {
            if self.queue().contains(id) {
                let i = choose|i: int| 0 <= i < self.queue().len() && self.queue()[i] == id;
                assert(old(self).slot_ready(self.queue()[i]));
            }
        }
        let info_opt = self.threads[id].take();
        let mut info = match info_opt {
            Some(info) => info,
            None => unreached(),
        };
        info.status = ThreadStatus::Ready;
        self.threads[id] = Some(info);
        proof {
            assert(self.threads@ =~= old(self).threads@.update(
                id as int,
                Some(
                    ThreadInfo {
                        status: ThreadStatus::Ready,
                        thread: old(self).threads@[id as int]->0.thread,
                    },
                ),
            ));
            if old(self).queue().contains(id) {
                let i = choose|i: int|
                    0 <= i < old(self).queue().len() && old(self).queue()[i] == id;
                assert(old(self).slot_ready(old(self).queue()[i]));
            }
        }
        self.scheduler.push(id);
        proof {
            assert forall|i: int|
                0 <= i < self.queue().len() implies #[trigger] self.slot_ready(
                self.queue()[i],
            ) by {
                if i < self.queue().len() - 1 {
                    assert(self.queue()[i] == old(self).queue()[i]);
                    assert(old(self).slot_ready(old(self).queue()[i]));
                    assert(old(self).queue()[i] != id);
                } else {
                    assert(self.queue()[i] == id);
                }
            }
            assert forall|i: int, j: int|
                0 <= i < j < self.queue().len() implies self.queue()[i] != self.queue()[j] by {
                if j < self.queue().len() - 1 {
                    assert(self.queue()[i] == old(self).queue()[i]);
                    assert(self.queue()[j] == old(self).queue()[j]);
                } else {
                    assert(self.queue()[j] == id);
                    assert(self.queue()[i] == old(self).queue()[i]);
                    if old(self).queue()[i] == id {
                        assert(old(self).queue().contains(id));
                    }
                }
            }
            assert forall|i: int|
                0 <= i < self.queue().len() implies #[trigger] self.scheduler.time_left(
                self.queue()[i],
            ) >= 1 by {
                if i < self.queue().len() - 1 {
                    assert(self.queue()[i] == old(self).queue()[i]);
                    assert(old(self).scheduler.time_left(old(self).queue()[i]) >= 1);
                    if old(self).queue()[i] == id {
                        assert(old(self).queue().contains(id));
                    }
                } else {
                    assert(self.queue()[i] == id);
                }
            }
        }
    }

    /// Free the slot of an exiting thread and tell the scheduler. The slot
    /// index will be reused by a later `add`; the scheduler never hands the
    /// id out again until then.
    pub fn exit(&mut self, id: ThreadID)
        requires
            old(self).wf(),
            id < old(self).threads.len(),
            !old(self).queue().contains(id),
        ensures
            final(self).wf(),
            final(self).threads.len() == old(self).threads.len(),
            final(self).threads@ == old(self).threads@.update(id as int, None),
            final(self).queue() == old(self).queue(),
            final(self).scheduler.quantum() == old(self).scheduler.quantum(),
            final(self).scheduler.current() == (if old(self).scheduler.current() == Some(id) {
                None
            } else {
                old(self).scheduler.current()
            }),
    {
        self.threads[id] = None;
        self.scheduler.exit(id);
        proof {
            assert(self.threads@ =~= old(self).threads@.update(id as int, None));
            assert(self.queue() == old(self).queue());
            assert forall|i: int|
                0 <= i < self.queue().len() implies #[trigger] self.slot_ready(
                self.queue()[i],
            ) by {
                assert(old(self).slot_ready(old(self).queue()[i]));
                assert(old(self).queue()[i] != id);
            }
            assert forall|i: int|
                0 <= i < self.queue().len() implies #[trigger] self.scheduler.time_left(
                self.queue()[i],
            ) >= 1 by {
                assert(old(self).scheduler.time_left(old(self).queue()[i]) >= 1);
            }
        }
    }
}

/// An id that is out of the waiting list stays out: popping the head keeps
/// it out, and pushing any other id keeps it out. Together with `exit`
/// (which frees the slot and leaves the list unchanged), an exited id is
/// never selected again until a later `add` reuses its slot.
pub proof fn lemma_exited_never_selected(q: Seq<ThreadID>, id: ThreadID, j: ThreadID)
    requires
        !q.contains(id),
        j != id,
    ensures
        forall|i: int| 0 <= i < q.len() ==> q[i] != id,
        q.len() > 0 ==> q[0] != id && !q.skip(1).contains(id),
        !q.push(j).contains(id),
{
    assert forall|i: int| 0 <= i < q.len() implies q[i] != id by {
        if q[i] == id {
            assert(q.contains(id));
        }
    }
    if q.len() > 0 {
        if q.skip(1).contains(id) {
            let i = choose|i: int| 0 <= i < q.skip(1).len() && q.skip(1)[i] == id;
            assert(q[i + 1] == id);
        }
    }
    if q.push(j).contains(id) {
        let i = choose|i: int| 0 <= i < q.push(j).len() && q.push(j)[i] == id;
        assert(0 <= i < q.len() ==> q[i] == id);
    }
}

} // verus!
