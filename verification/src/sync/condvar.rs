//! A condition variable: a queue of threads waiting for some condition.

use vstd::prelude::*;
use crate::machine::Machine;
use crate::process::processor::Processor;
use crate::process::thread::ThreadStatus;
use crate::process::ThreadID;

verus! {

/// A wait queue. `wait` parks the calling thread until a `notify` wakes the
/// thread that has waited longest.
pub struct Condvar {
    queue: Vec<ThreadID>,
}

impl Condvar {
    /// The ids waiting, in arrival order.
    pub closed spec fn spec_queue(self) -> Seq<ThreadID> {
        self.queue@
    }

    /// The thread at the queue's head is asleep in the pool with its state
    /// saved, and is not the one running now, so `notify` may wake it.
    pub open spec fn can_notify(self, p: Processor) -> bool {
        self.spec_queue().len() > 0 ==> {
            let id = self.spec_queue()[0];
            &&& id < p.st().pool.threads.len()
            &&& p.st().pool.threads@[id as int] matches Some(info) && info.status is Sleeping
                && (info.thread matches Some(t) && t.context.spec_content() is Some)
            &&& (p.st().current matches Some((c, th)) ==> c != id)
        }
    }

    /// An empty wait queue.
    pub fn new() -> (r: Condvar)
        ensures
            r.spec_queue() == Seq::<ThreadID>::empty(),
    {
        Condvar { queue: Vec::new() }
    }

    /// Park the calling thread on this queue until some condition holds:
    /// record it and put it to sleep.
    pub fn wait(&mut self, p: &mut Processor, m: &mut Machine)
        requires
            p == old(p),
            old(p).inv(),
            old(p).st().current is Some,
            old(p).st().pool.threads@[(old(p).st().current->0).0 as int] is Some,
            old(p).st().idle.context.spec_content() is Some,
        ensures
            final(self).spec_queue() == old(self).spec_queue().push(
                (old(p).st().current->0).0,
            ),
            final(p).inv(),
            ({
                let id = (old(p).st().current->0).0;
                &&& final(p).st().pool.threads@ == old(p).st().pool.threads@.update(
                    id as int,
                    Some(
                        crate::process::thread::ThreadInfo {
                            status: ThreadStatus::Sleeping,
                            thread: old(p).st().pool.threads@[id as int]->0.thread,
                        },
                    ),
                )
                &&& final(p).st().pool.queue() == old(p).st().pool.queue()
                &&& final(m).cpu == old(p).st().idle.context.spec_content()
            }),
    {
        let tid = p.current_tid();
        self.queue.push(tid);
        p.sleep(m);
    }

    /// The condition holds: wake the thread that has waited longest, if any.
    pub fn notify(&mut self, p: &mut Processor)
        requires
            old(p).inv(),
            old(self).can_notify(*old(p)),
        ensures
            final(p).inv(),
            old(self).spec_queue().len() == 0 ==> *final(self) == *old(self) && *final(p) == *old(
                p,
            ),
            old(self).spec_queue().len() > 0 ==> {
                &&& final(self).spec_queue() == old(self).spec_queue().skip(1)
                &&& final(p).st().pool.queue() == old(p).st().pool.queue().push(
                    old(self).spec_queue()[0],
                )
                &&& final(p).st().current == old(p).st().current
            },
    {
        if self.queue.len() > 0 {
            let id = self.queue.remove(0);
            proof {
                assert(self.queue@ =~= old(self).spec_queue().skip(1));
            }
            p.wake_up(id);
        }
    }
}

} // verus!
