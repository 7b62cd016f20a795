//! The global line-buffered console input queue that `sys_read` drains.

use vstd::prelude::*;
use crate::machine::Machine;
use crate::process::processor::Processor;
use crate::sync::condvar::Condvar;

verus! {

/// Buffered console input: bytes the serial interrupt pushed and readers
/// have not yet drained, plus the queue of threads waiting for input.
pub struct Stdin {
    buf: Vec<u8>,
    pushed: Condvar,
}

impl Stdin {
    /// The buffered bytes, oldest first.
    pub closed spec fn spec_buf(self) -> Seq<u8> {
        self.buf@
    }

    /// The threads waiting for input.
    pub closed spec fn spec_waiters(self) -> Seq<crate::process::ThreadID> {
        self.pushed.spec_queue()
    }

    /// The head waiter, if any, can be woken.
    pub open spec fn can_push(self, p: Processor) -> bool {
        self.spec_waiters().len() > 0 ==> {
            let id = self.spec_waiters()[0];
            &&& id < p.st().pool.threads.len()
            &&& p.st().pool.threads@[id as int] matches Some(info) && info.status is Sleeping
                && (info.thread matches Some(t) && t.context.spec_content() is Some)
            &&& (p.st().current matches Some((c, th)) ==> c != id)
        }
    }

    /// An empty input queue.
    pub fn new() -> (r: Stdin)
        ensures
            r.spec_buf() == Seq::<u8>::empty(),
            r.spec_waiters() == Seq::<crate::process::ThreadID>::empty(),
    {
        Stdin { buf: Vec::new(), pushed: Condvar::new() }
    }

    /// Queue one received byte and wake the longest waiter, if any.
    pub fn push(&mut self, ch: u8, p: &mut Processor)
        requires
            old(p).inv(),
            old(self).can_push(*old(p)),
        ensures
            final(p).inv(),
            final(self).spec_buf() == old(self).spec_buf().push(ch),
            old(self).spec_waiters().len() == 0 ==> final(self).spec_waiters() == old(
                self,
            ).spec_waiters() && *final(p) == *old(p),
            old(self).spec_waiters().len() > 0 ==> {
                &&& final(self).spec_waiters() == old(self).spec_waiters().skip(1)
                &&& final(p).st().pool.queue() == old(p).st().pool.queue().push(
                    old(self).spec_waiters()[0],
                )
            },
    {
        self.buf.push(ch);
        self.pushed.notify(p);
    }

    /// Drain the oldest buffered byte. A reader that finds the buffer empty
    /// parks itself with `wait` until the serial interrupt pushes more.
    pub fn pop(&mut self) -> (r: Option<u8>)
        ensures
            old(self).spec_buf().len() == 0 ==> r is None && *final(self) == *old(self),
            old(self).spec_buf().len() > 0 ==> {
                &&& r == Some(old(self).spec_buf()[0])
                &&& final(self).spec_buf() == old(self).spec_buf().skip(1)
                &&& final(self).spec_waiters() == old(self).spec_waiters()
            },
    {
        if self.buf.len() > 0 {
            let b = self.buf.remove(0);
            proof {
                assert(self.buf@ =~= old(self).spec_buf().skip(1));
            }
            Some(b)
        } else {
            None
        }
    }

    /// Park the calling thread until input arrives.
    pub fn wait(&mut self, p: &mut Processor, m: &mut Machine)
        requires
            p == old(p),
            old(p).inv(),
            old(p).st().current is Some,
            old(p).st().pool.threads@[(old(p).st().current->0).0 as int] is Some,
            old(p).st().idle.context.spec_content() is Some,
        ensures
            final(p).inv(),
            final(self).spec_buf() == old(self).spec_buf(),
            final(self).spec_waiters() == old(self).spec_waiters().push(
                (old(p).st().current->0).0,
            ),
    {
        self.pushed.wait(p, m);
    }
}

} // verus!
