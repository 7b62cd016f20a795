//! The scheduler: who runs next, and for how long.

use vstd::prelude::*;
use crate::process::ThreadID;

verus! {

/// A scheduling policy over thread ids.
///
/// `queue` abstracts the waiting ids in the order they will be handed out;
/// `current` is the id dispatched by the last `pop`; `time_left` is each
/// thread's remaining quantum and `quantum` the configured maximum.
pub trait Scheduler: Sized {
    /// Waiting ids, in the order they will be popped.
    spec fn queue(&self) -> Seq<ThreadID>;

    /// The id dispatched by the last `pop`, while it is still current.
    spec fn current(&self) -> Option<ThreadID>;

    /// Remaining quantum of thread `id`.
    spec fn time_left(&self, id: ThreadID) -> int;

    /// The configured quantum.
    spec fn quantum(&self) -> int;

    /// Internal consistency.
    spec fn wf(&self) -> bool;

    /// Add `id` to the waiting list, at the tail. A thread whose quantum is
    /// exhausted gets a fresh quantum; one re-pushed mid-quantum keeps its
    /// remaining time.
    fn push(&mut self, id: ThreadID)
        requires
            old(self).wf(),
            !old(self).queue().contains(id),
            id + 2 <= usize::MAX,
        ensures
            final(self).wf(),
            final(self).queue() == old(self).queue().push(id),
            final(self).current() == old(self).current(),
            final(self).quantum() == old(self).quantum(),
            final(self).time_left(id) == (if old(self).time_left(id) == 0 {
                old(self).quantum()
            } else {
                old(self).time_left(id)
            }),
            old(self).quantum() >= 1 ==> final(self).time_left(id) >= 1,
            forall|j: ThreadID| j != id ==> final(self).time_left(j) == old(self).time_left(j),
    ;

    /// Hand out the id that has waited longest (FIFO), recording it as
    /// current; or report an empty list.
    fn pop(&mut self) -> (r: Option<ThreadID>)
        requires
            old(self).wf(),
        ensures
            final(self).wf(),
            final(self).quantum() == old(self).quantum(),
            forall|j: ThreadID| final(self).time_left(j) == old(self).time_left(j),
            old(self).queue().len() == 0 ==> r is None && *final(self) == *old(self),
            old(self).queue().len() > 0 ==> {
                &&& r == Some(old(self).queue()[0])
                &&& final(self).queue() == old(self).queue().skip(1)
                &&& final(self).current() == Some(old(self).queue()[0])
            },
    ;

    /// One timer tick: spend one unit of the current thread's quantum.
    /// Reports whether the caller must switch — exactly when the quantum
    /// reaches zero, or unconditionally when nothing is current (idle).
    fn tick(&mut self) -> (r: bool)
        requires
            old(self).wf(),
            old(self).current() matches Some(c) ==> old(self).time_left(c) > 0,
        ensures
            final(self).wf(),
            final(self).queue() == old(self).queue(),
            final(self).current() == old(self).current(),
            final(self).quantum() == old(self).quantum(),
            old(self).current() is None ==> r && *final(self) == *old(self),
            old(self).current() matches Some(c) ==> {
                &&& final(self).time_left(c) == old(self).time_left(c) - 1
                &&& (r <==> old(self).time_left(c) == 1)
                &&& forall|j: ThreadID|
                    j != c ==> final(self).time_left(j) == old(self).time_left(j)
            },
    ;

    /// Thread `id` is exiting: forget it as current.
    fn exit(&mut self, id: ThreadID)
        requires
            old(self).wf(),
            id + 1 <= usize::MAX,
        ensures
            final(self).wf(),
            final(self).queue() == old(self).queue(),
            final(self).quantum() == old(self).quantum(),
            forall|j: ThreadID| final(self).time_left(j) == old(self).time_left(j),
            final(self).current() == (if old(self).current() == Some(id) {
                None
            } else {
                old(self).current()
            }),
            old(self).current() != Some(id) ==> *final(self) == *old(self),
    ;
}

/// Per-slot bookkeeping of the round-robin ring: remaining quantum and the
/// neighbouring slots. Slot 0 is the sentinel head and tail of the ring.
#[derive(Clone, Copy)]
struct RoundRobinInfo {
    valid: bool,
    time: usize,
    prev: usize,
    next: usize,
}

/// Fixed-quantum round-robin scheduling over an array-backed circular
/// doubly-linked ring. Internal slot `id + 1` stands for thread `id`; slot 0
/// is the sentinel. The ghost `ring` lists the occupied internal slots in
/// FIFO order and abstracts the `prev`/`next` links.
pub struct RoundRobinScheduler {
    threads: Vec<RoundRobinInfo>,
    max_time: usize,
    current: usize,
    ring: Ghost<Seq<usize>>,
}

impl RoundRobinScheduler {
    /// A scheduler with quantum `max_time` and an empty ring.
    pub fn new(max_time: usize) -> (r: RoundRobinScheduler)
        requires
            max_time >= 1,
        ensures
            r.wf(),
            r.queue() == Seq::<ThreadID>::empty(),
            r.current() is None,
            r.quantum() == max_time,
            forall|j: ThreadID| r.time_left(j) == 0,
    {
        let mut threads: Vec<RoundRobinInfo> = Vec::new();
        threads.push(RoundRobinInfo { valid: false, time: 0, prev: 0, next: 0 });
        let r = RoundRobinScheduler { threads, max_time, current: 0, ring: Ghost(Seq::empty()) };
        proof {
            assert(r.queue() =~= Seq::<ThreadID>::empty());
        }
        r
    }
}

impl Scheduler for RoundRobinScheduler {
    closed spec fn queue(&self) -> Seq<ThreadID> {
        self.ring@.map_values(|v: usize| (v - 1) as usize)
    }

    closed spec fn current(&self) -> Option<ThreadID> {
        if self.current == 0 {
            None
        } else {
            Some((self.current - 1) as usize)
        }
    }

    closed spec fn time_left(&self, id: ThreadID) -> int {
        if id + 1 < self.threads.len() {
            self.threads[id + 1].time as int
        } else {
            0
        }
    }

    closed spec fn quantum(&self) -> int {
        self.max_time as int
    }

    closed spec fn wf(&self) -> bool {
        let t = self.threads@;
        let ring = self.ring@;
        let k = ring.len() as int;
        &&& 1 <= t.len()
        &&& self.max_time >= 1
        &&& self.current < t.len()
        &&& forall|i: int| 0 <= i < k ==> 1 <= #[trigger] ring[i] < t.len()
        &&& forall|i: int, j: int| 0 <= i < j < k ==> ring[i] != ring[j]
        &&& t[0].next == (if k > 0 {
            ring[0]
        } else {
            0
        })
        &&& t[0].prev == (if k > 0 {
            ring[k - 1]
        } else {
            0
        })
        &&& forall|i: int|
            0 <= i < k ==> #[trigger] t[ring[i] as int].next == (if i < k - 1 {
                ring[i + 1]
            } else {
                0
            })
        &&& forall|i: int|
            0 <= i < k ==> #[trigger] t[ring[i] as int].prev == (if i > 0 {
                ring[i - 1]
            } else {
                0
            })
    }

    fn push(&mut self, id: ThreadID) {
        let iid = id + 1;
        if iid + 1 > self.threads.len() {
            self.threads.resize(
                iid + 1,
                RoundRobinInfo { valid: false, time: 0, prev: 0, next: 0 },
            );
        }
        if self.threads[iid].time == 0 {
            self.threads[iid].time = self.max_time;
        }
        let prev = self.threads[0].prev;
        let ghost ring = self.ring@;
        let ghost k = ring.len() as int;
        proof {
            assert forall|i: int| 0 <= i < k implies ring[i] != iid by {
                if ring[i] == iid {
                    assert(old(self).queue()[i] == id);
                    assert(old(self).queue().contains(id));
                }
            }
            if k > 0 {
                assert(ring[k - 1] == prev);
                assert(prev != iid && prev >= 1);
            }
        }
        let ghost pre = self.threads@;
        self.threads[iid].valid = true;
        self.threads[prev].next = iid;
        self.threads[iid].prev = prev;
        self.threads[0].prev = iid;
        self.threads[iid].next = 0;
        proof {
            self.ring@ = self.ring@.push(iid);
            let t = self.threads@;
            assert(t[iid as int].next == 0 && t[iid as int].prev == prev);
            assert(t[0].prev == iid);
            if k > 0 {
                assert(t[ring[k - 1] as int].next == iid);
            } else {
                assert(t[0].next == iid);
            }
            assert forall|i: int| 0 <= i < k implies ring[i] != iid && 1 <= ring[i]
                < t.len() by {
                assert(pre[ring[i] as int] == old(self).threads@[ring[i] as int]);
            }
            assert forall|i: int|
                0 <= i < self.ring@.len() implies #[trigger] t[self.ring@[i] as int].next == (
            if i < self.ring@.len() - 1 {
                self.ring@[i + 1]
            } else {
                0
            }) by {
                if i < k {
                    assert(self.ring@[i] == ring[i]);
                } else {
                    assert(self.ring@[i] == iid);
                }
                if i < k - 1 {
                    assert(self.ring@[i + 1] == ring[i + 1]);
                    assert(ring[i] != ring[k - 1]);
                    assert(t[ring[i] as int] == pre[ring[i] as int]);
                    assert(pre[ring[i] as int] == old(self).threads@[ring[i] as int]);
                    assert(old(self).threads@[ring[i] as int].next == ring[i + 1]);
                } else if i == k - 1 && k > 0 {
                    assert(self.ring@[i + 1] == iid);
                    assert(t[ring[k - 1] as int].next == iid);
                }
            }
            assert forall|i: int|
                0 <= i < self.ring@.len() implies #[trigger] t[self.ring@[i] as int].prev == (
            if i > 0 {
                self.ring@[i - 1]
            } else {
                0
            }) by {
                if i < k {
                    assert(self.ring@[i] == ring[i]);
                    assert(ring[i] != iid);
                    if ring[i] == prev {
                        assert(t[ring[i] as int].prev == pre[ring[i] as int].prev);
                    } else {
                        assert(t[ring[i] as int] == pre[ring[i] as int]);
                    }
                    assert(pre[ring[i] as int] == old(self).threads@[ring[i] as int]);
                    if i > 0 {
                        assert(self.ring@[i - 1] == ring[i - 1]);
                        assert(old(self).threads@[ring[i] as int].prev == ring[i - 1]);
                    } else {
                        assert(old(self).threads@[ring[i] as int].prev == 0);
                    }
                } else {
                    assert(self.ring@[i] == iid);
                    assert(t[iid as int].prev == prev);
                    if k > 0 {
                        assert(self.ring@[i - 1] == ring[k - 1] && prev == ring[k - 1]);
                    }
                }
            }
            assert(final(self).queue() =~= old(self).queue().push(id));
        }
    }

    fn pop(&mut self) -> (r: Option<ThreadID>) {
        let ret = self.threads[0].next;
        if ret != 0 {
            proof {
                assert(self.ring@.len() > 0 && self.ring@[0] == ret);
            }
            let next = self.threads[ret].next;
            let prev = self.threads[ret].prev;
            proof {
                assert(prev == 0);
                if self.ring@.len() > 1 {
                    assert(next == self.ring@[1]);
                } else {
                    assert(next == 0);
                }
            }
            self.threads[next].prev = prev;
            self.threads[prev].next = next;
            self.threads[ret].prev = 0;
            self.threads[ret].next = 0;
            self.threads[ret].valid = false;
            self.current = ret;
            proof {
                self.ring@ = self.ring@.skip(1);
                assert(final(self).queue() =~= old(self).queue().skip(1));
            }
            Some(ret - 1)
        } else {
            proof {
                assert(self.ring@.len() == 0);
                assert(final(self).queue() =~= old(self).queue());
            }
            None
        }
    }

    fn tick(&mut self) -> (r: bool) {
        let id = self.current;
        if id != 0 {
            self.threads[id].time = self.threads[id].time - 1;
            return self.threads[id].time == 0;
        }
        true
    }

    fn exit(&mut self, id: ThreadID) {
        let iid = id + 1;
        if self.current == iid {
            self.current = 0;
        }
    }
}

} // verus!
