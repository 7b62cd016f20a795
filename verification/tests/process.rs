use rcore_os::consts::KERNEL_STACK_SIZE;
use rcore_os::machine::Machine;
use rcore_os::process::pool::ThreadPool;
use rcore_os::process::scheduler::{RoundRobinScheduler, Scheduler};
use rcore_os::process::stack::KernelStack;
use rcore_os::process::thread::Thread;
use rcore_os::process::{self, ThreadID};

#[test]
fn round_robin_fifo_and_quantum() {
    let mut s = RoundRobinScheduler::new(2);
    s.push(1);
    s.push(2);
    s.push(3);
    assert_eq!(s.pop(), Some(1));
    // Thread 1 is current with quantum 2: the first tick does not preempt,
    // the second does.
    assert!(!s.tick());
    assert!(s.tick());
    // Re-pushed after exhaustion, 1 queues behind 2 and 3.
    s.push(1);
    assert_eq!(s.pop(), Some(2));
    assert_eq!(s.pop(), Some(3));
    assert_eq!(s.pop(), Some(1));
    assert_eq!(s.pop(), None);
}

#[test]
fn round_robin_keeps_remaining_quantum_on_voluntary_yield() {
    let mut s = RoundRobinScheduler::new(3);
    s.push(7);
    assert_eq!(s.pop(), Some(7));
    assert!(!s.tick());
    // Yield mid-quantum: the remaining time survives the re-push.
    s.push(7);
    assert_eq!(s.pop(), Some(7));
    assert!(!s.tick());
    assert!(s.tick());
}

#[test]
fn round_robin_idle_tick_asks_for_switch() {
    let mut s = RoundRobinScheduler::new(2);
    assert!(s.tick());
    s.push(4);
    assert_eq!(s.pop(), Some(4));
    s.exit(4);
    assert!(s.tick());
}

#[test]
fn round_robin_exit_clears_current() {
    let mut s = RoundRobinScheduler::new(2);
    s.push(0);
    s.push(5);
    assert_eq!(s.pop(), Some(0));
    s.exit(0);
    assert_eq!(s.pop(), Some(5));
    s.exit(9);
    assert_eq!(s.pop(), None);
}

fn machine() -> Machine {
    Machine::new()
}

#[test]
fn kernel_stacks_are_aligned_and_disjoint() {
    let mut m = machine();
    let s1 = KernelStack::new(&mut m);
    let s2 = KernelStack::new(&mut m);
    assert_eq!(s1.top() % KERNEL_STACK_SIZE, 0);
    assert_eq!(s2.top() % KERNEL_STACK_SIZE, 0);
    assert!(s2.top() >= s1.top() + KERNEL_STACK_SIZE);
    let empty = KernelStack::new_empty();
    assert_eq!(empty.top(), KERNEL_STACK_SIZE);
}

#[test]
fn thread_pool_schedules_in_order() {
    let mut m = machine();
    let sched = RoundRobinScheduler::new(2);
    let mut pool = ThreadPool::new(8, sched);
    for _ in 0..3 {
        pool.add(Thread::new_kernel(0x1000, &mut m));
    }
    let (id0, t0) = pool.acquire().expect("a ready thread");
    assert_eq!(id0, 0);
    // While thread 0 runs its slot holds no thread.
    assert!(pool.threads[0].as_ref().unwrap().thread.is_none());
    pool.retrieve(id0, t0);
    assert!(pool.threads[0].as_ref().unwrap().thread.is_some());
    let (id1, _t1) = pool.acquire().expect("a ready thread");
    assert_eq!(id1, 1);
}

#[test]
fn exited_thread_is_never_selected_again() {
    let mut m = machine();
    let mut p = process::initialize(&mut m, 0x80000000);
    for _ in 0..3 {
        p.add_thread(Thread::new_kernel(0x2000, &mut m));
    }
    // Dispatch the first thread and let it exit.
    assert!(p.idle_main(&mut m));
    assert_eq!(process::current_tid(&p), 0);
    process::exit(&mut p, 0, &mut m);
    // Its slot is gone.
    assert!(p.status.as_ref().unwrap().pool.threads[0].is_none());
    // The scheduler hands out the remaining ids, never 0 again.
    let mut seen: Vec<ThreadID> = Vec::new();
    while p.idle_main(&mut m) {
        let id = process::current_tid(&p);
        seen.push(id);
        process::exit(&mut p, 0, &mut m);
    }
    assert_eq!(seen, vec![1, 2]);
}

#[test]
fn preemption_goes_through_tick() {
    let mut m = machine();
    let mut p = process::initialize(&mut m, 0x80000000);
    p.add_thread(Thread::new_kernel(0x3000, &mut m));
    p.add_thread(Thread::new_kernel(0x4000, &mut m));
    assert!(p.idle_main(&mut m));
    assert_eq!(process::current_tid(&p), 0);
    // Quantum of two: first tick keeps the thread, second preempts.
    assert!(!process::tick(&mut p, &mut m));
    assert!(process::tick(&mut p, &mut m));
    // Back in the idle loop, the next thread runs; the first waits its turn.
    assert!(p.idle_main(&mut m));
    assert_eq!(process::current_tid(&p), 1);
    assert!(!process::tick(&mut p, &mut m));
    assert!(process::tick(&mut p, &mut m));
    assert!(p.idle_main(&mut m));
    assert_eq!(process::current_tid(&p), 0);
}

#[test]
fn sleep_and_wake() {
    let mut m = machine();
    let mut p = process::initialize(&mut m, 0x80000000);
    p.add_thread(Thread::new_kernel(0x5000, &mut m));
    p.add_thread(Thread::new_kernel(0x6000, &mut m));
    assert!(p.idle_main(&mut m));
    assert_eq!(process::current_tid(&p), 0);
    process::sleep(&mut p, &mut m);
    // The sleeper is parked: only thread 1 is runnable.
    assert!(p.idle_main(&mut m));
    assert_eq!(process::current_tid(&p), 1);
    process::exit(&mut p, 0, &mut m);
    assert!(!p.idle_main(&mut m));
    // Waking makes the sleeper runnable again.
    process::wake_up(&mut p, 0);
    assert!(p.idle_main(&mut m));
    assert_eq!(process::current_tid(&p), 0);
}

#[test]
fn boot_thread_and_run() {
    let mut m = machine();
    let mut p = process::initialize(&mut m, 0x80000000);
    assert!(m.cpu.is_none());
    process::run(&mut p, &mut m);
    // The idle context now runs: the machine holds its state.
    assert!(m.cpu.is_some());
    let boot = Thread::boot();
    assert_eq!(boot.context.content_addr, 0);
    assert!(boot.context.content.is_none());
}

#[test]
fn append_args_patches_argument_registers() {
    let mut m = machine();
    let mut t = Thread::new_kernel(0x7000, &mut m);
    t.append_args([11, 22, 33]);
    let content = t.context.content.as_ref().unwrap();
    assert_eq!(content.frame.x[10], 11);
    assert_eq!(content.frame.x[11], 22);
    assert_eq!(content.frame.x[12], 33);
    assert_eq!(content.frame.sepc, 0x7000);
}

#[test]
fn switch_moves_register_state() {
    let mut m = machine();
    let mut a = Thread::new_kernel(0x8000, &mut m);
    let mut b = Thread::new_kernel(0x9000, &mut m);
    let b_satp = b.context.content.as_ref().unwrap().satp;
    a.switch_to(&mut *b, &mut m);
    // The machine now runs with b's saved state; b's context is empty.
    assert!(b.context.content.is_none());
    assert_eq!(m.satp, b_satp);
    assert_eq!(m.cpu.as_ref().unwrap().frame.sepc, 0x9000);
}
