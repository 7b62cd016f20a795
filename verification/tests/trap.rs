use rcore_os::fs::stdio::Stdin;
use rcore_os::interrupt::{self, TrapControl};
use rcore_os::machine::Machine;
use rcore_os::process::{self};
use rcore_os::syscall::{SYS_EXEC, SYS_WRITE};
use rcore_os::timer;
use rcore_os::trap::frame::{Trap, TrapFrame};
use rcore_os::usr;

fn boot() -> (Machine, rcore_os::process::processor::Processor, Stdin) {
    let mut m = Machine::new();
    let p = process::initialize(&mut m, 0x80000000);
    (m, p, Stdin::new())
}

#[test]
fn write_syscalls_print_in_order() {
    let (mut m, mut p, mut stdin) = boot();
    for b in b"OK\n" {
        let r = usr::syscall::sys_write(*b, &mut p, &mut m, &mut stdin);
        assert_eq!(r, 0);
    }
    assert_eq!(m.console_out, b"OK\n".to_vec());
}

#[test]
fn user_puts_prints_a_string() {
    let (mut m, mut p, mut stdin) = boot();
    usr::io::puts("hello\n", &mut p, &mut m, &mut stdin);
    usr::io::putchar('!', &mut p, &mut m, &mut stdin);
    assert_eq!(m.console_out, b"hello\n!".to_vec());
}

#[test]
fn read_syscall_drains_stdin() {
    let (mut m, mut p, mut stdin) = boot();
    stdin.push(b'a', &mut p);
    stdin.push(b'b', &mut p);
    let buf: u64 = 0x8000_0000;
    let first = usr::io::getchar(buf, &mut p, &mut m, &mut stdin);
    assert_eq!(first, b'a');
    let second = usr::io::getchar(buf, &mut p, &mut m, &mut stdin);
    assert_eq!(second, b'b');
    assert_eq!(m.ram.read_byte(buf), b'b');
}

#[test]
fn serial_interrupt_feeds_stdin_with_cr_translation() {
    let (mut m, mut p, mut stdin) = boot();
    m.console_in = vec![b'h', 13];
    let mut frame = TrapFrame::zeroed();
    frame.scause = Trap::SupervisorExternal;
    let r = interrupt::trap_handler(&mut frame, &mut p, &mut m, &mut stdin);
    assert!(matches!(r, TrapControl::Resume));
    let mut frame2 = TrapFrame::zeroed();
    frame2.scause = Trap::SupervisorExternal;
    interrupt::trap_handler(&mut frame2, &mut p, &mut m, &mut stdin);
    assert_eq!(stdin.pop(), Some(b'h'));
    // Carriage return arrives as line feed.
    assert_eq!(stdin.pop(), Some(10));
    assert_eq!(stdin.pop(), None);
}

#[test]
fn breakpoint_steps_past_the_instruction() {
    let (mut m, mut p, mut stdin) = boot();
    let mut frame = TrapFrame::zeroed();
    frame.scause = Trap::Breakpoint;
    frame.sepc = 0x1234;
    let r = interrupt::trap_handler(&mut frame, &mut p, &mut m, &mut stdin);
    assert!(matches!(r, TrapControl::Resume));
    assert_eq!(frame.sepc, 0x1236);
}

#[test]
fn page_faults_are_fatal() {
    let (mut m, mut p, mut stdin) = boot();
    for cause in [
        Trap::InstructionPageFault,
        Trap::LoadPageFault,
        Trap::StorePageFault,
        Trap::IllegalInstruction,
        Trap::Unknown,
    ] {
        let mut frame = TrapFrame::zeroed();
        frame.scause = cause;
        let r = interrupt::trap_handler(&mut frame, &mut p, &mut m, &mut stdin);
        assert!(matches!(r, TrapControl::Halt));
    }
}

#[test]
fn timer_trap_rearms_and_ticks() {
    let (mut m, mut p, mut stdin) = boot();
    m.time = 500;
    let mut frame = TrapFrame::zeroed();
    frame.scause = Trap::SupervisorTimer;
    let r = interrupt::trap_handler(&mut frame, &mut p, &mut m, &mut stdin);
    assert!(matches!(r, TrapControl::Resume));
    assert_eq!(m.timer, 500 + timer::TIME_BASE);
}

#[test]
fn syscall_trap_advances_pc_and_writes_result() {
    let (mut m, mut p, mut stdin) = boot();
    let mut frame = TrapFrame::zeroed();
    frame.scause = Trap::UserEnvCall;
    frame.sepc = 0x4000;
    frame.x[17] = SYS_WRITE;
    frame.x[10] = b'A' as u64;
    let r = interrupt::trap_handler(&mut frame, &mut p, &mut m, &mut stdin);
    assert!(matches!(r, TrapControl::Resume));
    assert_eq!(frame.sepc, 0x4004);
    assert_eq!(frame.x[10], 0);
    assert_eq!(m.console_out, vec![b'A']);
}

#[test]
fn exec_syscall_is_handed_to_the_driver() {
    let (mut m, mut p, mut stdin) = boot();
    let mut frame = TrapFrame::zeroed();
    frame.scause = Trap::UserEnvCall;
    frame.x[17] = SYS_EXEC;
    frame.x[10] = 0xdead_0000;
    let r = interrupt::trap_handler(&mut frame, &mut p, &mut m, &mut stdin);
    assert!(matches!(r, TrapControl::Exec(a) if a == 0xdead_0000));
}

#[test]
fn exit_syscall_frees_the_slot() {
    let (mut m, mut p, mut stdin) = boot();
    p.add_thread(rcore_os::process::thread::Thread::new_kernel(0x1000, &mut m));
    assert!(p.idle_main(&mut m));
    let r = usr::syscall::sys_exit(7, &mut p, &mut m, &mut stdin);
    assert_eq!(r, 0);
    assert!(p.status.as_ref().unwrap().pool.threads[0].is_none());
}

#[test]
fn interrupt_initialize_programs_the_machine() {
    let mut m = Machine::new();
    interrupt::initialize(&mut m, 0xffff_f000);
    assert_eq!(m.stvec, 0xffff_f000);
    assert_eq!(m.sscratch, 0);
    assert!(m.sie && m.sext_enabled && m.serial_irq_enabled && m.uart_ready);
    timer::initialize(&mut m);
    assert!(m.stimer_enabled);
}

#[test]
fn interrupt_save_restore() {
    let mut m = Machine::new();
    m.sie = true;
    let flags = interrupt::disable_and_store(&mut m);
    assert!(!m.sie);
    interrupt::restore(&mut m, flags);
    assert!(m.sie);
    m.sie = false;
    let flags2 = interrupt::disable_and_store(&mut m);
    interrupt::restore(&mut m, flags2);
    assert!(!m.sie);
    interrupt::enable_and_wfi(&mut m);
    assert!(m.sie);
}

#[test]
fn stdin_wakes_a_waiting_reader() {
    let (mut m, mut p, mut stdin) = boot();
    p.add_thread(rcore_os::process::thread::Thread::new_kernel(0x1000, &mut m));
    assert!(p.idle_main(&mut m));
    assert_eq!(process::current_tid(&p), 0);
    // The reader finds no input and parks itself.
    assert_eq!(stdin.pop(), None);
    stdin.wait(&mut p, &mut m);
    assert!(!p.idle_main(&mut m));
    // Input arrives: the reader is runnable again.
    stdin.push(b'x', &mut p);
    assert!(p.idle_main(&mut m));
    assert_eq!(process::current_tid(&p), 0);
    assert_eq!(stdin.pop(), Some(b'x'));
}

#[test]
fn console_io_round_trip() {
    let mut m = Machine::new();
    rcore_os::io::putchar(&mut m, 'z');
    rcore_os::io::puts(&mut m, "ok");
    assert_eq!(m.console_out, b"zok".to_vec());
    assert_eq!(rcore_os::io::getchar(&mut m), '\0');
    m.console_in = vec![b'q'];
    assert_eq!(rcore_os::io::getchar(&mut m), 'q');
    m.console_in = vec![b'w'];
    assert_eq!(rcore_os::io::getchar_option(&mut m), Some('w'));
    assert_eq!(rcore_os::io::getchar_option(&mut m), None);
    rcore_os::sbi::console_putchar(&mut m, 0x141);
    assert_eq!(*m.console_out.last().unwrap(), 0x41);
}

#[test]
fn exec_request_is_finished_by_the_driver() {
    let (mut m, mut p, mut stdin) = boot();
    let mut ram = rcore_os::machine::PhysicalMemory::new();
    let mut a = rcore_os::memory::frame_allocator::LinearFrameAllocator::new();
    a.initialize(0x80200, 0x80200 + 16384);
    let base: u64 = 0xffffffff_c0200000;
    let layout = rcore_os::memory::manager::KernelLayout {
        stext: base,
        etext: base + 0x1000,
        srodata: base + 0x1000,
        erodata: base + 0x2000,
        sdata: base + 0x2000,
        edata: base + 0x3000,
        sbss: base + 0x3000,
        ebss: base + 0x4000,
        end: rcore_os::consts::PHYSICAL_MEMORY_END + rcore_os::consts::PHYSICAL_MEMORY_OFFSET
            - 0x3000,
    };
    // A caller issues the exec syscall with a path string in memory.
    p.add_thread(rcore_os::process::thread::Thread::new_kernel(0x1000, &mut m));
    assert!(p.idle_main(&mut m));
    let path_addr: u64 = 0x20000;
    for (i, b) in b"rust/shell\0".iter().enumerate() {
        m.ram.write_byte(path_addr + i as u64, *b);
    }
    let mut frame = TrapFrame::zeroed();
    frame.scause = Trap::UserEnvCall;
    frame.x[17] = rcore_os::syscall::SYS_EXEC;
    frame.x[10] = path_addr;
    let control = interrupt::trap_handler(&mut frame, &mut p, &mut m, &mut stdin);
    let ptr = match control {
        TrapControl::Exec(ptr) => ptr,
        _ => panic!("expected an exec request"),
    };
    // The driver reads the path and resolves it (here: one built-in image).
    let path = rcore_os::syscall::from_cstr(&m.ram, ptr).expect("a terminated string");
    assert_eq!(path, b"rust/shell".to_vec());
    // A nameless program is reported, the caller keeps running.
    let loaded = rcore_os::syscall::finish_exec(None, &layout, &mut p, &mut a, &mut ram, &mut m);
    assert!(!loaded);
    // The real image loads, schedules the new thread, and blocks the caller.
    let image = {
        let mut v: Vec<u8> = Vec::new();
        v.extend_from_slice(&[0x7f, b'E', b'L', b'F', 2, 1, 1, 0]);
        v.extend_from_slice(&[0u8; 8]);
        v.extend_from_slice(&2u16.to_le_bytes());
        v.extend_from_slice(&0xf3u16.to_le_bytes());
        v.extend_from_slice(&1u32.to_le_bytes());
        v.extend_from_slice(&0x10000u64.to_le_bytes());
        v.extend_from_slice(&64u64.to_le_bytes());
        v.extend_from_slice(&0u64.to_le_bytes());
        v.extend_from_slice(&0u32.to_le_bytes());
        v.extend_from_slice(&64u16.to_le_bytes());
        v.extend_from_slice(&56u16.to_le_bytes());
        v.extend_from_slice(&1u16.to_le_bytes());
        v.extend_from_slice(&64u16.to_le_bytes());
        v.extend_from_slice(&0u16.to_le_bytes());
        v.extend_from_slice(&0u16.to_le_bytes());
        v.extend_from_slice(&1u32.to_le_bytes());
        v.extend_from_slice(&5u32.to_le_bytes());
        v.extend_from_slice(&120u64.to_le_bytes());
        v.extend_from_slice(&0x10000u64.to_le_bytes());
        v.extend_from_slice(&0x10000u64.to_le_bytes());
        v.extend_from_slice(&4u64.to_le_bytes());
        v.extend_from_slice(&0x1000u64.to_le_bytes());
        v.extend_from_slice(&0x1000u64.to_le_bytes());
        v.extend_from_slice(b"ABCD");
        v
    };
    assert!(p.status.as_ref().unwrap().pool.has_vacancy());
    let loaded = rcore_os::syscall::finish_exec(
        Some(&image),
        &layout,
        &mut p,
        &mut a,
        &mut ram,
        &mut m,
    );
    assert!(loaded);
    // The caller sleeps until something wakes it; the new thread is queued.
    let caller = p.status.as_ref().unwrap().pool.threads[0].as_ref().unwrap();
    assert!(matches!(
        caller.status,
        rcore_os::process::thread::ThreadStatus::Sleeping
    ));
    assert!(p.idle_main(&mut m));
    assert_eq!(process::current_tid(&p), 1);
}

#[test]
fn breakpoint_leaves_a_console_note() {
    let (mut m, mut p, mut stdin) = boot();
    let mut frame = TrapFrame::zeroed();
    frame.scause = Trap::Breakpoint;
    frame.sepc = 0x1234;
    let r = interrupt::trap_handler(&mut frame, &mut p, &mut m, &mut stdin);
    assert!(matches!(r, TrapControl::Resume));
    assert_eq!(m.console_out, b"breakpoint at 0x0000000000001234\n".to_vec());
}

#[test]
fn fatal_traps_leave_a_console_note() {
    let (mut m, mut p, mut stdin) = boot();
    let mut frame = TrapFrame::zeroed();
    frame.scause = Trap::LoadPageFault;
    frame.stval = 0xdead_beef;
    frame.sepc = 0x8020_0abc;
    let r = interrupt::trap_handler(&mut frame, &mut p, &mut m, &mut stdin);
    assert!(matches!(r, TrapControl::Halt));
    assert_eq!(
        m.console_out,
        b"load page fault, address 0x00000000deadbeef at 0x0000000080200abc\n".to_vec()
    );
    let mut ill = TrapFrame::zeroed();
    ill.scause = Trap::IllegalInstruction;
    ill.sepc = 0x10;
    let r2 = interrupt::trap_handler(&mut ill, &mut p, &mut m, &mut stdin);
    assert!(matches!(r2, TrapControl::Halt));
    let text = String::from_utf8(m.console_out.clone()).unwrap();
    assert!(text.ends_with(
        "illegal instruction, address 0x0000000000000000 at 0x0000000000000010\n"
    ));
}
