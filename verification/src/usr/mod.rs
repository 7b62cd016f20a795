//! The user-side library: syscall stubs and console I/O as a user program
//! sees them. An environment call traps into the kernel; here the stub
//! performs the same trap dispatch on the model machine.

pub mod io;
pub mod syscall;
