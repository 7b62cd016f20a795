//! Synchronization between threads.

pub mod condvar;
