//! The processor-visible status of a thread.

use vstd::prelude::*;
use crate::process::{ExitCode, ThreadID};

verus! {

/// The state machine of a thread's life: `Ready` becomes `Running` with
/// its id; a running thread becomes `Ready` again, `Sleeping`, or
/// `Exited` with its code; `Sleeping` becomes `Ready` on wake. `Exited`
/// is terminal.
#[derive(Clone)]
pub enum Status {
    Ready,
    Running(ThreadID),
    Sleeping,
    Exited(ExitCode),
}

} // verus!
