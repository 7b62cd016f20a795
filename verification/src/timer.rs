//! The tick source: arming the timer for the next preemption interrupt.

use vstd::prelude::*;
use crate::machine::Machine;
use crate::sbi;

verus! {

/// Timer interval: how far ahead of now each tick is armed.
pub const TIME_BASE: u64 = 100000;

/// Arm the timer to fire one interval from now.
pub fn set_next_event(m: &mut Machine)
    requires
        old(m).time + TIME_BASE <= u64::MAX,
    ensures
        final(m).timer == old(m).time + TIME_BASE,
        *final(m) == (Machine { timer: final(m).timer, ..*old(m) }),
{
    let now = m.time;
    sbi::set_timer(m, now + TIME_BASE);
}

/// Enable timer interrupts and arm the first tick.
pub fn initialize(m: &mut Machine)
    requires
        old(m).time + TIME_BASE <= u64::MAX,
    ensures
        final(m).stimer_enabled,
        final(m).timer == old(m).time + TIME_BASE,
        *final(m) == (Machine {
            stimer_enabled: true,
            timer: final(m).timer,
            ..*old(m)
        }),
{
    m.stimer_enabled = true;
    set_next_event(m);
}

} // verus!
