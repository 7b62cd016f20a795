//! The firmware interface: console character I/O and the timer, as calls
//! on the machine model.

use vstd::prelude::*;
use crate::machine::Machine;

verus! {

/// Print the character in the low byte of `ch` on the firmware console.
pub fn console_putchar(m: &mut Machine, ch: u64)
    ensures
        final(m).console_out@ == old(m).console_out@.push((ch & 0xff) as u8),
        *final(m) == (Machine { console_out: final(m).console_out, ..*old(m) }),
{
    m.console_out.push((ch & 0xff) as u8);
}

/// Read one character from the firmware console: the next waiting byte, or
/// `u64::MAX` (minus one as a signed word) when none is waiting.
pub fn console_getchar(m: &mut Machine) -> (r: u64)
    ensures
        old(m).console_in@.len() == 0 ==> r == u64::MAX && *final(m) == *old(m),
        old(m).console_in@.len() > 0 ==> {
            &&& r == old(m).console_in@[0]
            &&& final(m).console_in@ == old(m).console_in@.skip(1)
            &&& *final(m) == (Machine { console_in: final(m).console_in, ..*old(m) })
        },
{
    if m.console_in.len() == 0 {
        u64::MAX
    } else {
        let b = m.console_in.remove(0);
        proof {
            assert(final(m).console_in@ =~= old(m).console_in@.skip(1));
        }
        b as u64
    }
}

/// Program the timer to fire when the time counter reaches `time`.
pub fn set_timer(m: &mut Machine, time: u64)
    ensures
        final(m).timer == time,
        *final(m) == (Machine { timer: time, ..*old(m) }),
{
    m.timer = time;
}

} // verus!
