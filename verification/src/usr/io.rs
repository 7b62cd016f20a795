//! User-side console I/O over the syscall stubs.

use vstd::prelude::*;
use vstd::string::StringSliceAdditionalSpecFns;
use crate::fs::stdio::Stdin;
use crate::machine::Machine;
use crate::process::processor::Processor;
use crate::usr::syscall::{sys_read, sys_write};

verus! {

/// Print one character through the write syscall.
pub fn putchar(ch: char, p: &mut Processor, m: &mut Machine, stdin: &mut Stdin)
    requires
        old(p).inv(),
        old(m).ram.wf(),
    ensures
        final(p).inv(),
        final(m).ram.wf(),
        final(m).console_out@ == old(m).console_out@.push(ch as u8),
        *final(m) == (Machine { console_out: final(m).console_out, ..*old(m) }),
        *final(p) == *old(p),
        *final(stdin) == *old(stdin),
{
    sys_write(ch as u8, p, m, stdin);
}

/// Print every character of an ASCII string, one write syscall each.
pub fn puts(s: &str, p: &mut Processor, m: &mut Machine, stdin: &mut Stdin)
    requires
        old(p).inv(),
        old(m).ram.wf(),
        vstd::string::is_ascii(s),
    ensures
        final(p).inv(),
        final(m).ram.wf(),
        final(m).console_out@ == old(m).console_out@ + s.spec_bytes(),
        *final(m) == (Machine { console_out: final(m).console_out, ..*old(m) }),
        *final(p) == *old(p),
        *final(stdin) == *old(stdin),
{
    let bytes = s.as_bytes();
    let mut index: usize = 0;
    while index < bytes.len()
        invariant
            p.inv(),
            m.ram.wf(),
            bytes@ == s.spec_bytes(),
            index <= bytes.len(),
            m.console_out@ == old(m).console_out@ + bytes@.take(index as int),
            *m == (Machine { console_out: m.console_out, ..*old(m) }),
            *p == *old(p),
            *stdin == *old(stdin),
        decreases bytes.len() - index,
    {
        sys_write(bytes[index], p, m, stdin);
        proof {
            assert(m.console_out@ =~= old(m).console_out@ + bytes@.take(index + 1));
        }
        index += 1;
    }
    proof {
        assert(bytes@.take(index as int) =~= s.spec_bytes());
    }
}

/// Read one byte of input through the read syscall, using the buffer at
/// `base`.
pub fn getchar(base: u64, p: &mut Processor, m: &mut Machine, stdin: &mut Stdin) -> (r: u8)
    requires
        old(p).inv(),
        old(m).ram.wf(),
        old(stdin).spec_buf().len() > 0,
    ensures
        final(p).inv(),
        final(m).ram.wf(),
        r == old(stdin).spec_buf()[0],
        final(stdin).spec_buf() == old(stdin).spec_buf().skip(1),
{
    sys_read(0, base, 1, p, m, stdin);
    m.ram.read_byte(base)
}

} // verus!
