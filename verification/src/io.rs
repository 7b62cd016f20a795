//! Kernel console input and output, one character at a time.

use vstd::prelude::*;
use vstd::string::StringSliceAdditionalSpecFns;
use crate::machine::Machine;
use crate::sbi;

verus! {

/// Print one character on the console.
pub fn putchar(m: &mut Machine, ch: char)
    ensures
        final(m).console_out@ == old(m).console_out@.push(ch as u8),
        *final(m) == (Machine { console_out: final(m).console_out, ..*old(m) }),
{
    let b: u8 = ch as u8;
    sbi::console_putchar(m, b as u64);
    proof {
        assert((b as u64 & 0xff) as u8 == b) by (bit_vector);
    }
}

/// Print every character of an ASCII string on the console, in order.
pub fn puts(m: &mut Machine, s: &str)
    requires
        vstd::string::is_ascii(s),
    ensures
        final(m).console_out@ == old(m).console_out@ + s.spec_bytes(),
        *final(m) == (Machine { console_out: final(m).console_out, ..*old(m) }),
{
    let bytes = s.as_bytes();
    let mut index: usize = 0;
    while index < bytes.len()
        invariant
            bytes@ == s.spec_bytes(),
            index <= bytes.len(),
            m.console_out@ == old(m).console_out@ + bytes@.take(index as int),
            *m == (Machine { console_out: m.console_out, ..*old(m) }),
        decreases bytes.len() - index,
    {
        let b = bytes[index];
        sbi::console_putchar(m, b as u64);
        proof {
            assert((b as u64 & 0xff) as u8 == b) by (bit_vector);
            assert(m.console_out@ =~= old(m).console_out@ + bytes@.take(index + 1));
        }
        index += 1;
    }
    proof {
        assert(bytes@.take(index as int) =~= s.spec_bytes());
    }
}

/// The ASCII byte of one hexadecimal digit, lower case.
pub open spec fn hex_digit_of(d: u8) -> u8 {
    if d < 10 {
        (48 + d) as u8
    } else {
        (87 + d) as u8
    }
}

/// The sixteen lowercase hexadecimal digit bytes of `x`, highest nibble
/// first.
pub open spec fn hex_of(x: u64) -> Seq<u8> {
    Seq::new(16, |j: int| hex_digit_of(((x >> ((60 - 4 * j) as u64)) & 0xf) as u8))
}

/// Print the sixteen hexadecimal digits of `x` on the console, highest
/// nibble first.
pub fn put_hex(m: &mut Machine, x: u64)
    ensures
        final(m).console_out@ == old(m).console_out@ + hex_of(x),
        *final(m) == (Machine { console_out: final(m).console_out, ..*old(m) }),
{
    let mut j: usize = 0;
    while j < 16
        invariant
            j <= 16,
            m.console_out@ == old(m).console_out@ + hex_of(x).take(j as int),
            *m == (Machine { console_out: m.console_out, ..*old(m) }),
        decreases 16 - j,
    {
        let shift: u64 = 60 - 4 * (j as u64);
        let d: u8 = ((x >> shift) & 0xf) as u8;
        proof {
            assert(((x >> shift) & 0xf) < 16) by (bit_vector);
        }
        let ch: u8 = if d < 10 {
            48 + d
        } else {
            87 + d
        };
        putchar(m, ch as char);
        proof {
            assert(ch as char as u8 == ch);
            assert(hex_of(x)[j as int] == ch);
            assert(m.console_out@ =~= old(m).console_out@ + hex_of(x).take(j + 1));
        }
        j += 1;
    }
    proof {
        assert(hex_of(x).take(16) =~= hex_of(x));
    }
}

/// Read one character from the console; a missing character reads as NUL.
pub fn getchar(m: &mut Machine) -> (r: char)
    ensures
        old(m).console_in@.len() == 0 ==> r == '\0' && *final(m) == *old(m),
        old(m).console_in@.len() > 0 ==> {
            &&& r == (if old(m).console_in@[0] == 255 {
                '\0'
            } else {
                old(m).console_in@[0] as char
            })
            &&& final(m).console_in@ == old(m).console_in@.skip(1)
            &&& *final(m) == (Machine { console_in: final(m).console_in, ..*old(m) })
        },
{
    let raw = sbi::console_getchar(m);
    let ch = raw as u8;
    proof {
        if old(m).console_in@.len() == 0 {
            assert(raw as u8 == 255) by (bit_vector)
                requires raw == u64::MAX;
        } else {
            let x: u8 = old(m).console_in@[0];
            assert(raw as u8 == x) by (bit_vector)
                requires raw == x as u64;
        }
    }
    if ch == 255 {
        '\0'
    } else {
        ch as char
    }
}

/// Read one character from the console, or report that none is waiting.
pub fn getchar_option(m: &mut Machine) -> (r: Option<char>)
    ensures
        old(m).console_in@.len() == 0 ==> r is None && *final(m) == *old(m),
        old(m).console_in@.len() > 0 ==> {
            &&& r == Some(old(m).console_in@[0] as char)
            &&& final(m).console_in@ == old(m).console_in@.skip(1)
            &&& *final(m) == (Machine { console_in: final(m).console_in, ..*old(m) })
        },
{
    let ch = sbi::console_getchar(m);
    proof {
        if old(m).console_in@.len() > 0 {
            let x: u8 = old(m).console_in@[0];
            assert(ch as u8 == x && x as u64 != u64::MAX) by (bit_vector)
                requires ch == x as u64;
        }
    }
    if ch == u64::MAX {
        None
    } else {
        Some((ch as u8) as char)
    }
}

} // verus!
