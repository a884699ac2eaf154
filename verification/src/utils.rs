//! Dumping memory as text.
use vstd::prelude::*;

verus! {

/// The character for a hexadecimal digit.
pub open spec fn spec_hex_digit(d: u8) -> u8 {
    if d < 10 {
        (0x30 + d) as u8
    } else {
        (0x57 + d) as u8
    }
}

/// The character for the hexadecimal digit `d`, in lower case.
pub fn hex_digit(d: u8) -> (c: u8)
    requires
        d < 16,
    ensures
        c == spec_hex_digit(d),
{
    if d < 10 {
        0x30 + d
    } else {
        0x57 + d
    }
}

/// The text for the byte at position `i` of a dump: a line feed if the
/// position starts a line of sixteen, then two hexadecimal digits and a
/// space.
pub open spec fn spec_dump_byte(i: int, b: u8) -> Seq<u8> {
    let digits = seq![spec_hex_digit(b / 16), spec_hex_digit(b % 16), 0x20u8];
    if i % 16 == 0 {
        seq![0x0au8] + digits
    } else {
        digits
    }
}

/// The text of a dump of the first `n` of `bytes`.
pub open spec fn spec_dump(bytes: Seq<u8>, n: int) -> Seq<u8>
    decreases n,
{
    if n <= 0 {
        Seq::<u8>::empty()
    } else {
        spec_dump(bytes, n - 1) + spec_dump_byte(n - 1, bytes[n - 1])
    }
}

/// Dumps bytes as text: two hexadecimal digits and a space for each, in
/// lines of sixteen, each line started by a line feed.
pub fn print_addr(bytes: &[u8]) -> (text: Vec<u8>)
    ensures
        text@ == spec_dump(bytes@, bytes@.len() as int),
{
    let mut text: Vec<u8> = Vec::new();
    let mut i: usize = 0;
    while i < bytes.len()
        invariant
            i <= bytes@.len(),
            text@ == spec_dump(bytes@, i as int),
        decreases bytes.len() - i,
    {
        let b = bytes[i];
        let ghost before = text@;
        if i % 16 == 0 {
            text.push(0x0a);
        }
        text.push(hex_digit(b / 16));
        text.push(hex_digit(b % 16));
        text.push(0x20);
        proof {
            assert(text@ =~= before + spec_dump_byte(i as int, b));
        }
        i += 1;
    }
    text
}

} // verus!
