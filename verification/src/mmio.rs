//! Writes to device registers, as values: the core says what is to be
//! written where, and whoever owns the hardware does the writing.
use vstd::prelude::*;

verus! {

/// How wide a register is.
#[derive(Clone, Copy, Debug, PartialEq, Eq, Structural)]
pub enum Width {
    /// One byte.
    Byte,
    /// Four bytes.
    Word,
}

/// One write to a memory-mapped register.
#[derive(Clone, Copy, Debug, PartialEq, Eq, Structural)]
pub struct MmioWrite {
    /// The physical address of the register.
    pub addr: u64,
    /// The value to write; for a byte register, below 256.
    pub value: u32,
    /// The width of the register.
    pub width: Width,
}

/// A write of `value` to the 32-bit register at `addr`.
pub open spec fn spec_word(addr: u64, value: u32) -> MmioWrite {
    MmioWrite { addr, value, width: Width::Word }
}

/// A write of `value` to the 8-bit register at `addr`.
pub open spec fn spec_byte(addr: u64, value: u8) -> MmioWrite {
    MmioWrite { addr, value: value as u32, width: Width::Byte }
}

/// A write of `value` to the 32-bit register at `addr`.
#[verifier::when_used_as_spec(spec_word)]
pub fn word(addr: u64, value: u32) -> (w: MmioWrite)
    ensures
        w == spec_word(addr, value),
{
    MmioWrite { addr, value, width: Width::Word }
}

/// A write of `value` to the 8-bit register at `addr`.
#[verifier::when_used_as_spec(spec_byte)]
pub fn byte(addr: u64, value: u8) -> (w: MmioWrite)
    ensures
        w == spec_byte(addr, value),
{
    MmioWrite { addr, value: value as u32, width: Width::Byte }
}

} // verus!
