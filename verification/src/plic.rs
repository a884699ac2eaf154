//! The platform-level interrupt controller: which registers the kernel
//! writes to set it up, and to claim and complete a request.
use vstd::prelude::*;
use crate::memolayout::{plic_sclaim, plic_senable, plic_spriority, PLIC, UART_IRQ, VIRTIO0_IRQ};
use crate::mmio::{spec_word, word, MmioWrite};

verus! {

/// The bits that enable the requests of the block device and the console.
pub const ENABLED_IRQS: u32 = 0x402;

/// The writes of [`plicinit`].
pub open spec fn spec_plicinit() -> Seq<MmioWrite> {
    seq![spec_word((PLIC + 40) as u64, 1), spec_word((PLIC + 4) as u64, 1)]
}

/// Gives the requests of the console and of the block device a priority
/// above zero, without which they are disabled: the writes to make, in
/// order.
pub fn plicinit() -> (writes: Vec<MmioWrite>)
    ensures
        writes@ == spec_plicinit(),
{
    let mut writes: Vec<MmioWrite> = Vec::new();
    writes.push(word(PLIC + (UART_IRQ as u64) * 4, 1));
    writes.push(word(PLIC + (VIRTIO0_IRQ as u64) * 4, 1));
    proof {
        assert(writes@ =~= spec_plicinit());
    }
    writes
}

/// The writes of [`plicinithart`] for `hart`.
pub open spec fn spec_plicinithart(hart: usize) -> Seq<MmioWrite> {
    seq![
        spec_word((PLIC + 0x2080 + hart * 0x100) as u64, ENABLED_IRQS),
        spec_word((PLIC + 0x201000 + hart * 0x2000) as u64, 0),
    ]
}

/// Enables the requests of the block device and the console for supervisor
/// mode on `hart`, and sets the hart's priority threshold to zero: the
/// writes to make, in order.
pub fn plicinithart(hart: usize) -> (writes: Vec<MmioWrite>)
    requires
        PLIC + 0x201000 + hart * 0x2000 <= u64::MAX,
    ensures
        writes@ == spec_plicinithart(hart),
{
    let mut writes: Vec<MmioWrite> = Vec::new();
    writes.push(word(plic_senable(hart), ENABLED_IRQS));
    writes.push(word(plic_spriority(hart), 0));
    proof {
        assert(writes@ =~= spec_plicinithart(hart));
    }
    writes
}

/// The register that `hart` reads to ask the controller which request it
/// should serve.  The read claims the request; 0 means that none is
/// pending.
pub fn plic_claim(hart: usize) -> (addr: u64)
    requires
        PLIC + 0x201004 + hart * 0x2000 <= u64::MAX,
    ensures
        addr == PLIC + 0x201004 + hart * 0x2000,
{
    plic_sclaim(hart)
}

/// The write by which `hart` tells the controller that it has served the
/// request `irq`.
pub fn plic_complete(hart: usize, irq: u32) -> (write: MmioWrite)
    requires
        PLIC + 0x201004 + hart * 0x2000 <= u64::MAX,
    ensures
        write == spec_word((PLIC + 0x201004 + hart * 0x2000) as u64, irq),
{
    word(plic_sclaim(hart), irq)
}

} // verus!
