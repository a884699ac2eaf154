//! The physical memory map of the machine, the two fixed pages at the top of
//! every address space, and the addresses the kernel image was linked at.
use vstd::prelude::*;
use crate::riscv::{MAXVA, PGSIZE};

verus! {

/// The console's register block.
pub const UART: u64 = 0x1000_0000;

/// Where the kernel image is loaded.
pub const KERNELBASE: u64 = 0x8000_0000;

/// The end of RAM: 128 MiB above `KERNELBASE`.
pub const PHYSTOP: u64 = 0x8800_0000;

/// The core-local interruptor, which holds the timer.
pub const CLINT: u64 = 0x200_0000;

pub const CLINT_MTIME: u64 = 0x200_BFF8;

/// The platform-level interrupt controller.
pub const PLIC: u64 = 0x0c00_0000;

pub const PCI_BASE: u64 = 0x3000_0000;

pub const VGA_FRAME_BUFFER: u64 = 0x7000_0000;

pub const VGA_FRAME_BUFFER_SIZE: u64 = 0x100_0000;

pub const VGA_MMIO_BASE: u64 = 0x7100_0000;

/// The trampoline page: the highest page of every address space.
pub const TRAMPOLINE: u64 = 0x3F_FFFF_F000;

/// The trapframe page of a process, just below the trampoline.
pub const TRAPFRAME: u64 = 0x3F_FFFF_E000;

/// The block device's register block.
pub const VIRTIO0: u64 = 0x1000_1000;

/// The interrupt request number of the block device.
pub const VIRTIO0_IRQ: u32 = 1;

/// The interrupt request number of the console.
pub const UART_IRQ: u32 = 10;

/// Pages of virtual address space set aside for each kernel stack.
pub const KSTACK_PAGES: u64 = 16;

/// The addresses that the linker gave to the parts of the kernel image the
/// core has to know.
#[derive(Clone, Copy, Debug, PartialEq, Eq, Structural)]
pub struct KernelImage {
    /// First address after the kernel image.
    pub end: u64,
    /// First address after the kernel's text.
    pub etext: u64,
    /// The kernel's trap vector.
    pub kernelvec: u64,
    /// The trampoline page, as the kernel image holds it.
    pub trampoline: u64,
    /// The user trap vector, inside the trampoline page.
    pub uservec: u64,
    /// The return-to-user routine, inside the trampoline page.
    pub userret: u64,
    /// The kernel's entry point in supervisor mode.
    pub main: u64,
    /// The handler for traps from user mode.
    pub usertrap: u64,
    /// Where a new process starts running in the kernel.
    pub forkret: u64,
    /// The machine-mode timer vector.
    pub timervec: u64,
}

impl KernelImage {
    /// The image can be mapped: the text starts at `KERNELBASE` and ends on
    /// a page boundary inside RAM, and the trampoline is one page of text
    /// that holds both of its routines.
    pub open spec fn wf(&self) -> bool {
        &&& KERNELBASE < self.etext < PHYSTOP
        &&& self.etext % 4096 == 0
        &&& self.trampoline % 4096 == 0
        &&& KERNELBASE <= self.trampoline < self.etext
        &&& self.trampoline <= self.uservec < self.trampoline + PGSIZE
        &&& self.trampoline <= self.userret < self.trampoline + PGSIZE
    }

    /// Checks [`KernelImage::wf`].
    pub fn check(&self) -> (ok: bool)
        ensures
            ok == self.wf(),
    {
        KERNELBASE < self.etext && self.etext < PHYSTOP && self.etext % PGSIZE == 0
            && self.trampoline % PGSIZE == 0 && KERNELBASE <= self.trampoline && self.trampoline
            < self.etext && self.trampoline <= self.uservec && self.uservec - self.trampoline
            < PGSIZE && self.trampoline <= self.userret && self.userret - self.trampoline < PGSIZE
    }
}

/// Where a routine of the trampoline page lies in virtual memory: as far
/// above `TRAMPOLINE` as it lies above the start of the page in the kernel
/// image.  The arithmetic wraps at 2^64.
pub open spec fn spec_in_trampoline(image: &KernelImage, routine: u64) -> u64 {
    let offset = if routine >= image.trampoline {
        routine - image.trampoline
    } else {
        routine - image.trampoline + 0x1_0000_0000_0000_0000
    };
    if TRAMPOLINE + offset > u64::MAX {
        (TRAMPOLINE + offset - 0x1_0000_0000_0000_0000) as u64
    } else {
        (TRAMPOLINE + offset) as u64
    }
}

/// Where a routine of the trampoline page lies in virtual memory.
#[verifier::when_used_as_spec(spec_in_trampoline)]
pub fn in_trampoline(image: &KernelImage, routine: u64) -> (va: u64)
    ensures
        va == spec_in_trampoline(image, routine),
        image.wf() && image.trampoline <= routine < image.trampoline + PGSIZE ==> va == TRAMPOLINE
            + (routine - image.trampoline) && TRAMPOLINE <= va < MAXVA,
{
    TRAMPOLINE.wrapping_add(routine.wrapping_sub(image.trampoline))
}

/// First address after the kernel image.
pub fn get_kernel_end(image: &KernelImage) -> (a: u64)
    ensures
        a == image.end,
{
    image.end
}

/// First address after the kernel's text.
pub fn get_etext(image: &KernelImage) -> (a: u64)
    ensures
        a == image.etext,
{
    image.etext
}

/// The address of the kernel's trap vector.
pub fn get_kernelvec(image: &KernelImage) -> (a: u64)
    ensures
        a == image.kernelvec,
{
    image.kernelvec
}

/// The physical address of the trampoline page.
pub fn get_trampoline(image: &KernelImage) -> (a: u64)
    ensures
        a == image.trampoline,
{
    image.trampoline
}

/// The address of the user trap vector in the kernel image.
pub fn get_uservec(image: &KernelImage) -> (a: u64)
    ensures
        a == image.uservec,
{
    image.uservec
}

/// The address of the return-to-user routine in the kernel image.
pub fn get_userret(image: &KernelImage) -> (a: u64)
    ensures
        a == image.userret,
{
    image.userret
}

/// The address of the timer-compare register of hart `hartid`.
pub fn clint_mtimecmp(hartid: u64) -> (a: u64)
    requires
        CLINT + 0x4000 + 8 * hartid <= u64::MAX,
    ensures
        a == CLINT + 0x4000 + 8 * hartid,
{
    CLINT + 0x4000 + 8 * hartid
}

/// The lowest address of the kernel stack of process slot `p`.
pub open spec fn spec_kstack(p: int) -> int {
    TRAMPOLINE - (p + 1) * 16 * 4096
}

/// The lowest address of the kernel stack of process slot `p`: each slot
/// has sixteen pages of its own below the trampoline.
pub fn kstack(p: usize) -> (a: u64)
    requires
        (p + 1) * 16 * 4096 <= TRAMPOLINE,
    ensures
        a == spec_kstack(p as int),
{
    TRAMPOLINE - ((p as u64) + 1) * KSTACK_PAGES * PGSIZE
}

/// The interrupt priority registers.
pub fn plic_priority() -> (a: u64)
    ensures
        a == PLIC,
{
    PLIC
}

/// The interrupt pending bits.
pub fn plic_pending() -> (a: u64)
    ensures
        a == PLIC + 0x1000,
{
    PLIC + 0x1000
}

/// The machine-mode interrupt enable bits of `hart`.
pub fn plic_menable(hart: usize) -> (a: u64)
    requires
        PLIC + 0x2000 + hart * 0x100 <= u64::MAX,
    ensures
        a == PLIC + 0x2000 + hart * 0x100,
{
    PLIC + 0x2000 + (hart as u64) * 0x100
}

/// The supervisor-mode interrupt enable bits of `hart`.
pub fn plic_senable(hart: usize) -> (a: u64)
    requires
        PLIC + 0x2080 + hart * 0x100 <= u64::MAX,
    ensures
        a == PLIC + 0x2080 + hart * 0x100,
{
    PLIC + 0x2080 + (hart as u64) * 0x100
}

/// The machine-mode priority threshold of `hart`.
pub fn plic_mpriority(hart: usize) -> (a: u64)
    requires
        PLIC + 0x200000 + hart * 0x2000 <= u64::MAX,
    ensures
        a == PLIC + 0x200000 + hart * 0x2000,
{
    PLIC + 0x200000 + (hart as u64) * 0x2000
}

/// The supervisor-mode priority threshold of `hart`.
pub fn plic_spriority(hart: usize) -> (a: u64)
    requires
        PLIC + 0x201000 + hart * 0x2000 <= u64::MAX,
    ensures
        a == PLIC + 0x201000 + hart * 0x2000,
{
    PLIC + 0x201000 + (hart as u64) * 0x2000
}

/// The machine-mode claim/complete register of `hart`.
pub fn plic_mclaim(hart: usize) -> (a: u64)
    requires
        PLIC + 0x200004 + hart * 0x2000 <= u64::MAX,
    ensures
        a == PLIC + 0x200004 + hart * 0x2000,
{
    PLIC + 0x200004 + (hart as u64) * 0x2000
}

/// The supervisor-mode claim/complete register of `hart`.
pub fn plic_sclaim(hart: usize) -> (a: u64)
    requires
        PLIC + 0x201004 + hart * 0x2000 <= u64::MAX,
    ensures
        a == PLIC + 0x201004 + hart * 0x2000,
{
    PLIC + 0x201004 + (hart as u64) * 0x2000
}

} // verus!
