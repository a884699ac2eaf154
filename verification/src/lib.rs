//! The verified core of a small RISC-V64 supervisor kernel: Sv39 page tables,
//! the process table and scheduler, trap dispatch, and the machine-mode
//! bootstrap, all written as functions over an explicit machine state.
//!
//! Hardware is never touched from this crate.  The control-and-status
//! registers of a hart live in a [`riscv::Hart`] value.  What was read
//! from a device's registers is passed in, and what is to be written to
//! them is handed back as a list of [`mmio::MmioWrite`]s.  Where the kernel
//! would wait or never return, a function does one step and says in its
//! result what comes next.  Physical pages come from a
//! `linked_list_allocator::Heap` that the caller owns.
//!
//! What the kernel halts on is left out of the functions by `requires`.
//! For each such condition a function here tests it (`check_range`,
//! `check_usertrap`, `check_kerneltrap`, `check_reply` and the like): the
//! kernel calls the test first and halts where it fails.  Only what the
//! heap decides comes back as an error from the functions themselves.
//!
//! The modules:
//!
//! - [`riscv`]: status bits, the address split and the entry encoding of
//!   Sv39, and the registers of a hart;
//! - [`memolayout`]: the memory map and the addresses of the kernel image;
//! - [`sv39`]: what a page-table tree translates, as mathematics;
//! - [`vm`]: address spaces: walking, mapping, the kernel's map, the first
//!   program;
//! - [`proc`]: the process table, process ids, the first process, a scan
//!   of the scheduler;
//! - [`trap`] and [`syscall`]: traps from user mode and from the kernel,
//!   and the return to user mode;
//! - [`start`]: the bootstrap in machine mode;
//! - [`plic`], [`uart`], [`virtio`], [`pci`]: what the drivers decide;
//! - [`mem_utils`], [`utils`], [`spin_lock`], [`mmio`], [`params`]: small
//!   things that the rest uses.
pub mod mem_utils;
pub mod memolayout;
pub mod mmio;
pub mod params;
pub mod pci;
pub mod plic;
pub mod proc;
pub mod riscv;
pub mod spin_lock;
pub mod start;
pub mod sv39;
pub mod syscall;
pub mod trap;
pub mod uart;
pub mod utils;
pub mod virtio;
pub mod vm;
