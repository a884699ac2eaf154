//! Fixed capacities of the kernel's tables.
use vstd::prelude::*;

verus! {

/// Number of process control blocks.
pub const NPROC: usize = 64;

/// Number of harts the kernel keeps scheduler state for.
pub const NCPU: usize = 8;

} // verus!
