//! System calls.
use vstd::prelude::*;
use crate::proc::{current, spec_myproc, Cpu, ProcTable};
use crate::riscv::Hart;

verus! {

/// The number of the one system call that does anything yet.
pub const SYS_MARK: u64 = 114;

/// The byte that system call writes to the console.
pub const MARK: u8 = 0x61;

/// What the kernel has to do for a system call.
#[derive(Clone, Copy, Debug, PartialEq, Eq, Structural)]
pub enum SyscallAction {
    /// Nothing: the call is not known, and the process goes on.
    Return,
    /// Write this byte to the console, and go no further.
    PrintAndStall(u8),
}

/// What the system call number `num` asks for.
pub open spec fn spec_syscall(num: u64) -> SyscallAction {
    if num == SYS_MARK {
        SyscallAction::PrintAndStall(MARK)
    } else {
        SyscallAction::Return
    }
}

/// Looks at the system call that the process on this hart asked for: its
/// number is in register `a7` of the trapframe.  A process must run on this
/// hart.
pub fn syscall(h: &Hart, cpus: &[Cpu], table: &ProcTable) -> (r: SyscallAction)
    requires
        table.wf(),
        spec_myproc(h, cpus, table) is Some,
    ensures
        r == spec_syscall(
            table.procs@[spec_myproc(h, cpus, table).unwrap() as int].trapframe.unwrap().frame.a7,
        ),
{
    let i: usize = current(h, cpus, table);
    proof {
        assert(table.slot_wf(i as int));
    }
    let num: u64 = match &table.procs[i].trapframe {
        Some(page) => page.frame.a7,
        None => 0,
    };
    if num == SYS_MARK {
        SyscallAction::PrintAndStall(MARK)
    } else {
        SyscallAction::Return
    }
}

} // verus!
