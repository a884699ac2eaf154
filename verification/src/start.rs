//! The bootstrap: what each hart does in machine mode before it enters the
//! kernel in supervisor mode.
use vstd::prelude::*;
use crate::memolayout::{clint_mtimecmp, KernelImage, CLINT};
use crate::riscv::{
    r_mhartid, r_mie, r_mstatus, r_sie, w_medeleg, w_mepc, w_mideleg, w_mie, w_mscratch, w_mstatus,
    w_mtvec, w_pmpaddr0, w_pmpcfg0, w_satp, w_sie, w_tp, wrote, Csr, Hart, HartOp, MIE_MTIE,
    MSTATUS_MIE, MSTATUS_MPP_MASK, MSTATUS_MPP_S, SIE_SEIE, SIE_SSIE, SIE_STIE,
};

verus! {

/// All exceptions, and all interrupts, are delegated to supervisor mode.
pub const DELEGATE_ALL: u64 = 0xffff;

/// The top of the one memory-protection region: all of memory.
pub const PMP_ALL_MEMORY: u64 = 0x3f_ffff_ffff_ffff;

/// The region is top-of-range, and readable, writable and executable.
pub const PMP_RWX_TOR: u64 = 0xf;

/// Cycles between two timer interrupts: about a tenth of a second.
pub const TIMER_INTERVAL: u64 = 1000000;

/// The machine status for the drop to supervisor mode: the previous
/// privilege is supervisor.
pub open spec fn spec_boot_status(mstatus: u64) -> u64 {
    (mstatus & !MSTATUS_MPP_MASK) | MSTATUS_MPP_S
}

/// Prepares a hart in machine mode for the kernel.  The previous privilege
/// is set to supervisor and the exception program counter to the kernel's
/// entry, so that `mret` enters the kernel in supervisor mode; paging is
/// off; all interrupts and exceptions are delegated to supervisor mode, and
/// external, timer and software interrupts are enabled there; supervisor
/// mode may use all of memory; and the thread pointer holds the hart's
/// number.  The caller then executes `mret`.
pub fn start(h: &mut Hart, image: &KernelImage)
    ensures
        wrote(
            old(h),
            final(h),
            (Hart {
                mstatus: spec_boot_status(old(h).mstatus),
                mepc: image.main,
                satp: 0,
                medeleg: DELEGATE_ALL,
                mideleg: DELEGATE_ALL,
                sie: old(h).sie | SIE_SEIE | SIE_STIE | SIE_SSIE,
                pmpaddr0: PMP_ALL_MEMORY,
                pmpcfg0: PMP_RWX_TOR,
                tp: old(h).mhartid,
                ..*old(h)
            }),
            seq![
                HartOp::Write(Csr::Mstatus, spec_boot_status(old(h).mstatus)),
                HartOp::Write(Csr::Mepc, image.main),
                HartOp::Write(Csr::Satp, 0),
                HartOp::Write(Csr::Medeleg, DELEGATE_ALL),
                HartOp::Write(Csr::Mideleg, DELEGATE_ALL),
                HartOp::Write(Csr::Sie, old(h).sie | SIE_SEIE | SIE_STIE | SIE_SSIE),
                HartOp::Write(Csr::Pmpaddr0, PMP_ALL_MEMORY),
                HartOp::Write(Csr::Pmpcfg0, PMP_RWX_TOR),
                HartOp::Write(Csr::Tp, old(h).mhartid),
            ],
        ),
        final(h).mstatus & MSTATUS_MPP_MASK == MSTATUS_MPP_S,
{
    let m: u64 = r_mstatus(h);
    let mut x: u64 = m & !MSTATUS_MPP_MASK;
    x = x | MSTATUS_MPP_S;
    assert(((m & !0x1800u64) | 0x800u64) & 0x1800u64 == 0x800u64) by (bit_vector);
    w_mstatus(h, x);
    w_mepc(h, image.main);
    w_satp(h, 0);
    w_medeleg(h, DELEGATE_ALL);
    w_mideleg(h, DELEGATE_ALL);
    let sie = r_sie(h);
    w_sie(h, sie | SIE_SEIE | SIE_STIE | SIE_SSIE);
    w_pmpaddr0(h, PMP_ALL_MEMORY);
    w_pmpcfg0(h, PMP_RWX_TOR);
    let id = r_mhartid(h);
    w_tp(h, id);
    proof {
        assert(h.log@ =~= old(h).log@ + seq![
            HartOp::Write(Csr::Mstatus, spec_boot_status(old(h).mstatus)),
            HartOp::Write(Csr::Mepc, image.main),
            HartOp::Write(Csr::Satp, 0),
            HartOp::Write(Csr::Medeleg, DELEGATE_ALL),
            HartOp::Write(Csr::Mideleg, DELEGATE_ALL),
            HartOp::Write(Csr::Sie, old(h).sie | SIE_SEIE | SIE_STIE | SIE_SSIE),
            HartOp::Write(Csr::Pmpaddr0, PMP_ALL_MEMORY),
            HartOp::Write(Csr::Pmpcfg0, PMP_RWX_TOR),
            HartOp::Write(Csr::Tp, old(h).mhartid),
        ]);
    }
}

/// What is to be written to memory to arm the timer of a hart.
#[derive(Clone, Copy, Debug, PartialEq, Eq)]
pub struct TimerSetup {
    /// The address of the hart's timer-compare register.
    pub compare: u64,
    /// What it is set to: the time of the first interrupt.
    pub first: u64,
    /// What the scratch area of the timer vector holds: three words for
    /// saved registers, the address of the compare register, the interval.
    pub scratch: [u64; 5],
}

/// The time of the first timer interrupt, on a clock that wraps at 2^64.
pub open spec fn spec_first_tick(mtime: u64) -> u64 {
    if mtime + TIMER_INTERVAL > u64::MAX {
        (mtime + TIMER_INTERVAL - 0x1_0000_0000_0000_0000) as u64
    } else {
        (mtime + TIMER_INTERVAL) as u64
    }
}

/// Arms the machine-mode timer of this hart.  `mtime` is what the clock
/// shows now, and `scratch` the address of the scratch area.  The first
/// interrupt is one interval from now; the scratch register and the
/// machine trap vector are set for the timer vector; and machine-mode
/// interrupts, and the timer interrupt among them, are enabled.  The
/// result says what is to be written to the compare register and to the
/// scratch area.
pub fn timerinit(h: &mut Hart, image: &KernelImage, mtime: u64, scratch: u64) -> (r: TimerSetup)
    requires
        CLINT + 0x4000 + 8 * old(h).mhartid <= u64::MAX,
    ensures
        r.compare == CLINT + 0x4000 + 8 * old(h).mhartid,
        r.first == spec_first_tick(mtime),
        r.scratch@ == seq![0u64, 0u64, 0u64, r.compare, TIMER_INTERVAL],
        wrote(
            old(h),
            final(h),
            (Hart {
                mscratch: scratch,
                mtvec: image.timervec,
                mstatus: old(h).mstatus | MSTATUS_MIE,
                mie: old(h).mie | MIE_MTIE,
                ..*old(h)
            }),
            seq![
                HartOp::Write(Csr::Mscratch, scratch),
                HartOp::Write(Csr::Mtvec, image.timervec),
                HartOp::Write(Csr::Mstatus, old(h).mstatus | MSTATUS_MIE),
                HartOp::Write(Csr::Mie, old(h).mie | MIE_MTIE),
            ],
        ),
{
    let id = r_mhartid(h);
    let compare = clint_mtimecmp(id);
    let first = mtime.wrapping_add(TIMER_INTERVAL);
    let area: [u64; 5] = [0, 0, 0, compare, TIMER_INTERVAL];
    w_mscratch(h, scratch);
    w_mtvec(h, image.timervec);
    let mstatus = r_mstatus(h);
    w_mstatus(h, mstatus | MSTATUS_MIE);
    let mie = r_mie(h);
    w_mie(h, mie | MIE_MTIE);
    proof {
        assert(area@ =~= seq![0u64, 0u64, 0u64, compare, TIMER_INTERVAL]);
        assert(h.log@ =~= old(h).log@ + seq![
            HartOp::Write(Csr::Mscratch, scratch),
            HartOp::Write(Csr::Mtvec, image.timervec),
            HartOp::Write(Csr::Mstatus, old(h).mstatus | MSTATUS_MIE),
            HartOp::Write(Csr::Mie, old(h).mie | MIE_MTIE),
        ]);
    }
    TimerSetup { compare, first, scratch: area }
}

} // verus!
