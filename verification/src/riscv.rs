//! RISC-V privileged-architecture definitions: status bits, the Sv39 address
//! split and page-table entry encoding, and the register file of one hart.
use vstd::prelude::*;

verus! {

/// `mstatus.MPP`: the privilege level `mret` returns to (bits 11 and 12).
pub const MSTATUS_MPP_MASK: u64 = 0x1800;

pub const MSTATUS_MPP_M: u64 = 0x1800;

pub const MSTATUS_MPP_S: u64 = 0x800;

pub const MSTATUS_MPP_U: u64 = 0;

/// `mstatus.MIE`: machine-mode interrupt enable.
pub const MSTATUS_MIE: u64 = 0x8;

/// `sstatus.SPP`: the privilege level a trap came from (1 = supervisor).
pub const SSTATUS_SPP: u64 = 0x100;

/// `sstatus.SPIE`: supervisor previous interrupt enable.
pub const SSTATUS_SPIE: u64 = 0x20;

pub const SSTATUS_UPIE: u64 = 0x10;

/// `sstatus.SIE`: supervisor interrupt enable.
pub const SSTATUS_SIE: u64 = 0x2;

pub const SSTATUS_UIE: u64 = 0x1;

/// `sie.SEIE`: supervisor external interrupts.
pub const SIE_SEIE: u64 = 0x200;

/// `sie.STIE`: supervisor timer interrupts.
pub const SIE_STIE: u64 = 0x20;

/// `sie.SSIE`: supervisor software interrupts.
pub const SIE_SSIE: u64 = 0x2;

pub const MIE_MEIE: u64 = 0x800;

pub const MIE_MTIE: u64 = 0x80;

pub const MIE_MSIE: u64 = 0x8;

/// The paging-mode selector for Sv39, in the top four bits of `satp`.
pub const SATP_SV39: u64 = 0x8000_0000_0000_0000;

/// Bytes per page.
pub const PGSIZE: u64 = 4096;

/// Bits of offset within a page.
pub const PGSHIFT: u64 = 12;

/// Page-table entry flag: the entry is valid.
pub const PTE_V: u64 = 0x1;

pub const PTE_R: u64 = 0x2;

pub const PTE_W: u64 = 0x4;

pub const PTE_X: u64 = 0x8;

/// Page-table entry flag: user mode may use the mapping.
pub const PTE_U: u64 = 0x10;

/// One beyond the highest usable virtual address.  Sv39 has 39 bits of
/// virtual address; the top bit is left unused so that no address needs
/// sign extension.
pub const MAXVA: u64 = 0x40_0000_0000;

/// Mask of one 9-bit page-table index.
pub const PXMASK: u64 = 0x1FF;

/// Entries in one page-table page.
pub const PTES_PER_PAGE: usize = 512;

/// The low ten bits of a page-table entry hold its flags.
pub const PTE_FLAGS_MASK: u64 = 0x3FF;

/// One beyond the highest physical address whose page number fits the 44-bit
/// field of a page-table entry.
pub const MAXPA: u64 = 0x100_0000_0000_0000;

/// The start of the page that holds `a`.
pub open spec fn spec_pg_round_down(a: u64) -> u64 {
    (a - a % 4096) as u64
}

/// The page-table index that address `va` selects at `level` (2 is the root).
pub open spec fn spec_px(level: int, va: u64) -> int {
    if level == 0 {
        ((va / 0x1000) % 512) as int
    } else if level == 1 {
        ((va / 0x20_0000) % 512) as int
    } else {
        ((va / 0x4000_0000) % 512) as int
    }
}

/// The physical address that a page-table entry points to.
pub open spec fn spec_pte2pa(pte: u64) -> u64 {
    ((pte / 1024) * 4096) as u64
}

/// The page-number field of an entry that points to `pa`, flags clear.
pub open spec fn spec_pa2pte(pa: u64) -> u64 {
    ((pa / 4096) * 1024) as u64
}

/// The flag bits of a page-table entry.
pub open spec fn spec_pte_flags(pte: u64) -> u64 {
    (pte % 1024) as u64
}

/// Whether the valid bit of a page-table entry is set.
pub open spec fn spec_pte_valid(pte: u64) -> bool {
    pte % 2 == 1
}

/// The `satp` value that turns on Sv39 translation through the table at `root`.
pub open spec fn spec_make_satp(root: u64) -> u64 {
    (0x8000_0000_0000_0000 + root / 4096) as u64
}

/// Rounds an address down to a page boundary.
#[verifier::when_used_as_spec(spec_pg_round_down)]
pub fn pg_round_down(a: u64) -> (r: u64)
    ensures
        r == spec_pg_round_down(a),
        r <= a,
        r % 4096 == 0,
{
    let r: u64 = a & !(PGSIZE - 1);
    assert(a & !((4096u64 - 1) as u64) == (a - a % 4096) as u64) by (bit_vector);
    r
}

/// Extracts the 9-bit page-table index for `level` from a virtual address.
pub fn px(level: usize, va: u64) -> (r: usize)
    requires
        level <= 2,
    ensures
        r == spec_px(level as int, va),
        r < 512,
{
    let shifted: u64 = if level == 0 {
        va >> 12
    } else if level == 1 {
        va >> 21
    } else {
        va >> 30
    };
    let r: u64 = shifted & PXMASK;
    assert((va >> 12) & 0x1FF == (va / 0x1000) % 512) by (bit_vector);
    assert((va >> 21) & 0x1FF == (va / 0x20_0000) % 512) by (bit_vector);
    assert((va >> 30) & 0x1FF == (va / 0x4000_0000) % 512) by (bit_vector);
    r as usize
}

/// The physical address held in a page-table entry.
#[verifier::when_used_as_spec(spec_pte2pa)]
pub fn pte2pa(pte: u64) -> (pa: u64)
    ensures
        pa == spec_pte2pa(pte),
        pa % 4096 == 0,
{
    let pa: u64 = (pte >> 10) << 12;
    assert((pte >> 10) << 12 == ((pte / 1024) * 4096) as u64) by (bit_vector);
    assert(((pte >> 10) << 12) % 4096 == 0) by (bit_vector);
    pa
}

/// Moves a physical address into the page-number field of an entry.
#[verifier::when_used_as_spec(spec_pa2pte)]
pub fn pa2pte(pa: u64) -> (pte: u64)
    ensures
        pte == spec_pa2pte(pa),
{
    let pte: u64 = (pa >> 12) << 10;
    assert((pa >> 12) << 10 == ((pa / 4096) * 1024) as u64) by (bit_vector);
    pte
}

/// The flag bits of a page-table entry.
#[verifier::when_used_as_spec(spec_pte_flags)]
pub fn pte_flags(pte: u64) -> (flags: u64)
    ensures
        flags == spec_pte_flags(pte),
{
    let flags: u64 = pte & PTE_FLAGS_MASK;
    assert(pte & 0x3FF == (pte % 1024) as u64) by (bit_vector);
    flags
}

/// Whether a page-table entry is valid.
#[verifier::when_used_as_spec(spec_pte_valid)]
pub fn pte_valid(pte: u64) -> (valid: bool)
    ensures
        valid == spec_pte_valid(pte),
{
    assert(((pte & 0x1) == 1) == (pte % 2 == 1)) by (bit_vector);
    (pte & PTE_V) == 1
}

/// Builds the `satp` value for the page table whose root page is at `root`.
#[verifier::when_used_as_spec(spec_make_satp)]
pub fn make_satp(root: u64) -> (satp: u64)
    ensures
        satp == spec_make_satp(root),
{
    let satp: u64 = SATP_SV39 | (root >> 12);
    assert(0x8000_0000_0000_0000u64 | (root >> 12) == (0x8000_0000_0000_0000 + root / 4096) as u64)
        by (bit_vector);
    satp
}

/// The registers that the kernel writes.
#[derive(Clone, Copy, Debug, PartialEq, Eq, Structural)]
pub enum Csr {
    Mstatus,
    Mepc,
    Sstatus,
    Sip,
    Sie,
    Mie,
    Sepc,
    Medeleg,
    Mideleg,
    Stvec,
    Mtvec,
    Pmpcfg0,
    Pmpaddr0,
    Satp,
    Sscratch,
    Mscratch,
    Mcounteren,
    Tp,
}

/// Something the kernel made the hart do.
#[derive(Clone, Copy, Debug, PartialEq, Eq, Structural)]
pub enum HartOp {
    /// It wrote the value to the register.
    Write(Csr, u64),
    /// It flushed all cached address translations.
    Fence,
}

/// The registers of one hart that the kernel reads or writes: the
/// control-and-status registers and three general registers.  Reading a
/// register gives what it holds; writing one changes that register alone.
/// The hart also keeps, in the order in which they happened, the writes
/// and the flushes that the kernel made: `log`.
#[derive(Clone, Debug, PartialEq, Eq)]
pub struct Hart {
    /// The identifier of this hart.
    pub mhartid: u64,
    /// The machine status register.
    pub mstatus: u64,
    /// The machine exception program counter, where `mret` goes.
    pub mepc: u64,
    /// The supervisor status register.
    pub sstatus: u64,
    /// The supervisor interrupt-pending register.
    pub sip: u64,
    /// The supervisor interrupt-enable register.
    pub sie: u64,
    /// The machine interrupt-enable register.
    pub mie: u64,
    /// The supervisor exception program counter, where `sret` goes.
    pub sepc: u64,
    /// The machine exception delegation register.
    pub medeleg: u64,
    /// The machine interrupt delegation register.
    pub mideleg: u64,
    /// The supervisor trap-vector base address.
    pub stvec: u64,
    /// The machine trap-vector base address.
    pub mtvec: u64,
    /// The first physical-memory-protection configuration register.
    pub pmpcfg0: u64,
    /// The first physical-memory-protection address register.
    pub pmpaddr0: u64,
    /// The supervisor address translation and protection register.
    pub satp: u64,
    /// The supervisor scratch register.
    pub sscratch: u64,
    /// The machine scratch register.
    pub mscratch: u64,
    /// The supervisor trap cause.
    pub scause: u64,
    /// The supervisor trap value.
    pub stval: u64,
    /// The machine counter-enable register.
    pub mcounteren: u64,
    /// The cycle counter.
    pub time: u64,
    /// The stack pointer.
    pub sp: u64,
    /// The thread pointer, which holds this hart's identifier.
    pub tp: u64,
    /// The return address register.
    pub ra: u64,
    /// The `satp` value that was in force when cached translations were
    /// last flushed.
    pub tlb_satp: u64,
    /// What the kernel made the hart do, the oldest first.
    pub log: Vec<HartOp>,
}

/// `after` is `before` after the kernel did `ops`: the registers are those
/// of `regs`, and `ops` have been added to the log.  The log of `regs`
/// plays no part.
pub open spec fn wrote(before: &Hart, after: &Hart, regs: Hart, ops: Seq<HartOp>) -> bool {
    &&& after.log@ == before.log@ + ops
    &&& *after == (Hart { log: after.log, ..regs })
}

impl Hart {
    /// The registers of hart `hartid` at reset: all zero but the
    /// identifier, and nothing done yet.
    pub fn new(hartid: u64) -> (h: Hart)
        ensures
            h.log@ == Seq::<HartOp>::empty(),
            h == (Hart {
                mhartid: hartid,
                mstatus: 0,
                mepc: 0,
                sstatus: 0,
                sip: 0,
                sie: 0,
                mie: 0,
                sepc: 0,
                medeleg: 0,
                mideleg: 0,
                stvec: 0,
                mtvec: 0,
                pmpcfg0: 0,
                pmpaddr0: 0,
                satp: 0,
                sscratch: 0,
                mscratch: 0,
                scause: 0,
                stval: 0,
                mcounteren: 0,
                time: 0,
                sp: 0,
                tp: 0,
                ra: 0,
                tlb_satp: 0,
                log: h.log,
            }),
    {
        Hart {
            mhartid: hartid,
            mstatus: 0,
            mepc: 0,
            sstatus: 0,
            sip: 0,
            sie: 0,
            mie: 0,
            sepc: 0,
            medeleg: 0,
            mideleg: 0,
            stvec: 0,
            mtvec: 0,
            pmpcfg0: 0,
            pmpaddr0: 0,
            satp: 0,
            sscratch: 0,
            mscratch: 0,
            scause: 0,
            stval: 0,
            mcounteren: 0,
            time: 0,
            sp: 0,
            tp: 0,
            ra: 0,
            tlb_satp: 0,
            log: Vec::new(),
        }
    }
}

/// Reads the identifier of this hart.
pub fn r_mhartid(h: &Hart) -> (x: u64)
    ensures
        x == h.mhartid,
{
    h.mhartid
}

/// Reads the machine status register.
pub fn r_mstatus(h: &Hart) -> (x: u64)
    ensures
        x == h.mstatus,
{
    h.mstatus
}

/// Writes the machine status register.
pub fn w_mstatus(h: &mut Hart, x: u64)
    ensures
        wrote(
            old(h),
            final(h),
            (Hart { mstatus: x, ..*old(h) }),
            seq![HartOp::Write(Csr::Mstatus, x)],
        ),
{
    h.mstatus = x;
    h.log.push(HartOp::Write(Csr::Mstatus, x));
    proof {
        assert(h.log@ =~= old(h).log@ + seq![HartOp::Write(Csr::Mstatus, x)]);
    }
}

/// Writes the machine exception program counter, where `mret` goes.
pub fn w_mepc(h: &mut Hart, x: u64)
    ensures
        wrote(
            old(h),
            final(h),
            (Hart { mepc: x, ..*old(h) }),
            seq![HartOp::Write(Csr::Mepc, x)],
        ),
{
    h.mepc = x;
    h.log.push(HartOp::Write(Csr::Mepc, x));
    proof {
        assert(h.log@ =~= old(h).log@ + seq![HartOp::Write(Csr::Mepc, x)]);
    }
}

/// Reads the supervisor status register.
pub fn r_sstatus(h: &Hart) -> (x: u64)
    ensures
        x == h.sstatus,
{
    h.sstatus
}

/// Writes the supervisor status register.
pub fn w_sstatus(h: &mut Hart, x: u64)
    ensures
        wrote(
            old(h),
            final(h),
            (Hart { sstatus: x, ..*old(h) }),
            seq![HartOp::Write(Csr::Sstatus, x)],
        ),
{
    h.sstatus = x;
    h.log.push(HartOp::Write(Csr::Sstatus, x));
    proof {
        assert(h.log@ =~= old(h).log@ + seq![HartOp::Write(Csr::Sstatus, x)]);
    }
}

/// Reads the supervisor interrupt-pending register.
pub fn r_sip(h: &Hart) -> (x: u64)
    ensures
        x == h.sip,
{
    h.sip
}

/// Writes the supervisor interrupt-pending register.
pub fn w_sip(h: &mut Hart, x: u64)
    ensures
        wrote(
            old(h),
            final(h),
            (Hart { sip: x, ..*old(h) }),
            seq![HartOp::Write(Csr::Sip, x)],
        ),
{
    h.sip = x;
    h.log.push(HartOp::Write(Csr::Sip, x));
    proof {
        assert(h.log@ =~= old(h).log@ + seq![HartOp::Write(Csr::Sip, x)]);
    }
}

/// Reads the supervisor interrupt-enable register.
pub fn r_sie(h: &Hart) -> (x: u64)
    ensures
        x == h.sie,
{
    h.sie
}

/// Writes the supervisor interrupt-enable register.
pub fn w_sie(h: &mut Hart, x: u64)
    ensures
        wrote(
            old(h),
            final(h),
            (Hart { sie: x, ..*old(h) }),
            seq![HartOp::Write(Csr::Sie, x)],
        ),
{
    h.sie = x;
    h.log.push(HartOp::Write(Csr::Sie, x));
    proof {
        assert(h.log@ =~= old(h).log@ + seq![HartOp::Write(Csr::Sie, x)]);
    }
}

/// Reads the machine interrupt-enable register.
pub fn r_mie(h: &Hart) -> (x: u64)
    ensures
        x == h.mie,
{
    h.mie
}

/// Writes the machine interrupt-enable register.
pub fn w_mie(h: &mut Hart, x: u64)
    ensures
        wrote(
            old(h),
            final(h),
            (Hart { mie: x, ..*old(h) }),
            seq![HartOp::Write(Csr::Mie, x)],
        ),
{
    h.mie = x;
    h.log.push(HartOp::Write(Csr::Mie, x));
    proof {
        assert(h.log@ =~= old(h).log@ + seq![HartOp::Write(Csr::Mie, x)]);
    }
}

/// Reads the supervisor exception program counter, where `sret` goes.
pub fn r_sepc(h: &Hart) -> (x: u64)
    ensures
        x == h.sepc,
{
    h.sepc
}

/// Writes the supervisor exception program counter, where `sret` goes.
pub fn w_sepc(h: &mut Hart, x: u64)
    ensures
        wrote(
            old(h),
            final(h),
            (Hart { sepc: x, ..*old(h) }),
            seq![HartOp::Write(Csr::Sepc, x)],
        ),
{
    h.sepc = x;
    h.log.push(HartOp::Write(Csr::Sepc, x));
    proof {
        assert(h.log@ =~= old(h).log@ + seq![HartOp::Write(Csr::Sepc, x)]);
    }
}

/// Reads the machine exception delegation register.
pub fn r_medeleg(h: &Hart) -> (x: u64)
    ensures
        x == h.medeleg,
{
    h.medeleg
}

/// Writes the machine exception delegation register.
pub fn w_medeleg(h: &mut Hart, x: u64)
    ensures
        wrote(
            old(h),
            final(h),
            (Hart { medeleg: x, ..*old(h) }),
            seq![HartOp::Write(Csr::Medeleg, x)],
        ),
{
    h.medeleg = x;
    h.log.push(HartOp::Write(Csr::Medeleg, x));
    proof {
        assert(h.log@ =~= old(h).log@ + seq![HartOp::Write(Csr::Medeleg, x)]);
    }
}

/// Reads the machine interrupt delegation register.
pub fn r_mideleg(h: &Hart) -> (x: u64)
    ensures
        x == h.mideleg,
{
    h.mideleg
}

/// Writes the machine interrupt delegation register.
pub fn w_mideleg(h: &mut Hart, x: u64)
    ensures
        wrote(
            old(h),
            final(h),
            (Hart { mideleg: x, ..*old(h) }),
            seq![HartOp::Write(Csr::Mideleg, x)],
        ),
{
    h.mideleg = x;
    h.log.push(HartOp::Write(Csr::Mideleg, x));
    proof {
        assert(h.log@ =~= old(h).log@ + seq![HartOp::Write(Csr::Mideleg, x)]);
    }
}

/// Reads the supervisor trap-vector base address.
pub fn r_stvec(h: &Hart) -> (x: u64)
    ensures
        x == h.stvec,
{
    h.stvec
}

/// Writes the supervisor trap-vector base address.
pub fn w_stvec(h: &mut Hart, x: u64)
    ensures
        wrote(
            old(h),
            final(h),
            (Hart { stvec: x, ..*old(h) }),
            seq![HartOp::Write(Csr::Stvec, x)],
        ),
{
    h.stvec = x;
    h.log.push(HartOp::Write(Csr::Stvec, x));
    proof {
        assert(h.log@ =~= old(h).log@ + seq![HartOp::Write(Csr::Stvec, x)]);
    }
}

/// Writes the machine trap-vector base address.
pub fn w_mtvec(h: &mut Hart, x: u64)
    ensures
        wrote(
            old(h),
            final(h),
            (Hart { mtvec: x, ..*old(h) }),
            seq![HartOp::Write(Csr::Mtvec, x)],
        ),
{
    h.mtvec = x;
    h.log.push(HartOp::Write(Csr::Mtvec, x));
    proof {
        assert(h.log@ =~= old(h).log@ + seq![HartOp::Write(Csr::Mtvec, x)]);
    }
}

/// Writes the first physical-memory-protection configuration register.
pub fn w_pmpcfg0(h: &mut Hart, x: u64)
    ensures
        wrote(
            old(h),
            final(h),
            (Hart { pmpcfg0: x, ..*old(h) }),
            seq![HartOp::Write(Csr::Pmpcfg0, x)],
        ),
{
    h.pmpcfg0 = x;
    h.log.push(HartOp::Write(Csr::Pmpcfg0, x));
    proof {
        assert(h.log@ =~= old(h).log@ + seq![HartOp::Write(Csr::Pmpcfg0, x)]);
    }
}

/// Writes the first physical-memory-protection address register.
pub fn w_pmpaddr0(h: &mut Hart, x: u64)
    ensures
        wrote(
            old(h),
            final(h),
            (Hart { pmpaddr0: x, ..*old(h) }),
            seq![HartOp::Write(Csr::Pmpaddr0, x)],
        ),
{
    h.pmpaddr0 = x;
    h.log.push(HartOp::Write(Csr::Pmpaddr0, x));
    proof {
        assert(h.log@ =~= old(h).log@ + seq![HartOp::Write(Csr::Pmpaddr0, x)]);
    }
}

/// Reads the supervisor address translation and protection register.
pub fn r_satp(h: &Hart) -> (x: u64)
    ensures
        x == h.satp,
{
    h.satp
}

/// Writes the supervisor address translation and protection register.
pub fn w_satp(h: &mut Hart, x: u64)
    ensures
        wrote(
            old(h),
            final(h),
            (Hart { satp: x, ..*old(h) }),
            seq![HartOp::Write(Csr::Satp, x)],
        ),
{
    h.satp = x;
    h.log.push(HartOp::Write(Csr::Satp, x));
    proof {
        assert(h.log@ =~= old(h).log@ + seq![HartOp::Write(Csr::Satp, x)]);
    }
}

/// Writes the supervisor scratch register.
pub fn w_sscratch(h: &mut Hart, x: u64)
    ensures
        wrote(
            old(h),
            final(h),
            (Hart { sscratch: x, ..*old(h) }),
            seq![HartOp::Write(Csr::Sscratch, x)],
        ),
{
    h.sscratch = x;
    h.log.push(HartOp::Write(Csr::Sscratch, x));
    proof {
        assert(h.log@ =~= old(h).log@ + seq![HartOp::Write(Csr::Sscratch, x)]);
    }
}

/// Writes the machine scratch register.
pub fn w_mscratch(h: &mut Hart, x: u64)
    ensures
        wrote(
            old(h),
            final(h),
            (Hart { mscratch: x, ..*old(h) }),
            seq![HartOp::Write(Csr::Mscratch, x)],
        ),
{
    h.mscratch = x;
    h.log.push(HartOp::Write(Csr::Mscratch, x));
    proof {
        assert(h.log@ =~= old(h).log@ + seq![HartOp::Write(Csr::Mscratch, x)]);
    }
}

/// Reads the supervisor trap cause.
pub fn r_scause(h: &Hart) -> (x: u64)
    ensures
        x == h.scause,
{
    h.scause
}

/// Reads the supervisor trap value.
pub fn r_stval(h: &Hart) -> (x: u64)
    ensures
        x == h.stval,
{
    h.stval
}

/// Writes the machine counter-enable register.
pub fn w_mcounteren(h: &mut Hart, x: u64)
    ensures
        wrote(
            old(h),
            final(h),
            (Hart { mcounteren: x, ..*old(h) }),
            seq![HartOp::Write(Csr::Mcounteren, x)],
        ),
{
    h.mcounteren = x;
    h.log.push(HartOp::Write(Csr::Mcounteren, x));
    proof {
        assert(h.log@ =~= old(h).log@ + seq![HartOp::Write(Csr::Mcounteren, x)]);
    }
}

/// Reads the machine counter-enable register.
pub fn r_mcounteren(h: &Hart) -> (x: u64)
    ensures
        x == h.mcounteren,
{
    h.mcounteren
}

/// Reads the cycle counter.
pub fn r_time(h: &Hart) -> (x: u64)
    ensures
        x == h.time,
{
    h.time
}

/// Enables device interrupts in supervisor mode.
pub fn intr_on(h: &mut Hart)
    ensures
        wrote(
            old(h),
            final(h),
            (Hart { sstatus: old(h).sstatus | SSTATUS_SIE, ..*old(h) }),
            seq![HartOp::Write(Csr::Sstatus, old(h).sstatus | SSTATUS_SIE)],
        ),
{
    let x = r_sstatus(h);
    w_sstatus(h, x | SSTATUS_SIE);
}

/// Disables device interrupts in supervisor mode.
pub fn intr_off(h: &mut Hart)
    ensures
        wrote(
            old(h),
            final(h),
            (Hart { sstatus: old(h).sstatus & !SSTATUS_SIE, ..*old(h) }),
            seq![HartOp::Write(Csr::Sstatus, old(h).sstatus & !SSTATUS_SIE)],
        ),
{
    let x = r_sstatus(h);
    w_sstatus(h, x & !SSTATUS_SIE);
}

/// Whether device interrupts are enabled in supervisor mode.
pub open spec fn spec_intr_get(h: &Hart) -> bool {
    h.sstatus & SSTATUS_SIE != 0
}

/// Whether device interrupts are enabled in supervisor mode.
#[verifier::when_used_as_spec(spec_intr_get)]
pub fn intr_get(h: &Hart) -> (on: bool)
    ensures
        on == spec_intr_get(h),
{
    let x = r_sstatus(h);
    (x & SSTATUS_SIE) != 0
}

/// Reads the stack pointer.
pub fn r_sp(h: &Hart) -> (x: u64)
    ensures
        x == h.sp,
{
    h.sp
}

/// Reads the thread pointer, which holds this hart's identifier.
pub fn r_tp(h: &Hart) -> (x: u64)
    ensures
        x == h.tp,
{
    h.tp
}

/// Writes the thread pointer, which holds this hart's identifier.
pub fn w_tp(h: &mut Hart, x: u64)
    ensures
        wrote(
            old(h),
            final(h),
            (Hart { tp: x, ..*old(h) }),
            seq![HartOp::Write(Csr::Tp, x)],
        ),
{
    h.tp = x;
    h.log.push(HartOp::Write(Csr::Tp, x));
    proof {
        assert(h.log@ =~= old(h).log@ + seq![HartOp::Write(Csr::Tp, x)]);
    }
}

/// Reads the return address register.
pub fn r_ra(h: &Hart) -> (x: u64)
    ensures
        x == h.ra,
{
    h.ra
}

/// Flushes all cached address translations: from here on the hart
/// translates through what `satp` holds now.
pub fn sfence_vma(h: &mut Hart)
    ensures
        wrote(old(h), final(h), (Hart { tlb_satp: old(h).satp, ..*old(h) }), seq![HartOp::Fence]),
{
    h.tlb_satp = h.satp;
    h.log.push(HartOp::Fence);
    proof {
        assert(h.log@ =~= old(h).log@ + seq![HartOp::Fence]);
    }
}

} // verus!
