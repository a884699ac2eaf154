//! Trap dispatch: what the kernel does when a trap arrives from user mode
//! or from the kernel itself, and how it goes back to user mode.
//!
//! Each handler works on the hart's registers and the process table, and
//! says in its result what the caller has to do next: run a system call,
//! service the interrupt controller, write a log line, enter user mode.
use vstd::prelude::*;
use crate::memolayout::{
    in_trampoline, spec_in_trampoline, KernelImage, TRAPFRAME, UART_IRQ, VIRTIO0_IRQ,
};
use crate::params::NPROC;
use crate::proc::{current, myproc, spec_myproc, Cpu, Proc, ProcTable, Trapframe, TrapframePage};
use crate::riscv::{
    intr_get, intr_off, intr_on, make_satp, r_satp, r_scause, r_sepc, r_sstatus, r_stval, r_tp,
    spec_make_satp, w_sepc, w_sstatus, w_stvec, wrote, Csr, Hart, HartOp, PGSIZE, SSTATUS_SIE,
    SSTATUS_SPIE, SSTATUS_SPP,
};

verus! {

/// The cause of an environment call from user mode: a system call.
pub const SCAUSE_ECALL_USER: u64 = 8;

/// Bytes that the saved program counter is moved on past an `ecall`.
pub const ECALL_LENGTH: u64 = 4;

/// Pages from the bottom of a kernel stack to where a process enters the
/// kernel on a trap.
pub const KERNEL_SP_PAGES: u64 = 15;

/// What the test at the entry of a trap handler found wrong.  The kernel
/// halts the hart on each of them.
#[derive(Clone, Copy, Debug, PartialEq, Eq, Structural)]
pub enum TrapError {
    /// `usertrap` was entered, but the trap did not come from user mode.
    NotFromUserMode,
    /// `kerneltrap` was entered, but the trap did not come from supervisor mode.
    NotFromSupervisorMode,
    /// `kerneltrap` was entered with interrupts enabled.
    InterruptsEnabled,
    /// A trap in the kernel whose cause is not known: the cause, the
    /// program counter and the trap value, for the log.
    UnexpectedCause { scause: u64, sepc: u64, stval: u64 },
    /// No process runs on this hart.
    NoProcess,
}

/// What kind of interrupt a trap was.
#[derive(Clone, Copy, Debug, PartialEq, Eq, Structural)]
pub enum DevintrState {
    /// The timer.
    TimerIntr,
    /// A device, by way of the interrupt controller: the caller claims the
    /// request there and does what [`irq_actions`] says.
    OtherDev,
    /// No interrupt that the kernel knows.
    NotRecognized,
}

/// What is to be done with a request that was claimed from the interrupt
/// controller.
#[derive(Clone, Copy, Debug, PartialEq, Eq, Structural)]
pub enum IrqAction {
    /// Run the block device's interrupt handler.
    BlockDevice,
    /// Run the console's interrupt handler.
    Console,
    /// Tell the interrupt controller that this request has been served.
    Complete(u32),
}

/// What the kernel has to do after `usertrap`, before it goes back to user
/// mode with `usertrapret`.
#[derive(Clone, Copy, Debug, PartialEq, Eq, Structural)]
pub enum UserTrap {
    /// Run the system call that the process asked for.  Interrupts are on.
    Syscall,
    /// The process asked for a system call after it was killed.  What is to
    /// become of it is not settled; the kernel goes no further.
    Stalled,
    /// Serve the interrupt that was recognized.
    Device(DevintrState),
    /// The cause is not known, and the process has been marked killed.
    /// The cause, the process id, the program counter and the trap value
    /// are for the log.
    Unexpected { scause: u64, pid: i32, sepc: u64, stval: u64 },
}

/// What a trap in the kernel was, and the registers to put back once it
/// has been served.
#[derive(Clone, Copy, Debug, PartialEq, Eq, Structural)]
pub struct KernelTrap {
    pub intr: DevintrState,
    pub sepc: u64,
    pub sstatus: u64,
}

/// The arguments of the jump into user mode: the address of the return
/// routine in the trampoline page, the virtual address of the trapframe,
/// and the `satp` value of the process's page table.
#[derive(Clone, Copy, Debug, PartialEq, Eq, Structural)]
pub struct UserReturn {
    pub userret: u64,
    pub trapframe: u64,
    pub satp: u64,
}

/// Whether the cause is an external interrupt in supervisor mode: the
/// top bit says interrupt, the low byte says which.
pub open spec fn spec_is_external(scause: u64) -> bool {
    scause >= 0x8000_0000_0000_0000 && scause % 256 == 9
}

/// What kind of interrupt the cause stands for.
pub open spec fn spec_devintr(scause: u64) -> DevintrState {
    if spec_is_external(scause) {
        DevintrState::OtherDev
    } else {
        DevintrState::NotRecognized
    }
}

/// Tells from the cause register whether the trap is an interrupt from a
/// device.  For [`DevintrState::OtherDev`] the caller claims the request
/// from the interrupt controller and serves it as [`irq_actions`] says.
#[verifier::when_used_as_spec(spec_devintr)]
pub fn devintr(scause: u64) -> (r: DevintrState)
    ensures
        r == spec_devintr(scause),
{
    assert(((scause & 0x8000_0000_0000_0000) != 0 && (scause & 0xff) == 9) == (scause
        >= 0x8000_0000_0000_0000 && scause % 256 == 9)) by (bit_vector);
    if (scause & 0x8000_0000_0000_0000) != 0 && (scause & 0xff) == 9 {
        DevintrState::OtherDev
    } else {
        DevintrState::NotRecognized
    }
}

/// What is done, in this order, with the request number `irq` that was
/// claimed: the handler of the device it belongs to, if it is the block
/// device's or the console's, and then the completion, unless the number
/// is 0, which means that nothing was pending.
pub open spec fn spec_irq_actions(irq: u32) -> Seq<IrqAction> {
    let handler = if irq == VIRTIO0_IRQ {
        seq![IrqAction::BlockDevice]
    } else if irq == UART_IRQ {
        seq![IrqAction::Console]
    } else {
        Seq::<IrqAction>::empty()
    };
    if irq != 0 {
        handler.push(IrqAction::Complete(irq))
    } else {
        handler
    }
}

/// Says what is to be done with a request claimed from the interrupt
/// controller.
pub fn irq_actions(irq: u32) -> (actions: Vec<IrqAction>)
    ensures
        actions@ == spec_irq_actions(irq),
{
    let mut actions: Vec<IrqAction> = Vec::new();
    if irq == VIRTIO0_IRQ {
        actions.push(IrqAction::BlockDevice);
    } else if irq == UART_IRQ {
        actions.push(IrqAction::Console);
    }
    if irq != 0 {
        actions.push(IrqAction::Complete(irq));
    }
    proof {
        assert(actions@ =~= spec_irq_actions(irq));
    }
    actions
}

/// Sends the traps that arrive in supervisor mode to the kernel's vector.
pub fn trapinithart(h: &mut Hart, image: &KernelImage)
    ensures
        wrote(
            old(h),
            final(h),
            (Hart { stvec: image.kernelvec, ..*old(h) }),
            seq![HartOp::Write(Csr::Stvec, image.kernelvec)],
        ),
{
    w_stvec(h, image.kernelvec);
}

/// The program counter after an `ecall` at `sepc`.
pub open spec fn spec_after_ecall(sepc: u64) -> u64 {
    if sepc + 4 > u64::MAX {
        (sepc + 4 - 0x1_0000_0000_0000_0000) as u64
    } else {
        (sepc + 4) as u64
    }
}

/// What the kernel has to do for a trap from user mode with this cause, in
/// a process with this killed flag.
pub open spec fn spec_user_trap(
    scause: u64,
    killed: bool,
    pid: i32,
    sepc: u64,
    stval: u64,
) -> UserTrap {
    if scause == SCAUSE_ECALL_USER {
        if killed {
            UserTrap::Stalled
        } else {
            UserTrap::Syscall
        }
    } else if spec_devintr(scause) == DevintrState::NotRecognized {
        UserTrap::Unexpected { scause, pid, sepc, stval }
    } else {
        UserTrap::Device(spec_devintr(scause))
    }
}

/// The process as `usertrap` leaves it: the program counter of the trap
/// is saved in the trapframe, past the `ecall` if a system call is to be
/// run, and the process is marked killed if the cause is not known.
pub open spec fn spec_trapped_proc(p: Proc, h: &Hart) -> Proc {
    let todo = spec_user_trap(h.scause, p.killed, p.pid, h.sepc, h.stval);
    let epc = if todo == UserTrap::Syscall {
        spec_after_ecall(h.sepc)
    } else {
        h.sepc
    };
    Proc {
        killed: p.killed || todo is Unexpected,
        trapframe: Some(
            TrapframePage {
                frame: Trapframe { epc, ..p.trapframe.unwrap().frame },
                ..p.trapframe.unwrap()
            },
        ),
        ..p
    }
}

/// What the hart did in `usertrap`: it sent traps to the kernel's vector,
/// and then, only where a system call is to be run, enabled interrupts.
pub open spec fn spec_usertrap_ops(kernelvec: u64, sstatus: u64, todo: UserTrap) -> Seq<HartOp> {
    if todo == UserTrap::Syscall {
        seq![
            HartOp::Write(Csr::Stvec, kernelvec),
            HartOp::Write(Csr::Sstatus, sstatus | SSTATUS_SIE),
        ]
    } else {
        seq![HartOp::Write(Csr::Stvec, kernelvec)]
    }
}

/// Whether `usertrap` may be entered: the trap must have come from user
/// mode, and a process must run on this hart.
pub open spec fn spec_check_usertrap(h: &Hart, cpus: &[Cpu], table: &ProcTable) -> Result<
    usize,
    TrapError,
> {
    if h.sstatus & SSTATUS_SPP != 0 {
        Err(TrapError::NotFromUserMode)
    } else {
        match spec_myproc(h, cpus, table) {
            Some(i) => Ok(i),
            None => Err(TrapError::NoProcess),
        }
    }
}

/// Tests at the entry of the handler for traps from user mode that the
/// trap came from user mode and that a process runs on this hart, and says
/// which.  The kernel halts on an error.
pub fn check_usertrap(h: &Hart, cpus: &[Cpu], table: &ProcTable) -> (r: Result<usize, TrapError>)
    ensures
        r == spec_check_usertrap(h, cpus, table),
{
    if (r_sstatus(h) & SSTATUS_SPP) != 0 {
        return Err(TrapError::NotFromUserMode);
    }
    match myproc(h, cpus, table) {
        Some(i) => Ok(i),
        None => Err(TrapError::NoProcess),
    }
}

/// Handles a trap from user mode.  The trap must have come from user mode,
/// and a process must run on this hart; [`check_usertrap`] tests that.
///
/// Traps are sent to the kernel's vector from now on.  The program counter
/// of the trap is saved in the process's trapframe, and the cause decides:
/// a system call is to be run, with the saved program counter moved past
/// the `ecall` and interrupts enabled, unless the process was killed; a
/// device interrupt is to be served; for any other cause the process is
/// marked killed.  After the caller has done what the result says, it goes
/// back to user mode by `usertrapret`.
pub fn usertrap(h: &mut Hart, cpus: &[Cpu], table: &mut ProcTable) -> (todo: UserTrap)
    requires
        old(table).wf(),
        old(h).sstatus & SSTATUS_SPP == 0,
        spec_myproc(old(h), cpus, old(table)) is Some,
    ensures
        final(table).wf(),
        final(table).next_pid == old(table).next_pid,
        final(table).image == old(table).image,
        ({
            let i = spec_myproc(old(h), cpus, old(table)).unwrap();
            let p = old(table).procs@[i as int];
            let is = old(h);
            &&& todo == spec_user_trap(is.scause, p.killed, p.pid, is.sepc, is.stval)
            &&& final(table).procs@ == old(table).procs@.update(
                i as int,
                spec_trapped_proc(p, old(h)),
            )
            &&& wrote(
                old(h),
                final(h),
                (Hart {
                    stvec: old(table).image.kernelvec,
                    sstatus: if todo == UserTrap::Syscall {
                        old(h).sstatus | SSTATUS_SIE
                    } else {
                        old(h).sstatus
                    },
                    ..*old(h)
                }),
                spec_usertrap_ops(old(table).image.kernelvec, old(h).sstatus, todo),
            )
        }),
{
    // Traps are now in the kernel: send them to the kernel's vector.
    w_stvec(h, table.image.kernelvec);
    let i: usize = current(h, cpus, table);
    proof {
        assert(table.slot_wf(i as int));
    }
    let sepc = r_sepc(h);
    let scause = r_scause(h);
    let mut epc = sepc;
    let todo: UserTrap;
    if scause == SCAUSE_ECALL_USER {
        if table.procs[i].killed {
            todo = UserTrap::Stalled;
        } else {
            // The saved program counter points at the ecall; the process
            // is to go on after it.
            epc = sepc.wrapping_add(ECALL_LENGTH);
            // An interrupt changes the trap registers, so they are enabled
            // only now that those have been read.
            intr_on(h);
            todo = UserTrap::Syscall;
        }
    } else {
        let intr = devintr(scause);
        match intr {
            DevintrState::NotRecognized => {
                table.procs[i].killed = true;
                todo = UserTrap::Unexpected {
                    scause,
                    pid: table.procs[i].pid,
                    sepc,
                    stval: r_stval(h),
                };
            },
            _ => {
                todo = UserTrap::Device(intr);
            },
        }
    }
    match &mut table.procs[i].trapframe {
        Some(page) => {
            page.frame.epc = epc;
        },
        None => {},
    }
    proof {
        assert(h.log@ =~= old(h).log@ + spec_usertrap_ops(
            old(table).image.kernelvec,
            old(h).sstatus,
            todo,
        ));
        assert(table.procs@ =~= old(table).procs@.update(
            i as int,
            spec_trapped_proc(old(table).procs@[i as int], old(h)),
        ));
        assert forall|k: int| 0 <= k < NPROC implies #[trigger] table.slot_wf(k) by {
            assert(old(table).slot_wf(k));
        }
    }
    todo
}

/// The status register for the return to user mode: the previous
/// privilege is user, and interrupts are enabled once there.
pub open spec fn spec_user_status(sstatus: u64) -> u64 {
    (sstatus & !SSTATUS_SIE & !SSTATUS_SPP) | SSTATUS_SPIE
}

/// The trapframe as `usertrapret` leaves it: it says where the kernel is
/// entered on the next trap from this process.
pub open spec fn spec_return_frame(
    frame: Trapframe,
    h: &Hart,
    image: &KernelImage,
    kstack: u64,
) -> Trapframe {
    Trapframe {
        kernel_satp: h.satp,
        kernel_sp: (kstack + KERNEL_SP_PAGES * PGSIZE) as u64,
        kernel_trap: image.usertrap,
        kernel_hartid: h.tp,
        ..frame
    }
}

/// What `usertrapret` leaves behind: how the registers `h1`, the table `t1`
/// and the result `r` relate to the registers `h0` and the table `t0`
/// before the call.
pub open spec fn user_return(
    h0: &Hart,
    cpus: &[Cpu],
    t0: &ProcTable,
    h1: &Hart,
    t1: &ProcTable,
    r: UserReturn,
) -> bool {
    match spec_myproc(h0, cpus, t0) {
        None => false,
        Some(i) => {
            let p = t0.procs@[i as int];
            let image = t0.image;
            let page = p.trapframe.unwrap();
            // The jump goes to the return routine in the trampoline page,
            // with the trapframe's address and the process's page table.
            &&& r == (UserReturn {
                userret: spec_in_trampoline(&image, image.userret),
                trapframe: TRAPFRAME,
                satp: spec_make_satp(p.pagetable.unwrap().root_pa()),
            })
            // The trapframe knows the way back into the kernel.
            &&& t1.next_pid == t0.next_pid
            &&& t1.image == t0.image
            &&& t1.procs@ == t0.procs@.update(
                i as int,
                Proc {
                    trapframe: Some(
                        TrapframePage {
                            frame: spec_return_frame(page.frame, h0, &image, p.kstack),
                            ..page
                        },
                    ),
                    ..p
                },
            )
            // Interrupts are turned off first.  Only then do traps go to
            // the user vector; and then the return from the trap is set to
            // go to the saved program counter in user mode.
            &&& wrote(
                h0,
                h1,
                (Hart {
                    stvec: spec_in_trampoline(&image, image.uservec),
                    sstatus: spec_user_status(h0.sstatus),
                    sepc: page.frame.epc,
                    ..*h0
                }),
                seq![
                    HartOp::Write(Csr::Sstatus, h0.sstatus & !SSTATUS_SIE),
                    HartOp::Write(Csr::Stvec, spec_in_trampoline(&image, image.uservec)),
                    HartOp::Write(Csr::Sstatus, spec_user_status(h0.sstatus)),
                    HartOp::Write(Csr::Sepc, page.frame.epc),
                ],
            )
        },
    }
}

/// Prepares the return to user mode of the process that runs on this hart;
/// there must be one, which `check_process` tests.
///
/// Interrupts are turned off, traps are sent to the user vector in the
/// trampoline page, the trapframe is told where the kernel is entered on
/// the next trap, the status register is set for a return to user mode
/// with interrupts enabled, and the exception program counter gets the
/// saved user program counter.  The result holds the arguments of the jump
/// into user mode, which the caller makes and which does not come back.
pub fn usertrapret(h: &mut Hart, cpus: &[Cpu], table: &mut ProcTable) -> (r: UserReturn)
    requires
        old(table).wf(),
        spec_myproc(old(h), cpus, old(table)) is Some,
    ensures
        final(table).wf(),
        user_return(old(h), cpus, old(table), final(h), final(table), r),
{
    let i: usize = current(h, cpus, table);
    proof {
        assert(table.slot_wf(i as int));
    }
    // The trap vector is about to point into user space, so no interrupt
    // may arrive until user mode has been entered.
    intr_off(h);
    w_stvec(h, in_trampoline(&table.image, table.image.uservec));
    let stack: u64 = table.procs[i].kstack;
    let kernel_satp = r_satp(h);
    let kernel_hartid = r_tp(h);
    let kernel_trap = table.image.usertrap;
    let mut epc: u64 = 0;
    match &mut table.procs[i].trapframe {
        Some(page) => {
            page.frame.kernel_satp = kernel_satp;
            page.frame.kernel_sp = stack + KERNEL_SP_PAGES * PGSIZE;
            page.frame.kernel_trap = kernel_trap;
            page.frame.kernel_hartid = kernel_hartid;
            epc = page.frame.epc;
        },
        None => {},
    }
    // What the return from the trap looks at: the previous privilege is
    // user mode, and interrupts are enabled there.
    let mut x = r_sstatus(h);
    x = x & !SSTATUS_SPP;
    x = x | SSTATUS_SPIE;
    w_sstatus(h, x);
    w_sepc(h, epc);
    let satp = match &table.procs[i].pagetable {
        Some(space) => make_satp(space.root()),
        None => 0,
    };
    proof {
        let s = old(h).sstatus;
        assert(((s & !0x2u64) & !0x100u64) | 0x20u64 == (s & !0x2u64 & !0x100u64) | 0x20u64)
            by (bit_vector);
        let image = old(table).image;
        assert(h.log@ =~= old(h).log@ + seq![
            HartOp::Write(Csr::Sstatus, s & !SSTATUS_SIE),
            HartOp::Write(Csr::Stvec, spec_in_trampoline(&image, image.uservec)),
            HartOp::Write(Csr::Sstatus, spec_user_status(s)),
            HartOp::Write(Csr::Sepc, old(table).procs@[i as int].trapframe.unwrap().frame.epc),
        ]);
        assert(table.procs@ =~= old(table).procs@.update(
            i as int,
            Proc {
                trapframe: Some(
                    TrapframePage {
                        frame: spec_return_frame(
                            old(table).procs@[i as int].trapframe.unwrap().frame,
                            old(h),
                            &old(table).image,
                            old(table).procs@[i as int].kstack,
                        ),
                        ..old(table).procs@[i as int].trapframe.unwrap()
                    },
                ),
                ..old(table).procs@[i as int]
            },
        ));
        assert forall|k: int| 0 <= k < NPROC implies #[trigger] table.slot_wf(k) by {
            assert(old(table).slot_wf(k));
        }
    }
    UserReturn {
        userret: in_trampoline(&table.image, table.image.userret),
        trapframe: TRAPFRAME,
        satp,
    }
}

/// Whether `kerneltrap` may be entered with these registers: the trap must
/// have come from supervisor mode, with interrupts disabled, and its cause
/// must be a device interrupt.
pub open spec fn spec_check_kerneltrap(h: &Hart) -> Result<(), TrapError> {
    if h.sstatus & SSTATUS_SPP == 0 {
        Err(TrapError::NotFromSupervisorMode)
    } else if h.sstatus & SSTATUS_SIE != 0 {
        Err(TrapError::InterruptsEnabled)
    } else if spec_devintr(h.scause) == DevintrState::NotRecognized {
        Err(TrapError::UnexpectedCause { scause: h.scause, sepc: h.sepc, stval: h.stval })
    } else {
        Ok(())
    }
}

/// Tests at the entry of the handler for traps in the kernel that the
/// trap came from supervisor mode, that interrupts are disabled, and that
/// the cause is known.  The kernel halts on an error; for an unknown cause
/// the error holds what is to be logged.
pub fn check_kerneltrap(h: &Hart) -> (r: Result<(), TrapError>)
    ensures
        r == spec_check_kerneltrap(h),
{
    let sstatus = r_sstatus(h);
    if sstatus & SSTATUS_SPP == 0 {
        return Err(TrapError::NotFromSupervisorMode);
    }
    if intr_get(h) {
        return Err(TrapError::InterruptsEnabled);
    }
    let scause = r_scause(h);
    match devintr(scause) {
        DevintrState::NotRecognized => Err(
            TrapError::UnexpectedCause { scause, sepc: r_sepc(h), stval: r_stval(h) },
        ),
        _ => Ok(()),
    }
}

/// Handles a trap that arrived in supervisor mode.  The trap must have
/// come from supervisor mode, with interrupts disabled, and its cause must
/// be a device interrupt; [`check_kerneltrap`] tests that.
///
/// The result says which interrupt is to be served, and holds the program
/// counter and the status that `kerneltrapret` puts back after.
pub fn kerneltrap(h: &Hart) -> (t: KernelTrap)
    requires
        h.sstatus & SSTATUS_SPP != 0,
        h.sstatus & SSTATUS_SIE == 0,
        spec_devintr(h.scause) != DevintrState::NotRecognized,
    ensures
        t == (KernelTrap { intr: spec_devintr(h.scause), sepc: h.sepc, sstatus: h.sstatus }),
{
    let sepc = r_sepc(h);
    let sstatus = r_sstatus(h);
    let scause = r_scause(h);
    KernelTrap { intr: devintr(scause), sepc, sstatus }
}

/// Ends the handling of a trap in the kernel: puts back the program
/// counter and the status that the trap was entered with, so that the
/// kernel goes on exactly where it was.
pub fn kerneltrapret(h: &mut Hart, trap: &KernelTrap)
    ensures
        wrote(
            old(h),
            final(h),
            (Hart { sepc: trap.sepc, sstatus: trap.sstatus, ..*old(h) }),
            seq![HartOp::Write(Csr::Sepc, trap.sepc), HartOp::Write(Csr::Sstatus, trap.sstatus)],
        ),
{
    w_sepc(h, trap.sepc);
    w_sstatus(h, trap.sstatus);
    proof {
        assert(h.log@ =~= old(h).log@ + seq![
            HartOp::Write(Csr::Sepc, trap.sepc),
            HartOp::Write(Csr::Sstatus, trap.sstatus),
        ]);
    }
}

/// A trap in the kernel with interrupts enabled is fatal, whatever its
/// cause: the test at the entry fails, and `kerneltrap` does not admit it.
/// The test passes exactly on what `kerneltrap` admits.
pub proof fn law_kerneltrap_interrupts_enabled(h: &Hart)
    ensures
        h.sstatus & SSTATUS_SIE != 0 ==> spec_check_kerneltrap(h) is Err,
        h.sstatus & SSTATUS_SIE != 0 && h.sstatus & SSTATUS_SPP != 0 ==> spec_check_kerneltrap(h)
            == Err::<(), TrapError>(TrapError::InterruptsEnabled),
        spec_check_kerneltrap(h) is Ok <==> h.sstatus & SSTATUS_SPP != 0 && h.sstatus
            & SSTATUS_SIE == 0 && spec_devintr(h.scause) != DevintrState::NotRecognized,
{
}

/// How a trap from user mode is told apart.  An environment call in a
/// process that has not been killed is a system call, and the saved
/// program counter moves on by exactly 4.  A cause that is neither an
/// environment call nor an external interrupt marks the process killed.
/// A request of the block device is handled by its handler and then
/// completed under the same number.
pub proof fn law_trap_classification(p: Proc, h: &Hart)
    requires
        p.trapframe is Some,
    ensures
        h.scause == 8 && !p.killed ==> spec_user_trap(h.scause, p.killed, p.pid, h.sepc, h.stval)
            == UserTrap::Syscall && !spec_trapped_proc(p, h).killed && (h.sepc + 4 <= u64::MAX
            ==> spec_trapped_proc(p, h).trapframe.unwrap().frame.epc == h.sepc + 4),
        h.scause != 8 && !spec_is_external(h.scause) ==> spec_trapped_proc(p, h).killed
            && spec_user_trap(h.scause, p.killed, p.pid, h.sepc, h.stval) is Unexpected,
        h.scause != 8 && spec_is_external(h.scause) ==> spec_user_trap(
            h.scause,
            p.killed,
            p.pid,
            h.sepc,
            h.stval,
        ) == UserTrap::Device(DevintrState::OtherDev) && spec_trapped_proc(p, h).killed
            == p.killed,
        spec_irq_actions(VIRTIO0_IRQ) == seq![
            IrqAction::BlockDevice,
            IrqAction::Complete(VIRTIO0_IRQ),
        ],
{
    assert(spec_irq_actions(VIRTIO0_IRQ) =~= seq![
        IrqAction::BlockDevice,
        IrqAction::Complete(VIRTIO0_IRQ),
    ]);
}

} // verus!
