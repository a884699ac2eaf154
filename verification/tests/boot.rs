use rvkernel::memolayout::{
    clint_mtimecmp, get_etext, get_kernel_end, get_kernelvec, get_trampoline, get_userret,
    get_uservec, in_trampoline, kstack, plic_mclaim, plic_menable, plic_mpriority, plic_pending,
    plic_priority, plic_sclaim, plic_senable, plic_spriority, KernelImage, CLINT, CLINT_MTIME,
    KERNELBASE, PHYSTOP, PLIC, TRAMPOLINE, TRAPFRAME, UART, VIRTIO0,
};
use rvkernel::riscv::{
    r_mcounteren, r_medeleg, r_mhartid, r_mideleg, r_mie, r_mstatus, r_ra, r_satp, r_scause, r_sepc,
    r_sie, r_sip, r_sp, r_sstatus, r_stval, r_stvec, r_time, r_tp, sfence_vma, w_mcounteren,
    w_medeleg, w_mepc, w_mideleg, w_mie, w_mscratch, w_mstatus, w_mtvec, w_pmpaddr0, w_pmpcfg0,
    w_satp, w_sepc, w_sie, w_sip, w_sscratch, w_sstatus, w_stvec, w_tp, Csr, Hart, HartOp, MAXVA,
    MIE_MTIE, MSTATUS_MIE, MSTATUS_MPP_M, MSTATUS_MPP_MASK, MSTATUS_MPP_S, MSTATUS_MPP_U, PGSIZE,
    SIE_SEIE, SIE_SSIE, SIE_STIE,
};
use rvkernel::start::{start, timerinit, TimerSetup};

fn image() -> KernelImage {
    KernelImage {
        end: 0x8002_3000,
        etext: 0x8000_8000,
        kernelvec: 0x8000_0200,
        trampoline: 0x8000_7000,
        uservec: 0x8000_7000,
        userret: 0x8000_7090,
        main: 0x8000_0040,
        usertrap: 0x8000_1a00,
        forkret: 0x8000_1200,
        timervec: 0x8000_0300,
    }
}

#[test]
fn start_prepares_the_drop_to_supervisor_mode() {
    let mut h = Hart::new(3);
    h.mstatus = MSTATUS_MPP_M | MSTATUS_MIE | 0x80;
    h.sie = 0x1_0000;
    h.satp = 55;
    h.tp = 99;
    let before = h.clone();
    start(&mut h, &image());
    let mut expected = before;
    expected.mstatus = MSTATUS_MPP_S | MSTATUS_MIE | 0x80;
    expected.mepc = 0x8000_0040;
    expected.satp = 0;
    expected.medeleg = 0xffff;
    expected.mideleg = 0xffff;
    expected.sie = 0x1_0000 | 0x200 | 0x20 | 0x2;
    expected.pmpaddr0 = 0x3f_ffff_ffff_ffff;
    expected.pmpcfg0 = 0xf;
    expected.tp = 3;
    expected.log = vec![
        HartOp::Write(Csr::Mstatus, MSTATUS_MPP_S | MSTATUS_MIE | 0x80),
        HartOp::Write(Csr::Mepc, 0x8000_0040),
        HartOp::Write(Csr::Satp, 0),
        HartOp::Write(Csr::Medeleg, 0xffff),
        HartOp::Write(Csr::Mideleg, 0xffff),
        HartOp::Write(Csr::Sie, 0x1_0222),
        HartOp::Write(Csr::Pmpaddr0, 0x3f_ffff_ffff_ffff),
        HartOp::Write(Csr::Pmpcfg0, 0xf),
        HartOp::Write(Csr::Tp, 3),
    ];
    assert_eq!(h, expected);
    assert_eq!(h.mstatus & MSTATUS_MPP_MASK, MSTATUS_MPP_S);
    assert_eq!(SIE_SEIE | SIE_STIE | SIE_SSIE, 0x222);
}

#[test]
fn start_from_reset() {
    let mut h = Hart::new(0);
    start(&mut h, &image());
    assert_eq!(h.mstatus, 0x800);
    assert_eq!(h.sie, 0x222);
    assert_eq!(h.tp, 0);
    assert_eq!(h.mepc, image().main);
    assert_eq!(MSTATUS_MPP_U, 0);
    assert_eq!(MSTATUS_MPP_MASK, 3 << 11);
}

#[test]
fn timerinit_arms_the_timer() {
    let mut h = Hart::new(2);
    h.mstatus = 0x800;
    h.mie = 0x8;
    let before = h.clone();
    let setup = timerinit(&mut h, &image(), 5000, 0x8000_9000);
    assert_eq!(
        setup,
        TimerSetup {
            compare: 0x200_4010,
            first: 1_005_000,
            scratch: [0, 0, 0, 0x200_4010, 1_000_000]
        }
    );
    let mut expected = before;
    expected.mscratch = 0x8000_9000;
    expected.mtvec = 0x8000_0300;
    expected.mstatus = 0x800 | MSTATUS_MIE;
    expected.mie = 0x8 | MIE_MTIE;
    expected.log = vec![
        HartOp::Write(Csr::Mscratch, 0x8000_9000),
        HartOp::Write(Csr::Mtvec, 0x8000_0300),
        HartOp::Write(Csr::Mstatus, 0x808),
        HartOp::Write(Csr::Mie, 0x88),
    ];
    assert_eq!(h, expected);
    let wrapped = timerinit(&mut h, &image(), u64::MAX, 0);
    assert_eq!(wrapped.first, 999_999);
}

#[test]
fn a_new_hart_is_all_zero() {
    let h = Hart::new(7);
    assert_eq!(r_mhartid(&h), 7);
    assert!(h.log.is_empty());
    let mut zero = h.clone();
    zero.mhartid = 0;
    assert_eq!(zero, Hart::new(0));
    assert_eq!(r_mstatus(&h), 0);
    assert_eq!(r_tp(&h), 0);
}

#[test]
fn writing_a_register_changes_that_register() {
    let fresh = Hart::new(1);
    let mut h = fresh.clone();
    w_mstatus(&mut h, 1);
    w_mepc(&mut h, 2);
    w_sstatus(&mut h, 3);
    w_sip(&mut h, 4);
    w_sie(&mut h, 5);
    w_mie(&mut h, 6);
    w_sepc(&mut h, 7);
    w_medeleg(&mut h, 8);
    w_mideleg(&mut h, 9);
    w_stvec(&mut h, 10);
    w_mtvec(&mut h, 11);
    w_pmpcfg0(&mut h, 12);
    w_pmpaddr0(&mut h, 13);
    w_satp(&mut h, 14);
    w_sscratch(&mut h, 15);
    w_mscratch(&mut h, 16);
    w_mcounteren(&mut h, 17);
    w_tp(&mut h, 18);
    let mut expected = fresh;
    expected.mstatus = 1;
    expected.mepc = 2;
    expected.sstatus = 3;
    expected.sip = 4;
    expected.sie = 5;
    expected.mie = 6;
    expected.sepc = 7;
    expected.medeleg = 8;
    expected.mideleg = 9;
    expected.stvec = 10;
    expected.mtvec = 11;
    expected.pmpcfg0 = 12;
    expected.pmpaddr0 = 13;
    expected.satp = 14;
    expected.sscratch = 15;
    expected.mscratch = 16;
    expected.mcounteren = 17;
    expected.tp = 18;
    let written = [
        Csr::Mstatus,
        Csr::Mepc,
        Csr::Sstatus,
        Csr::Sip,
        Csr::Sie,
        Csr::Mie,
        Csr::Sepc,
        Csr::Medeleg,
        Csr::Mideleg,
        Csr::Stvec,
        Csr::Mtvec,
        Csr::Pmpcfg0,
        Csr::Pmpaddr0,
        Csr::Satp,
        Csr::Sscratch,
        Csr::Mscratch,
        Csr::Mcounteren,
        Csr::Tp,
    ];
    expected.log =
        written.iter().enumerate().map(|(i, c)| HartOp::Write(*c, i as u64 + 1)).collect();
    assert_eq!(h, expected);
    assert_eq!(
        [
            r_mstatus(&h),
            r_sstatus(&h),
            r_sip(&h),
            r_sie(&h),
            r_mie(&h),
            r_sepc(&h),
            r_medeleg(&h),
            r_mideleg(&h),
            r_stvec(&h),
            r_satp(&h),
            r_mcounteren(&h),
            r_tp(&h)
        ],
        [1, 3, 4, 5, 6, 7, 8, 9, 10, 14, 17, 18]
    );
    h.scause = 21;
    h.stval = 22;
    h.time = 23;
    h.sp = 24;
    h.ra = 25;
    assert_eq!([r_scause(&h), r_stval(&h), r_time(&h), r_sp(&h), r_ra(&h)], [21, 22, 23, 24, 25]);
}

#[test]
fn a_fence_makes_the_page_table_take_effect() {
    let mut h = Hart::new(0);
    w_satp(&mut h, 0x8000_0000_0008_0000);
    assert_eq!(h.tlb_satp, 0);
    sfence_vma(&mut h);
    assert_eq!(h.tlb_satp, 0x8000_0000_0008_0000);
    assert_eq!(h.satp, 0x8000_0000_0008_0000);
    assert_eq!(h.log, vec![HartOp::Write(Csr::Satp, 0x8000_0000_0008_0000), HartOp::Fence]);
}

#[test]
fn the_memory_map() {
    assert_eq!(UART, 0x1000_0000);
    assert_eq!(VIRTIO0, 0x1000_1000);
    assert_eq!(KERNELBASE, 0x8000_0000);
    assert_eq!(PHYSTOP, KERNELBASE + 128 * 1024 * 1024);
    assert_eq!(CLINT_MTIME, CLINT + 0xBFF8);
    assert_eq!(MAXVA, 1 << 38);
    assert_eq!(TRAMPOLINE, MAXVA - PGSIZE);
    assert_eq!(TRAPFRAME, TRAMPOLINE - PGSIZE);
    assert_eq!(kstack(0), TRAMPOLINE - 16 * PGSIZE);
    assert_eq!(kstack(3), TRAMPOLINE - 4 * 16 * PGSIZE);
}

#[test]
fn the_image_is_checked() {
    let good = image();
    assert!(good.check());
    let mut bad = good;
    bad.etext = 0x8000_8001;
    assert!(!bad.check());
    bad = good;
    bad.etext = KERNELBASE;
    assert!(!bad.check());
    bad = good;
    bad.etext = PHYSTOP;
    assert!(!bad.check());
    bad = good;
    bad.trampoline = 0x8000_7008;
    assert!(!bad.check());
    bad = good;
    bad.userret = 0x8000_8000;
    assert!(!bad.check());
    bad = good;
    bad.uservec = 0x8000_6fff;
    assert!(!bad.check());
    bad = good;
    bad.trampoline = 0x8000_8000;
    bad.uservec = 0x8000_8000;
    bad.userret = 0x8000_8000;
    assert!(!bad.check());
    assert_eq!(get_kernel_end(&good), 0x8002_3000);
    assert_eq!(get_etext(&good), 0x8000_8000);
    assert_eq!(get_kernelvec(&good), 0x8000_0200);
    assert_eq!(get_trampoline(&good), 0x8000_7000);
    assert_eq!(get_uservec(&good), 0x8000_7000);
    assert_eq!(get_userret(&good), 0x8000_7090);
}

#[test]
fn the_registers_of_the_interrupt_controller() {
    assert_eq!(plic_priority(), PLIC);
    assert_eq!(plic_pending(), 0x0c00_1000);
    assert_eq!(plic_menable(0), 0x0c00_2000);
    assert_eq!(plic_menable(2), 0x0c00_2200);
    assert_eq!(plic_senable(0), 0x0c00_2080);
    assert_eq!(plic_senable(3), 0x0c00_2380);
    assert_eq!(plic_mpriority(0), 0x0c20_0000);
    assert_eq!(plic_mpriority(1), 0x0c20_2000);
    assert_eq!(plic_spriority(0), 0x0c20_1000);
    assert_eq!(plic_spriority(2), 0x0c20_5000);
    assert_eq!(plic_mclaim(0), 0x0c20_0004);
    assert_eq!(plic_mclaim(1), 0x0c20_2004);
    assert_eq!(plic_sclaim(0), 0x0c20_1004);
    assert_eq!(plic_sclaim(7), 0x0c20_f004);
    assert_eq!(clint_mtimecmp(0), 0x200_4000);
    assert_eq!(clint_mtimecmp(3), 0x200_4018);
}

#[test]
fn the_routines_of_the_trampoline_page() {
    let image = image();
    assert_eq!(in_trampoline(&image, 0x8000_7000), TRAMPOLINE);
    assert_eq!(in_trampoline(&image, 0x8000_7090), TRAMPOLINE + 0x90);
    assert_eq!(in_trampoline(&image, 0x8000_7fff), MAXVA - 1);
    // Outside the page the arithmetic wraps.
    assert_eq!(in_trampoline(&image, 0x8000_6ff0), TRAMPOLINE - 0x10);
    assert_eq!(in_trampoline(&image, 0), TRAMPOLINE.wrapping_sub(0x8000_7000));
}
