use std::mem::MaybeUninit;

use linked_list_allocator::Heap;
use rvkernel::memolayout::{kstack, KernelImage, TRAMPOLINE, TRAPFRAME};
use rvkernel::params::{NCPU, NPROC};
use rvkernel::proc::{
    allocproc, check_userinit, cpuid, current, freeproc, make_first, myproc, next_scan,
    proc_pagetable, procid, procinit, scheduler, scheduler_enter, take_slot, userinit, Context, Cpu,
    ProcError, ProcTable, ProcessState, Trapframe, INITCODE, INIT_NAME,
};
use rvkernel::riscv::{Hart, PGSIZE, PTE_R, PTE_U, PTE_V, PTE_W, PTE_X};
use rvkernel::vm::VmError;

fn heap_of(pages: usize) -> Heap {
    let mem: Vec<MaybeUninit<u8>> = vec![MaybeUninit::uninit(); (pages + 1) * 4096];
    Heap::from_slice(Box::leak(mem.into_boxed_slice()))
}

fn image() -> KernelImage {
    KernelImage {
        end: 0x8002_3000,
        etext: 0x8000_8000,
        kernelvec: 0x8000_0200,
        trampoline: 0x8000_7000,
        uservec: 0x8000_7000,
        userret: 0x8000_7090,
        main: 0x8000_0040,
        usertrap: 0x8000_1a00,
        forkret: 0x8000_1200,
        timervec: 0x8000_0300,
    }
}

fn fresh() -> ProcTable {
    assert!(image().check());
    procinit(image())
}

#[test]
fn procinit_clears_every_slot() {
    let table = fresh();
    assert_eq!(table.procs.len(), NPROC);
    assert_eq!(table.next_pid, 1);
    assert_eq!(table.image, image());
    for (i, p) in table.procs.iter().enumerate() {
        assert_eq!(p.state, ProcessState::UNUSED);
        assert_eq!(p.pid, 0);
        assert!(!p.killed);
        assert_eq!(p.xstate, 0);
        assert_eq!(p.parent, None);
        assert_eq!(p.sz, 0);
        assert!(p.pagetable.is_none());
        assert!(p.trapframe.is_none());
        assert_eq!(p.context, Context::zeroed());
        assert_eq!(p.name, [0u8; 16]);
        assert_eq!(p.kstack, TRAMPOLINE - (i as u64 + 1) * 16 * PGSIZE);
        assert_eq!(p.kstack, kstack(i));
    }
    assert_eq!(table.slot(0).kstack, 0x3F_FFFE_F000);
    assert_eq!(table.slot(63).kstack, 0x3F_FFBF_F000);
}

#[test]
fn allocproc_hands_out_pids_in_order() {
    let mut heap = heap_of(40);
    let mut table = fresh();
    for n in 0..5usize {
        assert_eq!(allocproc(&mut table, &mut heap), Ok(Some(n)));
        assert_eq!(table.procs[n].pid, n as i32 + 1);
        assert_eq!(table.procs[n].state, ProcessState::USED);
        assert_eq!(table.next_pid, n as i32 + 2);
    }
    let pids: Vec<i32> = table.procs.iter().take(5).map(|p| p.pid).collect();
    assert_eq!(pids, vec![1, 2, 3, 4, 5]);
    assert_eq!(table.procs[5].state, ProcessState::UNUSED);
    assert_eq!(table.procs[5].pid, 0);
}

#[test]
fn allocproc_sets_up_the_process() {
    let mut heap = heap_of(8);
    let mut table = fresh();
    assert_eq!(allocproc(&mut table, &mut heap), Ok(Some(0)));
    let p = table.slot(0);
    let mut context = Context::zeroed();
    context.ra = 0x8000_1200;
    context.sp = p.kstack + 4096;
    assert_eq!(p.context, context);
    let page = p.trapframe.unwrap();
    assert_eq!(page.pa % 4096, 0);
    assert_eq!(page.frame, Trapframe::zeroed());
    let space = p.pagetable.as_ref().unwrap();
    assert_eq!(space.translate(TRAMPOLINE), Some((0x8000_7000, PTE_R | PTE_X | PTE_V)));
    assert_eq!(space.translate(TRAPFRAME), Some((page.pa, PTE_R | PTE_W | PTE_V)));
    assert_eq!(space.translate(TRAPFRAME - 1), None);
    assert_eq!(space.translate(0), None);
    assert_eq!(p.sz, 0);
    assert!(!p.killed);
}

#[test]
fn the_table_runs_out_after_nproc() {
    let mut heap = heap_of(4 * NPROC + 8);
    let mut table = fresh();
    for n in 0..NPROC {
        assert_eq!(allocproc(&mut table, &mut heap), Ok(Some(n)));
    }
    assert_eq!(table.next_pid, NPROC as i32 + 1);
    let used = heap.used();
    assert_eq!(allocproc(&mut table, &mut heap), Ok(None));
    assert_eq!(allocproc(&mut table, &mut heap), Ok(None));
    assert_eq!(heap.used(), used);
    assert_eq!(table.next_pid, NPROC as i32 + 1);
    for (i, p) in table.procs.iter().enumerate() {
        assert_eq!(p.pid, i as i32 + 1);
    }
    assert_eq!(check_userinit(&table), Err(ProcError::NoSlot));
}

#[test]
fn every_process_has_the_two_fixed_pages() {
    assert_eq!(TRAPFRAME, TRAMPOLINE - PGSIZE);
    let mut heap = heap_of(4 * 6);
    let mut table = fresh();
    for _ in 0..5 {
        allocproc(&mut table, &mut heap).unwrap();
    }
    let mut frames = Vec::new();
    for p in table.procs.iter().take(5) {
        let space = p.pagetable.as_ref().unwrap();
        let page = p.trapframe.unwrap();
        assert_eq!(space.translate(TRAMPOLINE), Some((image().trampoline, PTE_R | PTE_X | PTE_V)));
        assert_eq!(space.translate(TRAPFRAME), Some((page.pa, PTE_R | PTE_W | PTE_V)));
        frames.push(page.pa);
    }
    frames.sort();
    frames.dedup();
    assert_eq!(frames.len(), 5);
}

#[test]
fn allocproc_without_memory_changes_nothing() {
    let mut table = fresh();
    assert_eq!(allocproc(&mut table, &mut Heap::empty()), Err(VmError::OutOfMemory));
    assert_eq!(table.next_pid, 1);
    assert_eq!(table.procs[0].state, ProcessState::UNUSED);
    // One page is enough for the trapframe, but not for the page table.
    let mut heap = heap_of(1);
    assert_eq!(allocproc(&mut table, &mut heap), Err(VmError::OutOfMemory));
    assert_eq!(table.next_pid, 1);
    assert_eq!(table.procs[0].state, ProcessState::UNUSED);
    assert!(table.procs[0].pagetable.is_none());
    assert_eq!(userinit(&mut table, &mut Heap::empty()), Err(ProcError::Vm(VmError::OutOfMemory)));
}

#[test]
fn proc_pagetable_maps_the_fixed_pages_only() {
    let mut heap = heap_of(8);
    let space = proc_pagetable(&mut heap, &image(), 0x8765_4000).unwrap();
    assert_eq!(space.page_count(), 3);
    assert_eq!(space.translate(TRAMPOLINE + 8), Some((0x8000_7000, PTE_R | PTE_X | PTE_V)));
    assert_eq!(space.translate(TRAPFRAME + 8), Some((0x8765_4000, PTE_R | PTE_W | PTE_V)));
    assert_eq!(space.translate(TRAPFRAME - 8), None);
    assert_eq!(space.translate(0x1000), None);
    assert_eq!(
        proc_pagetable(&mut Heap::empty(), &image(), 0x8765_4000).err(),
        Some(VmError::OutOfMemory)
    );
}

#[test]
fn userinit_makes_the_first_process() {
    let mut heap = heap_of(16);
    let mut table = fresh();
    assert_eq!(check_userinit(&table), Ok(()));
    assert_eq!(userinit(&mut table, &mut heap), Ok(0));
    let p = table.slot(0);
    assert_eq!(p.state, ProcessState::RUNNABLE);
    assert_eq!(p.pid, 1);
    assert_eq!(p.sz, PGSIZE);
    assert_eq!(&p.name[..8], b"initcode");
    assert_eq!(&p.name[..8], &INIT_NAME);
    assert_eq!(&p.name[8..], &[0u8; 8]);
    let page = p.trapframe.unwrap();
    let mut frame = Trapframe::zeroed();
    frame.epc = 0;
    frame.sp = PGSIZE;
    assert_eq!(page.frame, frame);
    let space = p.pagetable.as_ref().unwrap();
    let (_, flags) = space.translate(0).unwrap();
    assert_eq!(flags, PTE_R | PTE_W | PTE_X | PTE_U | PTE_V);
    for (i, b) in INITCODE.iter().enumerate() {
        assert_eq!(space.read_byte(i as u64), Some(*b));
    }
    assert_eq!(space.read_byte(60), Some(0));
    assert_eq!(space.read_byte(4095), Some(0));
    assert_eq!(space.read_byte(4096), None);
    assert_eq!(space.translate(TRAMPOLINE), Some((0x8000_7000, PTE_R | PTE_X | PTE_V)));
    assert_eq!(space.translate(TRAPFRAME), Some((page.pa, PTE_R | PTE_W | PTE_V)));
    assert_eq!(table.next_pid, 2);
    assert_eq!(INITCODE.len(), 60);
    assert_eq!(INITCODE[0], 0x17);
}

#[test]
fn scheduler_picks_the_first_runnable_slot() {
    let mut heap = heap_of(16);
    let mut table = fresh();
    let mut cpu = Cpu::new();
    cpu.proc_index = Some(9);
    scheduler_enter(&mut cpu);
    assert_eq!(cpu, Cpu::new());
    // Nothing is runnable yet.
    assert_eq!(scheduler(&mut table, &mut cpu, 0), None);
    assert_eq!(cpu.proc_index, None);
    allocproc(&mut table, &mut heap).unwrap();
    assert_eq!(scheduler(&mut table, &mut cpu, 0), None);
    assert_eq!(userinit(&mut table, &mut heap), Ok(1));
    assert_eq!(scheduler(&mut table, &mut cpu, 0), Some(1));
    assert_eq!(table.procs[1].state, ProcessState::RUNNING);
    assert_eq!(table.procs[0].state, ProcessState::USED);
    assert_eq!(cpu.proc_index, Some(1));
    assert_eq!(cpu.context, Context::zeroed());
    // A running process is not picked again.
    assert_eq!(scheduler(&mut table, &mut cpu, 2), None);
    assert_eq!(scheduler(&mut table, &mut cpu, 0), None);
    assert_eq!(cpu.proc_index, Some(1));
    assert_eq!(scheduler(&mut table, &mut cpu, NPROC), None);
    assert_eq!(scheduler(&mut table, &mut cpu, usize::MAX), None);
}

#[test]
fn scheduler_scans_from_where_it_is_told() {
    let mut heap = heap_of(32);
    let mut table = fresh();
    let mut cpu = Cpu::new();
    for _ in 0..3 {
        allocproc(&mut table, &mut heap).unwrap();
    }
    table.procs[0].state = ProcessState::RUNNABLE;
    table.procs[2].state = ProcessState::RUNNABLE;
    assert_eq!(scheduler(&mut table, &mut cpu, 1), Some(2));
    assert_eq!(table.procs[0].state, ProcessState::RUNNABLE);
    assert_eq!(table.procs[2].state, ProcessState::RUNNING);
    assert_eq!(scheduler(&mut table, &mut cpu, 3), None);
    assert_eq!(scheduler(&mut table, &mut cpu, 0), Some(0));
    assert_eq!(cpu.proc_index, Some(0));
}

#[test]
fn freeproc_is_not_supported() {
    let mut heap = heap_of(8);
    let mut table = fresh();
    allocproc(&mut table, &mut heap).unwrap();
    assert_eq!(freeproc(&mut table, 0), Err(ProcError::Unsupported));
    assert_eq!(table.procs[0].state, ProcessState::USED);
    assert_eq!(table.next_pid, 2);
    assert_eq!(freeproc(&mut table, 1000), Err(ProcError::Unsupported));
}

#[test]
fn the_hart_knows_its_process() {
    let mut heap = heap_of(8);
    let mut table = fresh();
    let mut cpus = vec![Cpu::new(); NCPU];
    let mut h = Hart::new(5);
    h.tp = 5;
    assert_eq!(cpuid(&h), 5);
    assert_eq!(procid(&h, &cpus), None);
    cpus[5].proc_index = Some(0);
    assert_eq!(procid(&h, &cpus), Some(0));
    // The slot is not in use yet.
    assert_eq!(myproc(&h, &cpus, &table), None);
    allocproc(&mut table, &mut heap).unwrap();
    assert_eq!(myproc(&h, &cpus, &table), Some(0));
    assert_eq!(current(&h, &cpus, &table), 0);
    cpus[5].proc_index = Some(NPROC);
    assert_eq!(myproc(&h, &cpus, &table), None);
    h.tp = 4;
    assert_eq!(procid(&h, &cpus), None);
    h.tp = NCPU as u64;
    assert_eq!(procid(&h, &cpus), None);
    assert_eq!(cpuid(&h), NCPU);
}

#[test]
fn the_trapframe_lies_in_memory_in_order() {
    let mut frame = Trapframe::zeroed();
    frame.kernel_satp = 1;
    frame.kernel_sp = 2;
    frame.kernel_trap = 3;
    frame.epc = 4;
    frame.kernel_hartid = 5;
    frame.ra = 6;
    frame.sp = 7;
    frame.a0 = 15;
    frame.a7 = 22;
    frame.s2 = 23;
    frame.t6 = 36;
    let words = frame.to_words();
    assert_eq!(words.len() * 8, 288);
    assert_eq!(&words[..7], &[1, 2, 3, 4, 5, 6, 7]);
    assert_eq!(words[112 / 8], 15);
    assert_eq!(words[168 / 8], 22);
    assert_eq!(words[176 / 8], 23);
    assert_eq!(words[280 / 8], 36);
    assert_eq!(Trapframe::from_words(&words), frame);
    let counted: Vec<u64> = (100..136).collect();
    let mut w = [0u64; 36];
    w.copy_from_slice(&counted);
    let t = Trapframe::from_words(&w);
    assert_eq!(t.epc, 103);
    assert_eq!(t.gp, 107);
    assert_eq!(t.s1, 113);
    assert_eq!(t.s11, 131);
    assert_eq!(t.t3, 132);
    assert_eq!(t.to_words(), w);
}

#[test]
fn the_context_lies_in_memory_in_order() {
    let mut c = Context::zeroed();
    c.ra = 1;
    c.sp = 2;
    c.s0 = 3;
    c.s11 = 14;
    assert_eq!(c.to_words(), [1, 2, 3, 0, 0, 0, 0, 0, 0, 0, 0, 0, 0, 14]);
    let w = [9, 8, 7, 6, 5, 4, 3, 2, 1, 10, 11, 12, 13, 14];
    let c = Context::from_words(&w);
    assert_eq!((c.ra, c.sp, c.s0, c.s1, c.s10, c.s11), (9, 8, 7, 6, 13, 14));
    assert_eq!(c.to_words(), w);
}

#[test]
fn a_slot_is_taken_with_what_the_heap_gave() {
    let mut heap = heap_of(16);
    let mut table = fresh();
    let page = 0x8765_4000;
    let space = |heap: &mut Heap| proc_pagetable(heap, &image(), page);
    // No page, a page that cannot be used, no address space.
    let s = space(&mut heap);
    assert_eq!(
        take_slot(&mut table, 0, None, Err(VmError::OutOfMemory)),
        Err(VmError::OutOfMemory)
    );
    assert_eq!(
        take_slot(&mut table, 0, Some(page), Err(VmError::OutOfMemory)),
        Err(VmError::OutOfMemory)
    );
    assert_eq!(table.next_pid, 1);
    assert_eq!(table.procs[0].state, ProcessState::UNUSED);
    assert!(table.procs[0].pagetable.is_none());
    // A page and its address space.
    assert_eq!(take_slot(&mut table, 0, Some(page), s), Ok(Some(0)));
    assert_eq!(table.next_pid, 2);
    let p = table.slot(0);
    assert_eq!(p.state, ProcessState::USED);
    assert_eq!(p.pid, 1);
    assert_eq!(p.trapframe.unwrap().pa, page);
    assert_eq!(p.trapframe.unwrap().frame, Trapframe::zeroed());
    assert_eq!(p.context.ra, image().forkret);
    assert_eq!(p.context.sp, p.kstack + PGSIZE);
    assert_eq!(
        p.pagetable.as_ref().unwrap().translate(TRAPFRAME),
        Some((page, PTE_R | PTE_W | PTE_V))
    );
}

#[test]
fn a_page_out_of_reach_is_refused_for_the_trapframe() {
    let mut heap = heap_of(16);
    let mut table = fresh();
    let high = 1 << 56;
    let s = proc_pagetable(&mut heap, &image(), high);
    assert!(s.is_ok());
    assert_eq!(take_slot(&mut table, 0, Some(high), s), Err(VmError::OutOfMemory));
    let odd = 0x8765_4008;
    let s = proc_pagetable(&mut heap, &image(), odd);
    assert_eq!(take_slot(&mut table, 0, Some(odd), s), Err(VmError::OutOfMemory));
    assert_eq!(table.next_pid, 1);
    assert_eq!(table.procs[0].state, ProcessState::UNUSED);
}

#[test]
fn the_first_process_is_made_runnable() {
    let mut heap = heap_of(16);
    let mut table = fresh();
    assert_eq!(allocproc(&mut table, &mut heap), Ok(Some(0)));
    table.procs[0].name = [b'x'; 16];
    let before = table.slot(0).trapframe.unwrap();
    let context = table.slot(0).context;
    make_first(&mut table, 0);
    let p = table.slot(0);
    assert_eq!(p.state, ProcessState::RUNNABLE);
    assert_eq!(p.sz, PGSIZE);
    assert_eq!(&p.name, b"initcodexxxxxxxx");
    let mut frame = before.frame;
    frame.epc = 0;
    frame.sp = PGSIZE;
    assert_eq!(p.trapframe.unwrap().frame, frame);
    assert_eq!(p.trapframe.unwrap().pa, before.pa);
    assert_eq!(p.context, context);
    assert_eq!(p.pid, 1);
    assert_eq!(table.next_pid, 2);
}

#[test]
fn the_scan_goes_round() {
    assert_eq!(next_scan(None), 0);
    assert_eq!(next_scan(Some(0)), 1);
    assert_eq!(next_scan(Some(5)), 6);
    assert_eq!(next_scan(Some(NPROC - 2)), NPROC - 1);
    assert_eq!(next_scan(Some(NPROC - 1)), 0);
    assert_eq!(next_scan(Some(NPROC)), 0);
    assert_eq!(next_scan(Some(usize::MAX)), 0);
}
