use std::mem::MaybeUninit;

use linked_list_allocator::Heap;
use rvkernel::memolayout::{KernelImage, KERNELBASE, PHYSTOP, TRAMPOLINE, UART};
use rvkernel::riscv::{
    make_satp, pa2pte, pg_round_down, pte2pa, pte_flags, pte_valid, px, Csr, Hart, HartOp, MAXPA,
    MAXVA, PGSIZE, PTE_R, PTE_U, PTE_V, PTE_W, PTE_X,
};
use rvkernel::vm::{
    check_kernel_room, check_range, check_va, kalloc, kvminit, kvminithart, kvmmake, kvmmap,
    mappages, page_image, uvmcreate, uvminit, uvminit_page, walk, AddressSpace, VmError, USER_PAGE,
};

fn heap_of(pages: usize) -> Heap {
    let mem: Vec<MaybeUninit<u8>> = vec![MaybeUninit::uninit(); (pages + 1) * 4096];
    Heap::from_slice(Box::leak(mem.into_boxed_slice()))
}

fn image() -> KernelImage {
    KernelImage {
        end: 0x8002_3000,
        etext: 0x8000_8000,
        kernelvec: 0x8000_0200,
        trampoline: 0x8000_7000,
        uservec: 0x8000_7000,
        userret: 0x8000_7090,
        main: 0x8000_0040,
        usertrap: 0x8000_1a00,
        forkret: 0x8000_1200,
        timervec: 0x8000_0300,
    }
}

#[test]
fn map_then_translate() {
    let mut heap = heap_of(8);
    let mut space = uvmcreate(&mut heap).unwrap();
    assert_eq!(space.translate(0x5000), None);
    assert_eq!(mappages(&mut space, &mut heap, 0x5000, 0x8020_0000, 4096, PTE_R | PTE_W), Ok(()));
    assert_eq!(space.translate(0x5000), Some((0x8020_0000, PTE_R | PTE_W | PTE_V)));
    assert_eq!(space.translate(0x5fff), Some((0x8020_0000, PTE_R | PTE_W | PTE_V)));
    assert_eq!(space.translate(0x6000), None);
    assert_eq!(space.translate(0x4fff), None);
}

#[test]
fn map_then_walk_round_trip() {
    let mut heap = heap_of(8);
    let mut space = uvmcreate(&mut heap).unwrap();
    let va = 0x12_3456_7000;
    let pa = 0x8765_4000;
    assert_eq!(mappages(&mut space, &mut heap, va, pa, PGSIZE, PTE_R | PTE_X | PTE_U), Ok(()));
    let slot = walk(&mut space, &mut heap, va, false).unwrap();
    let pte = space.read_pte(slot);
    assert!(pte_valid(pte));
    assert_eq!(pte2pa(pte), pa);
    assert_eq!(pte_flags(pte), PTE_R | PTE_X | PTE_U | PTE_V);
    assert_eq!(pte, 0x21d9_501b);
    assert_eq!(slot.index, ((va >> 12) & 0x1ff) as usize);
    assert_eq!(space.find_slot(va), Some(slot));
}

#[test]
fn a_mapped_page_is_not_admitted_again() {
    let mut heap = heap_of(8);
    let mut space = uvmcreate(&mut heap).unwrap();
    assert_eq!(check_range(&space, 0x1000, 4096), Ok(()));
    assert_eq!(mappages(&mut space, &mut heap, 0x1000, 0x8000_1000, 4096, PTE_R | PTE_W), Ok(()));
    assert_eq!(space.translate(0x1000), Some((0x8000_1000, PTE_R | PTE_W | PTE_V)));
    let slot = space.find_slot(0x1000).unwrap();
    assert_eq!(space.read_pte(slot), 0x2000_0407);
    // The same page, a range that ends in it, one that starts in it, one
    // around it.
    assert_eq!(check_range(&space, 0x1000, 4096), Err(VmError::Remap));
    assert_eq!(check_range(&space, 0x0, 8192), Err(VmError::Remap));
    assert_eq!(check_range(&space, 0x1fff, 2), Err(VmError::Remap));
    assert_eq!(check_range(&space, 0x0, 3 * 4096), Err(VmError::Remap));
    assert_eq!(check_range(&space, 0x1800, 1), Err(VmError::Remap));
    // Its neighbours are free.
    assert_eq!(check_range(&space, 0x0, 4096), Ok(()));
    assert_eq!(check_range(&space, 0x2000, 4096), Ok(()));
    assert_eq!(check_range(&space, 0xfff, 1), Ok(()));
    // The test changes nothing.
    assert_eq!(space.read_pte(slot), 0x2000_0407);
    assert_eq!(space.page_count(), 3);
}

#[test]
fn walk_without_allocation_finds_nothing() {
    let mut heap = heap_of(8);
    let mut space = uvmcreate(&mut heap).unwrap();
    let pages = space.page_count();
    let used = heap.used();
    assert_eq!(walk(&mut space, &mut heap, 0x1234_5000, false), Err(VmError::NotFound));
    assert_eq!(space.page_count(), pages);
    assert_eq!(heap.used(), used);
    assert_eq!(space.find_slot(0x1234_5000), None);
}

#[test]
fn walk_allocates_the_two_missing_tables() {
    let mut heap = heap_of(8);
    let mut space = uvmcreate(&mut heap).unwrap();
    assert_eq!(space.page_count(), 1);
    let slot = walk(&mut space, &mut heap, 0x1234_5000, true).unwrap();
    assert_eq!(space.page_count(), 3);
    assert_eq!(slot.index, 0x145);
    assert_eq!(space.read_pte(slot), 0);
    // The entry is there now, but it is not valid: nothing is mapped.
    assert_eq!(space.translate(0x1234_5000), None);
    assert_eq!(walk(&mut space, &mut heap, 0x1234_5000, false), Ok(slot));
    // A neighbour in the same leaf table needs no new page.
    let next = walk(&mut space, &mut heap, 0x1234_6000, true).unwrap();
    assert_eq!(space.page_count(), 3);
    assert_eq!(next.node, slot.node);
    assert_eq!(next.index, 0x146);
}

#[test]
fn the_walk_is_for_addresses_below_maxva() {
    assert_eq!(check_va(MAXVA), Err(VmError::VaOutOfRange));
    assert_eq!(check_va(u64::MAX), Err(VmError::VaOutOfRange));
    assert_eq!(check_va(MAXVA - 1), Ok(()));
    assert_eq!(check_va(0), Ok(()));
    let mut heap = heap_of(8);
    let mut space = uvmcreate(&mut heap).unwrap();
    assert!(walk(&mut space, &mut heap, MAXVA - 1, true).is_ok());
}

#[test]
fn an_allocating_walk_builds_zeroed_tables() {
    let mut heap = heap_of(8);
    let mut space = uvmcreate(&mut heap).unwrap();
    let used = heap.used();
    let va = (1 << 30) | (2 << 21) | (3 << 12) | 0x45;
    let slot = walk(&mut space, &mut heap, va, true).unwrap();
    assert_eq!(space.page_count(), 3);
    assert_eq!(heap.used(), used + 2 * 4096);
    let root = space.table(0);
    let upper = space.table(1);
    let leaf = space.table(2);
    assert_eq!((root.level, upper.level, leaf.level), (2, 1, 0));
    for (a, e) in root.table.ptes.iter().enumerate() {
        assert_eq!(*e, if a == 1 { pa2pte(upper.pa) | PTE_V } else { 0 });
    }
    for (a, e) in upper.table.ptes.iter().enumerate() {
        assert_eq!(*e, if a == 2 { pa2pte(leaf.pa) | PTE_V } else { 0 });
    }
    assert!(leaf.table.ptes.iter().all(|e| *e == 0));
    assert_eq!((slot.node, slot.index), (2, 3));
    assert_eq!(space.read_pte(slot), 0);
    // A second walk finds what the first built.
    assert_eq!(walk(&mut space, &mut heap, va, true), Ok(slot));
    assert_eq!(space.page_count(), 3);
    assert_eq!(heap.used(), used + 2 * 4096);
}

#[test]
fn walk_reports_an_empty_heap() {
    let mut heap = heap_of(1);
    let mut space = uvmcreate(&mut heap).unwrap();
    let mut empty = Heap::empty();
    assert_eq!(walk(&mut space, &mut empty, 0x1000, true), Err(VmError::OutOfMemory));
    assert_eq!(space.translate(0x1000), None);
    assert_eq!(walk(&mut space, &mut empty, 0x1000, false), Err(VmError::NotFound));
}

#[test]
fn bad_ranges_are_not_admitted() {
    let mut heap = heap_of(8);
    let mut space = uvmcreate(&mut heap).unwrap();
    assert_eq!(check_range(&space, 0x1000, 0), Err(VmError::EmptyRange));
    assert_eq!(check_range(&space, MAXVA, 0), Err(VmError::EmptyRange));
    assert_eq!(check_range(&space, MAXVA - 4096, 4097), Err(VmError::VaOutOfRange));
    assert_eq!(check_range(&space, MAXVA, 1), Err(VmError::VaOutOfRange));
    assert_eq!(check_range(&space, 0x1000, u64::MAX), Err(VmError::VaOutOfRange));
    assert_eq!(check_range(&space, u64::MAX, 2), Err(VmError::VaOutOfRange));
    assert_eq!(check_range(&space, MAXVA - 4096, 4096), Ok(()));
    assert_eq!(space.page_count(), 1);
    assert_eq!(mappages(&mut space, &mut heap, MAXVA - 4096, 0x2000, 4096, PTE_R), Ok(()));
    assert_eq!(check_range(&space, MAXVA - 4096, 4096), Err(VmError::Remap));
}

#[test]
fn mappages_rounds_to_pages() {
    let mut heap = heap_of(8);
    let mut space = uvmcreate(&mut heap).unwrap();
    // 0x1800 .. 0x2800 touches the pages at 0x1000 and 0x2000.
    assert_eq!(mappages(&mut space, &mut heap, 0x1800, 0x8000_0000, 0x1000, PTE_R), Ok(()));
    assert_eq!(space.translate(0x0fff), None);
    assert_eq!(space.translate(0x1000), Some((0x8000_0000, PTE_R | PTE_V)));
    assert_eq!(space.translate(0x2fff), Some((0x8000_1000, PTE_R | PTE_V)));
    assert_eq!(space.translate(0x3000), None);
    // One byte is one page.
    assert_eq!(mappages(&mut space, &mut heap, 0x7fff, 0x8000_5123, 1, PTE_W), Ok(()));
    assert_eq!(space.translate(0x7000), Some((0x8000_5000, PTE_W | PTE_V)));
    assert_eq!(space.translate(0x8000), None);
}

#[test]
fn mappages_stops_where_the_heap_runs_out() {
    let mut heap = heap_of(1);
    let mut space = uvmcreate(&mut heap).unwrap();
    let mut empty = Heap::empty();
    assert_eq!(
        mappages(&mut space, &mut empty, 0x1000, 0x8000_0000, 4096, PTE_R),
        Err(VmError::OutOfMemory)
    );
    assert_eq!(space.translate(0x1000), None);
}

#[test]
fn install_takes_what_the_allocator_gave() {
    let mut heap = heap_of(2);
    let mut space = uvmcreate(&mut heap).unwrap();
    let root = space.root();
    assert_eq!(space.install(0x1000, None), Err(VmError::OutOfMemory));
    assert_eq!(space.install(0x1000, Some(0x8000_0001)), Err(VmError::OutOfMemory));
    assert_eq!(space.install(0x1000, Some(MAXPA)), Err(VmError::OutOfMemory));
    assert_eq!(space.install(0x1000, Some(root)), Err(VmError::OutOfMemory));
    assert_eq!(space.page_count(), 1);
    assert_eq!(space.install(0x1000, Some(0x8000_1000)), Ok(()));
    assert_eq!(space.page_count(), 2);
    assert_eq!(space.find_slot(0x1000), None);
    assert_eq!(space.install(0x1000, Some(0x8000_1000)), Err(VmError::OutOfMemory));
    assert_eq!(space.install(0x1000, Some(0x8000_2000)), Ok(()));
    assert_eq!(space.page_count(), 3);
    assert!(space.find_slot(0x1000).is_some());
    // The way is complete: nothing is taken.
    assert_eq!(space.install(0x1000, Some(0x8000_3000)), Ok(()));
    assert_eq!(space.install(0x1000, None), Ok(()));
    assert_eq!(space.page_count(), 3);
}

#[test]
fn address_space_new_checks_the_root() {
    assert!(AddressSpace::new(0x8000_0000).is_ok());
    assert_eq!(AddressSpace::new(0x8000_0800).err(), Some(VmError::OutOfMemory));
    assert_eq!(AddressSpace::new(MAXPA).err(), Some(VmError::OutOfMemory));
    let space = AddressSpace::new(0x8000_0000).unwrap();
    assert_eq!(space.root(), 0x8000_0000);
    assert_eq!(space.page_count(), 1);
}

#[test]
fn kalloc_gives_distinct_aligned_pages() {
    let mut heap = heap_of(4);
    let a = kalloc(&mut heap).unwrap();
    let b = kalloc(&mut heap).unwrap();
    assert_ne!(a, 0);
    assert_eq!(a % 4096, 0);
    assert_eq!(b % 4096, 0);
    assert_ne!(a, b);
    assert!(heap.used() >= 2 * 4096);
    assert_eq!(kalloc(&mut Heap::empty()), None);
}

#[test]
fn address_splitting() {
    let va: u64 = 0x12_3456_7abc;
    assert_eq!(px(2, va), ((va >> 30) & 0x1ff) as usize);
    assert_eq!(px(1, va), ((va >> 21) & 0x1ff) as usize);
    assert_eq!(px(0, va), ((va >> 12) & 0x1ff) as usize);
    assert_eq!(px(2, va), 0x48);
    assert_eq!(px(1, va), 0x1a2);
    assert_eq!(px(0, va), 0x167);
    assert_eq!(px(2, MAXVA - 1), 0xff);
    assert_eq!(px(0, 0xfff), 0);
    assert_eq!(px(0, 0x1000), 1);
}

#[test]
fn entry_encoding() {
    assert_eq!(pa2pte(0x8020_0000), 0x2008_0000);
    assert_eq!(pte2pa(0x2008_0000 | PTE_R | PTE_V), 0x8020_0000);
    assert_eq!(pte_flags(0x2008_0000 | PTE_R | PTE_V), 0x3);
    assert!(pte_valid(0x2008_0001));
    assert!(!pte_valid(0x2008_0002));
    assert_eq!(pa2pte(0x8020_0fff), 0x2008_0000);
    assert_eq!(pg_round_down(0x1fff), 0x1000);
    assert_eq!(pg_round_down(0x2000), 0x2000);
    assert_eq!(pg_round_down(0), 0);
    assert_eq!(make_satp(0x8020_0000), 0x8000_0000_0008_0200);
    assert_eq!(USER_PAGE, PTE_R | PTE_W | PTE_X | PTE_U);
}

#[test]
fn kernel_address_space() {
    let mut heap = heap_of(80);
    let image = image();
    let kernel = kvminit(&mut heap, &image).unwrap();
    assert_eq!(kernel.translate(UART), Some((UART, PTE_R | PTE_W | PTE_V)));
    assert_eq!(kernel.translate(UART + 4096), None);
    assert_eq!(kernel.translate(KERNELBASE - 1), None);
    assert_eq!(kernel.translate(KERNELBASE), Some((KERNELBASE, PTE_R | PTE_X | PTE_V)));
    assert_eq!(
        kernel.translate(image.etext - 1),
        Some((image.etext - 4096, PTE_R | PTE_X | PTE_V))
    );
    assert_eq!(kernel.translate(image.etext), Some((image.etext, PTE_R | PTE_W | PTE_V)));
    assert_eq!(kernel.translate(PHYSTOP - 1), Some((PHYSTOP - 4096, PTE_R | PTE_W | PTE_V)));
    assert_eq!(kernel.translate(PHYSTOP), None);
    assert_eq!(kernel.translate(TRAMPOLINE), Some((image.trampoline, PTE_R | PTE_X | PTE_V)));
    assert_eq!(kernel.translate(TRAMPOLINE - 1), None);
    assert_eq!(kernel.translate(0), None);

    let mut h = Hart::new(0);
    kvminithart(&mut h, &kernel);
    assert_eq!(h.satp, (8 << 60) | (kernel.root() >> 12));
    assert_eq!(h.tlb_satp, h.satp);
    assert_eq!(h.log, vec![HartOp::Write(Csr::Satp, h.satp), HartOp::Fence]);
}

#[test]
fn the_kernel_map_needs_a_sound_image_and_room() {
    let mut heap = heap_of(32);
    let mut space = uvmcreate(&mut heap).unwrap();
    assert!(check_kernel_room(&space, &image()));
    let mut unaligned = image();
    unaligned.etext = 0x8000_8010;
    assert!(!check_kernel_room(&space, &unaligned));
    assert!(!unaligned.check());
    let mut no_text = image();
    no_text.etext = KERNELBASE;
    assert!(!check_kernel_room(&space, &no_text));
    let mut no_data = image();
    no_data.etext = PHYSTOP;
    assert!(!check_kernel_room(&space, &no_data));
    // A page in the way, in each of the four ranges.
    for va in [UART, KERNELBASE + 0x3000, PHYSTOP - 4096, TRAMPOLINE] {
        let mut space = uvmcreate(&mut heap).unwrap();
        assert_eq!(kvmmap(&mut space, &mut heap, va, 0x9000_0000, 1, PTE_R), Ok(()));
        assert!(!check_kernel_room(&space, &image()));
    }
    assert_eq!(kvmmap(&mut space, &mut heap, UART + 4096, 0x9000_0000, 1, PTE_R), Ok(()));
    assert!(check_kernel_room(&space, &image()));
    assert_eq!(kvminit(&mut Heap::empty(), &image()).err(), Some(VmError::OutOfMemory));
}

#[test]
fn kvmmake_keeps_what_was_mapped() {
    let mut heap = heap_of(80);
    let mut space = uvmcreate(&mut heap).unwrap();
    assert_eq!(kvmmap(&mut space, &mut heap, 0x4000, 0x9000_0000, 4096, PTE_R), Ok(()));
    assert!(check_kernel_room(&space, &image()));
    assert_eq!(kvmmake(&mut space, &mut heap, &image()), Ok(()));
    assert_eq!(space.translate(0x4000), Some((0x9000_0000, PTE_R | PTE_V)));
    assert_eq!(space.translate(UART), Some((UART, PTE_R | PTE_W | PTE_V)));
    // The kernel's pages are taken now.
    assert!(!check_kernel_room(&space, &image()));
}

#[test]
fn kvmmake_fails_without_memory() {
    let mut heap = heap_of(8);
    let mut small = image();
    small.etext = KERNELBASE + 4096;
    let mut space = uvmcreate(&mut heap).unwrap();
    // Without memory the first range fails.
    assert_eq!(kvmmake(&mut space, &mut Heap::empty(), &small), Err(VmError::OutOfMemory));
    assert_eq!(space.translate(UART), None);
}

#[test]
fn first_program_is_loaded_at_zero() {
    let mut heap = heap_of(8);
    let mut space = uvmcreate(&mut heap).unwrap();
    let code = [0x17u8, 0x05, 0xaa];
    assert_eq!(uvminit(&mut space, &mut heap, &code), Ok(()));
    let (pa, flags) = space.translate(0).unwrap();
    assert_eq!(pa % 4096, 0);
    assert_eq!(flags, PTE_R | PTE_W | PTE_X | PTE_U | PTE_V);
    assert_eq!(space.read_byte(0), Some(0x17));
    assert_eq!(space.read_byte(2), Some(0xaa));
    assert_eq!(space.read_byte(3), Some(0));
    assert_eq!(space.read_byte(4095), Some(0));
    assert_eq!(space.read_byte(4096), None);
    // Address 0 is taken now.
    assert_eq!(check_range(&space, 0, 4096), Err(VmError::Remap));
    assert_eq!(space.frame_count(), 1);
    assert_eq!(space.frame(0).pa, pa);
}

#[test]
fn the_first_program_goes_to_the_page_it_is_given() {
    let mut heap = heap_of(8);
    let mut space = uvmcreate(&mut heap).unwrap();
    let code = [1u8, 2, 3];
    let none = Heap::empty;
    assert_eq!(uvminit_page(&mut space, &mut heap, &code, None), Err(VmError::OutOfMemory));
    assert_eq!(
        uvminit_page(&mut space, &mut heap, &code, Some(0x9000_0800)),
        Err(VmError::OutOfMemory)
    );
    assert_eq!(uvminit_page(&mut space, &mut heap, &code, Some(MAXPA)), Err(VmError::OutOfMemory));
    assert_eq!(
        uvminit_page(&mut space, &mut heap, &[0; 4096], Some(0x9000_0000)),
        Err(VmError::ImageTooLarge)
    );
    assert_eq!(space.page_count(), 1);
    assert_eq!(space.frame_count(), 0);
    // A page that can be used, but no memory for the tables.
    assert_eq!(
        uvminit_page(&mut space, &mut none(), &code, Some(0x9000_0000)),
        Err(VmError::OutOfMemory)
    );
    assert_eq!(space.translate(0), None);
    // With the tables in place no memory is needed.
    assert!(walk(&mut space, &mut heap, 0, true).is_ok());
    assert_eq!(uvminit_page(&mut space, &mut none(), &code, Some(0x9000_0000)), Ok(()));
    assert_eq!(space.translate(0), Some((0x9000_0000, USER_PAGE | PTE_V)));
    assert_eq!(space.read_byte(1), Some(2));
    assert_eq!(space.frame(0).pa, 0x9000_0000);
}

#[test]
fn first_program_must_fit_a_page() {
    let mut heap = heap_of(8);
    let mut space = uvmcreate(&mut heap).unwrap();
    let big = vec![1u8; 4096];
    assert_eq!(uvminit(&mut space, &mut heap, &big), Err(VmError::ImageTooLarge));
    assert_eq!(space.translate(0), None);
    let fits = vec![7u8; 4095];
    assert_eq!(uvminit(&mut space, &mut heap, &fits), Ok(()));
    assert_eq!(space.read_byte(4094), Some(7));
    assert_eq!(space.read_byte(4095), Some(0));
    let mut space = uvmcreate(&mut heap).unwrap();
    assert_eq!(uvminit(&mut space, &mut Heap::empty(), &[1]), Err(VmError::OutOfMemory));
}

#[test]
fn page_image_pads_with_zeros() {
    let page = page_image(&[9, 8, 7]);
    assert_eq!(page.len(), 4096);
    assert_eq!(&page[..4], &[9, 8, 7, 0]);
    assert!(page[3..].iter().all(|b| *b == 0));
}

#[test]
fn mapped_memory_without_a_frame_cannot_be_read() {
    let mut heap = heap_of(8);
    let mut space = uvmcreate(&mut heap).unwrap();
    assert_eq!(mappages(&mut space, &mut heap, 0x5000, 0x8020_0000, 4096, PTE_R | PTE_W), Ok(()));
    assert_eq!(space.read_byte(0x5000), None);
}

#[test]
fn physical_addresses_wrap() {
    let mut heap = heap_of(8);
    let mut space = uvmcreate(&mut heap).unwrap();
    let top = 0xffff_ffff_ffff_f000;
    assert_eq!(mappages(&mut space, &mut heap, 0x1000, top, 2 * 4096, PTE_R), Ok(()));
    assert_eq!(space.translate(0x1000), Some((top, PTE_R | PTE_V)));
    assert_eq!(space.translate(0x2000), Some((0, PTE_R | PTE_V)));
}
