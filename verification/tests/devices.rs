use std::mem::MaybeUninit;

use linked_list_allocator::Heap;
use rvkernel::mem_utils::{memmove, memset, slice_cpy};
use rvkernel::mmio::{byte, word, MmioWrite, Width};
use rvkernel::pci::{
    byte_of, config_addr, disp_cap_list, find_device, header as pci_header, le32, list_pci,
    test_write_bar, write_vga, PCIConfigurationSpcaeHeader, PciFunction, VgaDisplay, VgaSetup,
    VirtioPciCap,
};
use rvkernel::plic::{plic_claim, plic_complete, plicinit, plicinithart};
use rvkernel::spin_lock::{acquired, SpinLock};
use rvkernel::uart::{
    console_init, console_intr, uart_getc, uart_init, uart_intr, uartputc_sync, write_str, UartMimo,
};
use rvkernel::utils::{hex_digit, print_addr};
use rvkernel::virtio::virtio_blk::{
    avail_words, desc_words, feature_bit, feature_name, list_feature, virtio_disk_intr,
    virtio_disk_rw, Disk, DiskInfo, Feature, RequestAddrs, VirtqAvail, VirtqBlkReq, VirtqDesc,
    VirtqUsedElement,
};
use rvkernel::virtio::{
    accept_features, alloc_rings, check_reply, check_virtio_device_is_valid, high,
    init_virtio_blk_device, low, queue_setup, registers_to_read, reply_of, DeviceReply, InitState,
    RingPages, VirtioError,
};

const VIRTIO0: u64 = 0x1000_1000;

fn heap_of(pages: usize) -> Heap {
    let mem: Vec<MaybeUninit<u8>> = vec![MaybeUninit::uninit(); (pages + 1) * 4096];
    Heap::from_slice(Box::leak(mem.into_boxed_slice()))
}

fn w8(addr: u64, value: u8) -> MmioWrite {
    MmioWrite { addr, value: value as u32, width: Width::Byte }
}

fn w32(addr: u64, value: u32) -> MmioWrite {
    MmioWrite { addr, value, width: Width::Word }
}

fn uart(lsr: u8, rhr: u8) -> UartMimo {
    UartMimo { rhr_thr: rhr, ier: 0, fcr_isr: 0, lcr: 0, lsr }
}

#[test]
fn register_writes() {
    assert_eq!(byte(0x1000_0003, 0x80), w8(0x1000_0003, 0x80));
    assert_eq!(word(0x1000_1070, 0xdead_beef), w32(0x1000_1070, 0xdead_beef));
}

#[test]
fn the_uart_is_set_up_in_order() {
    let expected = vec![
        w8(0x1000_0001, 0x00),
        w8(0x1000_0003, 0x80),
        w8(0x1000_0000, 0x03),
        w8(0x1000_0001, 0x00),
        w8(0x1000_0003, 0x03),
        w8(0x1000_0002, 0x07),
        w8(0x1000_0001, 0x03),
    ];
    assert_eq!(uart_init(), expected);
    assert_eq!(console_init(), expected);
}

#[test]
fn a_byte_is_sent_when_the_transmitter_is_idle() {
    assert_eq!(uartputc_sync(&uart(0x20, 0), b'x'), Some(w8(0x1000_0000, b'x')));
    assert_eq!(uartputc_sync(&uart(0x61, 0), b'y'), Some(w8(0x1000_0000, b'y')));
    assert_eq!(uartputc_sync(&uart(0x00, 0), b'x'), None);
    assert_eq!(uartputc_sync(&uart(0x01, 0), b'x'), None);
    assert_eq!(uartputc_sync(&uart(0xdf, 0), b'x'), None);
    assert_eq!(console_intr(&uart(0x20, 0), b'z'), Some(w8(0x1000_0000, b'z')));
    assert_eq!(console_intr(&uart(0x00, 0), b'z'), None);
    assert_eq!(uart(0x20, 0)._write_char(b'w'), Some(w8(0x1000_0000, b'w')));
    assert_eq!(uart(0x40, 0)._write_char(b'w'), None);
}

#[test]
fn a_byte_is_read_when_one_is_ready() {
    assert_eq!(uart_getc(&uart(0x01, b'q')), Some(b'q'));
    assert_eq!(uart_getc(&uart(0x21, 0)), Some(0));
    assert_eq!(uart_getc(&uart(0x20, b'q')), None);
    assert_eq!(uart_getc(&uart(0xfe, b'q')), None);
    assert_eq!(uart_intr(&uart(0x01, b'q')), Some(b'q'));
    assert_eq!(uart_intr(&uart(0x00, b'q')), None);
}

#[test]
fn a_string_is_sent_byte_by_byte() {
    assert_eq!(write_str(b"hart 0\n"), b"hart 0\n".to_vec());
    assert_eq!(write_str(b""), Vec::<u8>::new());
}

#[test]
fn the_interrupt_controller_is_set_up() {
    assert_eq!(plicinit(), vec![w32(0x0c00_0028, 1), w32(0x0c00_0004, 1)]);
    assert_eq!(plicinithart(0), vec![w32(0x0c00_2080, 0x402), w32(0x0c20_1000, 0)]);
    assert_eq!(plicinithart(2), vec![w32(0x0c00_2280, 0x402), w32(0x0c20_5000, 0)]);
    assert_eq!(plic_claim(0), 0x0c20_1004);
    assert_eq!(plic_claim(1), 0x0c20_3004);
    assert_eq!(plic_complete(0, 10), w32(0x0c20_1004, 10));
    assert_eq!(plic_complete(3, 1), w32(0x0c20_7004, 1));
}

#[test]
fn a_virtio_device_is_recognized() {
    assert!(check_virtio_device_is_valid(0x7472_6976, 2, 2));
    assert!(check_virtio_device_is_valid(0x7472_6976, 2, 16));
    assert!(!check_virtio_device_is_valid(0x7472_6976, 2, 0));
    assert!(!check_virtio_device_is_valid(0x7472_6976, 1, 2));
    assert!(!check_virtio_device_is_valid(0x7472_6977, 2, 2));
}

#[test]
fn the_driver_turns_features_down() {
    assert_eq!(accept_features(0xffff_ffff), 0xc7ff_e75f);
    assert_eq!(accept_features(0x3800_18a0), 0);
    assert_eq!(accept_features(0x0000_0245), 0x0000_0245);
    assert_eq!(accept_features(0), 0);
}

#[test]
fn the_block_device_is_brought_up() {
    let mut heap = heap_of(4);
    let mut disk = Disk::new();
    let fresh = disk;
    let step = init_virtio_blk_device(
        VIRTIO0,
        InitState::Identify,
        DeviceReply::Identity {
            magic: 0x7472_6976,
            version: 2,
            device_id: 2,
            vendor_id: 0x554d_4551,
        },
        &mut disk,
        &mut heap,
    )
    .unwrap();
    assert_eq!(step.next, InitState::Features);
    assert_eq!(
        step.writes,
        vec![w32(0x1000_1070, 0), w32(0x1000_1070, 1), w32(0x1000_1070, 3)]
    );

    let step = init_virtio_blk_device(
        VIRTIO0,
        step.next,
        DeviceReply::Features(0x3000_6e54),
        &mut disk,
        &mut heap,
    )
    .unwrap();
    assert_eq!(step.next, InitState::Confirm);
    assert_eq!(step.writes, vec![w32(0x1000_1020, 0x0000_6654), w32(0x1000_1070, 11)]);

    let step =
        init_virtio_blk_device(VIRTIO0, step.next, DeviceReply::Status(0x4b), &mut disk, &mut heap)
            .unwrap();
    assert_eq!(step.next, InitState::Queue { status: 0x4b });
    assert_eq!(step.writes, vec![w32(0x1000_1030, 0)]);
    assert_eq!(disk, fresh);
    assert_eq!(heap.used(), 0);

    let step = init_virtio_blk_device(
        VIRTIO0,
        step.next,
        DeviceReply::Queue { ready: 0, num_max: 1024 },
        &mut disk,
        &mut heap,
    )
    .unwrap();
    assert_eq!(step.next, InitState::Done);
    assert_eq!(disk.desc_pa % 4096, 0);
    assert_ne!(disk.desc_pa, 0);
    assert_ne!(disk.desc_pa, disk.avail_pa);
    assert_ne!(disk.avail_pa, disk.used_pa);
    assert_eq!(
        step.writes,
        vec![
            w32(0x1000_1038, 8),
            w32(0x1000_1080, disk.desc_pa as u32),
            w32(0x1000_1084, (disk.desc_pa >> 32) as u32),
            w32(0x1000_1090, disk.avail_pa as u32),
            w32(0x1000_1094, (disk.avail_pa >> 32) as u32),
            w32(0x1000_10a0, disk.used_pa as u32),
            w32(0x1000_10a4, (disk.used_pa >> 32) as u32),
            w32(0x1000_1044, 1),
            w32(0x1000_1070, 0x4f),
        ]
    );
    assert_eq!(disk.free, [false; 8]);
    assert_eq!(disk.desc, fresh.desc);
    assert_eq!(disk.ops, fresh.ops);
}

#[test]
fn a_bad_device_does_not_pass_the_test() {
    let identity = |magic, version, device_id, vendor_id| DeviceReply::Identity {
        magic,
        version,
        device_id,
        vendor_id,
    };
    let id = InitState::Identify;
    assert_eq!(check_reply(id, identity(0, 2, 2, 0x554d_4551)), Err(VirtioError::NotValidDevice));
    assert_eq!(
        check_reply(id, identity(0x7472_6976, 1, 2, 0x554d_4551)),
        Err(VirtioError::NotValidDevice)
    );
    assert_eq!(
        check_reply(id, identity(0x7472_6976, 2, 0, 0x554d_4551)),
        Err(VirtioError::NotValidDevice)
    );
    // Both ids have to be right.
    assert_eq!(
        check_reply(id, identity(0x7472_6976, 2, 1, 0x554d_4551)),
        Err(VirtioError::WrongDevice)
    );
    assert_eq!(check_reply(id, identity(0x7472_6976, 2, 2, 0x1234)), Err(VirtioError::WrongDevice));
    assert_eq!(check_reply(id, identity(0x7472_6976, 2, 1, 0x1234)), Err(VirtioError::WrongDevice));
    assert_eq!(check_reply(id, identity(0x7472_6976, 2, 2, 0x554d_4551)), Ok(()));
    assert_eq!(check_reply(InitState::Features, DeviceReply::Features(0)), Ok(()));
    assert_eq!(
        check_reply(InitState::Confirm, DeviceReply::Status(0x3)),
        Err(VirtioError::FeaturesRejected)
    );
    assert_eq!(check_reply(InitState::Confirm, DeviceReply::Status(0xb)), Ok(()));
    let queue = InitState::Queue { status: 11 };
    assert_eq!(
        check_reply(queue, DeviceReply::Queue { ready: 1, num_max: 8 }),
        Err(VirtioError::QueueInUse)
    );
    assert_eq!(
        check_reply(queue, DeviceReply::Queue { ready: 0, num_max: 0 }),
        Err(VirtioError::NoQueue)
    );
    assert_eq!(
        check_reply(queue, DeviceReply::Queue { ready: 0, num_max: 7 }),
        Err(VirtioError::QueueTooShort)
    );
    assert_eq!(check_reply(queue, DeviceReply::Queue { ready: 0, num_max: 8 }), Ok(()));
    assert_eq!(
        check_reply(InitState::Features, DeviceReply::Status(0)),
        Err(VirtioError::OutOfStep)
    );
    assert_eq!(check_reply(InitState::Done, DeviceReply::Status(0xf)), Err(VirtioError::OutOfStep));
    assert_eq!(check_reply(id, DeviceReply::Features(0)), Err(VirtioError::OutOfStep));
}

#[test]
fn the_driver_says_what_it_reads() {
    assert_eq!(registers_to_read(InitState::Identify), vec![0x000, 0x004, 0x008, 0x00c]);
    assert_eq!(registers_to_read(InitState::Features), vec![0x010]);
    assert_eq!(registers_to_read(InitState::Confirm), vec![0x070]);
    assert_eq!(registers_to_read(InitState::Queue { status: 11 }), vec![0x044, 0x034]);
    assert_eq!(registers_to_read(InitState::Done), vec![]);
    assert_eq!(
        reply_of(InitState::Identify, &[1, 2, 3, 4]),
        Some(DeviceReply::Identity { magic: 1, version: 2, device_id: 3, vendor_id: 4 })
    );
    assert_eq!(reply_of(InitState::Identify, &[1, 2, 3]), None);
    assert_eq!(reply_of(InitState::Features, &[9]), Some(DeviceReply::Features(9)));
    assert_eq!(reply_of(InitState::Features, &[]), None);
    assert_eq!(reply_of(InitState::Confirm, &[11]), Some(DeviceReply::Status(11)));
    assert_eq!(reply_of(InitState::Confirm, &[11, 12]), None);
    assert_eq!(
        reply_of(InitState::Queue { status: 11 }, &[0, 1024]),
        Some(DeviceReply::Queue { ready: 0, num_max: 1024 })
    );
    assert_eq!(reply_of(InitState::Done, &[]), None);
}

#[test]
fn the_rings_need_memory() {
    let mut disk = Disk::new();
    let fresh = disk;
    assert_eq!(
        init_virtio_blk_device(
            VIRTIO0,
            InitState::Queue { status: 11 },
            DeviceReply::Queue { ready: 0, num_max: 8 },
            &mut disk,
            &mut Heap::empty(),
        )
        .err(),
        Some(VirtioError::OutOfMemory)
    );
    assert_eq!(disk, fresh);
    assert_eq!(queue_setup(VIRTIO0, 11, None, &mut disk).err(), Some(VirtioError::OutOfMemory));
    assert_eq!(disk, fresh);
    assert_eq!(alloc_rings(&mut Heap::empty()), None);
    let mut heap = heap_of(2);
    assert_eq!(alloc_rings(&mut heap), None);
}

#[test]
fn the_queue_gets_its_rings() {
    let mut disk = Disk::new();
    disk.used_idx = 3;
    let rings =
        RingPages { desc: 0x1_8765_4000, avail: 0x8765_5000, used: 0xffff_ffff_ffff_f000 };
    let step = queue_setup(VIRTIO0, 0x0b, Some(rings), &mut disk).unwrap();
    assert_eq!(step.next, InitState::Done);
    assert_eq!(
        step.writes,
        vec![
            w32(0x1000_1038, 8),
            w32(0x1000_1080, 0x8765_4000),
            w32(0x1000_1084, 1),
            w32(0x1000_1090, 0x8765_5000),
            w32(0x1000_1094, 0),
            w32(0x1000_10a0, 0xffff_f000),
            w32(0x1000_10a4, 0xffff_ffff),
            w32(0x1000_1044, 1),
            w32(0x1000_1070, 0x0f),
        ]
    );
    assert_eq!((disk.desc_pa, disk.avail_pa, disk.used_pa), (rings.desc, rings.avail, rings.used));
    assert_eq!(disk.free, [false; 8]);
    assert_eq!(disk.used_idx, 3);
    assert_eq!(low(0x1_8765_4321), 0x8765_4321);
    assert_eq!(high(0x1_8765_4321), 1);
}

#[test]
fn a_new_disk_is_idle() {
    let disk = Disk::new();
    assert_eq!((disk.desc_pa, disk.avail_pa, disk.used_pa), (0, 0, 0));
    assert_eq!(disk.free, [true; 8]);
    assert_eq!(disk.used_idx, 0);
    assert_eq!(disk.desc, [VirtqDesc { addr: 0, len: 0, flags: 0, next: 0 }; 8]);
    assert_eq!(disk.info, [DiskInfo { b: None, status: 0 }; 8]);
    assert_eq!(disk.ops, [VirtqBlkReq { type_filed: 0, reserved: 0, sector: 0 }; 8]);
    assert_eq!(disk.avail.ring, [0; 8]);
    assert_eq!(disk.used.ring, [VirtqUsedElement { id: 0, len: 0 }; 8]);
    let mut same = disk;
    virtio_disk_intr(&mut same);
    assert_eq!(same, disk);
}

#[test]
fn a_write_request_is_submitted() {
    let mut disk = Disk::new();
    disk.ops[0].sector = 9;
    disk.ops[0].reserved = 9;
    disk.desc[1].flags = 2;
    let before = disk;
    let at = RequestAddrs { header: 0x8000_1000, data: 0x8000_2000, status: 0x8000_3000 };
    assert_eq!(virtio_disk_rw(&mut disk, VIRTIO0, &at, true), w32(0x1000_1050, 0));
    assert_eq!(disk.ops[0], VirtqBlkReq { type_filed: 1, reserved: 0, sector: 0 });
    assert_eq!(disk.desc[0], VirtqDesc { addr: 0x8000_1000, len: 16, flags: 1, next: 1 });
    assert_eq!(disk.desc[1], VirtqDesc { addr: 0x8000_2000, len: 1024, flags: 1, next: 2 });
    assert_eq!(disk.desc[2], VirtqDesc { addr: 0x8000_3000, len: 1, flags: 2, next: 0 });
    assert_eq!(disk.desc[3], before.desc[3]);
    assert_eq!(disk.info[0], DiskInfo { b: None, status: 0xff });
    assert_eq!(disk.info[1], before.info[1]);
    assert_eq!(disk.avail.idx, 1);
    assert_eq!(disk.avail.ring, [0; 8]);
    assert_eq!(disk.used, before.used);
    assert_eq!(disk.free, before.free);
}

#[test]
fn a_read_request_keeps_the_type_and_the_flags() {
    let mut disk = Disk::new();
    disk.ops[0].type_filed = 1;
    disk.desc[1].flags = 2;
    disk.avail.idx = 0xffff;
    disk.avail.ring = [5; 8];
    let at = RequestAddrs { header: 1, data: 2, status: 3 };
    assert_eq!(virtio_disk_rw(&mut disk, VIRTIO0, &at, false), w32(0x1000_1050, 0));
    assert_eq!(disk.ops[0].type_filed, 1);
    assert_eq!(disk.desc[1].flags, 3);
    assert_eq!(disk.avail.ring, [5, 5, 5, 5, 5, 5, 5, 0]);
    assert_eq!(disk.avail.idx, 0);
}

#[test]
fn features_are_listed_in_order() {
    assert_eq!(list_feature(0), vec![]);
    assert_eq!(list_feature(0x1), vec![Feature::Barrier]);
    assert_eq!(
        list_feature(0x3000_0061),
        vec![
            Feature::Barrier,
            Feature::BlkSize,
            Feature::Ro,
            Feature::EventIdx,
            Feature::IndirectDesc
        ]
    );
    assert_eq!(list_feature(0x8), vec![]);
    let all = list_feature(0xffff_ffff);
    assert_eq!(all.len(), 20);
    assert_eq!(all[0], Feature::Barrier);
    assert_eq!(all[12], Feature::SizeMax);
    assert_eq!(all[19], Feature::Unused);
    let names: Vec<&str> = list_feature(0x4100_0002).into_iter().map(feature_name).collect();
    assert_eq!(names, vec!["VIRTIO_BLK_F_SIZE_MAX", "VIRTIO_F_NOTIFY_ON_EMPTY", "VIRTIO_UNUSED"]);
    assert_eq!(feature_bit(Feature::SecureErase), 1 << 16);
    assert_eq!(feature_bit(Feature::AnyLayout), 1 << 27);
    assert_eq!(feature_name(Feature::Mq), "VIRTIO_BLK_F_MQ");
}

fn header(vendor_id: u16, device_id: u16) -> PCIConfigurationSpcaeHeader {
    PCIConfigurationSpcaeHeader {
        vendor_id,
        device_id,
        command: 0,
        status: 0x10,
        revision_id: 0,
        class_code: [0; 3],
        cache_line_size: 0,
        master_latency_time: 0,
        header_type: 0,
        built_in_self_test: 0,
    }
}

fn bus() -> Vec<PCIConfigurationSpcaeHeader> {
    let mut headers = vec![header(0xffff, 0xffff); 256];
    headers[0] = header(0x1b36, 0x0008);
    headers[8] = header(0x1af4, 0x1050);
    headers[11] = header(0x1af4, 0x1001);
    headers[255] = header(0x1af4, 0x1050);
    headers
}

#[test]
fn the_functions_of_the_bus_are_listed() {
    let base = 0x3000_0000;
    assert_eq!(config_addr(base, 0, 0), 0x3000_0000);
    assert_eq!(config_addr(base, 1, 3), 0x3000_b000);
    assert_eq!(config_addr(base, 31, 7), 0x300f_f000);
    let found = list_pci(base, &bus());
    assert_eq!(found.len(), 4);
    assert_eq!(
        found[1],
        PciFunction {
            dev: 1,
            func: 0,
            addr: 0x3000_8000,
            vendor_id: 0x1af4,
            device_id: 0x1050,
            header_type: 0,
            status: 0x10
        }
    );
    assert_eq!((found[2].dev, found[2].func, found[2].addr), (1, 3, 0x3000_b000));
    assert_eq!((found[3].dev, found[3].func, found[3].addr), (31, 7, 0x300f_f000));
    assert_eq!(list_pci(base, &vec![header(0xffff, 0); 256]), vec![]);
}

#[test]
fn a_device_is_found_by_its_ids() {
    let base = 0x3000_0000;
    assert_eq!(find_device(base, &bus(), 0x1af4, 0x1050), Some(0x3000_8000));
    assert_eq!(find_device(base, &bus(), 0x1af4, 0x1001), Some(0x3000_b000));
    assert_eq!(find_device(base, &bus(), 0x1af4, 0x1002), None);
    assert_eq!(find_device(base, &bus(), 0x1b36, 0x1050), None);
    assert_eq!(test_write_bar(0x3000_8000), (0x3000_8014, 0x9000_0000));
    assert_eq!(test_write_bar(0xf_3000_8000), (0x3000_8014, 0x9000_0000));
    assert_eq!(find_device(base, &vec![header(0xffff, 0); 256], 0x1af4, 0x1050), None);
}

#[test]
fn the_capabilities_are_walked() {
    let mut config = vec![0u8; 256];
    // 0x40: vendor-specific, next 0x60.
    config[0x40..0x50].copy_from_slice(&[
        0x09, 0x60, 0x10, 0x01, 0x04, 0x00, 0xaa, 0xbb, 0x00, 0x10, 0x00, 0x00, 0x38, 0x00, 0x00,
        0x00,
    ]);
    // 0x60: something else, next 0x70.
    config[0x60] = 0x11;
    config[0x61] = 0x70;
    // 0x70: vendor-specific, the last.
    config[0x70..0x80].copy_from_slice(&[
        0x09, 0x00, 0x14, 0x02, 0x04, 0x07, 0x00, 0x00, 0x78, 0x56, 0x34, 0x12, 0x04, 0x03, 0x02,
        0x01,
    ]);
    let caps = disp_cap_list(&config, 0x40);
    assert_eq!(
        caps,
        vec![
            VirtioPciCap {
                cap_vndr: 9,
                cap_next: 0x60,
                cap_len: 0x10,
                cfg_type: 1,
                bar: 4,
                id: 0,
                padding: [0xaa, 0xbb],
                offset: 0x1000,
                length: 0x38
            },
            VirtioPciCap {
                cap_vndr: 9,
                cap_next: 0,
                cap_len: 0x14,
                cfg_type: 2,
                bar: 4,
                id: 7,
                padding: [0, 0],
                offset: 0x1234_5678,
                length: 0x0102_0304
            },
        ]
    );
    assert_eq!(disp_cap_list(&config, 0), vec![]);
    assert_eq!(disp_cap_list(&config, 0x60).len(), 1);
    assert_eq!(disp_cap_list(&config, 0x100), vec![]);
    assert_eq!(disp_cap_list(&config, 0xff), vec![]);
    assert_eq!(le32(0x78, 0x56, 0x34, 0x12), 0x1234_5678);
}

#[test]
fn a_list_in_a_circle_ends() {
    let mut config = vec![0u8; 256];
    config[0x40] = 0x09;
    config[0x41] = 0x80;
    config[0x80] = 0x09;
    config[0x81] = 0x40;
    assert_eq!(disp_cap_list(&config, 0x40).len(), 256);
    // A capability that is cut off by the end of the space is left out.
    let mut config = vec![0u8; 256];
    config[0xf8] = 0x09;
    assert_eq!(disp_cap_list(&config, 0xf8), vec![]);
    config[0xf0] = 0x09;
    assert_eq!(disp_cap_list(&config, 0xf0).len(), 1);
}

#[test]
fn the_display_is_turned_on() {
    assert_eq!(
        write_vga(0x0001, 0),
        VgaSetup {
            command: 0x0003,
            display: Some(VgaDisplay {
                bar0: 0x7000_0000,
                bar2: 0x7100_0000,
                frame_buffer: 0x7000_0000,
                frame_buffer_size: 16 * 1024 * 1024,
                fill: 0xff,
                enable_at: 0x7100_0000,
                enable: 0x0c
            })
        }
    );
    assert_eq!(write_vga(0x0400, 1), VgaSetup { command: 0x0402, display: None });
}

#[test]
fn memory_is_dumped_as_text() {
    assert_eq!(print_addr(&[]), b"".to_vec());
    assert_eq!(print_addr(&[0x00, 0x7f, 0xab]), b"\n00 7f ab ".to_vec());
    let bytes: Vec<u8> = (0u8..18).collect();
    assert_eq!(
        print_addr(&bytes),
        b"\n00 01 02 03 04 05 06 07 08 09 0a 0b 0c 0d 0e 0f \n10 11 ".to_vec()
    );
    assert_eq!(hex_digit(9), b'9');
    assert_eq!(hex_digit(10), b'a');
    assert_eq!(hex_digit(15), b'f');
}

#[test]
fn slices_are_copied_and_filled() {
    let mut dst = [1u8, 2, 3, 4, 5];
    slice_cpy(&mut dst, &[9, 8]);
    assert_eq!(dst, [9, 8, 3, 4, 5]);
    slice_cpy(&mut dst, &[7, 7, 7, 7, 7, 7, 7]);
    assert_eq!(dst, [7; 5]);
    slice_cpy(&mut dst, &[]);
    assert_eq!(dst, [7; 5]);
    let mut words = [0u32; 3];
    slice_cpy(&mut words, &[1, 2, 3, 4]);
    assert_eq!(words, [1, 2, 3]);
    let mut mem = [0u8; 4];
    memmove(&mut mem, &[5, 6, 7], 2);
    assert_eq!(mem, [5, 6, 0, 0]);
    memset(&mut mem, 0xee, 3);
    assert_eq!(mem, [0xee, 0xee, 0xee, 0]);
    memset(&mut mem, 1, 0);
    assert_eq!(mem, [0xee, 0xee, 0xee, 0]);
}

#[test]
fn a_lock_is_taken_once() {
    let lock = SpinLock::new();
    assert!(lock.lock());
    assert!(!lock.lock());
    assert!(!lock.lock());
    lock.unlock();
    assert!(lock.lock());
    lock.unlock();
    lock.unlock();
    assert!(lock.lock());
    assert!(acquired(false));
    assert!(!acquired(true));
}

#[test]
fn the_rings_lie_in_memory_as_the_device_reads_them() {
    let d = VirtqDesc { addr: 0x8000_1000, len: 0x400, flags: 1, next: 2 };
    assert_eq!(desc_words(d), (0x8000_1000, 0x0002_0001_0000_0400));
    let d = VirtqDesc { addr: u64::MAX, len: u32::MAX, flags: u16::MAX, next: u16::MAX };
    assert_eq!(desc_words(d), (u64::MAX, u64::MAX));
    let a = VirtqAvail { flags: 1, idx: 2, ring: [3, 4, 5, 6, 7, 8, 9, 10], unused: 11 };
    assert_eq!(avail_words(&a), [1, 2, 3, 4, 5, 6, 7, 8, 9, 10, 11]);
}

#[test]
fn a_header_is_read_from_its_words() {
    let h = pci_header(0x1050_1af4, 0x0010_0007, 0x0380_0001, 0x0080_4010);
    assert_eq!(
        h,
        PCIConfigurationSpcaeHeader {
            vendor_id: 0x1af4,
            device_id: 0x1050,
            command: 0x0007,
            status: 0x0010,
            revision_id: 0x01,
            class_code: [0x00, 0x80, 0x03],
            cache_line_size: 0x10,
            master_latency_time: 0x40,
            header_type: 0x80,
            built_in_self_test: 0x00
        }
    );
    assert_eq!(byte_of(0x1234_5678, 0), 0x78);
    assert_eq!(byte_of(0x1234_5678, 1), 0x56);
    assert_eq!(byte_of(0x1234_5678, 2), 0x34);
    assert_eq!(byte_of(0x1234_5678, 3), 0x12);
}
