//! The virtio block device: its feature bits, the rings it shares with the
//! driver, and the submission of a request.
use vstd::prelude::*;
use crate::mmio::{spec_word, word, MmioWrite};
use crate::virtio::{QUEUE_NOTIFY, VIRTIO_F_EVENT_IDX, VIRTIO_F_INDIRECT_DESC};

verus! {

/// Bytes in a disk block.
pub const BSIZE: usize = 1024;

pub const DEVICE_ID: u32 = 0x2;

pub const VENDOR_ID: u32 = 0x554d4551;

/// Descriptors in the queue.
pub const QUEUE_NUM: usize = 8;

/// Request type: read the disk.
pub const VIRTIO_BLK_T_IN: u32 = 0;

/// Request type: write the disk.
pub const VIRTIO_BLK_T_OUT: u32 = 1;

pub const VIRTIO_BLK_F_BARRIER: u32 = 0x1;

pub const VIRTIO_BLK_F_SIZE_MAX: u32 = 0x2;

pub const VIRTIO_BLK_F_SEG_MAX: u32 = 0x4;

pub const VIRTIO_BLK_F_GEOMETRY: u32 = 0x10;

pub const VIRTIO_BLK_F_RO: u32 = 0x20;

pub const VIRTIO_BLK_F_BLK_SIZE: u32 = 0x40;

pub const VIRTIO_BLK_F_SCSI: u32 = 0x80;

pub const VIRTIO_BLK_F_FLUSH: u32 = 0x200;

pub const VIRTIO_BLK_F_TOPOLOGY: u32 = 0x400;

pub const VIRTIO_BLK_F_CONFIG_WCE: u32 = 0x800;

pub const VIRTIO_BLK_F_MQ: u32 = 0x1000;

pub const VIRTIO_BLK_F_DISCARD: u32 = 0x2000;

pub const VIRTIO_BLK_F_WRITE_ZEROES: u32 = 0x4000;

pub const VIRTIO_BLK_F_LIFETIME: u32 = 0x8000;

pub const VIRTIO_BLK_F_SECURE_ERASE: u32 = 0x1_0000;

pub const VIRTIO_F_NOTIFY_ON_EMPTY: u32 = 0x100_0000;

pub const VIRTIO_F_ANY_LAYOUT: u32 = 0x800_0000;

pub const VIRTIO_UNUSED: u32 = 0x4000_0000;

/// Descriptor flag: another descriptor follows.
pub const VRING_DESC_F_NEXT: u16 = 1;

/// Descriptor flag: the device writes the buffer.
pub const VRING_DESC_F_WRITE: u16 = 2;

/// The size of a request header in bytes.
pub const REQUEST_HEADER_LEN: u32 = 16;

/// The status byte of a request that the device has not answered.
pub const STATUS_PENDING: u8 = 0xff;

/// The features a block device can offer.
#[derive(Clone, Copy, Debug, PartialEq, Eq, Structural)]
pub enum Feature {
    Barrier,
    BlkSize,
    ConfigWce,
    Discard,
    Flush,
    Geometry,
    Lifetime,
    Mq,
    Ro,
    Scsi,
    SecureErase,
    SegMax,
    SizeMax,
    Topology,
    WriteZeroes,
    AnyLayout,
    NotifyOnEmpty,
    EventIdx,
    IndirectDesc,
    Unused,
}

/// How many features there are.
pub const FEATURES: usize = 20;

/// The feature at position `i` of the order in which features are listed.
pub open spec fn spec_feature_at(i: int) -> Feature {
    if i == 0 {
        Feature::Barrier
    } else if i == 1 {
        Feature::BlkSize
    } else if i == 2 {
        Feature::ConfigWce
    } else if i == 3 {
        Feature::Discard
    } else if i == 4 {
        Feature::Flush
    } else if i == 5 {
        Feature::Geometry
    } else if i == 6 {
        Feature::Lifetime
    } else if i == 7 {
        Feature::Mq
    } else if i == 8 {
        Feature::Ro
    } else if i == 9 {
        Feature::Scsi
    } else if i == 10 {
        Feature::SecureErase
    } else if i == 11 {
        Feature::SegMax
    } else if i == 12 {
        Feature::SizeMax
    } else if i == 13 {
        Feature::Topology
    } else if i == 14 {
        Feature::WriteZeroes
    } else if i == 15 {
        Feature::AnyLayout
    } else if i == 16 {
        Feature::NotifyOnEmpty
    } else if i == 17 {
        Feature::EventIdx
    } else if i == 18 {
        Feature::IndirectDesc
    } else {
        Feature::Unused
    }
}

/// The feature at position `i` of the order in which features are listed.
pub fn feature_at(i: usize) -> (f: Feature)
    ensures
        f == spec_feature_at(i as int),
{
    match i {
        0 => Feature::Barrier,
        1 => Feature::BlkSize,
        2 => Feature::ConfigWce,
        3 => Feature::Discard,
        4 => Feature::Flush,
        5 => Feature::Geometry,
        6 => Feature::Lifetime,
        7 => Feature::Mq,
        8 => Feature::Ro,
        9 => Feature::Scsi,
        10 => Feature::SecureErase,
        11 => Feature::SegMax,
        12 => Feature::SizeMax,
        13 => Feature::Topology,
        14 => Feature::WriteZeroes,
        15 => Feature::AnyLayout,
        16 => Feature::NotifyOnEmpty,
        17 => Feature::EventIdx,
        18 => Feature::IndirectDesc,
        _ => Feature::Unused,
    }
}

/// The bit that stands for a feature.
pub open spec fn spec_feature_bit(f: Feature) -> u32 {
    match f {
        Feature::Barrier => VIRTIO_BLK_F_BARRIER,
        Feature::BlkSize => VIRTIO_BLK_F_BLK_SIZE,
        Feature::ConfigWce => VIRTIO_BLK_F_CONFIG_WCE,
        Feature::Discard => VIRTIO_BLK_F_DISCARD,
        Feature::Flush => VIRTIO_BLK_F_FLUSH,
        Feature::Geometry => VIRTIO_BLK_F_GEOMETRY,
        Feature::Lifetime => VIRTIO_BLK_F_LIFETIME,
        Feature::Mq => VIRTIO_BLK_F_MQ,
        Feature::Ro => VIRTIO_BLK_F_RO,
        Feature::Scsi => VIRTIO_BLK_F_SCSI,
        Feature::SecureErase => VIRTIO_BLK_F_SECURE_ERASE,
        Feature::SegMax => VIRTIO_BLK_F_SEG_MAX,
        Feature::SizeMax => VIRTIO_BLK_F_SIZE_MAX,
        Feature::Topology => VIRTIO_BLK_F_TOPOLOGY,
        Feature::WriteZeroes => VIRTIO_BLK_F_WRITE_ZEROES,
        Feature::AnyLayout => VIRTIO_F_ANY_LAYOUT,
        Feature::NotifyOnEmpty => VIRTIO_F_NOTIFY_ON_EMPTY,
        Feature::EventIdx => VIRTIO_F_EVENT_IDX,
        Feature::IndirectDesc => VIRTIO_F_INDIRECT_DESC,
        Feature::Unused => VIRTIO_UNUSED,
    }
}

/// The bit that stands for a feature.
#[verifier::when_used_as_spec(spec_feature_bit)]
pub fn feature_bit(f: Feature) -> (bit: u32)
    ensures
        bit == spec_feature_bit(f),
{
    match f {
        Feature::Barrier => VIRTIO_BLK_F_BARRIER,
        Feature::BlkSize => VIRTIO_BLK_F_BLK_SIZE,
        Feature::ConfigWce => VIRTIO_BLK_F_CONFIG_WCE,
        Feature::Discard => VIRTIO_BLK_F_DISCARD,
        Feature::Flush => VIRTIO_BLK_F_FLUSH,
        Feature::Geometry => VIRTIO_BLK_F_GEOMETRY,
        Feature::Lifetime => VIRTIO_BLK_F_LIFETIME,
        Feature::Mq => VIRTIO_BLK_F_MQ,
        Feature::Ro => VIRTIO_BLK_F_RO,
        Feature::Scsi => VIRTIO_BLK_F_SCSI,
        Feature::SecureErase => VIRTIO_BLK_F_SECURE_ERASE,
        Feature::SegMax => VIRTIO_BLK_F_SEG_MAX,
        Feature::SizeMax => VIRTIO_BLK_F_SIZE_MAX,
        Feature::Topology => VIRTIO_BLK_F_TOPOLOGY,
        Feature::WriteZeroes => VIRTIO_BLK_F_WRITE_ZEROES,
        Feature::AnyLayout => VIRTIO_F_ANY_LAYOUT,
        Feature::NotifyOnEmpty => VIRTIO_F_NOTIFY_ON_EMPTY,
        Feature::EventIdx => VIRTIO_F_EVENT_IDX,
        Feature::IndirectDesc => VIRTIO_F_INDIRECT_DESC,
        Feature::Unused => VIRTIO_UNUSED,
    }
}

/// The name a feature is listed under.
pub open spec fn spec_feature_name(f: Feature) -> Seq<char> {
    match f {
        Feature::Barrier => "VIRTIO_BLK_F_BARRIER"@,
        Feature::BlkSize => "VIRTIO_BLK_F_BLK_SIZE"@,
        Feature::ConfigWce => "VIRTIO_BLK_F_CONFIG_WCE"@,
        Feature::Discard => "VIRTIO_BLK_F_DISCARD"@,
        Feature::Flush => "VIRTIO_BLK_F_FLUSH"@,
        Feature::Geometry => "VIRTIO_BLK_F_GEOMETRY"@,
        Feature::Lifetime => "VIRTIO_BLK_F_LIFETIME"@,
        Feature::Mq => "VIRTIO_BLK_F_MQ"@,
        Feature::Ro => "VIRTIO_BLK_F_RO"@,
        Feature::Scsi => "VIRTIO_BLK_F_SCSI"@,
        Feature::SecureErase => "VIRTIO_BLK_F_SECURE_ERASE"@,
        Feature::SegMax => "VIRTIO_BLK_F_SEG_MAX"@,
        Feature::SizeMax => "VIRTIO_BLK_F_SIZE_MAX"@,
        Feature::Topology => "VIRTIO_BLK_F_TOPOLOGY"@,
        Feature::WriteZeroes => "VIRTIO_BLK_F_WRITE_ZEROES"@,
        Feature::AnyLayout => "VIRTIO_F_ANY_LAYOUT"@,
        Feature::NotifyOnEmpty => "VIRTIO_F_NOTIFY_ON_EMPTY"@,
        Feature::EventIdx => "VIRTIO_F_EVENT_IDX"@,
        Feature::IndirectDesc => "VIRTIO_F_INDIRECT_DESC"@,
        Feature::Unused => "VIRTIO_UNUSED"@,
    }
}

/// The name a feature is listed under.
pub fn feature_name(f: Feature) -> (name: &'static str)
    ensures
        name@ == spec_feature_name(f),
{
    match f {
        Feature::Barrier => "VIRTIO_BLK_F_BARRIER",
        Feature::BlkSize => "VIRTIO_BLK_F_BLK_SIZE",
        Feature::ConfigWce => "VIRTIO_BLK_F_CONFIG_WCE",
        Feature::Discard => "VIRTIO_BLK_F_DISCARD",
        Feature::Flush => "VIRTIO_BLK_F_FLUSH",
        Feature::Geometry => "VIRTIO_BLK_F_GEOMETRY",
        Feature::Lifetime => "VIRTIO_BLK_F_LIFETIME",
        Feature::Mq => "VIRTIO_BLK_F_MQ",
        Feature::Ro => "VIRTIO_BLK_F_RO",
        Feature::Scsi => "VIRTIO_BLK_F_SCSI",
        Feature::SecureErase => "VIRTIO_BLK_F_SECURE_ERASE",
        Feature::SegMax => "VIRTIO_BLK_F_SEG_MAX",
        Feature::SizeMax => "VIRTIO_BLK_F_SIZE_MAX",
        Feature::Topology => "VIRTIO_BLK_F_TOPOLOGY",
        Feature::WriteZeroes => "VIRTIO_BLK_F_WRITE_ZEROES",
        Feature::AnyLayout => "VIRTIO_F_ANY_LAYOUT",
        Feature::NotifyOnEmpty => "VIRTIO_F_NOTIFY_ON_EMPTY",
        Feature::EventIdx => "VIRTIO_F_EVENT_IDX",
        Feature::IndirectDesc => "VIRTIO_F_INDIRECT_DESC",
        Feature::Unused => "VIRTIO_UNUSED",
    }
}

/// Whether the bit of a feature is set in `feature_bits`.
pub open spec fn spec_has_feature(feature_bits: u32, f: Feature) -> bool {
    feature_bits & spec_feature_bit(f) != 0
}

/// The features among the first `n` of the listing order whose bits are set
/// in `feature_bits`, in that order.
pub open spec fn spec_listed(feature_bits: u32, n: int) -> Seq<Feature>
    decreases n,
{
    if n <= 0 {
        Seq::<Feature>::empty()
    } else if spec_has_feature(feature_bits, spec_feature_at(n - 1)) {
        spec_listed(feature_bits, n - 1).push(spec_feature_at(n - 1))
    } else {
        spec_listed(feature_bits, n - 1)
    }
}

/// Lists the features whose bits are set in `feature_bits`, in the order
/// in which they are printed.
pub fn list_feature(feature_bits: u32) -> (listed: Vec<Feature>)
    ensures
        listed@ == spec_listed(feature_bits, FEATURES as int),
{
    let mut listed: Vec<Feature> = Vec::new();
    let mut i: usize = 0;
    while i < FEATURES
        invariant
            i <= FEATURES,
            listed@ == spec_listed(feature_bits, i as int),
        decreases FEATURES - i,
    {
        let f = feature_at(i);
        if feature_bits & feature_bit(f) != 0 {
            listed.push(f);
        }
        i += 1;
    }
    listed
}

/// One descriptor of the queue: a buffer and a link to the next.
#[derive(Clone, Copy, Debug, PartialEq, Eq, Structural)]
pub struct VirtqDesc {
    pub addr: u64,
    pub len: u32,
    pub flags: u16,
    pub next: u16,
}

/// The ring in which the driver offers descriptor chains to the device.
#[derive(Clone, Copy, Debug, PartialEq, Eq)]
pub struct VirtqAvail {
    pub flags: u16,
    /// Where the driver writes the next entry of `ring`.
    pub idx: u16,
    /// The heads of the chains that are offered.
    pub ring: [u16; 8],
    pub unused: u16,
}

/// One entry of the used ring: a finished chain.
#[derive(Clone, Copy, Debug, PartialEq, Eq, Structural)]
pub struct VirtqUsedElement {
    /// The head of the chain.
    pub id: u32,
    pub len: u32,
}

/// The ring in which the device hands finished chains back.
#[derive(Clone, Copy, Debug, PartialEq, Eq)]
pub struct VirtqUsed {
    pub flags: u16,
    pub idx: u16,
    pub ring: [VirtqUsedElement; 8],
}

/// The header of a request to the block device.
#[derive(Clone, Copy, Debug, PartialEq, Eq, Structural)]
pub struct VirtqBlkReq {
    /// Whether to read or to write.
    pub type_filed: u32,
    pub reserved: u32,
    /// The sector the request starts at.
    pub sector: u64,
}

/// What the driver keeps for a request in flight.
#[derive(Clone, Copy, Debug, PartialEq, Eq, Structural)]
pub struct DiskInfo {
    /// The address of the buffer the request is for, if there is one.
    pub b: Option<u64>,
    /// The status byte that the device fills in.
    pub status: u8,
}

/// A block of the disk, in memory.
#[derive(Clone, Copy, Debug, PartialEq, Eq)]
pub struct DiskBuffer {
    /// Whether the data has been read from the disk.
    pub valid: bool,
    /// Whether the device owns the buffer at the moment.
    pub disk: bool,
    pub data: [u8; 1024],
}

/// The state of the block device's driver.
#[derive(Clone, Copy, Debug, PartialEq, Eq)]
pub struct Disk {
    /// The physical address of the page that holds the descriptors.
    pub desc_pa: u64,
    /// The physical address of the page that holds the available ring.
    pub avail_pa: u64,
    /// The physical address of the page that holds the used ring.
    pub used_pa: u64,
    /// The descriptors.
    pub desc: [VirtqDesc; 8],
    /// The available ring.
    pub avail: VirtqAvail,
    /// The used ring.
    pub used: VirtqUsed,
    /// Which descriptors are free.
    pub free: [bool; 8],
    /// How far the driver has looked at the used ring.
    pub used_idx: u16,
    /// The requests in flight, by the head of their chain.
    pub info: [DiskInfo; 8],
    /// The request headers, one for each descriptor.
    pub ops: [VirtqBlkReq; 8],
}

/// The two 64-bit words that a descriptor lies in: the address, and the
/// length, the flags and the link from low to high.
pub open spec fn spec_desc_words(d: VirtqDesc) -> (u64, u64) {
    (d.addr, (d.len + d.flags * 0x1_0000_0000 + d.next * 0x1_0000_0000_0000) as u64)
}

/// Lays a descriptor out as the device reads it.
#[verifier::when_used_as_spec(spec_desc_words)]
pub fn desc_words(d: VirtqDesc) -> (w: (u64, u64))
    ensures
        w == spec_desc_words(d),
{
    let rest: u64 = (d.len as u64) + (d.flags as u64) * 0x1_0000_0000 + (d.next as u64)
        * 0x1_0000_0000_0000;
    (d.addr, rest)
}

/// The 16-bit words that the available ring lies in: the flags, the index,
/// the eight entries, and the unused word.
pub open spec fn spec_avail_words(a: VirtqAvail) -> Seq<u16> {
    seq![a.flags, a.idx] + a.ring@ + seq![a.unused]
}

/// Lays the available ring out as the device reads it.
pub fn avail_words(a: &VirtqAvail) -> (w: [u16; 11])
    ensures
        w@ == spec_avail_words(*a),
{
    let w: [u16; 11] = [
        a.flags,
        a.idx,
        a.ring[0],
        a.ring[1],
        a.ring[2],
        a.ring[3],
        a.ring[4],
        a.ring[5],
        a.ring[6],
        a.ring[7],
        a.unused,
    ];
    proof {
        assert(w@ =~= spec_avail_words(*a));
    }
    w
}

/// A descriptor that holds nothing.
pub open spec fn spec_no_desc() -> VirtqDesc {
    VirtqDesc { addr: 0, len: 0, flags: 0, next: 0 }
}

impl Disk {
    /// The rings hold nothing at all.
    pub open spec fn rings_zeroed(&self) -> bool {
        &&& self.desc@ == Seq::new(8, |i: int| spec_no_desc())
        &&& self.avail.flags == 0
        &&& self.avail.idx == 0
        &&& self.avail.ring@ == Seq::new(8, |i: int| 0u16)
        &&& self.avail.unused == 0
        &&& self.used.flags == 0
        &&& self.used.idx == 0
        &&& self.used.ring@ == Seq::new(8, |i: int| VirtqUsedElement { id: 0, len: 0 })
    }

    /// The driver before the device has been set up: no rings, every
    /// descriptor free, nothing in flight.
    pub fn new() -> (disk: Disk)
        ensures
            disk.desc_pa == 0,
            disk.avail_pa == 0,
            disk.used_pa == 0,
            disk.rings_zeroed(),
            disk.free@ == Seq::new(8, |i: int| true),
            disk.used_idx == 0,
            disk.info@ == Seq::new(8, |i: int| DiskInfo { b: None, status: 0 }),
            disk.ops@ == Seq::new(
                8,
                |i: int| VirtqBlkReq { type_filed: 0, reserved: 0, sector: 0 },
            ),
    {
        let disk = Disk {
            desc_pa: 0,
            avail_pa: 0,
            used_pa: 0,
            desc: [VirtqDesc { addr: 0, len: 0, flags: 0, next: 0 };8],
            avail: VirtqAvail { flags: 0, idx: 0, ring: [0u16;8], unused: 0 },
            used: VirtqUsed { flags: 0, idx: 0, ring: [VirtqUsedElement { id: 0, len: 0 };8] },
            free: [true;8],
            used_idx: 0,
            info: [DiskInfo { b: None, status: 0 };8],
            ops: [VirtqBlkReq { type_filed: 0, reserved: 0, sector: 0 };8],
        };
        proof {
            assert(disk.desc@ =~= Seq::new(8, |i: int| spec_no_desc()));
            assert(disk.avail.ring@ =~= Seq::new(8, |i: int| 0u16));
            assert(disk.used.ring@ =~= Seq::new(8, |i: int| VirtqUsedElement { id: 0, len: 0 }));
            assert(disk.free@ =~= Seq::new(8, |i: int| true));
            assert(disk.info@ =~= Seq::new(8, |i: int| DiskInfo { b: None, status: 0 }));
            assert(disk.ops@ =~= Seq::new(
                8,
                |i: int| VirtqBlkReq { type_filed: 0, reserved: 0, sector: 0 },
            ));
        }
        disk
    }
}

/// Handles an interrupt of the block device.  Completions are not taken
/// from the used ring yet: the driver's state stays as it is.
pub fn virtio_disk_intr(disk: &mut Disk)
    ensures
        *final(disk) == *old(disk),
{
}

/// Where the three buffers of a request lie in physical memory.
#[derive(Clone, Copy, Debug, PartialEq, Eq, Structural)]
pub struct RequestAddrs {
    /// The request header: the first of the driver's headers.
    pub header: u64,
    /// The block of data.
    pub data: u64,
    /// The status byte: that of the first request in flight.
    pub status: u64,
}

/// The number after `idx` in a ring's count, which wraps at 2^16.
pub open spec fn spec_next_idx(idx: u16) -> u16 {
    if idx == 0xffff {
        0
    } else {
        (idx + 1) as u16
    }
}

/// The flags of the data descriptor: a write to the disk starts from no
/// flags, a read keeps what the descriptor had, and the chain goes on.
pub open spec fn spec_data_flags(before: u16, write: bool) -> u16 {
    if write {
        0u16 | VRING_DESC_F_NEXT
    } else {
        before | VRING_DESC_F_NEXT
    }
}

/// Submits a request for sector 0 to the device: fills in the first
/// request header, chains the first three descriptors over the header, the
/// block of data and the status byte, marks the request pending, offers
/// the chain in the available ring, and says what is to be written to the
/// device to make it look.
pub fn virtio_disk_rw(disk: &mut Disk, base: u64, at: &RequestAddrs, write: bool) -> (notify:
    MmioWrite)
    requires
        base + QUEUE_NOTIFY <= u64::MAX,
    ensures
        notify == spec_word((base + QUEUE_NOTIFY) as u64, 0),
        final(disk).ops@ == old(disk).ops@.update(
            0,
            VirtqBlkReq {
                type_filed: if write {
                    VIRTIO_BLK_T_OUT
                } else {
                    old(disk).ops@[0].type_filed
                },
                reserved: 0,
                sector: 0,
            },
        ),
        final(disk).desc@ == old(disk).desc@.update(
            0,
            VirtqDesc {
                addr: at.header,
                len: REQUEST_HEADER_LEN,
                flags: VRING_DESC_F_NEXT,
                next: 1,
            },
        ).update(
            1,
            VirtqDesc {
                addr: at.data,
                len: 1024,
                flags: spec_data_flags(old(disk).desc@[1].flags, write),
                next: 2,
            },
        ).update(2, VirtqDesc { addr: at.status, len: 1, flags: VRING_DESC_F_WRITE, next: 0 }),
        final(disk).info@ == old(disk).info@.update(
            0,
            DiskInfo { status: STATUS_PENDING, ..old(disk).info@[0] },
        ),
        final(disk).avail.ring@ == old(disk).avail.ring@.update(
            (old(disk).avail.idx % 8) as int,
            0,
        ),
        final(disk).avail.idx == spec_next_idx(old(disk).avail.idx),
        final(disk).avail.flags == old(disk).avail.flags,
        final(disk).avail.unused == old(disk).avail.unused,
        final(disk).used == old(disk).used,
        final(disk).free == old(disk).free,
        final(disk).used_idx == old(disk).used_idx,
        final(disk).desc_pa == old(disk).desc_pa,
        final(disk).avail_pa == old(disk).avail_pa,
        final(disk).used_pa == old(disk).used_pa,
{
    if write {
        disk.ops[0].type_filed = VIRTIO_BLK_T_OUT;
    }
    disk.ops[0].reserved = 0;
    disk.ops[0].sector = 0;

    disk.desc[0].addr = at.header;
    disk.desc[0].len = REQUEST_HEADER_LEN;
    disk.desc[0].flags = VRING_DESC_F_NEXT;
    disk.desc[0].next = 1;

    disk.desc[1].addr = at.data;
    disk.desc[1].len = 1024;
    if write {
        disk.desc[1].flags = 0;
    }
    disk.desc[1].flags = disk.desc[1].flags | VRING_DESC_F_NEXT;
    disk.desc[1].next = 2;

    disk.info[0].status = STATUS_PENDING;
    disk.desc[2].addr = at.status;
    disk.desc[2].len = 1;
    disk.desc[2].flags = VRING_DESC_F_WRITE;
    disk.desc[2].next = 0;

    let slot: usize = (disk.avail.idx % 8) as usize;
    disk.avail.ring[slot] = 0;
    disk.avail.idx = disk.avail.idx.wrapping_add(1);
    proof {
        assert(disk.ops@ =~= old(disk).ops@.update(
            0,
            VirtqBlkReq {
                type_filed: if write {
                    VIRTIO_BLK_T_OUT
                } else {
                    old(disk).ops@[0].type_filed
                },
                reserved: 0,
                sector: 0,
            },
        ));
        assert(disk.desc@ =~= old(disk).desc@.update(
            0,
            VirtqDesc {
                addr: at.header,
                len: REQUEST_HEADER_LEN,
                flags: VRING_DESC_F_NEXT,
                next: 1,
            },
        ).update(
            1,
            VirtqDesc {
                addr: at.data,
                len: 1024,
                flags: spec_data_flags(old(disk).desc@[1].flags, write),
                next: 2,
            },
        ).update(2, VirtqDesc { addr: at.status, len: 1, flags: VRING_DESC_F_WRITE, next: 0 }));
        assert(disk.info@ =~= old(disk).info@.update(
            0,
            DiskInfo { status: STATUS_PENDING, ..old(disk).info@[0] },
        ));
        assert(disk.avail.ring@ =~= old(disk).avail.ring@.update(
            (old(disk).avail.idx % 8) as int,
            0,
        ));
    }
    word(base + QUEUE_NOTIFY, 0)
}

} // verus!
