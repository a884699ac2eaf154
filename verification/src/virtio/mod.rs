//! The virtio memory-mapped transport: the device's registers, the check
//! that a device is there, and the steps by which the driver of the block
//! device brings it up.
use vstd::prelude::*;
use linked_list_allocator::Heap;
use crate::mmio::{spec_word, word, MmioWrite};
use crate::virtio::virtio_blk::{
    Disk, VirtqAvail, VirtqDesc, VirtqUsed, VirtqUsedElement, DEVICE_ID, QUEUE_NUM, VENDOR_ID,
    VIRTIO_BLK_F_CONFIG_WCE, VIRTIO_BLK_F_MQ, VIRTIO_BLK_F_RO, VIRTIO_BLK_F_SCSI,
    VIRTIO_F_ANY_LAYOUT,
};
use crate::vm::kalloc;

pub mod virtio_blk;
pub mod virtio_tools;

verus! {

/// What the magic register of a virtio device holds: "virt".
pub const MAGIC_VALUE: u32 = 0x74726976;

/// The version of the transport that the driver speaks.
pub const DEVICE_VERSION: u32 = 0x2;

pub const STATUS_ACKNOWLEDGE: u32 = 1;

pub const STATUS_DRIVER: u32 = 2;

pub const STATUS_DRIVER_OK: u32 = 4;

pub const STATUS_FEATURES_OK: u32 = 8;

pub const STATUS_DEVICE_NEEDS_RESET: u32 = 64;

pub const STATUS_FAILED: u32 = 128;

pub const VIRTIO_F_INDIRECT_DESC: u32 = 0x1000_0000;

pub const VIRTIO_F_EVENT_IDX: u32 = 0x2000_0000;

/// The offsets of the device's registers from the start of its block.
pub const MAGIC: u64 = 0x000;

pub const VERSION: u64 = 0x004;

pub const DEVICE_ID_REG: u64 = 0x008;

pub const VENDOR_ID_REG: u64 = 0x00c;

pub const DEVICE_FEATURES: u64 = 0x010;

pub const DEVICE_FEATURES_SEL: u64 = 0x014;

pub const DRIVER_FEATURES: u64 = 0x020;

pub const DRIVER_FEATURES_SEL: u64 = 0x024;

pub const QUEUE_SEL: u64 = 0x030;

pub const QUEUE_NUM_MAX: u64 = 0x034;

pub const QUEUE_NUM_REG: u64 = 0x038;

pub const QUEUE_READY: u64 = 0x044;

pub const QUEUE_NOTIFY: u64 = 0x050;

pub const INTERRUPT_STATUS: u64 = 0x060;

pub const INTERRUPT_ACK: u64 = 0x064;

pub const STATUS: u64 = 0x070;

pub const QUEUE_DESC_LOW: u64 = 0x080;

pub const QUEUE_DESC_HIGH: u64 = 0x084;

pub const QUEUE_DRIVER_LOW: u64 = 0x090;

pub const QUEUE_DRIVER_HIGH: u64 = 0x094;

pub const QUEUE_DEVICE_LOW: u64 = 0x0a0;

pub const QUEUE_DEVICE_HIGH: u64 = 0x0a4;

/// The size of the register block.
pub const REGISTER_BLOCK: u64 = 0x200;

/// The features that the driver turns down.
pub const REFUSED_FEATURES: u32 = 0x3800_18A0;

/// Why the block device cannot be brought up: what the test of a reply
/// found wrong, or that the heap ran out.  The kernel halts on each of
/// them.
#[derive(Clone, Copy, Debug, PartialEq, Eq, Structural)]
pub enum VirtioError {
    /// The registers are not those of a virtio device of the right version.
    NotValidDevice,
    /// The device is not a block device, or not from the expected vendor.
    WrongDevice,
    /// The device did not accept the features the driver chose.
    FeaturesRejected,
    /// Queue 0 is in use already.
    QueueInUse,
    /// The device has no queue 0.
    NoQueue,
    /// Queue 0 is too short for the driver.
    QueueTooShort,
    /// The heap had no pages for the rings.
    OutOfMemory,
    /// The reply does not answer what the driver asked last.
    OutOfStep,
}

/// Where the bring-up stands: what the driver waits for.
#[derive(Clone, Copy, Debug, PartialEq, Eq, Structural)]
pub enum InitState {
    /// For the magic value, the version, the device and the vendor id.
    Identify,
    /// For the features that the device offers.
    Features,
    /// For the status, read back after the features were chosen.
    Confirm,
    /// For the ready flag and the maximal size of queue 0.  `status` is
    /// the status as it was read back.
    Queue { status: u32 },
    /// For nothing: the device is up.
    Done,
}

/// What was read from the device's registers.
#[derive(Clone, Copy, Debug, PartialEq, Eq, Structural)]
pub enum DeviceReply {
    Identity { magic: u32, version: u32, device_id: u32, vendor_id: u32 },
    Features(u32),
    Status(u32),
    Queue { ready: u32, num_max: u32 },
}

/// The physical addresses of the three pages for the rings.
#[derive(Clone, Copy, Debug, PartialEq, Eq, Structural)]
pub struct RingPages {
    pub desc: u64,
    pub avail: u64,
    pub used: u64,
}

/// What a step of the bring-up comes to: what to write to the device, in
/// order, and what the driver waits for then.
pub struct InitStep {
    pub next: InitState,
    pub writes: Vec<MmioWrite>,
}

/// Whether the registers are those of a virtio device that the driver can
/// speak to.
pub open spec fn spec_valid_device(magic: u32, version: u32, device_id: u32) -> bool {
    magic == MAGIC_VALUE && version == DEVICE_VERSION && device_id != 0
}

/// Checks the magic value, the version and the device id that were read
/// from a register block.
#[verifier::when_used_as_spec(spec_valid_device)]
pub fn check_virtio_device_is_valid(magic: u32, version: u32, device_id: u32) -> (ok: bool)
    ensures
        ok == spec_valid_device(magic, version, device_id),
{
    magic == MAGIC_VALUE && version == DEVICE_VERSION && device_id != 0x0
}

/// The features that the driver takes of those that the device offers.
pub open spec fn spec_accept_features(offered: u32) -> u32 {
    offered & !REFUSED_FEATURES
}

/// Chooses among the features that the device offers: all but read-only
/// disks, SCSI commands, the write-cache switch, several queues, any
/// layout, event indices and indirect descriptors.
#[verifier::when_used_as_spec(spec_accept_features)]
pub fn accept_features(offered: u32) -> (bits: u32)
    ensures
        bits == spec_accept_features(offered),
{
    let mut bits: u32 = offered;
    bits = bits & !VIRTIO_BLK_F_RO;
    bits = bits & !VIRTIO_BLK_F_SCSI;
    bits = bits & !VIRTIO_BLK_F_CONFIG_WCE;
    bits = bits & !VIRTIO_BLK_F_MQ;
    bits = bits & !VIRTIO_F_ANY_LAYOUT;
    bits = bits & !VIRTIO_F_EVENT_IDX;
    bits = bits & !VIRTIO_F_INDIRECT_DESC;
    assert((((((((offered & !0x20u32) & !0x80u32) & !0x800u32) & !0x1000u32) & !0x800_0000u32)
        & !0x2000_0000u32) & !0x1000_0000u32) == offered & !0x3800_18A0u32) by (bit_vector);
    bits
}

/// The low 32 bits of an address.
pub open spec fn spec_low(addr: u64) -> u32 {
    (addr % 0x1_0000_0000) as u32
}

/// The high 32 bits of an address.
pub open spec fn spec_high(addr: u64) -> u32 {
    (addr / 0x1_0000_0000) as u32
}

/// The writes that hand queue 0 to the device: its size, the addresses
/// of the three rings, the ready flag, and the status that says that the
/// driver is up.
pub open spec fn spec_queue_writes(base: u64, status: u32, rings: RingPages) -> Seq<MmioWrite> {
    seq![
        spec_word((base + QUEUE_NUM_REG) as u64, 8),
        spec_word((base + QUEUE_DESC_LOW) as u64, spec_low(rings.desc)),
        spec_word((base + QUEUE_DESC_HIGH) as u64, spec_high(rings.desc)),
        spec_word((base + QUEUE_DRIVER_LOW) as u64, spec_low(rings.avail)),
        spec_word((base + QUEUE_DRIVER_HIGH) as u64, spec_high(rings.avail)),
        spec_word((base + QUEUE_DEVICE_LOW) as u64, spec_low(rings.used)),
        spec_word((base + QUEUE_DEVICE_HIGH) as u64, spec_high(rings.used)),
        spec_word((base + QUEUE_READY) as u64, 1),
        spec_word((base + STATUS) as u64, status | STATUS_DRIVER_OK),
    ]
}

/// Whether `reply` is what the driver waits for in `state`, and lets the
/// bring-up go on: the first of the reasons for which it does not.
pub open spec fn spec_check_reply(state: InitState, reply: DeviceReply) -> Result<(), VirtioError> {
    match (state, reply) {
        (InitState::Identify, DeviceReply::Identity { magic, version, device_id, vendor_id }) => {
            if !spec_valid_device(magic, version, device_id) {
                Err(VirtioError::NotValidDevice)
            } else if device_id != DEVICE_ID || vendor_id != VENDOR_ID {
                Err(VirtioError::WrongDevice)
            } else {
                Ok(())
            }
        },
        (InitState::Features, DeviceReply::Features(_)) => Ok(()),
        (InitState::Confirm, DeviceReply::Status(status)) => {
            if status & STATUS_FEATURES_OK == 0 {
                Err(VirtioError::FeaturesRejected)
            } else {
                Ok(())
            }
        },
        (InitState::Queue { status }, DeviceReply::Queue { ready, num_max }) => {
            if ready != 0 {
                Err(VirtioError::QueueInUse)
            } else if num_max == 0 {
                Err(VirtioError::NoQueue)
            } else if num_max < 8 {
                Err(VirtioError::QueueTooShort)
            } else {
                Ok(())
            }
        },
        _ => Err(VirtioError::OutOfStep),
    }
}

/// Tests what was read from the device before a step of the bring-up: the
/// registers must be those of a virtio block device of the right version
/// and vendor, the device must have accepted the features, and queue 0 must
/// be free and long enough.  The kernel halts on an error.
pub fn check_reply(state: InitState, reply: DeviceReply) -> (r: Result<(), VirtioError>)
    ensures
        r == spec_check_reply(state, reply),
{
    match (state, reply) {
        (InitState::Identify, DeviceReply::Identity { magic, version, device_id, vendor_id }) => {
            if !check_virtio_device_is_valid(magic, version, device_id) {
                Err(VirtioError::NotValidDevice)
            } else if device_id != DEVICE_ID || vendor_id != VENDOR_ID {
                Err(VirtioError::WrongDevice)
            } else {
                Ok(())
            }
        },
        (InitState::Features, DeviceReply::Features(_)) => Ok(()),
        (InitState::Confirm, DeviceReply::Status(status)) => {
            if status & STATUS_FEATURES_OK == 0 {
                Err(VirtioError::FeaturesRejected)
            } else {
                Ok(())
            }
        },
        (InitState::Queue { status }, DeviceReply::Queue { ready, num_max }) => {
            if ready != 0 {
                Err(VirtioError::QueueInUse)
            } else if num_max == 0 {
                Err(VirtioError::NoQueue)
            } else if num_max < QUEUE_NUM as u32 {
                Err(VirtioError::QueueTooShort)
            } else {
                Ok(())
            }
        },
        _ => Err(VirtioError::OutOfStep),
    }
}

/// The registers that the driver reads in `state`, as offsets from the
/// start of the register block, in the order in which it reads them.
pub open spec fn spec_registers_to_read(state: InitState) -> Seq<u64> {
    match state {
        InitState::Identify => seq![MAGIC, VERSION, DEVICE_ID_REG, VENDOR_ID_REG],
        InitState::Features => seq![DEVICE_FEATURES],
        InitState::Confirm => seq![STATUS],
        InitState::Queue { status } => seq![QUEUE_READY, QUEUE_NUM_MAX],
        InitState::Done => Seq::<u64>::empty(),
    }
}

/// Says which registers the driver reads in `state`.
pub fn registers_to_read(state: InitState) -> (offsets: Vec<u64>)
    ensures
        offsets@ == spec_registers_to_read(state),
{
    let mut offsets: Vec<u64> = Vec::new();
    match state {
        InitState::Identify => {
            offsets.push(MAGIC);
            offsets.push(VERSION);
            offsets.push(DEVICE_ID_REG);
            offsets.push(VENDOR_ID_REG);
        },
        InitState::Features => {
            offsets.push(DEVICE_FEATURES);
        },
        InitState::Confirm => {
            offsets.push(STATUS);
        },
        InitState::Queue { status } => {
            offsets.push(QUEUE_READY);
            offsets.push(QUEUE_NUM_MAX);
        },
        InitState::Done => {},
    }
    proof {
        assert(offsets@ =~= spec_registers_to_read(state));
    }
    offsets
}

/// The reply that the values read in `state` make up, if there are as
/// many as the driver reads there.
pub open spec fn spec_reply_of(state: InitState, values: Seq<u32>) -> Option<DeviceReply> {
    if values.len() != spec_registers_to_read(state).len() {
        None
    } else {
        match state {
            InitState::Identify => Some(
                DeviceReply::Identity {
                    magic: values[0],
                    version: values[1],
                    device_id: values[2],
                    vendor_id: values[3],
                },
            ),
            InitState::Features => Some(DeviceReply::Features(values[0])),
            InitState::Confirm => Some(DeviceReply::Status(values[0])),
            InitState::Queue { status } => Some(
                DeviceReply::Queue { ready: values[0], num_max: values[1] },
            ),
            InitState::Done => None,
        }
    }
}

/// Makes the reply of the values that were read from the registers of
/// [`registers_to_read`], in that order.
pub fn reply_of(state: InitState, values: &[u32]) -> (r: Option<DeviceReply>)
    ensures
        r == spec_reply_of(state, values@),
{
    match state {
        InitState::Identify => if values.len() == 4 {
            Some(
                DeviceReply::Identity {
                    magic: values[0],
                    version: values[1],
                    device_id: values[2],
                    vendor_id: values[3],
                },
            )
        } else {
            None
        },
        InitState::Features => if values.len() == 1 {
            Some(DeviceReply::Features(values[0]))
        } else {
            None
        },
        InitState::Confirm => if values.len() == 1 {
            Some(DeviceReply::Status(values[0]))
        } else {
            None
        },
        InitState::Queue { status } => if values.len() == 2 {
            Some(DeviceReply::Queue { ready: values[0], num_max: values[1] })
        } else {
            None
        },
        InitState::Done => None,
    }
}

/// What a step of the bring-up comes to for a reply that passes the test,
/// up to the point where the rings are allocated: the next state and the
/// writes.  For the last step this leaves the allocation out: it gives the
/// state `Done` and no writes.
pub open spec fn spec_init_step(base: u64, state: InitState, reply: DeviceReply) -> (
    InitState,
    Seq<MmioWrite>,
) {
    match (state, reply) {
        (InitState::Identify, _) => (
            InitState::Features,
            seq![
                spec_word((base + STATUS) as u64, 0),
                spec_word((base + STATUS) as u64, 1),
                spec_word((base + STATUS) as u64, 3),
            ],
        ),
        (InitState::Features, DeviceReply::Features(offered)) => (
            InitState::Confirm,
            seq![
                spec_word((base + DRIVER_FEATURES) as u64, spec_accept_features(offered)),
                spec_word((base + STATUS) as u64, 11),
            ],
        ),
        (InitState::Confirm, DeviceReply::Status(status)) => (
            InitState::Queue { status },
            seq![spec_word((base + QUEUE_SEL) as u64, 0)],
        ),
        _ => (InitState::Done, Seq::<MmioWrite>::empty()),
    }
}

/// Gives queue 0 its rings.  `rings` is what the allocator handed out for
/// them, or `None` if it ran out.  With rings, the driver's rings are
/// cleared and no descriptor is marked free, and the writes of
/// [`spec_queue_writes`] hand the queue to the device.
pub fn queue_setup(base: u64, status: u32, rings: Option<RingPages>, disk: &mut Disk) -> (r: Result<
    InitStep,
    VirtioError,
>)
    requires
        base + REGISTER_BLOCK <= u64::MAX,
    ensures
        match r {
            Ok(step) => {
                &&& rings is Some
                &&& step.next == InitState::Done
                &&& step.writes@ == spec_queue_writes(base, status, rings.unwrap())
                &&& final(disk).desc_pa == rings.unwrap().desc
                &&& final(disk).avail_pa == rings.unwrap().avail
                &&& final(disk).used_pa == rings.unwrap().used
                &&& final(disk).rings_zeroed()
                &&& final(disk).free@ == Seq::new(8, |i: int| false)
                &&& final(disk).used_idx == old(disk).used_idx
                &&& final(disk).info == old(disk).info
                &&& final(disk).ops == old(disk).ops
            },
            Err(e) => e == VirtioError::OutOfMemory && rings is None && *final(disk) == *old(disk),
        },
{
    let pages = match rings {
        None => {
            return Err(VirtioError::OutOfMemory);
        },
        Some(pages) => pages,
    };
    disk.desc_pa = pages.desc;
    disk.avail_pa = pages.avail;
    disk.used_pa = pages.used;
    disk.desc = [VirtqDesc { addr: 0, len: 0, flags: 0, next: 0 };8];
    disk.avail = VirtqAvail { flags: 0, idx: 0, ring: [0u16;8], unused: 0 };
    disk.used = VirtqUsed { flags: 0, idx: 0, ring: [VirtqUsedElement { id: 0, len: 0 };8] };
    disk.free = [false;8];
    let mut writes: Vec<MmioWrite> = Vec::new();
    writes.push(word(base + QUEUE_NUM_REG, QUEUE_NUM as u32));
    writes.push(word(base + QUEUE_DESC_LOW, low(pages.desc)));
    writes.push(word(base + QUEUE_DESC_HIGH, high(pages.desc)));
    writes.push(word(base + QUEUE_DRIVER_LOW, low(pages.avail)));
    writes.push(word(base + QUEUE_DRIVER_HIGH, high(pages.avail)));
    writes.push(word(base + QUEUE_DEVICE_LOW, low(pages.used)));
    writes.push(word(base + QUEUE_DEVICE_HIGH, high(pages.used)));
    writes.push(word(base + QUEUE_READY, 1));
    writes.push(word(base + STATUS, status | STATUS_DRIVER_OK));
    proof {
        assert(writes@ =~= spec_queue_writes(base, status, pages));
        assert(disk.desc@ =~= Seq::new(8, |i: int| crate::virtio::virtio_blk::spec_no_desc()));
        assert(disk.avail.ring@ =~= Seq::new(8, |i: int| 0u16));
        assert(disk.used.ring@ =~= Seq::new(8, |i: int| VirtqUsedElement { id: 0, len: 0 }));
        assert(disk.free@ =~= Seq::new(8, |i: int| false));
    }
    Ok(InitStep { next: InitState::Done, writes })
}

/// The low 32 bits of an address.
#[verifier::when_used_as_spec(spec_low)]
pub fn low(addr: u64) -> (r: u32)
    ensures
        r == spec_low(addr),
{
    assert(addr & 0xffff_ffff == addr % 0x1_0000_0000) by (bit_vector);
    (addr & 0xffff_ffff) as u32
}

/// The high 32 bits of an address.
#[verifier::when_used_as_spec(spec_high)]
pub fn high(addr: u64) -> (r: u32)
    ensures
        r == spec_high(addr),
{
    assert(addr >> 32 == addr / 0x1_0000_0000) by (bit_vector);
    (addr >> 32) as u32
}

/// Takes three pages from the heap for the rings of a queue.
pub fn alloc_rings(heap: &mut Heap) -> (r: Option<RingPages>)
    ensures
        r matches Some(rings) ==> rings.desc % 4096 == 0 && rings.avail % 4096 == 0 && rings.used
            % 4096 == 0,
{
    let desc = match kalloc(heap) {
        None => {
            return None;
        },
        Some(pa) => pa,
    };
    let avail = match kalloc(heap) {
        None => {
            return None;
        },
        Some(pa) => pa,
    };
    let used = match kalloc(heap) {
        None => {
            return None;
        },
        Some(pa) => pa,
    };
    Some(RingPages { desc, avail, used })
}

/// One step of bringing up the block device whose registers start at
/// `base`.  `state` is what the previous step gave as the next state, or
/// `Identify` at the start, and `reply` is what was read from the registers
/// that the state asks for; it must have passed [`check_reply`].  The
/// result says what to write to the device and what to read next.
///
/// The driver resets the device and acknowledges it; chooses among the
/// features that the device offers; sees that the device accepted the
/// choice and selects queue 0; and hands the queue its rings, in pages
/// from `heap`, which ends the bring-up.  Only that last step can fail,
/// for want of memory.
pub fn init_virtio_blk_device(
    base: u64,
    state: InitState,
    reply: DeviceReply,
    disk: &mut Disk,
    heap: &mut Heap,
) -> (r: Result<InitStep, VirtioError>)
    requires
        base + REGISTER_BLOCK <= u64::MAX,
        spec_check_reply(state, reply) is Ok,
    ensures
        state is Queue ==> match r {
            Ok(step) => step.next == InitState::Done && step.writes@ == spec_queue_writes(
                base,
                state->status,
                RingPages {
                    desc: final(disk).desc_pa,
                    avail: final(disk).avail_pa,
                    used: final(disk).used_pa,
                },
            ) && final(disk).rings_zeroed() && final(disk).free@ == Seq::new(8, |i: int| false)
                && final(disk).used_idx == old(disk).used_idx && final(disk).info == old(disk).info
                && final(disk).ops == old(disk).ops,
            Err(e) => e == VirtioError::OutOfMemory && *final(disk) == *old(disk),
        },
        !(state is Queue) ==> (r matches Ok(step) && step.next == spec_init_step(
            base,
            state,
            reply,
        ).0 && step.writes@ == spec_init_step(base, state, reply).1) && *final(disk) == *old(
            disk,
        ) && *final(heap) == *old(heap),
{
    match (state, reply) {
        (InitState::Identify, _) => {
            let mut writes: Vec<MmioWrite> = Vec::new();
            let mut status: u32 = 0;
            // Reset the device.
            writes.push(word(base + STATUS, status));
            assert(0u32 | 1u32 == 1u32 && 1u32 | 2u32 == 3u32 && 3u32 | 8u32 == 11u32)
                by (bit_vector);
            // The driver has seen the device.
            status = status | STATUS_ACKNOWLEDGE;
            writes.push(word(base + STATUS, status));
            // The driver can drive it.
            status = status | STATUS_DRIVER;
            writes.push(word(base + STATUS, status));
            proof {
                assert(writes@ =~= spec_init_step(base, state, reply).1);
            }
            Ok(InitStep { next: InitState::Features, writes })
        },
        (InitState::Features, DeviceReply::Features(offered)) => {
            let mut writes: Vec<MmioWrite> = Vec::new();
            writes.push(word(base + DRIVER_FEATURES, accept_features(offered)));
            assert(3u32 | 8u32 == 11u32) by (bit_vector);
            // The driver has made its choice.
            writes.push(
                word(base + STATUS, STATUS_ACKNOWLEDGE + STATUS_DRIVER | STATUS_FEATURES_OK),
            );
            proof {
                assert(writes@ =~= spec_init_step(base, state, reply).1);
            }
            Ok(InitStep { next: InitState::Confirm, writes })
        },
        (InitState::Confirm, DeviceReply::Status(status)) => {
            let mut writes: Vec<MmioWrite> = Vec::new();
            // The driver uses queue 0.
            writes.push(word(base + QUEUE_SEL, 0));
            proof {
                assert(writes@ =~= spec_init_step(base, state, reply).1);
            }
            Ok(InitStep { next: InitState::Queue { status }, writes })
        },
        (InitState::Queue { status }, _) => {
            let rings = alloc_rings(heap);
            queue_setup(base, status, rings, disk)
        },
        _ => {
            // No reply passes the test once the device is up.
            Ok(InitStep { next: InitState::Done, writes: Vec::new() })
        },
    }
}

} // verus!
