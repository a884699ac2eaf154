//! PCI configuration space: where the functions of bus 0 lie, which of
//! them are there, and the capabilities of a function.  Everything works
//! on configuration space as it was read.
use vstd::prelude::*;
use crate::memolayout::{VGA_FRAME_BUFFER, VGA_FRAME_BUFFER_SIZE, VGA_MMIO_BASE};

verus! {

/// The kind of a capability that the vendor defines.
pub const VENDOR_SPECIFIC: u8 = 0x09;

/// The vendor id that is read where no function is.
pub const NO_FUNCTION: u16 = 0xffff;

/// Devices on a bus.
pub const DEVICES: usize = 32;

/// Functions of a device.
pub const FUNCTIONS: usize = 8;

/// Bytes of configuration space of one function.
pub const CONFIG_SPACE: u64 = 0x1000;

/// The command bit that lets a function answer to memory accesses.
pub const COMMAND_MEMORY: u16 = 0x2;

/// The vendor id of virtio devices.
pub const VIRTIO_VENDOR: u16 = 0x1af4;

/// The device id of the virtio GPU.
pub const VIRTIO_GPU: u16 = 0x1050;

/// The address that `test_write_bar` gives to the region.
pub const TEST_BAR: u32 = 0x9000_0000;

/// What is written to the VGA registers to turn the display on.
pub const VGA_ENABLE: u8 = 0x0c;

/// What the frame buffer is filled with.
pub const VGA_FILL: u8 = 0xff;

/// The start of a function's configuration space, as read.
#[derive(Clone, Copy, Debug, PartialEq, Eq)]
pub struct PCIConfigurationSpcaeHeader {
    pub vendor_id: u16,
    pub device_id: u16,
    pub command: u16,
    pub status: u16,
    pub revision_id: u8,
    pub class_code: [u8; 3],
    pub cache_line_size: u8,
    pub master_latency_time: u8,
    pub header_type: u8,
    pub built_in_self_test: u8,
}

/// The configuration space of a function with a header of type 0.
#[derive(Clone, Copy, Debug, PartialEq, Eq)]
pub struct PCIConfigurationSpcaeHeaderType0 {
    pub __padding: [u8; 16],
    pub base_address_registers: [u8; 24],
    pub cardbus_cis_pointer: u32,
    pub subsystem_vendor_id: u16,
    pub subsystem_id: u16,
    pub expansion_rom_base_address: u32,
    pub capabilities_pointer: u8,
    pub reserved: [u8; 7],
    pub interrupt_line: u8,
    pub interrupt_pin: u8,
    pub min_gnt: u8,
    pub max_lat: u8,
}

/// A vendor-specific capability of a virtio device.
#[derive(Clone, Copy, Debug, PartialEq, Eq)]
pub struct VirtioPciCap {
    pub cap_vndr: u8,
    pub cap_next: u8,
    pub cap_len: u8,
    pub cfg_type: u8,
    pub bar: u8,
    pub id: u8,
    pub padding: [u8; 2],
    pub offset: u32,
    pub length: u32,
}

/// Byte `i` of a 32-bit word, the low byte first.
pub open spec fn spec_byte_of(w: u32, i: int) -> u8 {
    if i == 0 {
        (w % 0x100) as u8
    } else if i == 1 {
        (w / 0x100 % 0x100) as u8
    } else if i == 2 {
        (w / 0x1_0000 % 0x100) as u8
    } else {
        (w / 0x100_0000) as u8
    }
}

/// Byte `i` of a 32-bit word, the low byte first.
pub fn byte_of(w: u32, i: usize) -> (b: u8)
    requires
        i < 4,
    ensures
        b == spec_byte_of(w, i as int),
{
    assert(w & 0xff == w % 0x100 && (w >> 8) & 0xff == w / 0x100 % 0x100 && (w >> 16) & 0xff == w
        / 0x1_0000 % 0x100 && (w >> 24) == w / 0x100_0000 && w >> 24 < 0x100) by (bit_vector);
    if i == 0 {
        (w & 0xff) as u8
    } else if i == 1 {
        ((w >> 8) & 0xff) as u8
    } else if i == 2 {
        ((w >> 16) & 0xff) as u8
    } else {
        (w >> 24) as u8
    }
}

/// The header that the first four words of a configuration space hold.
pub open spec fn spec_header(w0: u32, w1: u32, w2: u32, w3: u32) -> PCIConfigurationSpcaeHeader {
    PCIConfigurationSpcaeHeader {
        vendor_id: (w0 % 0x1_0000) as u16,
        device_id: (w0 / 0x1_0000) as u16,
        command: (w1 % 0x1_0000) as u16,
        status: (w1 / 0x1_0000) as u16,
        revision_id: spec_byte_of(w2, 0),
        class_code: [spec_byte_of(w2, 1), spec_byte_of(w2, 2), spec_byte_of(w2, 3)],
        cache_line_size: spec_byte_of(w3, 0),
        master_latency_time: spec_byte_of(w3, 1),
        header_type: spec_byte_of(w3, 2),
        built_in_self_test: spec_byte_of(w3, 3),
    }
}

/// Reads the header from the first four words of a configuration space.
pub fn header(w0: u32, w1: u32, w2: u32, w3: u32) -> (h: PCIConfigurationSpcaeHeader)
    ensures
        h == spec_header(w0, w1, w2, w3),
{
    assert(w0 & 0xffff == w0 % 0x1_0000 && w0 >> 16 == w0 / 0x1_0000 && w1 & 0xffff == w1
        % 0x1_0000 && w1 >> 16 == w1 / 0x1_0000) by (bit_vector);
    let h = PCIConfigurationSpcaeHeader {
        vendor_id: (w0 & 0xffff) as u16,
        device_id: (w0 >> 16) as u16,
        command: (w1 & 0xffff) as u16,
        status: (w1 >> 16) as u16,
        revision_id: byte_of(w2, 0),
        class_code: [byte_of(w2, 1), byte_of(w2, 2), byte_of(w2, 3)],
        cache_line_size: byte_of(w3, 0),
        master_latency_time: byte_of(w3, 1),
        header_type: byte_of(w3, 2),
        built_in_self_test: byte_of(w3, 3),
    };
    proof {
        assert(h.class_code =~= spec_header(w0, w1, w2, w3).class_code);
    }
    h
}

/// A function that is there, as `list_pci` reports it.
#[derive(Clone, Copy, Debug, PartialEq, Eq, Structural)]
pub struct PciFunction {
    pub dev: usize,
    pub func: usize,
    /// Where its configuration space starts.
    pub addr: u64,
    pub vendor_id: u16,
    pub device_id: u16,
    pub header_type: u8,
    pub status: u16,
}

/// Where the configuration space of function `k` of bus 0 starts, the
/// functions counted through the devices: 4 KiB for each function, eight
/// functions for each device.
pub open spec fn spec_config_addr(base: u64, k: int) -> int {
    base + (k / 8) * 0x8000 + (k % 8) * 0x1000
}

/// Where the configuration space of function `func` of device `dev` starts.
pub fn config_addr(base: u64, dev: usize, func: usize) -> (addr: u64)
    requires
        dev < DEVICES,
        func < FUNCTIONS,
        base + 0x10_0000 <= u64::MAX,
    ensures
        addr == spec_config_addr(base, dev * 8 + func),
{
    base + (dev as u64) * 0x8000 + (func as u64) * 0x1000
}

/// The report on function `k`.
pub open spec fn spec_function(
    base: u64,
    headers: Seq<PCIConfigurationSpcaeHeader>,
    k: int,
) -> PciFunction {
    PciFunction {
        dev: (k / 8) as usize,
        func: (k % 8) as usize,
        addr: spec_config_addr(base, k) as u64,
        vendor_id: headers[k].vendor_id,
        device_id: headers[k].device_id,
        header_type: headers[k].header_type,
        status: headers[k].status,
    }
}

/// The reports on those of the first `n` functions that are there.
pub open spec fn spec_listed(base: u64, headers: Seq<PCIConfigurationSpcaeHeader>, n: int) -> Seq<
    PciFunction,
>
    decreases n,
{
    if n <= 0 {
        Seq::<PciFunction>::empty()
    } else if headers[n - 1].vendor_id != NO_FUNCTION {
        spec_listed(base, headers, n - 1).push(spec_function(base, headers, n - 1))
    } else {
        spec_listed(base, headers, n - 1)
    }
}

/// Lists the functions of bus 0 that are there.  `headers` holds what was
/// read at the start of the configuration space of each of the 256
/// functions, device by device.
pub fn list_pci(base: u64, headers: &[PCIConfigurationSpcaeHeader]) -> (found: Vec<PciFunction>)
    requires
        headers@.len() == DEVICES * FUNCTIONS,
        base + 0x10_0000 <= u64::MAX,
    ensures
        found@ == spec_listed(base, headers@, DEVICES * FUNCTIONS),
{
    let mut found: Vec<PciFunction> = Vec::new();
    let mut k: usize = 0;
    while k < DEVICES * FUNCTIONS
        invariant
            k <= DEVICES * FUNCTIONS,
            headers@.len() == DEVICES * FUNCTIONS,
            base + 0x10_0000 <= u64::MAX,
            found@ == spec_listed(base, headers@, k as int),
        decreases DEVICES * FUNCTIONS - k,
    {
        let dev = k / 8;
        let func = k % 8;
        if headers[k].vendor_id != NO_FUNCTION {
            found.push(
                PciFunction {
                    dev,
                    func,
                    addr: config_addr(base, dev, func),
                    vendor_id: headers[k].vendor_id,
                    device_id: headers[k].device_id,
                    header_type: headers[k].header_type,
                    status: headers[k].status,
                },
            );
        }
        k += 1;
    }
    found
}

/// Whether function `k` is the one looked for.
pub open spec fn spec_is_device(
    headers: Seq<PCIConfigurationSpcaeHeader>,
    k: int,
    vendor_id: u16,
    device_id: u16,
) -> bool {
    headers[k].vendor_id == vendor_id && headers[k].device_id == device_id
}

/// Finds the first function of bus 0 with the given vendor and device id,
/// and says where its configuration space starts.
pub fn find_device(
    base: u64,
    headers: &[PCIConfigurationSpcaeHeader],
    vendor_id: u16,
    device_id: u16,
) -> (r: Option<u64>)
    requires
        headers@.len() == DEVICES * FUNCTIONS,
        base + 0x10_0000 <= u64::MAX,
    ensures
        match r {
            Some(addr) => exists|k: int|
                0 <= k < DEVICES * FUNCTIONS && addr == spec_config_addr(base, k) && #[trigger]
                spec_is_device(headers@, k, vendor_id, device_id) && forall|j: int|
                    0 <= j < k ==> !#[trigger] spec_is_device(headers@, j, vendor_id, device_id),
            None => forall|k: int|
                0 <= k < DEVICES * FUNCTIONS ==> !#[trigger] spec_is_device(
                    headers@,
                    k,
                    vendor_id,
                    device_id,
                ),
        },
{
    let mut k: usize = 0;
    while k < DEVICES * FUNCTIONS
        invariant
            k <= DEVICES * FUNCTIONS,
            headers@.len() == DEVICES * FUNCTIONS,
            base + 0x10_0000 <= u64::MAX,
            forall|j: int|
                0 <= j < k ==> !#[trigger] spec_is_device(headers@, j, vendor_id, device_id),
        decreases DEVICES * FUNCTIONS - k,
    {
        if headers[k].vendor_id == vendor_id && headers[k].device_id == device_id {
            let addr = config_addr(base, k / 8, k % 8);
            proof {
                assert(spec_is_device(headers@, k as int, vendor_id, device_id));
            }
            return Some(addr);
        }
        k += 1;
    }
    None
}

/// The 32-bit number that four bytes hold, the low byte first.
pub open spec fn spec_le32(b0: u8, b1: u8, b2: u8, b3: u8) -> u32 {
    (b0 + b1 * 0x100 + b2 * 0x1_0000 + b3 * 0x100_0000) as u32
}

/// The 32-bit number that four bytes hold, the low byte first.
pub fn le32(b0: u8, b1: u8, b2: u8, b3: u8) -> (x: u32)
    ensures
        x == spec_le32(b0, b1, b2, b3),
{
    (b0 as u32) + (b1 as u32) * 0x100 + (b2 as u32) * 0x1_0000 + (b3 as u32) * 0x100_0000
}

/// The capability that starts at `p` in a function's configuration space.
pub open spec fn spec_cap_at(config: Seq<u8>, p: int) -> VirtioPciCap {
    VirtioPciCap {
        cap_vndr: config[p],
        cap_next: config[p + 1],
        cap_len: config[p + 2],
        cfg_type: config[p + 3],
        bar: config[p + 4],
        id: config[p + 5],
        padding: [config[p + 6], config[p + 7]],
        offset: spec_le32(config[p + 8], config[p + 9], config[p + 10], config[p + 11]),
        length: spec_le32(config[p + 12], config[p + 13], config[p + 14], config[p + 15]),
    }
}

/// The vendor-specific capabilities on the list that starts at `p`, in
/// the order of the list.  The list ends with a link of 0; it is followed
/// for at most `hops` links and as far as the configuration space holds
/// the kind and the link of a capability.  A vendor-specific capability
/// that the configuration space does not hold whole is left out.
pub open spec fn spec_caps(config: Seq<u8>, p: int, hops: nat) -> Seq<VirtioPciCap>
    decreases hops,
{
    if hops == 0 || p == 0 || p + 2 > config.len() {
        Seq::<VirtioPciCap>::empty()
    } else {
        let rest = spec_caps(config, config[p + 1] as int, (hops - 1) as nat);
        if config[p] == VENDOR_SPECIFIC && p + 16 <= config.len() {
            seq![spec_cap_at(config, p)] + rest
        } else {
            rest
        }
    }
}

/// Walks the list of capabilities of a function and collects the
/// vendor-specific ones.  `config` is the function's configuration space
/// as read, and `cap_pointer` where its list starts.  A list of more than
/// 256 links goes in a circle; the walk ends there.
pub fn disp_cap_list(config: &[u8], cap_pointer: usize) -> (caps: Vec<VirtioPciCap>)
    ensures
        caps@ == spec_caps(config@, cap_pointer as int, 256),
{
    let mut caps: Vec<VirtioPciCap> = Vec::new();
    let mut p: usize = cap_pointer;
    let mut hops: usize = 256;
    while hops > 0 && p != 0 && p < config.len() && p + 1 < config.len()
        invariant
            hops <= 256,
            caps@ + spec_caps(config@, p as int, hops as nat) == spec_caps(
                config@,
                cap_pointer as int,
                256,
            ),
        decreases hops,
    {
        let kind = config[p];
        let next = config[p + 1] as usize;
        let ghost before = caps@;
        let ghost rest = spec_caps(config@, next as int, (hops - 1) as nat);
        if kind == VENDOR_SPECIFIC && config.len() - p >= 16 {
            let cap = VirtioPciCap {
                cap_vndr: config[p],
                cap_next: config[p + 1],
                cap_len: config[p + 2],
                cfg_type: config[p + 3],
                bar: config[p + 4],
                id: config[p + 5],
                padding: [config[p + 6], config[p + 7]],
                offset: le32(config[p + 8], config[p + 9], config[p + 10], config[p + 11]),
                length: le32(config[p + 12], config[p + 13], config[p + 14], config[p + 15]),
            };
            proof {
                assert(cap.padding =~= spec_cap_at(config@, p as int).padding);
                assert(cap == spec_cap_at(config@, p as int));
            }
            caps.push(cap);
            proof {
                assert(caps@ + rest =~= before + (seq![spec_cap_at(config@, p as int)] + rest));
            }
        }
        p = next;
        hops -= 1;
    }
    proof {
        assert(spec_caps(config@, p as int, hops as nat) =~= Seq::<VirtioPciCap>::empty());
        assert(caps@ + Seq::<VirtioPciCap>::empty() =~= caps@);
    }
    caps
}

/// What is to be done to turn on the display whose configuration space
/// was read.
#[derive(Clone, Copy, Debug, PartialEq, Eq, Structural)]
pub struct VgaSetup {
    /// What to write to the command register.
    pub command: u16,
    /// What else to do, for a function with a header of type 0.
    pub display: Option<VgaDisplay>,
}

/// The setting up of the display.
#[derive(Clone, Copy, Debug, PartialEq, Eq, Structural)]
pub struct VgaDisplay {
    /// What to write to the first base address register: where the frame
    /// buffer is to lie.
    pub bar0: u32,
    /// What to write to the third base address register: where the
    /// display's registers are to lie.
    pub bar2: u32,
    /// The frame buffer, to be filled with `fill`.
    pub frame_buffer: u64,
    pub frame_buffer_size: u64,
    pub fill: u8,
    /// The register that turns the display on, and what to write to it.
    pub enable_at: u64,
    pub enable: u8,
}

/// What turning on the display comes to.
pub open spec fn spec_write_vga(command: u16, header_type: u8) -> VgaSetup {
    VgaSetup {
        command: command | COMMAND_MEMORY,
        display: if header_type != 0 {
            None
        } else {
            Some(
                VgaDisplay {
                    bar0: 0x7000_0000,
                    bar2: 0x7100_0000,
                    frame_buffer: VGA_FRAME_BUFFER,
                    frame_buffer_size: VGA_FRAME_BUFFER_SIZE,
                    fill: VGA_FILL,
                    enable_at: VGA_MMIO_BASE,
                    enable: VGA_ENABLE,
                },
            )
        },
    }
}

/// Says how the display is turned on, from the command register and the
/// header type of its function: memory accesses are enabled; and for a
/// header of type 0 the frame buffer and the registers are given their
/// places, the frame buffer is filled, and the display is enabled.
#[verifier::when_used_as_spec(spec_write_vga)]
pub fn write_vga(command: u16, header_type: u8) -> (r: VgaSetup)
    ensures
        r == spec_write_vga(command, header_type),
{
    let command = command | COMMAND_MEMORY;
    if header_type != 0 {
        return VgaSetup { command, display: None };
    }
    VgaSetup {
        command,
        display: Some(
            VgaDisplay {
                bar0: 0x7000_0000,
                bar2: 0x7100_0000,
                frame_buffer: VGA_FRAME_BUFFER,
                frame_buffer_size: VGA_FRAME_BUFFER_SIZE,
                fill: VGA_FILL,
                enable_at: VGA_MMIO_BASE,
                enable: VGA_ENABLE,
            },
        ),
    }
}

/// The offset of the base address register that `test_write_bar` writes.
pub const TEST_BAR_OFFSET: u64 = 20;

/// Says where the fifth base address register of the virtio GPU is, and
/// what to write there.  `config` is where the configuration space of the
/// device starts, as [`find_device`] found it for [`VIRTIO_VENDOR`] and
/// [`VIRTIO_GPU`].  The address is cut to 32 bits.
pub fn test_write_bar(config: u64) -> (r: (u32, u32))
    requires
        config + TEST_BAR_OFFSET <= u64::MAX,
    ensures
        r.0 == (config + TEST_BAR_OFFSET) % 0x1_0000_0000,
        r.1 == TEST_BAR,
{
    let at: u64 = config + TEST_BAR_OFFSET;
    assert(at & 0xffff_ffff == at % 0x1_0000_0000) by (bit_vector);
    ((at & 0xffff_ffff) as u32, TEST_BAR)
}

} // verus!
