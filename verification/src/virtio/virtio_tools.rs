//! The layout of a virtio capability in PCI configuration space.
use vstd::prelude::*;

verus! {

/// A vendor-specific PCI capability that points to a virtio structure.
#[allow(non_camel_case_types)]
#[derive(Clone, Copy, Debug, PartialEq, Eq)]
pub struct virtio_pci_cap {
    /// The capability's kind: vendor-specific.
    pub cap_vndr: u8,
    /// Where the next capability starts.
    pub cap_next: u8,
    /// The length of this capability.
    pub cap_len: u8,
    /// Which structure it points to.
    pub cfg_type: u8,
    /// In which base address register's region the structure lies.
    pub bar: u8,
    pub padding: [u8; 3],
    /// Where in that region the structure starts.
    pub offset: u32,
    /// How long the structure is.
    pub length: u32,
}

} // verus!
