//! Device discovery and bring-up for a kernel running under an emulator:
//! PCI configuration space, virtio-over-PCI capabilities and negotiation,
//! MSI-X table programming, the fw_cfg selector/data/DMA protocol, and the
//! RAMFB framebuffer descriptor.
//!
//! The library never touches hardware. Configuration space is handed to it as
//! a snapshot of bytes, register traffic comes back as ordered lists of
//! operations, and protocols that alternate reads and decisions are state
//! machines that the caller drives.

pub mod error;
pub mod fw_cfg;
pub mod pci;
pub mod ramfb;
pub mod wire;
