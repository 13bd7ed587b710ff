//! The failures that bring-up can report.

use vstd::prelude::*;

verus! {

/// Why a bring-up step did not complete.
#[derive(Clone, Copy, Debug, PartialEq, Eq, Structural)]
pub enum BringupError {
    /// The function is not populated (vendor id `0xFFFF`), or a named fw_cfg
    /// file is not in the directory.
    DeviceAbsent,
    /// A capability chain revisits a record, runs past the hop limit, or
    /// points at a record that does not fit in configuration space.
    MalformedCapabilityChain,
    /// The fw_cfg device set the error bit of a DMA control word.
    DmaTransferError,
    /// A layout this library does not program, such as an MSI-X table and
    /// pending-bit array that live in different BARs.
    UnsupportedLayout,
    /// The device refused the negotiated features or reported failure.
    DeviceInitFailed,
}

} // verus!
