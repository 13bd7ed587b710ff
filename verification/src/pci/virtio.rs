//! Virtio over PCI: finding a device's configuration structures among its
//! capabilities, and negotiating with the device through its
//! common-configuration registers.
//!
//! The registers are live: what is read depends on what the device did with
//! earlier writes. So negotiation is a state machine. [`negotiate_step`] takes
//! the state and what the device answered, and returns the next state with the
//! register operations to perform, in order; the caller performs them and
//! comes back with the answer to the last one.

use crate::error::BringupError;
use crate::pci::{
    capability_chain, disp_cap_list, set_bar_value, spec_vendor_id, splice, virtio_cap_at,
    virtio_caps, virtio_caps_of, CapabilityRecord, ConfigSpace, VirtioPciCap, VENDOR_ABSENT,
    VENDOR_SPECIFIC,
};
use crate::wire::le32_bytes;
use vstd::prelude::*;

verus! {

pub const DEVICE_STATUS_ACKNOWLEDGE: u8 = 0x01;

pub const DEVICE_STATUS_DRIVER: u8 = 0x02;

pub const DEVICE_STATUS_FAILED: u8 = 0x80;

pub const DEVICE_STATUS_FEATURES_OK: u8 = 0x08;

pub const DEVICE_STATUS_DRIVER_OK: u8 = 0x04;

pub const DEVICE_STATUS_NEEDS_RESET: u8 = 0x40;

pub const VIRTIO_PCI_CAP_COMMON_CFG: u8 = 0x01;

pub const VIRTIO_PCI_CAP_NOTIFY_CFG: u8 = 0x02;

pub const VIRTIO_PCI_CAP_ISR_CFG: u8 = 0x03;

pub const VIRTIO_PCI_CAP_DEVICE_CFG: u8 = 0x04;

pub const VIRTIO_PCI_CAP_PCI_CFG: u8 = 0x05;

pub const VIRTIO_PCI_CAP_SHARED_CFG: u8 = 0x08;

pub const VIRTIO_PCI_CAP_VENDOR_CFG: u8 = 0x09;

pub const VIRTIO_PCI: u8 = 0x01;

/// The descriptor continues in the descriptor named by `next`.
pub const VIRTQ_DESC_F_NEXT: u16 = 1;

/// The device writes the buffer; the driver only reads it.
pub const VIRTQ_DESC_F_WRITE: u16 = 2;

/// The buffer holds a list of descriptors.
pub const VIRTQ_DESC_F_INDIRECT: u16 = 4;

/// Status after the reset write.
pub const STATUS_RESET: u8 = 0x00;

/// Status once the driver has noticed the device.
pub const STATUS_ACKNOWLEDGED: u8 = 0x01;

/// Status once the driver knows how to drive the device.
pub const STATUS_DRIVER: u8 = 0x03;

/// Status once the driver has written the features it accepts.
pub const STATUS_FEATURES_OK: u8 = 0x0B;

/// Status once the driver is set up and the device may go live.
pub const STATUS_DRIVER_OK: u8 = 0x0F;

/// The values of the common-configuration registers.
#[derive(Clone, Copy, Debug, PartialEq, Eq, Structural)]
pub struct VirtioPciCommonCfg {
    pub device_feature_select: u32,
    pub device_feature: u32,
    pub driver_feature_select: u32,
    pub driver_feature: u32,
    pub config_msix_vector: u16,
    pub num_queues: u16,
    pub device_status: u8,
    pub config_generation: u8,
    pub queue_select: u16,
    pub queue_size: u16,
    pub queue_msix_vector: u16,
    pub queue_enable: u16,
    pub queue_notify_off: u16,
    pub queue_desc: u64,
    pub queue_driver: u64,
    pub queue_device: u64,
    pub queue_notify_data: u16,
    pub queue_reset: u16,
}

/// A descriptor of a virtqueue.
#[derive(Clone, Copy, Debug, PartialEq, Eq, Structural)]
pub struct VirtioDesc {
    pub addr: u64,
    pub len: u32,
    pub flags: u16,
    pub next: u16,
}

/// Resets the device: its status becomes 0, every other register stays.
pub fn virtio_pci_device_reset(device: &mut VirtioPciCommonCfg)
    ensures
        *final(device) == (VirtioPciCommonCfg { device_status: 0, ..*old(device) }),
{
    device.device_status = 0;
}

/// The first capability in `caps` whose configuration type is `cfg_type`.
pub open spec fn first_of_type(caps: Seq<VirtioPciCap>, cfg_type: u8) -> Option<VirtioPciCap>
    decreases caps.len(),
{
    if caps.len() == 0 {
        None
    } else if caps[0].cfg_type == cfg_type {
        Some(caps[0])
    } else {
        first_of_type(caps.drop_first(), cfg_type)
    }
}

/// What [`find_virtio_cap`] returns.
pub open spec fn spec_find_virtio_cap(cfg: Seq<u8>, cap_pointer: u8, cfg_type: u8) -> Result<
    Option<VirtioPciCap>,
    BringupError,
> {
    match virtio_caps(cfg, cap_pointer) {
        Some(caps) => Ok(first_of_type(caps, cfg_type)),
        None => Err(BringupError::MalformedCapabilityChain),
    }
}

/// Finds the first virtio capability of type `cfg_type` in the chain rooted at
/// `cap_pointer`. `Ok(None)` when the chain is sound and holds none.
pub fn find_virtio_cap(cfg: &ConfigSpace, cap_pointer: u8, cfg_type: u8) -> (r: Result<
    Option<VirtioPciCap>,
    BringupError,
>)
    ensures
        r == spec_find_virtio_cap(cfg@, cap_pointer, cfg_type),
{
    let caps: Vec<VirtioPciCap> = match disp_cap_list(cfg, cap_pointer) {
        Ok(caps) => caps,
        Err(_) => {
            return Err(BringupError::MalformedCapabilityChain);
        },
    };
    let mut i: usize = 0;
    proof {
        assert(caps@.subrange(0, caps@.len() as int) =~= caps@);
    }
    while i < caps.len()
        invariant
            i <= caps@.len(),
            virtio_caps(cfg@, cap_pointer) == Some(caps@),
            first_of_type(caps@, cfg_type) == first_of_type(
                caps@.subrange(i as int, caps@.len() as int),
                cfg_type,
            ),
        decreases caps@.len() - i,
    {
        let cap: VirtioPciCap = caps[i];
        let ghost rest = caps@.subrange(i as int, caps@.len() as int);
        proof {
            assert(rest.drop_first() =~= caps@.subrange(i + 1, caps@.len() as int));
        }
        if cap.cfg_type == cfg_type {
            return Ok(Some(cap));
        }
        i += 1;
    }
    Ok(None)
}

/// What [`find_common_config`] returns.
pub open spec fn spec_find_common_config(cfg: Seq<u8>, cap_pointer: u8) -> Result<
    Option<(u8, u32)>,
    BringupError,
> {
    match spec_find_virtio_cap(cfg, cap_pointer, VIRTIO_PCI_CAP_COMMON_CFG) {
        Ok(Some(cap)) => Ok(Some((cap.bar, cap.offset))),
        Ok(None) => Ok(None),
        Err(e) => Err(e),
    }
}

/// Finds the common-configuration structure of a virtio device: the index of
/// the BAR that holds it and its byte offset in that BAR. `Ok(None)` when the
/// chain is sound and no vendor-specific record on it has the configuration
/// type of the common configuration.
pub fn find_common_config(cfg: &ConfigSpace, cap_pointer: u8) -> (r: Result<
    Option<(u8, u32)>,
    BringupError,
>)
    ensures
        r == spec_find_common_config(cfg@, cap_pointer),
{
    match find_virtio_cap(cfg, cap_pointer, VIRTIO_PCI_CAP_COMMON_CFG) {
        Ok(Some(cap)) => Ok(Some((cap.bar, cap.offset))),
        Ok(None) => Ok(None),
        Err(e) => Err(e),
    }
}

/// Where the common-configuration registers of a device lie once its BAR
/// has been pointed at a window.
#[derive(Clone, Copy, Debug, PartialEq, Eq, Structural)]
pub struct CommonCfgWindow {
    /// Index of the BAR that was pointed at the window.
    pub bar: u8,
    /// Address of the first register.
    pub address: u64,
}

/// What [`start_virtio_entropy_config`] returns.
pub open spec fn spec_common_cfg_window(cfg: Seq<u8>, window: u32) -> Result<
    Option<CommonCfgWindow>,
    BringupError,
> {
    if spec_vendor_id(cfg) == VENDOR_ABSENT {
        Err(BringupError::DeviceAbsent)
    } else {
        match spec_find_common_config(cfg, cfg[0x34]) {
            Ok(Some((bar, offset))) => if bar < 6 {
                Ok(Some(CommonCfgWindow { bar, address: (window + offset) as u64 }))
            } else {
                Err(BringupError::UnsupportedLayout)
            },
            Ok(None) => Ok(None),
            Err(e) => Err(e),
        }
    }
}

/// Prepares a virtio device for negotiation: finds the common-configuration
/// structure through the capability pointer of the header, points the BAR that
/// holds it at `window`, and returns that BAR with the address at which the
/// structure's registers then lie. Of a function that is absent nothing but
/// the vendor id is looked at. A device without the structure yields
/// `Ok(None)`. A BAR index that names none of the six BARs is an unsupported
/// layout. The snapshot changes only where a window is returned, and then
/// only in that BAR.
pub fn start_virtio_entropy_config(cfg: &mut ConfigSpace, window: u32) -> (r: Result<
    Option<CommonCfgWindow>,
    BringupError,
>)
    ensures
        r == spec_common_cfg_window(old(cfg)@, window),
        final(cfg)@ == match r {
            Ok(Some(found)) => splice(old(cfg)@, 0x10 + 4 * found.bar, le32_bytes(window)),
            _ => old(cfg)@,
        },
{
    if !cfg.is_present() {
        return Err(BringupError::DeviceAbsent);
    }
    let cap_pointer: u8 = cfg.capabilities_pointer();
    match find_common_config(cfg, cap_pointer) {
        Ok(Some((bar, offset))) => {
            if bar >= 6 {
                return Err(BringupError::UnsupportedLayout);
            }
            set_bar_value(cfg, bar as usize, window);
            Ok(Some(CommonCfgWindow { bar, address: window as u64 + offset as u64 }))
        },
        Ok(None) => Ok(None),
        Err(e) => Err(e),
    }
}

/// Whether `record` is a vendor-specific record whose configuration type
/// byte is `cfg_type`.
pub open spec fn record_has_type(cfg: Seq<u8>, record: CapabilityRecord, cfg_type: u8) -> bool {
    record.header.cap_id == VENDOR_SPECIFIC && cfg[record.offset + 3] == cfg_type
}

proof fn lemma_first_of_type_none(caps: Seq<VirtioPciCap>, cfg_type: u8)
    ensures
        first_of_type(caps, cfg_type) is None <==> forall|j: int|
            0 <= j < caps.len() ==> (#[trigger] caps[j]).cfg_type != cfg_type,
    decreases caps.len(),
{
    if caps.len() > 0 {
        let rest = caps.drop_first();
        lemma_first_of_type_none(rest, cfg_type);
        if caps[0].cfg_type != cfg_type {
            if first_of_type(rest, cfg_type) is None {
                assert forall|j: int| 0 <= j < caps.len() implies (#[trigger] caps[j]).cfg_type
                    != cfg_type by {
                    if j > 0 {
                        assert(caps[j] == rest[j - 1]);
                    }
                }
            } else {
                let j = choose|j: int| 0 <= j < rest.len() && (#[trigger] rest[j]).cfg_type == cfg_type;
                assert(caps[j + 1] == rest[j]);
            }
        }
    }
}

proof fn lemma_caps_of_type_follow_records(
    cfg: Seq<u8>,
    records: Seq<CapabilityRecord>,
    cfg_type: u8,
)
    ensures
        (forall|j: int|
            0 <= j < virtio_caps_of(cfg, records).len() ==> (#[trigger] virtio_caps_of(
                cfg,
                records,
            )[j]).cfg_type != cfg_type) <==> (forall|i: int|
            0 <= i < records.len() ==> !record_has_type(cfg, #[trigger] records[i], cfg_type)),
    decreases records.len(),
{
    let caps = virtio_caps_of(cfg, records);
    if records.len() > 0 {
        let before = records.drop_last();
        let caps_before = virtio_caps_of(cfg, before);
        let last = records.last();
        lemma_caps_of_type_follow_records(cfg, before, cfg_type);
        let caps_clear = forall|j: int|
            0 <= j < caps.len() ==> (#[trigger] caps[j]).cfg_type != cfg_type;
        let records_clear = forall|i: int|
            0 <= i < records.len() ==> !record_has_type(cfg, #[trigger] records[i], cfg_type);
        if caps_clear {
            assert forall|j: int| 0 <= j < caps_before.len() implies (
            #[trigger] caps_before[j]).cfg_type != cfg_type by {
                assert(caps_before[j] == caps[j]);
            }
            assert forall|i: int| 0 <= i < records.len() implies !record_has_type(
                cfg,
                #[trigger] records[i],
                cfg_type,
            ) by {
                if i < before.len() {
                    assert(records[i] == before[i]);
                } else if last.header.cap_id == VENDOR_SPECIFIC {
                    assert(caps[caps.len() - 1] == virtio_cap_at(cfg, last.offset as int));
                }
            }
        }
        if records_clear {
            assert forall|i: int| 0 <= i < before.len() implies !record_has_type(
                cfg,
                #[trigger] before[i],
                cfg_type,
            ) by {
                assert(before[i] == records[i]);
            }
            assert(!record_has_type(cfg, records[records.len() - 1], cfg_type));
            assert forall|j: int| 0 <= j < caps.len() implies (#[trigger] caps[j]).cfg_type
                != cfg_type by {
                if j < caps_before.len() {
                    assert(caps[j] == caps_before[j]);
                }
            }
        }
    }
}

/// On a sound chain the search for a configuration type comes back empty
/// exactly when no vendor-specific record of the chain has that type.
pub proof fn lemma_virtio_cap_absent_iff(cfg: Seq<u8>, cap_pointer: u8, cfg_type: u8)
    requires
        virtio_caps(cfg, cap_pointer) is Some,
    ensures
        spec_find_virtio_cap(cfg, cap_pointer, cfg_type) == Ok::<Option<VirtioPciCap>, BringupError>(
            None,
        ) <==> forall|i: int|
            0 <= i < capability_chain(cfg, cap_pointer)->0.len() ==> !record_has_type(
                cfg,
                #[trigger] capability_chain(cfg, cap_pointer)->0[i],
                cfg_type,
            ),
{
    let records = capability_chain(cfg, cap_pointer)->0;
    lemma_first_of_type_none(virtio_caps_of(cfg, records), cfg_type);
    lemma_caps_of_type_follow_records(cfg, records, cfg_type);
}

/// On a sound chain [`find_common_config`] returns `Ok(None)` exactly when no
/// vendor-specific record of the chain has configuration type 1.
pub proof fn lemma_common_config_absent_iff(cfg: Seq<u8>, cap_pointer: u8)
    requires
        virtio_caps(cfg, cap_pointer) is Some,
    ensures
        spec_find_common_config(cfg, cap_pointer) == Ok::<Option<(u8, u32)>, BringupError>(None)
            <==> forall|i: int|
            0 <= i < capability_chain(cfg, cap_pointer)->0.len() ==> !record_has_type(
                cfg,
                #[trigger] capability_chain(cfg, cap_pointer)->0[i],
                1,
            ),
{
    lemma_virtio_cap_absent_iff(cfg, cap_pointer, VIRTIO_PCI_CAP_COMMON_CFG);
}

/// One access to a common-configuration register.
#[derive(Clone, Copy, Debug, PartialEq, Eq, Structural)]
pub enum RegisterOp {
    /// Store the value in `device_status`.
    WriteStatus(u8),
    /// Load `device_status`.
    ReadStatus,
    /// Load `device_feature`.
    ReadDeviceFeature,
    /// Store the value in `driver_feature`.
    WriteDriverFeature(u32),
    /// Load `num_queues`.
    ReadNumQueues,
    /// Store the queue's index in `queue_select`.
    SelectQueue(u16),
    /// Store the value in `config_msix_vector`.
    WriteConfigMsixVector(u16),
    /// Store the value in `queue_msix_vector`.
    WriteQueueMsixVector(u16),
    /// Store the value in `queue_enable`.
    WriteQueueEnable(u16),
}

/// What the device answered to the read that ended the last step.
#[derive(Clone, Copy, Debug, PartialEq, Eq, Structural)]
pub enum DeviceResponse {
    /// The last step ended with no read.
    Nothing,
    /// The value of `device_feature`.
    DeviceFeature(u32),
    /// The value of `device_status`.
    Status(u8),
    /// The value of `num_queues`.
    NumQueues(u16),
}

/// Where a negotiation stands.
#[derive(Clone, Copy, Debug, PartialEq, Eq, Structural)]
pub enum NegotiationState {
    /// Nothing has been written yet.
    Start,
    /// The device was reset, acknowledged and told a driver is there; its
    /// feature bits are being read.
    AwaitingFeatures,
    /// The accepted features and FEATURES_OK were written; the status is being
    /// read back.
    AwaitingStatus,
    /// The device kept FEATURES_OK; its queue count is being read.
    AwaitingQueueCount,
    /// Every queue is enabled and DRIVER_OK is written.
    Ready,
    /// The device refused the features, reported failure, or answered out of
    /// turn. Nothing more is written to it.
    Failed,
}

/// The outcome of one step: the state to go on from, and the register
/// operations to perform before that, in order. At most the last of them is a
/// read; its answer is the response of the next step.
#[derive(Debug)]
pub struct NegotiationStep {
    pub next: NegotiationState,
    pub ops: Vec<RegisterOp>,
}

/// Whether a status read back after FEATURES_OK lets negotiation go on: the
/// device kept FEATURES_OK and does not report FAILED.
pub open spec fn status_accepts(status: u8) -> bool {
    status & DEVICE_STATUS_FEATURES_OK != 0 && status & DEVICE_STATUS_FAILED == 0
}

/// The writes that set up queue `queue`: select it, clear both MSI-X vector
/// registers, enable it.
pub open spec fn queue_setup_ops(queue: u16) -> Seq<RegisterOp> {
    seq![
        RegisterOp::SelectQueue(queue),
        RegisterOp::WriteConfigMsixVector(0),
        RegisterOp::WriteQueueMsixVector(0),
        RegisterOp::WriteQueueEnable(1),
    ]
}

/// The writes that set up queues `0` to `count - 1`, lowest index first.
pub open spec fn queues_setup_ops(count: nat) -> Seq<RegisterOp>
    decreases count,
{
    if count == 0 {
        Seq::empty()
    } else {
        queues_setup_ops((count - 1) as nat) + queue_setup_ops((count - 1) as u16)
    }
}

/// The state that follows `state` when the device answered `response`.
pub open spec fn step_next(state: NegotiationState, response: DeviceResponse) -> NegotiationState {
    match (state, response) {
        (NegotiationState::Start, _) => NegotiationState::AwaitingFeatures,
        (NegotiationState::AwaitingFeatures, DeviceResponse::DeviceFeature(_)) =>
            NegotiationState::AwaitingStatus,
        (NegotiationState::AwaitingStatus, DeviceResponse::Status(status)) => if status_accepts(
            status,
        ) {
            NegotiationState::AwaitingQueueCount
        } else {
            NegotiationState::Failed
        },
        (NegotiationState::AwaitingQueueCount, DeviceResponse::NumQueues(_)) =>
            NegotiationState::Ready,
        (NegotiationState::Ready, _) => NegotiationState::Ready,
        _ => NegotiationState::Failed,
    }
}

/// The register operations of the step from `state` on `response`, for a
/// driver that supports the feature bits `supported`.
pub open spec fn step_ops(state: NegotiationState, response: DeviceResponse, supported: u32) -> Seq<
    RegisterOp,
> {
    match (state, response) {
        (NegotiationState::Start, _) => seq![
            RegisterOp::WriteStatus(STATUS_RESET),
            RegisterOp::WriteStatus(STATUS_ACKNOWLEDGED),
            RegisterOp::WriteStatus(STATUS_DRIVER),
            RegisterOp::ReadDeviceFeature,
        ],
        (NegotiationState::AwaitingFeatures, DeviceResponse::DeviceFeature(offered)) => seq![
            RegisterOp::WriteDriverFeature(offered & supported),
            RegisterOp::WriteStatus(STATUS_FEATURES_OK),
            RegisterOp::ReadStatus,
        ],
        (NegotiationState::AwaitingStatus, DeviceResponse::Status(status)) => if status_accepts(
            status,
        ) {
            seq![RegisterOp::ReadNumQueues]
        } else {
            Seq::empty()
        },
        (NegotiationState::AwaitingQueueCount, DeviceResponse::NumQueues(count)) =>
            queues_setup_ops(count as nat).push(RegisterOp::WriteStatus(STATUS_DRIVER_OK)),
        _ => Seq::empty(),
    }
}

/// How a negotiation ended, once it has: `None` while it is under way.
pub fn negotiation_result(state: NegotiationState) -> (r: Option<Result<(), BringupError>>)
    ensures
        r == match state {
            NegotiationState::Ready => Some(Ok::<(), BringupError>(())),
            NegotiationState::Failed => Some(
                Err::<(), BringupError>(BringupError::DeviceInitFailed),
            ),
            _ => None::<Result<(), BringupError>>,
        },
{
    match state {
        NegotiationState::Ready => Some(Ok(())),
        NegotiationState::Failed => Some(Err(BringupError::DeviceInitFailed)),
        _ => None,
    }
}

fn queue_setup(count: u16) -> (ops: Vec<RegisterOp>)
    ensures
        ops@ == queues_setup_ops(count as nat),
{
    let mut ops: Vec<RegisterOp> = Vec::new();
    let mut queue: u16 = 0;
    while queue < count
        invariant
            queue <= count,
            ops@ == queues_setup_ops(queue as nat),
        decreases count - queue,
    {
        ops.push(RegisterOp::SelectQueue(queue));
        ops.push(RegisterOp::WriteConfigMsixVector(0));
        ops.push(RegisterOp::WriteQueueMsixVector(0));
        ops.push(RegisterOp::WriteQueueEnable(1));
        queue += 1;
    }
    ops
}

/// One step of negotiation. From `Start` the device is reset, then
/// ACKNOWLEDGE and DRIVER are set and the offered features read. The driver
/// accepts the offered features it supports and sets FEATURES_OK, then reads
/// the status back: a device that dropped FEATURES_OK or raised FAILED ends
/// the negotiation in `Failed`. Otherwise each queue, in rising order, is
/// selected, has its MSI-X vector registers cleared and is enabled, and
/// DRIVER_OK is written last. A response that does not answer the read of the
/// state it arrives in also ends in `Failed`; `Ready` and `Failed` are final
/// and ask for nothing.
pub fn negotiate_step(state: NegotiationState, response: DeviceResponse, supported: u32) -> (step:
    NegotiationStep)
    ensures
        step.next == step_next(state, response),
        step.ops@ == step_ops(state, response, supported),
{
    match (state, response) {
        (NegotiationState::Start, _) => {
            let mut ops: Vec<RegisterOp> = Vec::new();
            ops.push(RegisterOp::WriteStatus(STATUS_RESET));
            ops.push(RegisterOp::WriteStatus(STATUS_ACKNOWLEDGED));
            ops.push(RegisterOp::WriteStatus(STATUS_DRIVER));
            ops.push(RegisterOp::ReadDeviceFeature);
            NegotiationStep { next: NegotiationState::AwaitingFeatures, ops }
        },
        (NegotiationState::AwaitingFeatures, DeviceResponse::DeviceFeature(offered)) => {
            let mut ops: Vec<RegisterOp> = Vec::new();
            ops.push(RegisterOp::WriteDriverFeature(offered & supported));
            ops.push(RegisterOp::WriteStatus(STATUS_FEATURES_OK));
            ops.push(RegisterOp::ReadStatus);
            NegotiationStep { next: NegotiationState::AwaitingStatus, ops }
        },
        (NegotiationState::AwaitingStatus, DeviceResponse::Status(status)) => {
            let mut ops: Vec<RegisterOp> = Vec::new();
            if status & DEVICE_STATUS_FEATURES_OK != 0 && status & DEVICE_STATUS_FAILED == 0 {
                ops.push(RegisterOp::ReadNumQueues);
                NegotiationStep { next: NegotiationState::AwaitingQueueCount, ops }
            } else {
                NegotiationStep { next: NegotiationState::Failed, ops }
            }
        },
        (NegotiationState::AwaitingQueueCount, DeviceResponse::NumQueues(count)) => {
            let mut ops: Vec<RegisterOp> = queue_setup(count);
            ops.push(RegisterOp::WriteStatus(STATUS_DRIVER_OK));
            NegotiationStep { next: NegotiationState::Ready, ops }
        },
        (NegotiationState::Ready, _) => NegotiationStep {
            next: NegotiationState::Ready,
            ops: Vec::new(),
        },
        _ => NegotiationStep { next: NegotiationState::Failed, ops: Vec::new() },
    }
}

/// Where a negotiation ends and what it asks of the device when the device
/// answers its steps with `responses`, one response per step, starting in
/// `state`.
pub open spec fn run_from(
    state: NegotiationState,
    responses: Seq<DeviceResponse>,
    supported: u32,
) -> (NegotiationState, Seq<RegisterOp>)
    decreases responses.len(),
{
    if responses.len() == 0 {
        (state, Seq::empty())
    } else {
        let rest = run_from(step_next(state, responses[0]), responses.drop_first(), supported);
        (rest.0, step_ops(state, responses[0], supported) + rest.1)
    }
}

/// The values that `ops` store in the status register, in order.
pub open spec fn status_writes(ops: Seq<RegisterOp>) -> Seq<u8>
    decreases ops.len(),
{
    if ops.len() == 0 {
        Seq::empty()
    } else {
        let before = status_writes(ops.drop_last());
        match ops.last() {
            RegisterOp::WriteStatus(value) => before.push(value),
            _ => before,
        }
    }
}

/// The status values of a negotiation that succeeds: reset, ACKNOWLEDGE,
/// DRIVER, FEATURES_OK, DRIVER_OK, each kept once set.
pub open spec fn status_order() -> Seq<u8> {
    seq![STATUS_RESET, STATUS_ACKNOWLEDGED, STATUS_DRIVER, STATUS_FEATURES_OK, STATUS_DRIVER_OK]
}

/// The status values written on the way to `state`.
pub open spec fn written_before(state: NegotiationState) -> Seq<u8> {
    match state {
        NegotiationState::Start => Seq::empty(),
        NegotiationState::AwaitingFeatures => status_order().subrange(0, 3),
        NegotiationState::AwaitingStatus => status_order().subrange(0, 4),
        NegotiationState::AwaitingQueueCount => status_order().subrange(0, 4),
        NegotiationState::Ready => status_order(),
        NegotiationState::Failed => Seq::empty(),
    }
}

proof fn lemma_status_writes_push(ops: Seq<RegisterOp>, op: RegisterOp)
    ensures
        status_writes(ops.push(op)) == match op {
            RegisterOp::WriteStatus(value) => status_writes(ops).push(value),
            _ => status_writes(ops),
        },
{
    assert(ops.push(op).drop_last() =~= ops);
}

proof fn lemma_status_writes_concat(a: Seq<RegisterOp>, b: Seq<RegisterOp>)
    ensures
        status_writes(a + b) == status_writes(a) + status_writes(b),
    decreases b.len(),
{
    if b.len() == 0 {
        assert(a + b =~= a);
        assert(status_writes(a) + status_writes(b) =~= status_writes(a));
    } else {
        lemma_status_writes_concat(a, b.drop_last());
        assert((a + b).drop_last() =~= a + b.drop_last());
        assert((a + b).last() == b.last());
        match b.last() {
            RegisterOp::WriteStatus(value) => {
                assert((status_writes(a) + status_writes(b.drop_last())).push(value)
                    =~= status_writes(a) + status_writes(b.drop_last()).push(value));
            },
            _ => {},
        }
    }
}

proof fn lemma_queue_setup_leaves_status(count: nat)
    ensures
        status_writes(queues_setup_ops(count)) == Seq::<u8>::empty(),
    decreases count,
{
    if count > 0 {
        let before = queues_setup_ops((count - 1) as nat);
        let queue = (count - 1) as u16;
        lemma_queue_setup_leaves_status((count - 1) as nat);
        let s0 = before.push(RegisterOp::SelectQueue(queue));
        let s1 = s0.push(RegisterOp::WriteConfigMsixVector(0));
        let s2 = s1.push(RegisterOp::WriteQueueMsixVector(0));
        let s3 = s2.push(RegisterOp::WriteQueueEnable(1));
        lemma_status_writes_push(before, RegisterOp::SelectQueue(queue));
        lemma_status_writes_push(s0, RegisterOp::WriteConfigMsixVector(0));
        lemma_status_writes_push(s1, RegisterOp::WriteQueueMsixVector(0));
        lemma_status_writes_push(s2, RegisterOp::WriteQueueEnable(1));
        assert(s3 =~= before + queue_setup_ops(queue));
    }
}

proof fn lemma_step_status_writes(state: NegotiationState, response: DeviceResponse, supported: u32)
    ensures
        status_writes(step_ops(state, response, supported)) == match (state, response) {
            (NegotiationState::Start, _) => status_order().subrange(0, 3),
            (NegotiationState::AwaitingFeatures, DeviceResponse::DeviceFeature(_)) =>
                status_order().subrange(3, 4),
            (NegotiationState::AwaitingQueueCount, DeviceResponse::NumQueues(_)) =>
                status_order().subrange(4, 5),
            _ => Seq::<u8>::empty(),
        },
{
    let none = Seq::<RegisterOp>::empty();
    match (state, response) {
        (NegotiationState::Start, _) => {
            let s0 = none.push(RegisterOp::WriteStatus(STATUS_RESET));
            let s1 = s0.push(RegisterOp::WriteStatus(STATUS_ACKNOWLEDGED));
            let s2 = s1.push(RegisterOp::WriteStatus(STATUS_DRIVER));
            let s3 = s2.push(RegisterOp::ReadDeviceFeature);
            lemma_status_writes_push(none, RegisterOp::WriteStatus(STATUS_RESET));
            lemma_status_writes_push(s0, RegisterOp::WriteStatus(STATUS_ACKNOWLEDGED));
            lemma_status_writes_push(s1, RegisterOp::WriteStatus(STATUS_DRIVER));
            lemma_status_writes_push(s2, RegisterOp::ReadDeviceFeature);
            assert(s3 =~= step_ops(state, response, supported));
            assert(status_writes(s3) =~= status_order().subrange(0, 3));
        },
        (NegotiationState::AwaitingFeatures, DeviceResponse::DeviceFeature(offered)) => {
            let s0 = none.push(RegisterOp::WriteDriverFeature(offered & supported));
            let s1 = s0.push(RegisterOp::WriteStatus(STATUS_FEATURES_OK));
            let s2 = s1.push(RegisterOp::ReadStatus);
            lemma_status_writes_push(none, RegisterOp::WriteDriverFeature(offered & supported));
            lemma_status_writes_push(s0, RegisterOp::WriteStatus(STATUS_FEATURES_OK));
            lemma_status_writes_push(s1, RegisterOp::ReadStatus);
            assert(s2 =~= step_ops(state, response, supported));
            assert(status_writes(s2) =~= status_order().subrange(3, 4));
        },
        (NegotiationState::AwaitingStatus, DeviceResponse::Status(status)) => {
            if status_accepts(status) {
                lemma_status_writes_push(none, RegisterOp::ReadNumQueues);
                assert(none.push(RegisterOp::ReadNumQueues) =~= step_ops(
                    state,
                    response,
                    supported,
                ));
            }
        },
        (NegotiationState::AwaitingQueueCount, DeviceResponse::NumQueues(count)) => {
            lemma_queue_setup_leaves_status(count as nat);
            lemma_status_writes_push(
                queues_setup_ops(count as nat),
                RegisterOp::WriteStatus(STATUS_DRIVER_OK),
            );
            assert(Seq::<u8>::empty().push(STATUS_DRIVER_OK) =~= status_order().subrange(4, 5));
        },
        _ => {},
    }
}

proof fn lemma_run_keeps_order(
    state: NegotiationState,
    responses: Seq<DeviceResponse>,
    supported: u32,
)
    ensures
        state is Failed ==> run_from(state, responses, supported).0 is Failed && status_writes(
            run_from(state, responses, supported).1,
        ) == Seq::<u8>::empty(),
        !(state is Failed) ==> (written_before(state) + status_writes(
            run_from(state, responses, supported).1,
        )).is_prefix_of(status_order()),
        !(state is Failed) ==> (run_from(state, responses, supported).0 is Ready <==> written_before(
            state,
        ) + status_writes(run_from(state, responses, supported).1) == status_order()),
    decreases responses.len(),
{
    let run = run_from(state, responses, supported);
    if responses.len() == 0 {
        assert(written_before(state) + status_writes(run.1) =~= written_before(state));
        assert(status_order().subrange(0, 5) =~= status_order());
    } else {
        let response = responses[0];
        let next = step_next(state, response);
        let ops = step_ops(state, response, supported);
        let rest = run_from(next, responses.drop_first(), supported);
        lemma_run_keeps_order(next, responses.drop_first(), supported);
        lemma_step_status_writes(state, response, supported);
        lemma_status_writes_concat(ops, rest.1);
        let written = written_before(state) + status_writes(run.1);
        if state is Failed {
            assert(status_writes(run.1) =~= Seq::<u8>::empty());
        } else if next is Failed {
            assert(written =~= written_before(state));
        } else {
            assert(written =~= written_before(next) + status_writes(rest.1));
        }
    }
}

/// Whatever the device answers, and however often, the values written to its
/// status register are an initial part of reset, ACKNOWLEDGE, DRIVER,
/// FEATURES_OK, DRIVER_OK in this order, and DRIVER_OK is written exactly in
/// the negotiations that end in `Ready`.
pub proof fn lemma_status_follows_order(responses: Seq<DeviceResponse>, supported: u32)
    ensures
        status_writes(run_from(NegotiationState::Start, responses, supported).1).is_prefix_of(
            status_order(),
        ),
        run_from(NegotiationState::Start, responses, supported).0 is Ready <==> status_writes(
            run_from(NegotiationState::Start, responses, supported).1,
        ) == status_order(),
{
    let run = run_from(NegotiationState::Start, responses, supported);
    lemma_run_keeps_order(NegotiationState::Start, responses, supported);
    assert(written_before(NegotiationState::Start) + status_writes(run.1) =~= status_writes(run.1));
}

/// A device that drops FEATURES_OK, or raises FAILED, when the status is read
/// back ends the negotiation: the state is `Failed`, this step and every later
/// one ask for nothing, so DRIVER_OK is never written.
pub proof fn lemma_refusal_halts(status: u8, later: Seq<DeviceResponse>, supported: u32)
    requires
        !status_accepts(status),
    ensures
        step_next(NegotiationState::AwaitingStatus, DeviceResponse::Status(status)) is Failed,
        step_ops(NegotiationState::AwaitingStatus, DeviceResponse::Status(status), supported)
            == Seq::<RegisterOp>::empty(),
        run_from(NegotiationState::Failed, later, supported) == (
            NegotiationState::Failed,
            Seq::<RegisterOp>::empty(),
        ),
    decreases later.len(),
{
    if later.len() > 0 {
        lemma_refusal_halts(status, later.drop_first(), supported);
        let rest = run_from(NegotiationState::Failed, later.drop_first(), supported);
        assert(step_ops(NegotiationState::Failed, later[0], supported) + rest.1 =~= Seq::<
            RegisterOp,
        >::empty());
    }
}

} // verus!
