//! PCI configuration space: the header of a function, its base address
//! registers, and the chain of capability records.
//!
//! A [`ConfigSpace`] is a snapshot of the 256 configuration bytes of one
//! function. Reads are taken from the snapshot; writes change it, and the
//! caller carries the changed registers to the device.

use crate::error::BringupError;
use crate::wire::{le16, le16_bytes, le32, le32_bytes, read_le16, read_le32, u16_to_le, u32_to_le};
use vstd::prelude::*;
use vstd::set_lib::{lemma_int_range, lemma_len_subset, set_int_range};

pub mod msix;
pub mod virtio;

verus! {

/// Capability id of a vendor-specific record.
pub const VENDOR_SPECIFIC: u8 = 0x09;

/// Capability id of the MSI-X record.
pub const MIS_X: u8 = 0x11;

/// The most records a capability walk visits before it gives the chain up.
pub const MAX_CAPABILITIES: usize = 256;

/// The vendor id that an unpopulated function reads as.
pub const VENDOR_ABSENT: u16 = 0xFFFF;

/// Devices on a bus.
pub const DEVICES_PER_BUS: usize = 32;

/// Functions of a device.
pub const FUNCTIONS_PER_DEVICE: usize = 8;

/// Offset of the vendor id.
pub const OFFSET_VENDOR_ID: usize = 0x00;

/// Offset of the device id.
pub const OFFSET_DEVICE_ID: usize = 0x02;

/// Offset of the command register.
pub const OFFSET_COMMAND: usize = 0x04;

/// Offset of the status register.
pub const OFFSET_STATUS: usize = 0x06;

/// Offset of the header type.
pub const OFFSET_HEADER_TYPE: usize = 0x0E;

/// Offset of the first base address register.
pub const OFFSET_BAR0: usize = 0x10;

/// Offset of the capability pointer of a type-0 header.
pub const OFFSET_CAPABILITIES_POINTER: usize = 0x34;

/// Command bit: the function answers memory accesses.
pub const COMMAND_MEMORY_SPACE: u16 = 0b10;

/// Command bit: the function may master the bus.
pub const COMMAND_BUS_MASTER: u16 = 0b100;

/// The configuration bytes of one function.
#[derive(Clone, Copy, Debug, PartialEq, Eq)]
pub struct ConfigSpace {
    pub bytes: [u8; 256],
}

impl View for ConfigSpace {
    type V = Seq<u8>;

    open spec fn view(&self) -> Seq<u8> {
        self.bytes@
    }
}

/// The vendor id in a configuration snapshot.
pub open spec fn spec_vendor_id(cfg: Seq<u8>) -> int {
    le16(cfg, 0x00)
}

/// The device id in a configuration snapshot.
pub open spec fn spec_device_id(cfg: Seq<u8>) -> int {
    le16(cfg, 0x02)
}

/// The command register in a configuration snapshot.
pub open spec fn spec_command(cfg: Seq<u8>) -> int {
    le16(cfg, 0x04)
}

/// The status register in a configuration snapshot.
pub open spec fn spec_status(cfg: Seq<u8>) -> int {
    le16(cfg, 0x06)
}

/// Base address register `bar` in a configuration snapshot.
pub open spec fn spec_bar(cfg: Seq<u8>, bar: int) -> int {
    le32(cfg, 0x10 + 4 * bar)
}

/// Whether `cfg` is what an unpopulated function reads as: 256 bytes `0xFF`.
pub open spec fn is_absent(cfg: Seq<u8>) -> bool {
    cfg.len() == 256 && forall|i: int| 0 <= i < 256 ==> cfg[i] == 0xFF
}

/// `cfg` with the bytes from `at` on replaced by `data`.
pub open spec fn splice(cfg: Seq<u8>, at: int, data: Seq<u8>) -> Seq<u8> {
    Seq::new(
        cfg.len(),
        |i: int|
            if at <= i < at + data.len() {
                data[i - at]
            } else {
                cfg[i]
            },
    )
}

impl ConfigSpace {
    /// A snapshot of the given bytes.
    pub fn new(bytes: [u8; 256]) -> (cfg: ConfigSpace)
        ensures
            cfg@ == bytes@,
    {
        ConfigSpace { bytes }
    }

    /// What an unpopulated function reads as: every byte `0xFF`.
    pub fn absent() -> (cfg: ConfigSpace)
        ensures
            is_absent(cfg@),
            spec_vendor_id(cfg@) == VENDOR_ABSENT,
    {
        ConfigSpace { bytes: [0xFFu8; 256] }
    }

    /// The byte at `offset`.
    pub fn read_u8(&self, offset: usize) -> (v: u8)
        requires
            offset < 256,
        ensures
            v == self@[offset as int],
    {
        self.bytes[offset]
    }

    /// The little-endian 16-bit register at `offset`.
    pub fn read_u16(&self, offset: usize) -> (v: u16)
        requires
            offset + 2 <= 256,
        ensures
            v == le16(self@, offset as int),
    {
        read_le16(self.bytes.as_slice(), offset)
    }

    /// The little-endian 32-bit register at `offset`.
    pub fn read_u32(&self, offset: usize) -> (v: u32)
        requires
            offset + 4 <= 256,
        ensures
            v == le32(self@, offset as int),
    {
        read_le32(self.bytes.as_slice(), offset)
    }

    /// Stores `value` in the 16-bit register at `offset`.
    pub fn write_u16(&mut self, offset: usize, value: u16)
        requires
            offset + 2 <= 256,
        ensures
            final(self)@ == splice(old(self)@, offset as int, le16_bytes(value)),
            le16(final(self)@, offset as int) == value,
    {
        let b: [u8; 2] = u16_to_le(value);
        self.bytes[offset] = b[0];
        self.bytes[offset + 1] = b[1];
    }

    /// Stores `value` in the 32-bit register at `offset`.
    pub fn write_u32(&mut self, offset: usize, value: u32)
        requires
            offset + 4 <= 256,
        ensures
            final(self)@ == splice(old(self)@, offset as int, le32_bytes(value)),
            le32(final(self)@, offset as int) == value,
    {
        let b: [u8; 4] = u32_to_le(value);
        self.bytes[offset] = b[0];
        self.bytes[offset + 1] = b[1];
        self.bytes[offset + 2] = b[2];
        self.bytes[offset + 3] = b[3];
    }

    /// The vendor id.
    pub fn vendor_id(&self) -> (v: u16)
        ensures
            v == spec_vendor_id(self@),
    {
        self.read_u16(OFFSET_VENDOR_ID)
    }

    /// The device id.
    pub fn device_id(&self) -> (v: u16)
        ensures
            v == spec_device_id(self@),
    {
        self.read_u16(OFFSET_DEVICE_ID)
    }

    /// The command register.
    pub fn command(&self) -> (v: u16)
        ensures
            v == spec_command(self@),
    {
        self.read_u16(OFFSET_COMMAND)
    }

    /// The status register.
    pub fn status(&self) -> (v: u16)
        ensures
            v == spec_status(self@),
    {
        self.read_u16(OFFSET_STATUS)
    }

    /// The header type.
    pub fn header_type(&self) -> (v: u8)
        ensures
            v == self@[0x0E],
    {
        self.read_u8(OFFSET_HEADER_TYPE)
    }

    /// The capability pointer of a type-0 header.
    pub fn capabilities_pointer(&self) -> (v: u8)
        ensures
            v == self@[0x34],
    {
        self.read_u8(OFFSET_CAPABILITIES_POINTER)
    }

    /// Whether a function answers here: its vendor id is not `0xFFFF`.
    pub fn is_present(&self) -> (b: bool)
        ensures
            b == (spec_vendor_id(self@) != VENDOR_ABSENT),
    {
        self.vendor_id() != VENDOR_ABSENT
    }
}

/// The two-byte header that every capability record starts with.
#[derive(Clone, Copy, Debug, PartialEq, Eq, Structural)]
pub struct CapHeader {
    pub cap_id: u8,
    pub cap_next: u8,
}

/// A capability record as the walk yields it: where the record lies in
/// configuration space, and its header.
#[derive(Clone, Copy, Debug, PartialEq, Eq, Structural)]
pub struct CapabilityRecord {
    pub offset: u8,
    pub header: CapHeader,
}

/// Whether the header of a record at `offset` lies inside configuration
/// space. Offset 0 ends a chain and is no record.
pub open spec fn header_fits(offset: u8) -> bool {
    offset != 0 && offset as int + 2 <= 256
}

/// The capability header at `offset`.
pub open spec fn cap_header_at(cfg: Seq<u8>, offset: int) -> CapHeader {
    CapHeader { cap_id: cfg[offset], cap_next: cfg[offset + 1] }
}

/// The record at `offset`.
pub open spec fn record_at(cfg: Seq<u8>, offset: u8) -> CapabilityRecord {
    CapabilityRecord { offset, header: cap_header_at(cfg, offset as int) }
}

/// The records reached from `offset` by following next pointers, with at most
/// `hops` records visited. `None` when a record's header does not fit or the
/// chain has not ended after `hops` records.
pub open spec fn chain_from(cfg: Seq<u8>, offset: u8, hops: nat) -> Option<Seq<CapabilityRecord>>
    decreases hops,
{
    if offset == 0 {
        Some(Seq::empty())
    } else if hops == 0 || !header_fits(offset) {
        None
    } else {
        match chain_from(cfg, cfg[offset + 1], (hops - 1) as nat) {
            Some(rest) => Some(seq![record_at(cfg, offset)] + rest),
            None => None,
        }
    }
}

/// The capability chain rooted at `cap_pointer`, or `None` if it is malformed.
pub open spec fn capability_chain(cfg: Seq<u8>, cap_pointer: u8) -> Option<Seq<CapabilityRecord>> {
    chain_from(cfg, cap_pointer, MAX_CAPABILITIES as nat)
}

/// The offset reached from `cap_pointer` after `hops` next pointers; 0 once
/// the chain has ended or left configuration space.
pub open spec fn offset_after(cfg: Seq<u8>, cap_pointer: u8, hops: nat) -> u8
    decreases hops,
{
    if hops == 0 {
        cap_pointer
    } else {
        let before = offset_after(cfg, cap_pointer, (hops - 1) as nat);
        if header_fits(before) {
            cfg[before + 1]
        } else {
            0
        }
    }
}

/// Whether `offsets` are the places of a chain of records that starts at
/// `cap_pointer`, each record pointing at the next and the last at 0.
pub open spec fn links_records(cfg: Seq<u8>, cap_pointer: u8, offsets: Seq<u8>) -> bool {
    &&& if offsets.len() == 0 {
        cap_pointer == 0
    } else {
        offsets[0] == cap_pointer && cfg[offsets.last() + 1] == 0
    }
    &&& forall|i: int| 0 <= i < offsets.len() ==> header_fits(#[trigger] offsets[i])
    &&& forall|i: int|
        0 <= i < offsets.len() - 1 ==> cfg[#[trigger] offsets[i] + 1] == offsets[i + 1]
}

impl CapabilityRecord {
    /// The address of the record, for a function whose configuration window
    /// lies at `function_address`.
    pub fn address(&self, function_address: usize) -> (addr: usize)
        requires
            function_address + 256 <= usize::MAX,
        ensures
            addr == function_address + self.offset,
    {
        function_address + self.offset as usize
    }
}

impl CapHeader {
    /// Reads the header of the record at `offset`.
    pub fn read(cfg: &ConfigSpace, offset: u8) -> (h: CapHeader)
        requires
            offset as int + 2 <= 256,
        ensures
            h == cap_header_at(cfg@, offset as int),
    {
        let at: usize = offset as usize;
        CapHeader { cap_id: cfg.read_u8(at), cap_next: cfg.read_u8(at + 1) }
    }
}

/// Walks the capability chain rooted at `cap_pointer` and returns its records
/// in link order: the empty list for a zero pointer. A chain that has not
/// ended after [`MAX_CAPABILITIES`] records, or that points at a record whose
/// header does not fit in configuration space, is reported as malformed.
pub fn traverse_cap_list(cfg: &ConfigSpace, cap_pointer: u8) -> (r: Result<
    Vec<CapabilityRecord>,
    BringupError,
>)
    ensures
        match r {
            Ok(records) => capability_chain(cfg@, cap_pointer) == Some(records@) && records@.len()
                <= MAX_CAPABILITIES,
            Err(e) => e == BringupError::MalformedCapabilityChain && capability_chain(
                cfg@,
                cap_pointer,
            ) is None,
        },
{
    let mut records: Vec<CapabilityRecord> = Vec::new();
    let mut offset: u8 = cap_pointer;
    while offset != 0
        invariant
            records@.len() <= 256,
            capability_chain(cfg@, cap_pointer) == match chain_from(
                cfg@,
                offset,
                (256 - records@.len()) as nat,
            ) {
                Some(rest) => Some(records@ + rest),
                None => None,
            },
        decreases 256 - records@.len(),
    {
        if records.len() >= MAX_CAPABILITIES || offset == 255 {
            return Err(BringupError::MalformedCapabilityChain);
        }
        let header: CapHeader = CapHeader::read(cfg, offset);
        records.push(CapabilityRecord { offset, header });
        offset = header.cap_next;
    }
    Ok(records)
}

/// The records that lie at `offsets`, in that order.
pub open spec fn records_at(cfg: Seq<u8>, offsets: Seq<u8>) -> Seq<CapabilityRecord> {
    Seq::new(offsets.len(), |i: int| record_at(cfg, offsets[i]))
}

proof fn lemma_linked_suffix_is_walked(cfg: Seq<u8>, offsets: Seq<u8>, from: int, hops: nat)
    requires
        0 <= from <= offsets.len(),
        hops >= offsets.len() - from,
        offsets.len() > 0 ==> cfg[offsets.last() + 1] == 0,
        forall|i: int| 0 <= i < offsets.len() ==> header_fits(#[trigger] offsets[i]),
        forall|i: int|
            0 <= i < offsets.len() - 1 ==> cfg[#[trigger] offsets[i] + 1] == offsets[i + 1],
    ensures
        chain_from(
            cfg,
            if from < offsets.len() {
                offsets[from]
            } else {
                0
            },
            hops,
        ) == Some(records_at(cfg, offsets.subrange(from, offsets.len() as int))),
    decreases offsets.len() - from,
{
    let tail = offsets.subrange(from, offsets.len() as int);
    if from == offsets.len() {
        assert(records_at(cfg, tail) =~= Seq::empty());
    } else {
        let here = offsets[from];
        assert(header_fits(here));
        let next: u8 = if from + 1 < offsets.len() {
            offsets[from + 1]
        } else {
            0
        };
        assert(cfg[here + 1] == next);
        lemma_linked_suffix_is_walked(cfg, offsets, from + 1, (hops - 1) as nat);
        let rest = records_at(cfg, offsets.subrange(from + 1, offsets.len() as int));
        assert(seq![record_at(cfg, here)] + rest =~= records_at(cfg, tail));
    }
}

proof fn lemma_linked_offsets_repeat(cfg: Seq<u8>, offsets: Seq<u8>, i: int, j: int, k: int)
    requires
        0 <= i < j,
        0 <= k,
        j + k < offsets.len(),
        offsets[i] == offsets[j],
        forall|m: int|
            0 <= m < offsets.len() - 1 ==> cfg[#[trigger] offsets[m] + 1] == offsets[m + 1],
    ensures
        offsets[i + k] == offsets[j + k],
    decreases k,
{
    if k > 0 {
        lemma_linked_offsets_repeat(cfg, offsets, i, j, k - 1);
        assert(cfg[offsets[i + k - 1] + 1] == offsets[i + k - 1 + 1]);
        assert(cfg[offsets[j + k - 1] + 1] == offsets[j + k - 1 + 1]);
    }
}

proof fn lemma_linked_offsets_are_distinct(cfg: Seq<u8>, cap_pointer: u8, offsets: Seq<u8>)
    requires
        links_records(cfg, cap_pointer, offsets),
    ensures
        offsets.no_duplicates(),
        offsets.len() <= 256,
{
    let n = offsets.len() as int;
    assert forall|i: int, j: int| 0 <= i < n && 0 <= j < n && i != j implies offsets[i]
        != offsets[j] by {
        let lo = if i < j {
            i
        } else {
            j
        };
        let hi = if i < j {
            j
        } else {
            i
        };
        if offsets[lo] == offsets[hi] {
            let k = n - 1 - hi;
            lemma_linked_offsets_repeat(cfg, offsets, lo, hi, k);
            let m = lo + k;
            assert(offsets[m] == offsets[n - 1]);
            assert(cfg[offsets[m] + 1] == offsets[m + 1]);
            assert(header_fits(offsets[m + 1]));
            assert(offsets.last() == offsets[n - 1]);
            assert(false);
        }
    }
    let places = Seq::new(offsets.len(), |i: int| offsets[i] as int);
    assert(places.no_duplicates());
    places.unique_seq_to_set();
    lemma_int_range(0, 256);
    assert(places.to_set().subset_of(set_int_range(0, 256))) by {
        assert forall|x: int| places.to_set().contains(x) implies set_int_range(0, 256).contains(
            x,
        ) by {
            let i = choose|i: int| 0 <= i < places.len() && places[i] == x;
            assert(places[i] == offsets[i] as int);
        }
    }
    lemma_len_subset(places.to_set(), set_int_range(0, 256));
}

/// A chain that ends is walked in full: whatever its length, the walk yields
/// exactly its records, in link order.
pub proof fn lemma_walk_visits_every_record(cfg: Seq<u8>, cap_pointer: u8, offsets: Seq<u8>)
    requires
        links_records(cfg, cap_pointer, offsets),
    ensures
        capability_chain(cfg, cap_pointer) == Some(records_at(cfg, offsets)),
{
    lemma_linked_offsets_are_distinct(cfg, cap_pointer, offsets);
    lemma_linked_suffix_is_walked(cfg, offsets, 0, MAX_CAPABILITIES as nat);
    assert(offsets.subrange(0, offsets.len() as int) =~= offsets);
}

proof fn lemma_offset_after_shift(cfg: Seq<u8>, cap_pointer: u8, hops: nat)
    requires
        header_fits(cap_pointer),
    ensures
        offset_after(cfg, cfg[cap_pointer + 1], hops) == offset_after(cfg, cap_pointer, hops + 1),
    decreases hops,
{
    if hops > 0 {
        lemma_offset_after_shift(cfg, cap_pointer, (hops - 1) as nat);
    } else {
        assert(offset_after(cfg, cap_pointer, 0) == cap_pointer);
    }
}

proof fn lemma_endless_chain_is_malformed(cfg: Seq<u8>, cap_pointer: u8, hops: nat)
    requires
        forall|k: nat| offset_after(cfg, cap_pointer, k) != 0,
    ensures
        chain_from(cfg, cap_pointer, hops) is None,
    decreases hops,
{
    assert(offset_after(cfg, cap_pointer, 0) != 0);
    if hops > 0 && header_fits(cap_pointer) {
        let next = cfg[cap_pointer + 1];
        assert forall|k: nat| offset_after(cfg, next, k) != 0 by {
            lemma_offset_after_shift(cfg, cap_pointer, k);
            assert(offset_after(cfg, cap_pointer, k + 1) != 0);
        }
        lemma_endless_chain_is_malformed(cfg, next, (hops - 1) as nat);
    }
}

proof fn lemma_offset_after_stays_zero(cfg: Seq<u8>, cap_pointer: u8, at: nat, later: nat)
    requires
        at <= later,
        offset_after(cfg, cap_pointer, at) == 0,
    ensures
        offset_after(cfg, cap_pointer, later) == 0,
    decreases later,
{
    if at < later {
        lemma_offset_after_stays_zero(cfg, cap_pointer, at, (later - 1) as nat);
    }
}

proof fn lemma_offset_after_repeats(
    cfg: Seq<u8>,
    cap_pointer: u8,
    first: nat,
    period: nat,
    k: nat,
)
    requires
        offset_after(cfg, cap_pointer, first) == offset_after(cfg, cap_pointer, first + period),
    ensures
        offset_after(cfg, cap_pointer, first + k) == offset_after(
            cfg,
            cap_pointer,
            first + period + k,
        ),
    decreases k,
{
    if k > 0 {
        lemma_offset_after_repeats(cfg, cap_pointer, first, period, (k - 1) as nat);
    }
}

proof fn lemma_offset_after_cycles(
    cfg: Seq<u8>,
    cap_pointer: u8,
    first: nat,
    period: nat,
    rounds: nat,
)
    requires
        offset_after(cfg, cap_pointer, first) == offset_after(cfg, cap_pointer, first + period),
    ensures
        offset_after(cfg, cap_pointer, first + rounds * period) == offset_after(
            cfg,
            cap_pointer,
            first,
        ),
    decreases rounds,
{
    if rounds > 0 {
        lemma_offset_after_cycles(cfg, cap_pointer, first, period, (rounds - 1) as nat);
        let k = ((rounds - 1) * period) as nat;
        lemma_offset_after_repeats(cfg, cap_pointer, first, period, k);
        assert(first + period + k == first + rounds * period) by (nonlinear_arith)
            requires
                k == (rounds - 1) * period,
        ;
    } else {
        assert(first + rounds * period == first) by (nonlinear_arith)
            requires
                rounds == 0,
        ;
    }
}

/// A chain that comes back to a record it has visited is reported as
/// malformed: the walk ends without a list of records.
pub proof fn lemma_cycle_is_malformed(cfg: Seq<u8>, cap_pointer: u8, first: nat, again: nat)
    requires
        first < again,
        offset_after(cfg, cap_pointer, first) != 0,
        offset_after(cfg, cap_pointer, first) == offset_after(cfg, cap_pointer, again),
    ensures
        capability_chain(cfg, cap_pointer) is None,
{
    let period = (again - first) as nat;
    assert forall|k: nat| offset_after(cfg, cap_pointer, k) != 0 by {
        if offset_after(cfg, cap_pointer, k) == 0 {
            lemma_offset_after_cycles(cfg, cap_pointer, first, period, k);
            assert(first + k * period >= k) by (nonlinear_arith)
                requires
                    period >= 1,
                    first >= 0,
                    k >= 0,
            ;
            lemma_offset_after_stays_zero(cfg, cap_pointer, k, (first + k * period) as nat);
        }
    }
    lemma_endless_chain_is_malformed(cfg, cap_pointer, MAX_CAPABILITIES as nat);
}

/// The vendor-specific capability by which a virtio device says where one of
/// its configuration structures lies: in which BAR, and at what offset.
#[derive(Clone, Copy, Debug, PartialEq, Eq)]
pub struct VirtioPciCap {
    pub cap_vndr: u8,
    pub cap_next: u8,
    pub cap_len: u8,
    pub cfg_type: u8,
    pub bar: u8,
    pub id: u8,
    pub padding: [u8; 2],
    pub offset: u32,
    pub length: u32,
}

/// Whether a virtio capability record at `offset` lies inside configuration
/// space.
pub open spec fn virtio_cap_fits(offset: u8) -> bool {
    offset as int + 16 <= 256
}

/// The virtio capability record at `at`.
pub open spec fn virtio_cap_at(cfg: Seq<u8>, at: int) -> VirtioPciCap {
    VirtioPciCap {
        cap_vndr: cfg[at],
        cap_next: cfg[at + 1],
        cap_len: cfg[at + 2],
        cfg_type: cfg[at + 3],
        bar: cfg[at + 4],
        id: cfg[at + 5],
        padding: [cfg[at + 6], cfg[at + 7]],
        offset: le32(cfg, at + 8) as u32,
        length: le32(cfg, at + 12) as u32,
    }
}

impl VirtioPciCap {
    /// Reads the virtio capability record at `offset`.
    pub fn read(cfg: &ConfigSpace, offset: u8) -> (cap: VirtioPciCap)
        requires
            virtio_cap_fits(offset),
        ensures
            cap == virtio_cap_at(cfg@, offset as int),
    {
        let at: usize = offset as usize;
        VirtioPciCap {
            cap_vndr: cfg.read_u8(at),
            cap_next: cfg.read_u8(at + 1),
            cap_len: cfg.read_u8(at + 2),
            cfg_type: cfg.read_u8(at + 3),
            bar: cfg.read_u8(at + 4),
            id: cfg.read_u8(at + 5),
            padding: [cfg.read_u8(at + 6), cfg.read_u8(at + 7)],
            offset: cfg.read_u32(at + 8),
            length: cfg.read_u32(at + 12),
        }
    }
}

/// Whether every vendor-specific record among `records` has room for a
/// virtio capability.
pub open spec fn vendor_records_fit(records: Seq<CapabilityRecord>) -> bool {
    forall|i: int|
        0 <= i < records.len() && (#[trigger] records[i]).header.cap_id == VENDOR_SPECIFIC
            ==> virtio_cap_fits(records[i].offset)
}

/// The vendor-specific records among `records`, read as virtio capabilities,
/// in the order of `records`.
pub open spec fn virtio_caps_of(cfg: Seq<u8>, records: Seq<CapabilityRecord>) -> Seq<VirtioPciCap>
    decreases records.len(),
{
    if records.len() == 0 {
        Seq::empty()
    } else {
        let before = virtio_caps_of(cfg, records.drop_last());
        if records.last().header.cap_id == VENDOR_SPECIFIC {
            before.push(virtio_cap_at(cfg, records.last().offset as int))
        } else {
            before
        }
    }
}

/// The virtio capabilities of the chain rooted at `cap_pointer`, in link
/// order. `None` when the chain is malformed or one of its vendor-specific
/// records does not fit in configuration space.
pub open spec fn virtio_caps(cfg: Seq<u8>, cap_pointer: u8) -> Option<Seq<VirtioPciCap>> {
    match capability_chain(cfg, cap_pointer) {
        Some(records) => if vendor_records_fit(records) {
            Some(virtio_caps_of(cfg, records))
        } else {
            None
        },
        None => None,
    }
}

/// Collects the vendor-specific records of the chain rooted at `cap_pointer`
/// as virtio capabilities, in link order.
pub fn disp_cap_list(cfg: &ConfigSpace, cap_pointer: u8) -> (r: Result<
    Vec<VirtioPciCap>,
    BringupError,
>)
    ensures
        match r {
            Ok(caps) => virtio_caps(cfg@, cap_pointer) == Some(caps@),
            Err(e) => e == BringupError::MalformedCapabilityChain && virtio_caps(
                cfg@,
                cap_pointer,
            ) is None,
        },
{
    let records: Vec<CapabilityRecord> = match traverse_cap_list(cfg, cap_pointer) {
        Ok(records) => records,
        Err(e) => {
            return Err(e);
        },
    };
    let mut caps: Vec<VirtioPciCap> = Vec::new();
    let mut i: usize = 0;
    while i < records.len()
        invariant
            i <= records@.len(),
            capability_chain(cfg@, cap_pointer) == Some(records@),
            vendor_records_fit(records@.subrange(0, i as int)),
            caps@ == virtio_caps_of(cfg@, records@.subrange(0, i as int)),
        decreases records@.len() - i,
    {
        let record: CapabilityRecord = records[i];
        let ghost seen = records@.subrange(0, i as int);
        let ghost next = records@.subrange(0, i + 1);
        proof {
            assert(next.drop_last() =~= seen);
        }
        if record.header.cap_id == VENDOR_SPECIFIC {
            if record.offset > 240 {
                return Err(BringupError::MalformedCapabilityChain);
            }
            caps.push(VirtioPciCap::read(cfg, record.offset));
        }
        i += 1;
    }
    proof {
        assert(records@.subrange(0, i as int) =~= records@);
    }
    Ok(caps)
}

/// The value of base address register `bar`.
pub fn get_bar_value(cfg: &ConfigSpace, bar: usize) -> (value: u32)
    requires
        bar < 6,
    ensures
        value == spec_bar(cfg@, bar as int),
{
    cfg.read_u32(OFFSET_BAR0 + 4 * bar)
}

/// Points base address register `bar` at `value`. Every other register keeps
/// its value.
pub fn set_bar_value(cfg: &mut ConfigSpace, bar: usize, value: u32)
    requires
        bar < 6,
    ensures
        final(cfg)@ == splice(old(cfg)@, 0x10 + 4 * bar, le32_bytes(value)),
        spec_bar(final(cfg)@, bar as int) == value,
        forall|other: int|
            0 <= other < 6 && other != bar ==> #[trigger] spec_bar(final(cfg)@, other) == spec_bar(
                old(cfg)@,
                other,
            ),
{
    cfg.write_u32(OFFSET_BAR0 + 4 * bar, value);
}

/// The size of the region behind a base address register. Sizing a region
/// takes a write to the device and a read back; from a snapshot nothing is
/// known, and the answer is 0.
#[allow(unused_variables)]
pub fn get_bar_region_size(config_addr: usize, bar: usize) -> (size: usize)
    ensures
        size == 0,
{
    0
}

/// The command register with memory space and bus mastering switched on.
pub open spec fn spec_enabled_command(command: u16) -> u16 {
    command | 0b110
}

/// Lets the function answer memory accesses and master the bus: sets bits 1
/// and 2 of the command register and leaves the rest of configuration space
/// as it is.
pub fn enable_device(cfg: &mut ConfigSpace)
    ensures
        final(cfg)@ == splice(
            old(cfg)@,
            0x04,
            le16_bytes(spec_enabled_command(spec_command(old(cfg)@) as u16)),
        ),
        spec_command(final(cfg)@) == spec_enabled_command(spec_command(old(cfg)@) as u16),
{
    let command: u16 = cfg.command();
    assert(command | (0b100u16 | 0b10u16) == command | 0b110u16) by (bit_vector);
    cfg.write_u16(OFFSET_COMMAND, command | (COMMAND_BUS_MASTER | COMMAND_MEMORY_SPACE));
}

/// Prepares a display adapter with a type-0 header: switches memory space on
/// and points BAR 0 at `frame_buffer` and BAR 2 at `mmio_base`. With any other
/// header type only memory space is switched on. Returns whether the BARs
/// were set.
pub fn write_vga(cfg: &mut ConfigSpace, frame_buffer: u32, mmio_base: u32) -> (remapped: bool)
    ensures
        remapped == (old(cfg)@[0x0E] == 0),
        final(cfg)@ == {
            let with_memory = splice(
                old(cfg)@,
                0x04,
                le16_bytes(spec_command(old(cfg)@) as u16 | 0b10),
            );
            if remapped {
                splice(
                    splice(with_memory, 0x10, le32_bytes(frame_buffer)),
                    0x18,
                    le32_bytes(mmio_base),
                )
            } else {
                with_memory
            }
        },
{
    let command: u16 = cfg.command();
    cfg.write_u16(OFFSET_COMMAND, command | COMMAND_MEMORY_SPACE);
    if cfg.header_type() != 0 {
        return false;
    }
    set_bar_value(cfg, 0, frame_buffer);
    set_bar_value(cfg, 2, mmio_base);
    true
}

/// The status register of a function.
#[derive(Clone, Copy, Debug, PartialEq, Eq, Structural)]
pub struct StatusRegister(pub u16);

impl StatusRegister {
    /// Whether bit `bit` of the register is set.
    pub open spec fn spec_bit(&self, bit: u16) -> bool {
        (self.0 >> bit) & 1 == 1
    }

    /// Bit 0: the function is ready as soon as it leaves reset.
    pub fn immediate_readiness(&self) -> (b: bool)
        ensures
            b == self.spec_bit(0),
    {
        let value: u16 = self.0;
        assert(value & 1 == (value >> 0u16) & 1) by (bit_vector);
        value & 1 == 1
    }

    /// Bit 3: an interrupt is pending.
    pub fn interrupt_status(&self) -> (b: bool)
        ensures
            b == self.spec_bit(3),
    {
        (self.0 >> 3) & 1 == 1
    }

    /// Bit 4: the function has a capability chain.
    pub fn capabilities_list(&self) -> (b: bool)
        ensures
            b == self.spec_bit(4),
    {
        (self.0 >> 4) & 1 == 1
    }

    /// Bit 8: the function, as bus master, saw a data parity error.
    pub fn master_data_parity_error(&self) -> (b: bool)
        ensures
            b == self.spec_bit(8),
    {
        (self.0 >> 8) & 1 == 1
    }

    /// Bit 11: the function ended a transaction with target abort.
    pub fn signaled_target_abort(&self) -> (b: bool)
        ensures
            b == self.spec_bit(11),
    {
        (self.0 >> 11) & 1 == 1
    }

    /// Bit 12: a transaction of the function was ended with target abort.
    pub fn received_target_abort(&self) -> (b: bool)
        ensures
            b == self.spec_bit(12),
    {
        (self.0 >> 12) & 1 == 1
    }

    /// Bit 13: a transaction of the function was ended with master abort.
    pub fn received_master_abort(&self) -> (b: bool)
        ensures
            b == self.spec_bit(13),
    {
        (self.0 >> 13) & 1 == 1
    }

    /// Bit 14: the function signaled a system error.
    pub fn signaled_system_error(&self) -> (b: bool)
        ensures
            b == self.spec_bit(14),
    {
        (self.0 >> 14) & 1 == 1
    }

    /// Bit 15: the function saw a parity error.
    pub fn detected_parity_error(&self) -> (b: bool)
        ensures
            b == self.spec_bit(15),
    {
        (self.0 >> 15) & 1 == 1
    }
}

/// The fields that only a type-0 header has, with the sixteen bytes of the
/// common header before them.
#[derive(Clone, Copy, Debug, PartialEq, Eq)]
pub struct PCIConfigurationSpcaeHeaderType0 {
    pub __padding: [u8; 16],
    pub base_address_registers: [u8; 24],
    pub cardbus_cis_pointer: u32,
    pub subsystem_vendor_id: u16,
    pub subsystem_id: u16,
    pub expansion_rom_base_address: u32,
    pub capabilities_pointer: u8,
    pub reserved: [u8; 7],
    pub interrupt_line: u8,
    pub interrupt_pin: u8,
    pub min_gnt: u8,
    pub max_lat: u8,
}

impl PCIConfigurationSpcaeHeaderType0 {
    /// Whether the header holds the first 64 bytes of `cfg`, field by field.
    pub open spec fn is_header_of(&self, cfg: Seq<u8>) -> bool {
        &&& self.__padding@ == cfg.subrange(0x00, 0x10)
        &&& self.base_address_registers@ == cfg.subrange(0x10, 0x28)
        &&& self.cardbus_cis_pointer == le32(cfg, 0x28)
        &&& self.subsystem_vendor_id == le16(cfg, 0x2C)
        &&& self.subsystem_id == le16(cfg, 0x2E)
        &&& self.expansion_rom_base_address == le32(cfg, 0x30)
        &&& self.capabilities_pointer == cfg[0x34]
        &&& self.reserved@ == cfg.subrange(0x35, 0x3C)
        &&& self.interrupt_line == cfg[0x3C]
        &&& self.interrupt_pin == cfg[0x3D]
        &&& self.min_gnt == cfg[0x3E]
        &&& self.max_lat == cfg[0x3F]
    }

    /// Reads the type-0 header of a function.
    pub fn read(cfg: &ConfigSpace) -> (header: PCIConfigurationSpcaeHeaderType0)
        ensures
            header.is_header_of(cfg@),
    {
        let mut padding: [u8; 16] = [0u8; 16];
        let mut bars: [u8; 24] = [0u8; 24];
        let mut reserved: [u8; 7] = [0u8; 7];
        let mut i: usize = 0;
        while i < 16
            invariant
                i <= 16,
                forall|k: int| 0 <= k < i ==> padding@[k] == cfg@[k],
            decreases 16 - i,
        {
            padding[i] = cfg.read_u8(i);
            i += 1;
        }
        i = 0;
        while i < 24
            invariant
                i <= 24,
                forall|k: int| 0 <= k < i ==> bars@[k] == cfg@[0x10 + k],
            decreases 24 - i,
        {
            bars[i] = cfg.read_u8(0x10 + i);
            i += 1;
        }
        i = 0;
        while i < 7
            invariant
                i <= 7,
                forall|k: int| 0 <= k < i ==> reserved@[k] == cfg@[0x35 + k],
            decreases 7 - i,
        {
            reserved[i] = cfg.read_u8(0x35 + i);
            i += 1;
        }
        proof {
            assert(padding@ =~= cfg@.subrange(0x00, 0x10));
            assert(bars@ =~= cfg@.subrange(0x10, 0x28));
            assert(reserved@ =~= cfg@.subrange(0x35, 0x3C));
        }
        PCIConfigurationSpcaeHeaderType0 {
            __padding: padding,
            base_address_registers: bars,
            cardbus_cis_pointer: cfg.read_u32(0x28),
            subsystem_vendor_id: cfg.read_u16(0x2C),
            subsystem_id: cfg.read_u16(0x2E),
            expansion_rom_base_address: cfg.read_u32(0x30),
            capabilities_pointer: cfg.read_u8(0x34),
            reserved,
            interrupt_line: cfg.read_u8(0x3C),
            interrupt_pin: cfg.read_u8(0x3D),
            min_gnt: cfg.read_u8(0x3E),
            max_lat: cfg.read_u8(0x3F),
        }
    }
}

/// Functions on bus 0: 32 devices of 8 functions.
pub const FUNCTIONS_PER_BUS: usize = 256;

/// Bytes between the configuration windows of two functions.
pub const FUNCTION_STRIDE: usize = 0x1000;

/// Bytes between the configuration windows of two devices.
pub const DEVICE_STRIDE: usize = 0x8000;

/// The address of the configuration window of function `func_num` of device
/// `dev_num` on bus 0, for configuration space mapped at `pci_base_addr`.
pub open spec fn spec_function_address(pci_base_addr: int, dev_num: int, func_num: int) -> int {
    pci_base_addr + 0x8000 * dev_num + 0x1000 * func_num
}

/// The address of the configuration window of function `func_num` of device
/// `dev_num` on bus 0.
pub fn function_address(pci_base_addr: usize, dev_num: usize, func_num: usize) -> (addr: usize)
    requires
        dev_num < 32,
        func_num < 8,
        pci_base_addr + 0x10_0000 <= usize::MAX,
    ensures
        addr == spec_function_address(pci_base_addr as int, dev_num as int, func_num as int),
{
    pci_base_addr + DEVICE_STRIDE * dev_num + FUNCTION_STRIDE * func_num
}

/// The configuration spaces of the functions of bus 0. Function `f` of device
/// `d` stands at index `8 * d + f`.
#[derive(Debug, PartialEq, Eq)]
pub struct PciBus {
    pub functions: Vec<ConfigSpace>,
}

/// What enumeration reports of a function that is present.
#[derive(Clone, Copy, Debug, PartialEq, Eq, Structural)]
pub struct PciFunction {
    pub dev_num: u8,
    pub func_num: u8,
    pub vendor_id: u16,
    pub device_id: u16,
    pub header_type: u8,
    pub status: u16,
    /// The capability pointer, for a type-0 header.
    pub capabilities_pointer: Option<u8>,
}

/// Whether a function is present in `cfg` and has the given ids.
pub open spec fn is_device(cfg: Seq<u8>, vendor_id: u16, device_id: u16) -> bool {
    &&& spec_vendor_id(cfg) != VENDOR_ABSENT
    &&& spec_vendor_id(cfg) == vendor_id
    &&& spec_device_id(cfg) == device_id
}

/// What enumeration reports of the function in slot `slot` of the bus.
pub open spec fn function_report(cfg: Seq<u8>, slot: int) -> PciFunction {
    PciFunction {
        dev_num: (slot / 8) as u8,
        func_num: (slot % 8) as u8,
        vendor_id: spec_vendor_id(cfg) as u16,
        device_id: spec_device_id(cfg) as u16,
        header_type: cfg[0x0E],
        status: spec_status(cfg) as u16,
        capabilities_pointer: if cfg[0x0E] == 0 {
            Some(cfg[0x34])
        } else {
            None
        },
    }
}

/// The reports of the functions present among the first `slots` slots of the
/// bus, in slot order.
pub open spec fn present_functions(functions: Seq<ConfigSpace>, slots: nat) -> Seq<PciFunction>
    decreases slots,
{
    if slots == 0 {
        Seq::empty()
    } else {
        let before = present_functions(functions, (slots - 1) as nat);
        let cfg = functions[slots - 1]@;
        if spec_vendor_id(cfg) != VENDOR_ABSENT {
            before.push(function_report(cfg, slots - 1))
        } else {
            before
        }
    }
}

impl PciBus {
    /// Whether the bus has a configuration space for each of its 256
    /// functions.
    pub open spec fn wf(&self) -> bool {
        self.functions@.len() == 256
    }

    /// A bus on which no function is present.
    pub fn empty() -> (bus: PciBus)
        ensures
            bus.wf(),
            forall|slot: int|
                0 <= slot < 256 ==> is_absent(#[trigger] bus.functions@[slot]@),
    {
        let mut functions: Vec<ConfigSpace> = Vec::new();
        let mut i: usize = 0;
        while i < FUNCTIONS_PER_BUS
            invariant
                i <= 256,
                functions@.len() == i,
                forall|slot: int| 0 <= slot < i ==> is_absent(#[trigger] functions@[slot]@),
            decreases 256 - i,
        {
            functions.push(ConfigSpace::absent());
            i += 1;
        }
        PciBus { functions }
    }

    /// Puts `cfg` in the place of function `func_num` of device `dev_num`.
    pub fn set_function(&mut self, dev_num: usize, func_num: usize, cfg: ConfigSpace)
        requires
            old(self).wf(),
            dev_num < 32,
            func_num < 8,
        ensures
            final(self).functions@ == old(self).functions@.update(8 * dev_num + func_num, cfg),
            final(self).wf(),
    {
        self.functions[FUNCTIONS_PER_DEVICE * dev_num + func_num] = cfg;
    }
}

/// Finds the first function of bus 0, devices and functions in rising order,
/// that is present and has the given vendor and device id, and returns the
/// address of its configuration window. An absent function matches no ids.
pub fn find_device(bus: &PciBus, pci_base_addr: usize, vendor_id: u16, device_id: u16) -> (r:
    Option<usize>)
    requires
        bus.wf(),
        pci_base_addr + 0x10_0000 <= usize::MAX,
    ensures
        match r {
            Some(addr) => exists|slot: int|
                {
                    &&& 0 <= slot < 256
                    &&& is_device(#[trigger] bus.functions@[slot]@, vendor_id, device_id)
                    &&& forall|earlier: int|
                        0 <= earlier < slot ==> !is_device(
                            #[trigger] bus.functions@[earlier]@,
                            vendor_id,
                            device_id,
                        )
                    &&& addr == spec_function_address(pci_base_addr as int, slot / 8, slot % 8)
                },
            None => forall|slot: int|
                0 <= slot < 256 ==> !is_device(
                    #[trigger] bus.functions@[slot]@,
                    vendor_id,
                    device_id,
                ),
        },
{
    let mut slot: usize = 0;
    while slot < FUNCTIONS_PER_BUS
        invariant
            slot <= 256,
            bus.wf(),
            pci_base_addr + 0x10_0000 <= usize::MAX,
            forall|earlier: int|
                0 <= earlier < slot ==> !is_device(
                    #[trigger] bus.functions@[earlier]@,
                    vendor_id,
                    device_id,
                ),
        decreases 256 - slot,
    {
        let cfg: &ConfigSpace = &bus.functions[slot];
        if cfg.is_present() && cfg.vendor_id() == vendor_id && cfg.device_id() == device_id {
            return Some(function_address(pci_base_addr, slot / 8, slot % 8));
        }
        slot += 1;
    }
    None
}

/// Enumerates bus 0: reports every function that is present, devices and
/// functions in rising order, and skips the absent ones.
pub fn list_pci(bus: &PciBus) -> (found: Vec<PciFunction>)
    requires
        bus.wf(),
    ensures
        found@ == present_functions(bus.functions@, 256),
{
    let mut found: Vec<PciFunction> = Vec::new();
    let mut slot: usize = 0;
    while slot < FUNCTIONS_PER_BUS
        invariant
            slot <= 256,
            bus.wf(),
            found@ == present_functions(bus.functions@, slot as nat),
        decreases 256 - slot,
    {
        let cfg: &ConfigSpace = &bus.functions[slot];
        if cfg.is_present() {
            let header_type: u8 = cfg.header_type();
            found.push(
                PciFunction {
                    dev_num: (slot / 8) as u8,
                    func_num: (slot % 8) as u8,
                    vendor_id: cfg.vendor_id(),
                    device_id: cfg.device_id(),
                    header_type,
                    status: cfg.status(),
                    capabilities_pointer: if header_type == 0 {
                        Some(cfg.capabilities_pointer())
                    } else {
                        None
                    },
                },
            );
        }
        slot += 1;
    }
    found
}

} // verus!
