//! MSI-X: reading the capability, and planning the writes that install an
//! interrupt vector in every table entry before interrupts are enabled.
//!
//! The table lies in a BAR window, the enable bit in configuration space, and
//! the order of the writes matters. [`enable_msix_inner`] therefore returns
//! the writes as an ordered list of [`MsixStep`]s for the caller to perform.

use crate::error::BringupError;
use crate::pci::{capability_chain, traverse_cap_list, CapabilityRecord, ConfigSpace, MIS_X};
use crate::wire::{le16, le32};
use vstd::prelude::*;

verus! {

/// Bytes of one entry of the MSI-X table.
pub const MSIX_ENTRY_SIZE: usize = 16;

/// The enable bit of message control.
pub const MSIX_ENABLE: u16 = 0x8000;

/// The bits of message control that hold the table size less one.
pub const MSIX_TABLE_SIZE_MASK: u16 = 0x7FF;

/// The MSI-X capability record.
#[derive(Clone, Copy, Debug, PartialEq, Eq, Structural)]
pub struct MSIXCapability {
    pub msix_cap_id: u8,
    pub next_cap_pointer: u8,
    pub message_control: u16,
    pub table_offset_and_bir: u32,
    pub pba_offset_and_bir: u32,
}

/// One entry of the MSI-X table.
#[derive(Clone, Copy, Debug, PartialEq, Eq, Structural)]
pub struct MSIXTableEntry {
    pub message_address: u32,
    pub message_address_high: u32,
    pub message_data: u32,
    pub vector_control: u32,
}

/// One word of the pending-bit array: bit `n` is set while vector `n` of the
/// word's 64 is pending.
#[derive(Clone, Copy, Debug, PartialEq, Eq, Structural)]
pub struct MSIXPBATableEntry(pub u64);

/// Whether an MSI-X capability record at `offset` lies inside configuration
/// space.
pub open spec fn msix_cap_fits(offset: u8) -> bool {
    offset as int + 12 <= 256
}

/// The MSI-X capability record at `at`.
pub open spec fn msix_cap_at(cfg: Seq<u8>, at: int) -> MSIXCapability {
    MSIXCapability {
        msix_cap_id: cfg[at],
        next_cap_pointer: cfg[at + 1],
        message_control: le16(cfg, at + 2) as u16,
        table_offset_and_bir: le32(cfg, at + 4) as u32,
        pba_offset_and_bir: le32(cfg, at + 8) as u32,
    }
}

impl MSIXCapability {
    /// Reads the MSI-X capability record at `offset`.
    pub fn read(cfg: &ConfigSpace, offset: u8) -> (cap: MSIXCapability)
        requires
            msix_cap_fits(offset),
        ensures
            cap == msix_cap_at(cfg@, offset as int),
    {
        let at: usize = offset as usize;
        MSIXCapability {
            msix_cap_id: cfg.read_u8(at),
            next_cap_pointer: cfg.read_u8(at + 1),
            message_control: cfg.read_u16(at + 2),
            table_offset_and_bir: cfg.read_u32(at + 4),
            pba_offset_and_bir: cfg.read_u32(at + 8),
        }
    }

    /// Byte offset of the table in its BAR.
    pub open spec fn spec_table_offset(&self) -> int {
        self.table_offset_and_bir - self.table_offset_and_bir % 4
    }

    /// Byte offset of the pending-bit array in its BAR.
    pub open spec fn spec_pba_offset(&self) -> int {
        self.pba_offset_and_bir - self.pba_offset_and_bir % 4
    }

    /// Index of the BAR that holds the table.
    pub open spec fn spec_table_bir(&self) -> int {
        (self.table_offset_and_bir % 4) as int
    }

    /// Index of the BAR that holds the pending-bit array.
    pub open spec fn spec_pba_bir(&self) -> int {
        (self.pba_offset_and_bir % 4) as int
    }

    /// Number of entries of the table.
    pub open spec fn spec_table_size(&self) -> int {
        self.message_control % 0x800 + 1
    }

    /// Message control with the enable bit set or cleared.
    pub open spec fn spec_with_enable(&self, enable: bool) -> int {
        if enable {
            self.message_control % 0x8000 + 0x8000
        } else {
            (self.message_control % 0x8000) as int
        }
    }

    /// Byte offset of the table in its BAR: the field without its two lowest
    /// bits.
    pub fn get_table_offset(&self) -> (offset: u32)
        ensures
            offset == self.spec_table_offset(),
    {
        let field: u32 = self.table_offset_and_bir;
        assert(field & !0b11u32 == field - field % 4) by (bit_vector);
        field & !(0b11)
    }

    /// Byte offset of the pending-bit array in its BAR.
    pub fn get_pba_offset(&self) -> (offset: u32)
        ensures
            offset == self.spec_pba_offset(),
    {
        let field: u32 = self.pba_offset_and_bir;
        assert(field & !0b11u32 == field - field % 4) by (bit_vector);
        field & !(0b11)
    }

    /// Number of entries of the table: the low eleven bits of message
    /// control, plus one.
    pub fn table_size(&self) -> (size: u16)
        ensures
            size == self.spec_table_size(),
            1 <= size <= 0x800,
    {
        let control: u16 = self.message_control;
        assert(control & 0x7FFu16 == control % 0x800) by (bit_vector);
        let n_minus_1: u16 = control & MSIX_TABLE_SIZE_MASK;
        n_minus_1 + 1
    }

    /// Sets or clears the enable bit, bit 15 of message control.
    pub fn set_enable(&mut self, enable: bool)
        ensures
            final(self).message_control == old(self).spec_with_enable(enable),
            *final(self) == (MSIXCapability {
                message_control: final(self).message_control,
                ..*old(self)
            }),
    {
        let control: u16 = self.message_control;
        if enable {
            assert(control | 0x8000u16 == control % 0x8000 + 0x8000) by (bit_vector);
            self.message_control = control | MSIX_ENABLE;
        } else {
            assert(control & !0x8000u16 == control % 0x8000) by (bit_vector);
            self.message_control = control & !MSIX_ENABLE;
        }
    }

    /// Index of the BAR that holds the table: the two lowest bits of the
    /// field.
    pub fn get_table_bir(&self) -> (bir: u32)
        ensures
            bir == self.spec_table_bir(),
            bir < 4,
    {
        let field: u32 = self.table_offset_and_bir;
        assert(field & 0b11u32 == field % 4) by (bit_vector);
        field & 0b11
    }

    /// Index of the BAR that holds the pending-bit array.
    pub fn get_pba_bir(&self) -> (bir: u32)
        ensures
            bir == self.spec_pba_bir(),
            bir < 4,
    {
        let field: u32 = self.pba_offset_and_bir;
        assert(field & 0b11u32 == field % 4) by (bit_vector);
        field & 0b11
    }
}

/// A table entry to store at an address of the BAR window.
#[derive(Clone, Copy, Debug, PartialEq, Eq, Structural)]
pub struct MsixTableWrite {
    pub address: usize,
    pub entry: MSIXTableEntry,
}

/// One write of an MSI-X bring-up.
#[derive(Clone, Copy, Debug, PartialEq, Eq, Structural)]
pub enum MsixStep {
    /// Store `base` in base address register `bar`.
    RemapBar { bar: u8, base: u32 },
    /// Store a table entry in the BAR window.
    ProgramEntry(MsixTableWrite),
    /// Store `message_control` in the 16-bit register at `offset` of
    /// configuration space.
    Enable { offset: u8, message_control: u16 },
}

/// The entry that sends an interrupt to `handler`: the handler's address as
/// message address, everything else zero, the vector unmasked.
pub open spec fn handler_entry(handler: u32) -> MSIXTableEntry {
    MSIXTableEntry {
        message_address: handler,
        message_address_high: 0,
        message_data: 0,
        vector_control: 0,
    }
}

/// The write that installs `handler` in entry `entry_index` of the table at
/// `table_addr`.
pub open spec fn handler_write(table_addr: int, entry_index: int, handler: u32) -> MsixTableWrite {
    MsixTableWrite {
        address: (table_addr + 16 * entry_index) as usize,
        entry: handler_entry(handler),
    }
}

/// The write that installs `handler` in entry `entry_index` of the table at
/// `table_addr`.
pub fn set_dummy_msix_interrupt_handler(table_addr: usize, entry_index: usize, handler: u32) -> (w:
    MsixTableWrite)
    requires
        table_addr + 16 * entry_index <= usize::MAX,
    ensures
        w == handler_write(table_addr as int, entry_index as int, handler),
{
    MsixTableWrite {
        address: table_addr + MSIX_ENTRY_SIZE * entry_index,
        entry: MSIXTableEntry {
            message_address: handler,
            message_address_high: 0,
            message_data: 0,
            vector_control: 0,
        },
    }
}

/// The writes that install `handler` in each of the `table_size` entries of
/// the table at `table_addr`, lowest entry first.
pub open spec fn handler_writes(table_addr: int, table_size: int, handler: u32) -> Seq<
    MsixTableWrite,
> {
    Seq::new(table_size as nat, |i: int| handler_write(table_addr, i, handler))
}

/// Installs the same handler in every entry of a table: one write per entry,
/// lowest entry first.
pub fn set_all_msix_interrupt_handler(table_addr: usize, table_size: usize, handler: u32) -> (writes:
    Vec<MsixTableWrite>)
    requires
        table_addr + 16 * table_size <= usize::MAX,
    ensures
        writes@ == handler_writes(table_addr as int, table_size as int, handler),
{
    let mut writes: Vec<MsixTableWrite> = Vec::new();
    let mut i: usize = 0;
    while i < table_size
        invariant
            i <= table_size,
            table_addr + 16 * table_size <= usize::MAX,
            writes@ == handler_writes(table_addr as int, i as int, handler),
        decreases table_size - i,
    {
        writes.push(set_dummy_msix_interrupt_handler(table_addr, i, handler));
        i += 1;
    }
    writes
}

/// The writes that bring up MSI-X for the capability `cap` found at
/// `cap_pointer`: the BAR that holds the table is pointed at `window`, then
/// `handler` is installed in every table entry, lowest first, and only then
/// the enable bit is set.
pub open spec fn msix_plan(cap: MSIXCapability, cap_pointer: u8, window: u32, handler: u32) -> Seq<
    MsixStep,
> {
    seq![MsixStep::RemapBar { bar: cap.spec_table_bir() as u8, base: window }] + Seq::new(
        cap.spec_table_size() as nat,
        |i: int|
            MsixStep::ProgramEntry(handler_write(window + cap.spec_table_offset(), i, handler)),
    ) + seq![
        MsixStep::Enable {
            offset: (cap_pointer + 2) as u8,
            message_control: cap.spec_with_enable(true) as u16,
        },
    ]
}

/// Whether the whole table lies at addresses that a `usize` holds, once its
/// BAR points at `window`.
pub open spec fn table_is_addressable(cap: MSIXCapability, window: u32) -> bool {
    window + cap.spec_table_offset() + 16 * cap.spec_table_size() <= usize::MAX
}

/// What [`enable_msix_inner`] returns.
pub open spec fn spec_enable_msix_inner(
    cfg: Seq<u8>,
    msix_cap_pointer: u8,
    window: u32,
    handler: u32,
) -> Result<Seq<MsixStep>, BringupError> {
    let cap = msix_cap_at(cfg, msix_cap_pointer as int);
    if !msix_cap_fits(msix_cap_pointer) {
        Err(BringupError::MalformedCapabilityChain)
    } else if cap.spec_table_bir() != cap.spec_pba_bir() || !table_is_addressable(cap, window) {
        Err(BringupError::UnsupportedLayout)
    } else {
        Ok(msix_plan(cap, msix_cap_pointer, window, handler))
    }
}

/// Whether a result holding a list says what a result holding a sequence
/// says.
pub open spec fn same_steps(
    r: Result<Vec<MsixStep>, BringupError>,
    expected: Result<Seq<MsixStep>, BringupError>,
) -> bool {
    match (r, expected) {
        (Ok(steps), Ok(plan)) => steps@ == plan,
        (Err(e), Err(f)) => e == f,
        _ => false,
    }
}

/// Plans the bring-up of MSI-X from the capability record at
/// `msix_cap_pointer`. The table and the pending-bit array must share a BAR;
/// that BAR is pointed at `window`. A table and pending-bit array in
/// different BARs are an unsupported layout, as is a table that would reach
/// past the addresses of this machine. A record that does not fit in
/// configuration space is malformed.
pub fn enable_msix_inner(cfg: &ConfigSpace, msix_cap_pointer: u8, window: u32, handler: u32) -> (r:
    Result<Vec<MsixStep>, BringupError>)
    ensures
        same_steps(r, spec_enable_msix_inner(cfg@, msix_cap_pointer, window, handler)),
{
    if msix_cap_pointer > 244 {
        return Err(BringupError::MalformedCapabilityChain);
    }
    let mut msix_cap: MSIXCapability = MSIXCapability::read(cfg, msix_cap_pointer);
    let ghost cap = msix_cap;
    let table_bar: u32 = msix_cap.get_table_bir();
    let pba_bar: u32 = msix_cap.get_pba_bir();
    let table_offset: u32 = msix_cap.get_table_offset();
    let table_size: u16 = msix_cap.table_size();
    if table_bar != pba_bar {
        return Err(BringupError::UnsupportedLayout);
    }
    let span: u64 = window as u64 + table_offset as u64 + 16 * (table_size as u64);
    if span > usize::MAX as u64 {
        return Err(BringupError::UnsupportedLayout);
    }
    let table_addr: usize = window as usize + table_offset as usize;
    let mut steps: Vec<MsixStep> = Vec::new();
    steps.push(MsixStep::RemapBar { bar: table_bar as u8, base: window });
    let writes: Vec<MsixTableWrite> = set_all_msix_interrupt_handler(
        table_addr,
        table_size as usize,
        handler,
    );
    let mut i: usize = 0;
    while i < writes.len()
        invariant
            i <= writes@.len(),
            table_bar < 4,
            steps@.len() == 1 + i,
            steps@[0] == (MsixStep::RemapBar { bar: table_bar as u8, base: window }),
            forall|k: int| 0 <= k < i ==> steps@[1 + k] == MsixStep::ProgramEntry(writes@[k]),
        decreases writes@.len() - i,
    {
        steps.push(MsixStep::ProgramEntry(writes[i]));
        i += 1;
    }
    msix_cap.set_enable(true);
    steps.push(
        MsixStep::Enable { offset: msix_cap_pointer + 2, message_control: msix_cap.message_control },
    );
    proof {
        let plan = msix_plan(cap, msix_cap_pointer, window, handler);
        assert forall|k: int| 0 <= k < plan.len() implies steps@[k] == plan[k] by {
            if 1 <= k <= table_size {
                assert(steps@[1 + (k - 1)] == MsixStep::ProgramEntry(writes@[k - 1]));
            }
        }
        assert(steps@ =~= plan);
    }
    Ok(steps)
}

/// The plans of the MSI-X records among `records`, one after another in the
/// order of the records; the first record that cannot be planned decides the
/// error.
pub open spec fn msix_plans(
    cfg: Seq<u8>,
    records: Seq<CapabilityRecord>,
    window: u32,
    handler: u32,
) -> Result<Seq<MsixStep>, BringupError>
    decreases records.len(),
{
    if records.len() == 0 {
        Ok(Seq::empty())
    } else {
        match msix_plans(cfg, records.drop_last(), window, handler) {
            Ok(before) => if records.last().header.cap_id == MIS_X {
                match spec_enable_msix_inner(cfg, records.last().offset, window, handler) {
                    Ok(plan) => Ok(before + plan),
                    Err(e) => Err(e),
                }
            } else {
                Ok(before)
            },
            Err(e) => Err(e),
        }
    }
}

/// What [`enable_msix`] returns.
pub open spec fn spec_enable_msix(cfg: Seq<u8>, cap_pointer: u8, window: u32, handler: u32) -> Result<
    Seq<MsixStep>,
    BringupError,
> {
    match capability_chain(cfg, cap_pointer) {
        Some(records) => msix_plans(cfg, records, window, handler),
        None => Err(BringupError::MalformedCapabilityChain),
    }
}

/// Walks the capability chain rooted at `cap_pointer` and plans the bring-up
/// of MSI-X for each MSI-X record on it. A chain without one yields an empty
/// plan.
pub fn enable_msix(cfg: &ConfigSpace, cap_pointer: u8, window: u32, handler: u32) -> (r: Result<
    Vec<MsixStep>,
    BringupError,
>)
    ensures
        same_steps(r, spec_enable_msix(cfg@, cap_pointer, window, handler)),
{
    let records: Vec<CapabilityRecord> = match traverse_cap_list(cfg, cap_pointer) {
        Ok(records) => records,
        Err(e) => {
            return Err(e);
        },
    };
    let mut steps: Vec<MsixStep> = Vec::new();
    let mut i: usize = 0;
    while i < records.len()
        invariant
            i <= records@.len(),
            capability_chain(cfg@, cap_pointer) == Some(records@),
            msix_plans(cfg@, records@.subrange(0, i as int), window, handler) == Ok::<
                Seq<MsixStep>,
                BringupError,
            >(steps@),
        decreases records@.len() - i,
    {
        let record: CapabilityRecord = records[i];
        let ghost next = records@.subrange(0, i + 1);
        proof {
            assert(next.drop_last() =~= records@.subrange(0, i as int));
        }
        if record.header.cap_id == MIS_X {
            match enable_msix_inner(cfg, record.offset, window, handler) {
                Ok(plan) => {
                    let mut plan = plan;
                    steps.append(&mut plan);
                },
                Err(e) => {
                    proof {
                        lemma_msix_plans_fail_early(cfg@, records@, i + 1, window, handler);
                    }
                    return Err(e);
                },
            }
        }
        i += 1;
    }
    proof {
        assert(records@.subrange(0, i as int) =~= records@);
    }
    Ok(steps)
}

proof fn lemma_msix_plans_fail_early(
    cfg: Seq<u8>,
    records: Seq<CapabilityRecord>,
    upto: int,
    window: u32,
    handler: u32,
)
    requires
        0 <= upto <= records.len(),
        msix_plans(cfg, records.subrange(0, upto), window, handler) is Err,
    ensures
        msix_plans(cfg, records, window, handler) == msix_plans(
            cfg,
            records.subrange(0, upto),
            window,
            handler,
        ),
    decreases records.len() - upto,
{
    if upto < records.len() {
        let next = records.subrange(0, upto + 1);
        assert(next.drop_last() =~= records.subrange(0, upto));
        lemma_msix_plans_fail_early(cfg, records, upto + 1, window, handler);
    } else {
        assert(records.subrange(0, upto) =~= records);
    }
}

/// In the plan for a table of `n` entries the first step remaps the BAR, the
/// next `n` steps program entries `0` to `n - 1` of the table, one step per
/// entry, and the one step that sets the enable bit is the last: it stores
/// message control with bit 15 set and the other bits as they were.
pub proof fn lemma_enable_comes_last(cap: MSIXCapability, cap_pointer: u8, window: u32, handler: u32)
    ensures
        ({
            let plan = msix_plan(cap, cap_pointer, window, handler);
            let n = cap.spec_table_size();
            &&& plan.len() == n + 2
            &&& plan[0] is RemapBar
            &&& plan[n + 1] matches MsixStep::Enable { message_control, .. }
            &&& message_control >= 0x8000
            &&& message_control % 0x8000 == cap.message_control % 0x8000
            &&& forall|i: int|
                0 <= i < n ==> #[trigger] plan[1 + i] == MsixStep::ProgramEntry(
                    handler_write(window + cap.spec_table_offset(), i, handler),
                )
            &&& forall|i: int| 0 <= i < plan.len() ==> (#[trigger] plan[i] is Enable <==> i == n + 1)
            &&& forall|i: int|
                0 <= i < plan.len() ==> (#[trigger] plan[i] is ProgramEntry <==> 1 <= i <= n)
        }),
{
}

} // verus!
