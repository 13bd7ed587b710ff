use hw_bringup::error::BringupError;
use hw_bringup::pci::msix::{
    enable_msix, enable_msix_inner, set_all_msix_interrupt_handler,
    set_dummy_msix_interrupt_handler, MSIXCapability, MSIXPBATableEntry, MSIXTableEntry,
    MsixStep, MsixTableWrite,
};
use hw_bringup::pci::{get_bar_value, set_bar_value, ConfigSpace, MIS_X};

fn capability(message_control: u16, table: u32, pba: u32) -> MSIXCapability {
    MSIXCapability {
        msix_cap_id: MIS_X,
        next_cap_pointer: 0,
        message_control,
        table_offset_and_bir: table,
        pba_offset_and_bir: pba,
    }
}

fn put_msix_cap(cfg: &mut ConfigSpace, at: u8, next: u8, control: u16, table: u32, pba: u32) {
    let at = at as usize;
    cfg.bytes[at] = MIS_X;
    cfg.bytes[at + 1] = next;
    cfg.write_u16(at + 2, control);
    cfg.write_u32(at + 4, table);
    cfg.write_u32(at + 8, pba);
}

fn handler_entry(handler: u32) -> MSIXTableEntry {
    MSIXTableEntry {
        message_address: handler,
        message_address_high: 0,
        message_data: 0,
        vector_control: 0,
    }
}

/// A function with an MSI-X table behind one of its BARs. It records the
/// order of what is done to it.
struct SimulatedFunction {
    cfg: ConfigSpace,
    table: Vec<Option<MSIXTableEntry>>,
    table_bar: usize,
    table_offset: usize,
    entries_written_at_enable: Option<usize>,
    writes: usize,
}

impl SimulatedFunction {
    fn perform(&mut self, step: &MsixStep) {
        match *step {
            MsixStep::RemapBar { bar, base } => {
                assert!(self.writes == 0);
                set_bar_value(&mut self.cfg, bar as usize, base);
            }
            MsixStep::ProgramEntry(write) => {
                assert!(self.entries_written_at_enable.is_none());
                let base = get_bar_value(&self.cfg, self.table_bar) as usize + self.table_offset;
                assert!(write.address >= base);
                assert_eq!((write.address - base) % 16, 0);
                let index = (write.address - base) / 16;
                assert!(self.table[index].is_none());
                self.table[index] = Some(write.entry);
                self.writes += 1;
            }
            MsixStep::Enable { offset, message_control } => {
                assert!(self.entries_written_at_enable.is_none());
                self.cfg.write_u16(offset as usize, message_control);
                self.entries_written_at_enable = Some(self.writes);
            }
        }
    }
}

#[test]
fn offsets_and_bar_indexes_share_their_fields() {
    let cap = capability(0x0003, 0x0000_2003, 0x0000_3802);
    assert_eq!(cap.get_table_offset(), 0x2000);
    assert_eq!(cap.get_table_bir(), 3);
    assert_eq!(cap.get_pba_offset(), 0x3800);
    assert_eq!(cap.get_pba_bir(), 2);
    let edge = capability(0, 0xFFFF_FFFF, 0x0000_0004);
    assert_eq!(edge.get_table_offset(), 0xFFFF_FFFC);
    assert_eq!(edge.get_table_bir(), 3);
    assert_eq!(edge.get_pba_offset(), 4);
    assert_eq!(edge.get_pba_bir(), 0);
}

#[test]
fn the_table_size_is_the_low_eleven_bits_plus_one() {
    assert_eq!(capability(0x0000, 0, 0).table_size(), 1);
    assert_eq!(capability(0x0003, 0, 0).table_size(), 4);
    assert_eq!(capability(0x07FF, 0, 0).table_size(), 2048);
    assert_eq!(capability(0xFFFF, 0, 0).table_size(), 2048);
    assert_eq!(capability(0x8000, 0, 0).table_size(), 1);
    assert_eq!(capability(0xC805, 0, 0).table_size(), 6);
    assert_eq!(capability(0x0800, 0, 0).table_size(), 1);
}

#[test]
fn the_enable_bit_is_bit_15() {
    let mut cap = capability(0x4003, 0x2003, 0x3803);
    cap.set_enable(true);
    assert_eq!(cap, capability(0xC003, 0x2003, 0x3803));
    cap.set_enable(true);
    assert_eq!(cap.message_control, 0xC003);
    cap.set_enable(false);
    assert_eq!(cap, capability(0x4003, 0x2003, 0x3803));
    cap.set_enable(false);
    assert_eq!(cap.message_control, 0x4003);
}

#[test]
fn the_capability_is_read_little_endian() {
    let mut cfg = ConfigSpace::new([0u8; 256]);
    put_msix_cap(&mut cfg, 0x98, 0x84, 0x0003, 0x0000_2001, 0x0000_3801);
    assert_eq!(
        MSIXCapability::read(&cfg, 0x98),
        MSIXCapability {
            msix_cap_id: 0x11,
            next_cap_pointer: 0x84,
            message_control: 0x0003,
            table_offset_and_bir: 0x0000_2001,
            pba_offset_and_bir: 0x0000_3801,
        }
    );
    assert_eq!(cfg.bytes[0x9C..0xA0], [0x01, 0x20, 0x00, 0x00]);
}

#[test]
fn every_entry_gets_the_handler() {
    assert_eq!(
        set_dummy_msix_interrupt_handler(0x4001_2000, 3, 0x8020_0000),
        MsixTableWrite { address: 0x4001_2030, entry: handler_entry(0x8020_0000) }
    );
    assert_eq!(set_all_msix_interrupt_handler(0x4001_2000, 0, 7), vec![]);
    let writes = set_all_msix_interrupt_handler(0x4001_2000, 4, 0x8020_0000);
    assert_eq!(
        writes,
        vec![
            MsixTableWrite { address: 0x4001_2000, entry: handler_entry(0x8020_0000) },
            MsixTableWrite { address: 0x4001_2010, entry: handler_entry(0x8020_0000) },
            MsixTableWrite { address: 0x4001_2020, entry: handler_entry(0x8020_0000) },
            MsixTableWrite { address: 0x4001_2030, entry: handler_entry(0x8020_0000) },
        ]
    );
}

#[test]
fn the_plan_remaps_programs_and_enables_in_this_order() {
    let mut cfg = ConfigSpace::new([0u8; 256]);
    put_msix_cap(&mut cfg, 0x98, 0x00, 0x0002, 0x0000_2001, 0x0000_3801);
    assert_eq!(
        enable_msix_inner(&cfg, 0x98, 0x4001_0000, 0x8020_0000),
        Ok(vec![
            MsixStep::RemapBar { bar: 1, base: 0x4001_0000 },
            MsixStep::ProgramEntry(MsixTableWrite {
                address: 0x4001_2000,
                entry: handler_entry(0x8020_0000),
            }),
            MsixStep::ProgramEntry(MsixTableWrite {
                address: 0x4001_2010,
                entry: handler_entry(0x8020_0000),
            }),
            MsixStep::ProgramEntry(MsixTableWrite {
                address: 0x4001_2020,
                entry: handler_entry(0x8020_0000),
            }),
            MsixStep::Enable { offset: 0x9A, message_control: 0x8002 },
        ])
    );
}

#[test]
fn the_enable_bit_is_set_after_all_entries_are_written() {
    for control in [0x0000u16, 0x0001, 0x003F, 0x47FF] {
        let size = (control & 0x7FF) as usize + 1;
        let mut cfg = ConfigSpace::new([0u8; 256]);
        cfg.bytes[0x34] = 0x40;
        cfg.bytes[0x40] = 0x01;
        cfg.bytes[0x41] = 0x60;
        put_msix_cap(&mut cfg, 0x60, 0x00, control, 0x0000_0802, 0x0000_0002);
        let plan = enable_msix(&cfg, 0x40, 0x4001_0000, 0x1234_5678).unwrap();
        assert_eq!(plan.len(), size + 2);
        let mut function = SimulatedFunction {
            cfg,
            table: vec![None; size],
            table_bar: 2,
            table_offset: 0x800,
            entries_written_at_enable: None,
            writes: 0,
        };
        for step in plan.iter() {
            function.perform(step);
        }
        assert_eq!(function.writes, size);
        assert_eq!(function.entries_written_at_enable, Some(size));
        assert!(function.table.iter().all(|e| *e == Some(handler_entry(0x1234_5678))));
        assert_eq!(function.cfg.read_u16(0x62), control | 0x8000);
        assert_eq!(get_bar_value(&function.cfg, 2), 0x4001_0000);
    }
}

#[test]
fn a_table_and_pending_bits_in_different_bars_are_unsupported() {
    let mut cfg = ConfigSpace::new([0u8; 256]);
    put_msix_cap(&mut cfg, 0x98, 0x00, 0x0002, 0x0000_2001, 0x0000_3802);
    assert_eq!(
        enable_msix_inner(&cfg, 0x98, 0x4001_0000, 0x8020_0000),
        Err(BringupError::UnsupportedLayout)
    );
    assert_eq!(
        enable_msix(&cfg, 0x98, 0x4001_0000, 0x8020_0000),
        Err(BringupError::UnsupportedLayout)
    );
}

#[test]
fn a_capability_that_does_not_fit_is_malformed() {
    let mut cfg = ConfigSpace::new([0u8; 256]);
    cfg.bytes[0xF5] = MIS_X;
    assert_eq!(
        enable_msix_inner(&cfg, 0xF5, 0x4001_0000, 1),
        Err(BringupError::MalformedCapabilityChain)
    );
    assert_eq!(
        enable_msix(&cfg, 0xF5, 0x4001_0000, 1),
        Err(BringupError::MalformedCapabilityChain)
    );
    put_msix_cap(&mut cfg, 0xF4, 0x00, 0, 0, 0);
    assert_eq!(enable_msix_inner(&cfg, 0xF4, 0x4001_0000, 1).unwrap().len(), 3);
}

#[test]
fn a_chain_without_msix_needs_no_writes() {
    let mut cfg = ConfigSpace::new([0u8; 256]);
    assert_eq!(enable_msix(&cfg, 0, 0x4001_0000, 1), Ok(vec![]));
    cfg.bytes[0x40] = 0x01;
    cfg.bytes[0x41] = 0x50;
    cfg.bytes[0x50] = 0x10;
    assert_eq!(enable_msix(&cfg, 0x40, 0x4001_0000, 1), Ok(vec![]));
    cfg.bytes[0x51] = 0x40;
    assert_eq!(
        enable_msix(&cfg, 0x40, 0x4001_0000, 1),
        Err(BringupError::MalformedCapabilityChain)
    );
}

#[test]
fn each_msix_record_of_a_chain_is_planned() {
    let mut cfg = ConfigSpace::new([0u8; 256]);
    put_msix_cap(&mut cfg, 0x40, 0x60, 0x0000, 0x0000_1000, 0x0000_2000);
    put_msix_cap(&mut cfg, 0x60, 0x00, 0x0001, 0x0000_0003, 0x0000_0803);
    let plan = enable_msix(&cfg, 0x40, 0x4001_0000, 9).unwrap();
    let mut expected = enable_msix_inner(&cfg, 0x40, 0x4001_0000, 9).unwrap();
    expected.extend(enable_msix_inner(&cfg, 0x60, 0x4001_0000, 9).unwrap());
    assert_eq!(plan, expected);
    assert_eq!(plan.len(), 3 + 4);
    assert_eq!(plan[0], MsixStep::RemapBar { bar: 0, base: 0x4001_0000 });
    assert_eq!(plan[2], MsixStep::Enable { offset: 0x42, message_control: 0x8000 });
    assert_eq!(plan[3], MsixStep::RemapBar { bar: 3, base: 0x4001_0000 });
    assert_eq!(plan[6], MsixStep::Enable { offset: 0x62, message_control: 0x8001 });
}

#[test]
fn pending_bits_come_in_words_of_64() {
    let word = MSIXPBATableEntry(1 << 5);
    assert_eq!(word.0, 32);
    assert_eq!(word, MSIXPBATableEntry(32));
}
