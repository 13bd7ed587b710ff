use hw_bringup::error::BringupError;
use hw_bringup::pci::{
    disp_cap_list, enable_device, find_device, function_address, get_bar_region_size,
    get_bar_value, list_pci, set_bar_value, traverse_cap_list, write_vga, CapHeader,
    CapabilityRecord, ConfigSpace, PCIConfigurationSpcaeHeaderType0, PciBus, PciFunction,
    StatusRegister, VirtioPciCap, MAX_CAPABILITIES, MIS_X, VENDOR_SPECIFIC,
};

fn blank() -> ConfigSpace {
    ConfigSpace::new([0u8; 256])
}

fn device(vendor_id: u16, device_id: u16) -> ConfigSpace {
    let mut cfg = blank();
    cfg.write_u16(0x00, vendor_id);
    cfg.write_u16(0x02, device_id);
    cfg
}

fn put_record(cfg: &mut ConfigSpace, offset: u8, cap_id: u8, cap_next: u8) {
    cfg.bytes[offset as usize] = cap_id;
    cfg.bytes[offset as usize + 1] = cap_next;
}

fn put_virtio_cap(
    cfg: &mut ConfigSpace,
    at: u8,
    next: u8,
    cfg_type: u8,
    bar: u8,
    offset: u32,
    length: u32,
) {
    put_record(cfg, at, VENDOR_SPECIFIC, next);
    let at = at as usize;
    cfg.bytes[at + 2] = 16;
    cfg.bytes[at + 3] = cfg_type;
    cfg.bytes[at + 4] = bar;
    cfg.bytes[at + 5] = 0;
    cfg.write_u32(at + 8, offset);
    cfg.write_u32(at + 12, length);
}

fn record(offset: u8, cap_id: u8, cap_next: u8) -> CapabilityRecord {
    CapabilityRecord { offset, header: CapHeader { cap_id, cap_next } }
}

#[test]
fn registers_are_little_endian() {
    let mut cfg = blank();
    cfg.bytes[0] = 0xF4;
    cfg.bytes[1] = 0x1A;
    cfg.bytes[2] = 0x50;
    cfg.bytes[3] = 0x10;
    cfg.bytes[4] = 0x06;
    cfg.bytes[6] = 0x10;
    cfg.bytes[0x0E] = 0x80;
    cfg.bytes[0x34] = 0x40;
    assert_eq!(cfg.vendor_id(), 0x1AF4);
    assert_eq!(cfg.device_id(), 0x1050);
    assert_eq!(cfg.command(), 0x0006);
    assert_eq!(cfg.status(), 0x0010);
    assert_eq!(cfg.header_type(), 0x80);
    assert_eq!(cfg.capabilities_pointer(), 0x40);
    assert_eq!(cfg.read_u32(0), 0x1050_1AF4);
    assert_eq!(cfg.read_u8(1), 0x1A);
}

#[test]
fn a_write_changes_its_register_and_nothing_else() {
    let mut cfg = ConfigSpace::new([0xAAu8; 256]);
    cfg.write_u32(0x20, 0x1122_3344);
    cfg.write_u16(0xFE, 0xBEEF);
    let mut expected = [0xAAu8; 256];
    expected[0x20] = 0x44;
    expected[0x21] = 0x33;
    expected[0x22] = 0x22;
    expected[0x23] = 0x11;
    expected[0xFE] = 0xEF;
    expected[0xFF] = 0xBE;
    assert_eq!(cfg.bytes, expected);
    assert_eq!(cfg.read_u32(0x20), 0x1122_3344);
    assert_eq!(cfg.read_u16(0xFE), 0xBEEF);
}

#[test]
fn an_absent_function_reads_as_all_ones() {
    let cfg = ConfigSpace::absent();
    assert_eq!(cfg.bytes, [0xFFu8; 256]);
    assert_eq!(cfg.vendor_id(), 0xFFFF);
    assert!(!cfg.is_present());
    assert!(device(0x1AF4, 0x1050).is_present());
}

#[test]
fn a_zero_pointer_is_an_empty_chain() {
    let cfg = ConfigSpace::new([0x55u8; 256]);
    assert_eq!(traverse_cap_list(&cfg, 0), Ok(vec![]));
}

#[test]
fn the_walk_yields_the_records_in_link_order() {
    let mut cfg = blank();
    put_record(&mut cfg, 0x40, 0x01, 0x80);
    put_record(&mut cfg, 0x80, MIS_X, 0x50);
    put_record(&mut cfg, 0x50, VENDOR_SPECIFIC, 0x00);
    assert_eq!(
        traverse_cap_list(&cfg, 0x40),
        Ok(vec![
            record(0x40, 0x01, 0x80),
            record(0x80, MIS_X, 0x50),
            record(0x50, VENDOR_SPECIFIC, 0x00),
        ])
    );
    assert_eq!(
        traverse_cap_list(&cfg, 0x80),
        Ok(vec![record(0x80, MIS_X, 0x50), record(0x50, VENDOR_SPECIFIC, 0x00)])
    );
}

#[test]
fn a_record_lies_at_its_offset_in_the_window() {
    assert_eq!(record(0x40, 0x09, 0x00).address(0x3000_8000), 0x3000_8040);
    assert_eq!(record(0xFE, 0x09, 0x00).address(0), 0xFE);
}

#[test]
fn the_longest_chain_that_ends_is_walked_in_full() {
    let mut bytes = [0u8; 256];
    for i in 0..255usize {
        bytes[i] = i as u8;
    }
    bytes[255] = 0;
    let cfg = ConfigSpace::new(bytes);
    let records = traverse_cap_list(&cfg, 1).unwrap();
    assert_eq!(records.len(), 254);
    assert!(records.len() <= MAX_CAPABILITIES);
    for (i, r) in records.iter().enumerate() {
        let offset = (i + 1) as u8;
        let next = if offset == 254 { 0 } else { offset + 1 };
        assert_eq!(*r, record(offset, offset, next));
    }
}

/// A small generator of repeatable pseudo-random numbers.
struct Lcg(u64);

impl Lcg {
    fn next(&mut self, bound: usize) -> usize {
        self.0 = self.0.wrapping_mul(6364136223846793005).wrapping_add(1442695040888963407);
        ((self.0 >> 33) as usize) % bound
    }
}

/// Places for records whose two-byte headers do not overlap, shuffled.
fn shuffled_places(rng: &mut Lcg) -> Vec<u8> {
    let mut places: Vec<u8> = (1..=127u8).map(|i| 2 * i).collect();
    for i in (1..places.len()).rev() {
        places.swap(i, rng.next(i + 1));
    }
    places
}

#[test]
fn chains_of_every_length_are_walked_in_link_order() {
    let mut rng = Lcg(0x5EED);
    for length in 0..=127usize {
        let places = shuffled_places(&mut rng);
        let chain = &places[..length];
        let mut cfg = ConfigSpace::new([0u8; 256]);
        for (i, &at) in chain.iter().enumerate() {
            let next = if i + 1 < length { chain[i + 1] } else { 0 };
            put_record(&mut cfg, at, (i % 251) as u8, next);
        }
        let first = chain.first().copied().unwrap_or(0);
        let expected: Vec<CapabilityRecord> = chain
            .iter()
            .enumerate()
            .map(|(i, &at)| record(at, (i % 251) as u8, if i + 1 < length { chain[i + 1] } else { 0 }))
            .collect();
        assert_eq!(traverse_cap_list(&cfg, first), Ok(expected));
    }
}

#[test]
fn chains_with_a_cycle_are_malformed_wherever_the_cycle_closes() {
    let mut rng = Lcg(0xC1C1E);
    for length in 1..=127usize {
        let places = shuffled_places(&mut rng);
        let chain = &places[..length];
        let back_to = chain[rng.next(length)];
        let mut cfg = ConfigSpace::new([0u8; 256]);
        for (i, &at) in chain.iter().enumerate() {
            let next = if i + 1 < length { chain[i + 1] } else { back_to };
            put_record(&mut cfg, at, 0x05, next);
        }
        assert_eq!(
            traverse_cap_list(&cfg, chain[0]),
            Err(BringupError::MalformedCapabilityChain)
        );
    }
}

#[test]
fn a_record_that_points_at_itself_is_malformed() {
    let mut cfg = blank();
    put_record(&mut cfg, 0x40, 0x05, 0x40);
    assert_eq!(traverse_cap_list(&cfg, 0x40), Err(BringupError::MalformedCapabilityChain));
}

#[test]
fn a_chain_that_comes_back_to_an_earlier_record_is_malformed() {
    let mut cfg = blank();
    put_record(&mut cfg, 0x40, 0x01, 0x50);
    put_record(&mut cfg, 0x50, 0x05, 0x60);
    put_record(&mut cfg, 0x60, 0x10, 0x50);
    assert_eq!(traverse_cap_list(&cfg, 0x40), Err(BringupError::MalformedCapabilityChain));
    assert_eq!(disp_cap_list(&cfg, 0x40), Err(BringupError::MalformedCapabilityChain));
}

#[test]
fn a_record_whose_header_leaves_configuration_space_is_malformed() {
    let mut cfg = blank();
    put_record(&mut cfg, 0x40, 0x01, 0xFF);
    assert_eq!(traverse_cap_list(&cfg, 0x40), Err(BringupError::MalformedCapabilityChain));
    assert_eq!(traverse_cap_list(&cfg, 0xFF), Err(BringupError::MalformedCapabilityChain));
    put_record(&mut cfg, 0x40, 0x01, 0xFE);
    assert_eq!(
        traverse_cap_list(&cfg, 0x40),
        Ok(vec![record(0x40, 0x01, 0xFE), record(0xFE, 0x00, 0x00)])
    );
}

#[test]
fn vendor_specific_records_are_read_as_virtio_capabilities() {
    let mut cfg = blank();
    put_virtio_cap(&mut cfg, 0x40, 0x60, 1, 4, 0x0000_1000, 0x38);
    put_record(&mut cfg, 0x60, MIS_X, 0x70);
    put_virtio_cap(&mut cfg, 0x70, 0x00, 2, 4, 0x0000_3000, 0x1000);
    cfg.bytes[0x76] = 0xAB;
    cfg.bytes[0x77] = 0xCD;
    assert_eq!(
        disp_cap_list(&cfg, 0x40),
        Ok(vec![
            VirtioPciCap {
                cap_vndr: 0x09,
                cap_next: 0x60,
                cap_len: 16,
                cfg_type: 1,
                bar: 4,
                id: 0,
                padding: [0, 0],
                offset: 0x1000,
                length: 0x38,
            },
            VirtioPciCap {
                cap_vndr: 0x09,
                cap_next: 0x00,
                cap_len: 16,
                cfg_type: 2,
                bar: 4,
                id: 0,
                padding: [0xAB, 0xCD],
                offset: 0x3000,
                length: 0x1000,
            },
        ])
    );
    assert_eq!(
        VirtioPciCap::read(&cfg, 0x70),
        disp_cap_list(&cfg, 0x70).unwrap()[0]
    );
}

#[test]
fn a_vendor_specific_record_that_does_not_fit_is_malformed() {
    let mut cfg = blank();
    put_record(&mut cfg, 0xF1, VENDOR_SPECIFIC, 0x00);
    assert_eq!(traverse_cap_list(&cfg, 0xF1), Ok(vec![record(0xF1, VENDOR_SPECIFIC, 0x00)]));
    assert_eq!(disp_cap_list(&cfg, 0xF1), Err(BringupError::MalformedCapabilityChain));
    let mut fits = blank();
    put_virtio_cap(&mut fits, 0xF0, 0x00, 3, 0, 0, 0);
    assert_eq!(disp_cap_list(&fits, 0xF0).unwrap().len(), 1);
}

#[test]
fn a_bar_reads_back_what_was_set() {
    let mut cfg = ConfigSpace::new([0x11u8; 256]);
    set_bar_value(&mut cfg, 2, 0x4001_0000);
    assert_eq!(get_bar_value(&cfg, 2), 0x4001_0000);
    assert_eq!(cfg.bytes[0x18..0x1C], [0x00, 0x00, 0x01, 0x40]);
    for other in [0usize, 1, 3, 4, 5] {
        assert_eq!(get_bar_value(&cfg, other), 0x1111_1111);
    }
    set_bar_value(&mut cfg, 5, 0xFFFF_FFFF);
    assert_eq!(get_bar_value(&cfg, 5), 0xFFFF_FFFF);
    assert_eq!(cfg.bytes[0x28], 0x11);
    assert_eq!(get_bar_region_size(0x3000_0000, 2), 0);
}

#[test]
fn enabling_a_device_sets_memory_space_and_bus_master() {
    let mut cfg = blank();
    cfg.write_u16(0x04, 0x0401);
    enable_device(&mut cfg);
    assert_eq!(cfg.command(), 0x0407);
    enable_device(&mut cfg);
    assert_eq!(cfg.command(), 0x0407);
    let mut expected = [0u8; 256];
    expected[4] = 0x07;
    expected[5] = 0x04;
    assert_eq!(cfg.bytes, expected);
}

#[test]
fn a_display_adapter_gets_its_two_windows() {
    let mut cfg = blank();
    assert!(write_vga(&mut cfg, 0x5000_0000, 0x5100_0000));
    assert_eq!(cfg.command(), 0x0002);
    assert_eq!(get_bar_value(&cfg, 0), 0x5000_0000);
    assert_eq!(get_bar_value(&cfg, 1), 0);
    assert_eq!(get_bar_value(&cfg, 2), 0x5100_0000);

    let mut bridge = blank();
    bridge.bytes[0x0E] = 1;
    assert!(!write_vga(&mut bridge, 0x5000_0000, 0x5100_0000));
    assert_eq!(bridge.command(), 0x0002);
    assert_eq!(get_bar_value(&bridge, 0), 0);
    assert_eq!(get_bar_value(&bridge, 2), 0);
}

#[test]
fn status_bits_are_told_apart() {
    let none = StatusRegister(0);
    assert!(!none.immediate_readiness());
    assert!(!none.capabilities_list());
    assert!(!none.detected_parity_error());
    let all = StatusRegister(0xFFFF);
    assert!(all.immediate_readiness());
    assert!(all.interrupt_status());
    assert!(all.capabilities_list());
    assert!(all.master_data_parity_error());
    assert!(all.signaled_target_abort());
    assert!(all.received_target_abort());
    assert!(all.received_master_abort());
    assert!(all.signaled_system_error());
    assert!(all.detected_parity_error());
    assert!(StatusRegister(1 << 0).immediate_readiness());
    assert!(StatusRegister(1 << 3).interrupt_status());
    assert!(StatusRegister(1 << 4).capabilities_list());
    assert!(StatusRegister(1 << 8).master_data_parity_error());
    assert!(StatusRegister(1 << 11).signaled_target_abort());
    assert!(StatusRegister(1 << 12).received_target_abort());
    assert!(StatusRegister(1 << 13).received_master_abort());
    assert!(StatusRegister(1 << 14).signaled_system_error());
    assert!(StatusRegister(1 << 15).detected_parity_error());
    let only_caps = StatusRegister(0x0010);
    assert!(!only_caps.interrupt_status());
    assert!(!only_caps.master_data_parity_error());
    assert!(!only_caps.immediate_readiness());
    assert!(!StatusRegister(0xFFEF).capabilities_list());
}

#[test]
fn the_type_0_header_is_read_field_by_field() {
    let mut bytes = [0u8; 256];
    for i in 0..256usize {
        bytes[i] = i as u8;
    }
    let header = PCIConfigurationSpcaeHeaderType0::read(&ConfigSpace::new(bytes));
    let mut padding = [0u8; 16];
    for i in 0..16usize {
        padding[i] = i as u8;
    }
    let mut bars = [0u8; 24];
    for i in 0..24usize {
        bars[i] = (0x10 + i) as u8;
    }
    assert_eq!(
        header,
        PCIConfigurationSpcaeHeaderType0 {
            __padding: padding,
            base_address_registers: bars,
            cardbus_cis_pointer: 0x2B2A_2928,
            subsystem_vendor_id: 0x2D2C,
            subsystem_id: 0x2F2E,
            expansion_rom_base_address: 0x3332_3130,
            capabilities_pointer: 0x34,
            reserved: [0x35, 0x36, 0x37, 0x38, 0x39, 0x3A, 0x3B],
            interrupt_line: 0x3C,
            interrupt_pin: 0x3D,
            min_gnt: 0x3E,
            max_lat: 0x3F,
        }
    );
}

#[test]
fn function_windows_are_4k_apart_and_devices_32k() {
    assert_eq!(function_address(0x3000_0000, 0, 0), 0x3000_0000);
    assert_eq!(function_address(0x3000_0000, 0, 1), 0x3000_1000);
    assert_eq!(function_address(0x3000_0000, 1, 0), 0x3000_8000);
    assert_eq!(function_address(0x3000_0000, 3, 5), 0x3000_0000 + (3 << 15) + (5 << 12));
    assert_eq!(function_address(0, 31, 7), 0xFF000);
}

#[test]
fn the_first_function_with_the_ids_is_found() {
    let mut bus = PciBus::empty();
    assert_eq!(bus.functions.len(), 256);
    assert_eq!(find_device(&bus, 0x3000_0000, 0x1AF4, 0x1050), None);
    bus.set_function(2, 0, device(0x1AF4, 0x1005));
    bus.set_function(3, 1, device(0x1AF4, 0x1050));
    bus.set_function(9, 0, device(0x1AF4, 0x1050));
    assert_eq!(
        find_device(&bus, 0x3000_0000, 0x1AF4, 0x1050),
        Some(0x3000_0000 + (3 << 15) + (1 << 12))
    );
    assert_eq!(find_device(&bus, 0x3000_0000, 0x1AF4, 0x1005), Some(0x3000_0000 + (2 << 15)));
    assert_eq!(find_device(&bus, 0x3000_0000, 0x1AF4, 0x1234), None);
    assert_eq!(find_device(&bus, 0x3000_0000, 0x8086, 0x1050), None);
}

#[test]
fn an_absent_function_matches_no_ids() {
    let bus = PciBus::empty();
    assert_eq!(find_device(&bus, 0x3000_0000, 0xFFFF, 0xFFFF), None);
}

#[test]
fn enumeration_reports_present_functions_in_order() {
    let mut bus = PciBus::empty();
    assert_eq!(list_pci(&bus), vec![]);
    let mut gpu = device(0x1AF4, 0x1050);
    gpu.write_u16(0x06, 0x0010);
    gpu.bytes[0x34] = 0x98;
    let mut bridge = device(0x1B36, 0x0008);
    bridge.bytes[0x0E] = 1;
    bridge.bytes[0x34] = 0x40;
    bus.set_function(31, 7, device(0x1234, 0x1111));
    bus.set_function(1, 0, gpu);
    bus.set_function(0, 0, bridge);
    assert_eq!(
        list_pci(&bus),
        vec![
            PciFunction {
                dev_num: 0,
                func_num: 0,
                vendor_id: 0x1B36,
                device_id: 0x0008,
                header_type: 1,
                status: 0,
                capabilities_pointer: None,
            },
            PciFunction {
                dev_num: 1,
                func_num: 0,
                vendor_id: 0x1AF4,
                device_id: 0x1050,
                header_type: 0,
                status: 0x0010,
                capabilities_pointer: Some(0x98),
            },
            PciFunction {
                dev_num: 31,
                func_num: 7,
                vendor_id: 0x1234,
                device_id: 0x1111,
                header_type: 0,
                status: 0,
                capabilities_pointer: Some(0),
            },
        ]
    );
}
