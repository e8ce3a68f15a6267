use smbios::body::{decode_body, StructureRecord};
use smbios::entry::{locate, EntryPoint, EntryPointVersion, SMBios21Entry, SMBios30Entry, WrapTable};
use smbios::error::DecodeError;
use smbios::header::{decode_header, Header};
use smbios::strings::scan_strings;
use smbios::walker::walk;

fn legacy_entry_bytes() -> Vec<u8> {
    let mut b = vec![0u8; 31];
    b[0] = 0x5f;
    b[1] = 0x53;
    b[2] = 0x4d;
    b[3] = 0x5f;
    b[16] = 0x5f;
    b[17] = 0x44;
    b[18] = 0x4d;
    b[19] = 0x49;
    b[20] = 0x5f;
    // table length 0x0102, address 0x04030201, structure count 0x0005
    b[22] = 0x02;
    b[23] = 0x01;
    b[24] = 0x01;
    b[25] = 0x02;
    b[26] = 0x03;
    b[27] = 0x04;
    b[28] = 0x05;
    b[29] = 0x00;
    b
}

#[test]
fn locate_legacy_valid() {
    let b = legacy_entry_bytes();
    let e = locate(&b).unwrap();
    assert_eq!(e.version, EntryPointVersion::Legacy);
    assert_eq!(e.table_start_offset, 31);
    assert_eq!(e.table_length, Some(0x0102));
    assert_eq!(e.structure_count, Some(5));
    assert_eq!(e.table_max_size, None);
    assert_eq!(e.table_address, 0x04030201);
}

#[test]
fn locate_legacy_missing_intermediate_anchor() {
    let mut b = legacy_entry_bytes();
    b[18] = 0x00; // corrupt "_DMI_"
    assert_eq!(locate(&b), Err(DecodeError::MalformedEntryPoint));
}

#[test]
fn locate_legacy_too_short() {
    let b = legacy_entry_bytes();
    assert_eq!(locate(&b[..20]), Err(DecodeError::BufferTooSmall));
}

#[test]
fn locate_v3_valid_without_intermediate_anchor() {
    let mut b = vec![0u8; 24];
    b[0] = 0x5f;
    b[1] = 0x53;
    b[2] = 0x4d;
    b[3] = 0x33;
    b[4] = 0x5f;
    // table max size 0x00000400, address 0x0000000012345678
    b[12] = 0x00;
    b[13] = 0x04;
    b[16] = 0x78;
    b[17] = 0x56;
    b[18] = 0x34;
    b[19] = 0x12;
    let e = locate(&b).unwrap();
    assert_eq!(e.version, EntryPointVersion::V3);
    assert_eq!(e.table_start_offset, 24);
    assert_eq!(e.table_length, None);
    assert_eq!(e.structure_count, None);
    assert_eq!(e.table_max_size, Some(0x0400));
    assert_eq!(e.table_address, 0x12345678);
}

#[test]
fn locate_v3_too_short() {
    let b = [0x5f, 0x53, 0x4d, 0x33, 0x5f, 0, 0, 0];
    assert_eq!(locate(&b), Err(DecodeError::BufferTooSmall));
}

#[test]
fn locate_no_anchor() {
    assert_eq!(locate(&[1, 2, 3, 4, 5, 6]), Err(DecodeError::MalformedEntryPoint));
    assert_eq!(locate(&[0x5f, 0x53]), Err(DecodeError::BufferTooSmall));
}

#[test]
fn header_from_le_bytes_exactly_four_bytes() {
    let h = Header::from_le_bytes(&[7, 10, 0x34, 0x12]).unwrap();
    assert_eq!(h.structure_type, 7);
    assert_eq!(h.length, 10);
    assert_eq!(h.handle, 0x1234);
    assert!(Header::from_le_bytes(&[7, 10, 0x34]).is_none());
}

#[test]
fn header_decode_truncated() {
    assert_eq!(decode_header(&[1, 2, 3]), Err(DecodeError::Truncated));
    let h = decode_header(&[0, 4, 0, 0, 99]).unwrap();
    assert_eq!(h.structure_type, 0);
    assert_eq!(h.length, 4);
    assert_eq!(h.handle, 0);
}

#[test]
fn scan_round_trip() {
    let strings = ["Acme", "Widget-9000"];
    let mut b: Vec<u8> = Vec::new();
    for s in strings.iter() {
        b.extend_from_slice(s.as_bytes());
        b.push(0);
    }
    b.push(0);
    let (st, consumed) = scan_strings(&b).unwrap();
    assert_eq!(consumed, b.len());
    assert_eq!(st.len(), 2);
    assert_eq!(st.entries[0].as_str(), "Acme");
    assert_eq!(st.entries[1].as_str(), "Widget-9000");
}

#[test]
fn scan_empty_table() {
    let (st, consumed) = scan_strings(&[0, 0]).unwrap();
    assert_eq!(st.len(), 0);
    assert_eq!(consumed, 2);
}

#[test]
fn scan_ignores_bytes_after_terminator() {
    let (st, consumed) = scan_strings(&[0x41, 0, 0, 0x42, 0x43]).unwrap();
    assert_eq!(st.len(), 1);
    assert_eq!(st.entries[0].as_str(), "A");
    assert_eq!(consumed, 3);
}

#[test]
fn scan_unterminated() {
    assert_eq!(scan_strings(&[0x41, 0x42, 0]).unwrap_err(), DecodeError::UnterminatedStringTable);
}

#[test]
fn scan_malformed_without_nul() {
    assert_eq!(scan_strings(&[0x41, 0x42]).unwrap_err(), DecodeError::MalformedStringTable);
}

#[test]
fn scan_malformed_empty_string_span() {
    assert_eq!(scan_strings(&[0, 0x41, 0, 0]).unwrap_err(), DecodeError::MalformedStringTable);
}

#[test]
fn scan_invalid_utf8() {
    assert_eq!(scan_strings(&[0xFF, 0, 0]).unwrap_err(), DecodeError::InvalidStringEncoding);
}

#[test]
fn string_index_resolution() {
    let (st, _) = scan_strings(b"Acme\0Widget-9000\0\0").unwrap();
    assert!(st.get(0).is_none());
    assert_eq!(st.get(1).unwrap().as_str(), "Acme");
    assert_eq!(st.get(2).unwrap().as_str(), "Widget-9000");
    assert!(st.get(3).is_none());
}

fn bios_info_area() -> Vec<u8> {
    let mut a = vec![0u8; 24];
    a[0] = 1; // vendor string index
    a[1] = 2; // bios version string index
    a[2] = 0xCD;
    a[3] = 0xAB; // starting address segment 0xABCD
    a[4] = 3; // release date string index
    a[5] = 4; // rom size
    for i in 0..8 {
        a[6 + i] = (i + 1) as u8; // characteristics 0x0807060504030201
    }
    a[14] = 0x11;
    a[15] = 0x22; // extension bytes 0x2211
    a[16] = 5;
    a[17] = 6;
    a[18] = 7;
    a[19] = 8;
    a[20] = 0x33;
    a[21] = 0x44; // extended rom size 0x4433
    a
}

#[test]
fn decode_body_bios_info_full() {
    let h = Header { structure_type: 0, length: 28, handle: 0 };
    let rec = decode_body(h, &bios_info_area()).unwrap();
    match rec {
        StructureRecord::BiosInfo(x) => {
            assert_eq!(x.vendor, Some(1));
            assert_eq!(x.bios_version, Some(2));
            assert_eq!(x.bios_starting_address_segment, Some(0xABCD));
            assert_eq!(x.bios_release_date, Some(3));
            assert_eq!(x.bios_rom_size, Some(4));
            assert_eq!(x.bios_characteristics, Some(0x0807060504030201));
            assert_eq!(x.bios_characteristics_extension_bytes, Some(0x2211));
            assert_eq!(x.system_bios_major_release, Some(5));
            assert_eq!(x.system_bios_minor_release, Some(6));
            assert_eq!(x.embedded_controller_firmware_major_release, Some(7));
            assert_eq!(x.embedded_controller_firmware_minor_release, Some(8));
            assert_eq!(x.extended_bios_rom_size, Some(0x4433));
        }
        _ => panic!("expected a BIOS Information record"),
    }
}

#[test]
fn decode_body_bios_info_truncated_field_absent() {
    let h = Header { structure_type: 0, length: 24, handle: 0 };
    let a = bios_info_area();
    let rec = decode_body(h, &a[..20]).unwrap();
    match rec {
        StructureRecord::BiosInfo(x) => {
            assert_eq!(x.vendor, Some(1));
            assert_eq!(x.embedded_controller_firmware_minor_release, Some(8));
            assert_eq!(x.extended_bios_rom_size, None);
        }
        _ => panic!("expected a BIOS Information record"),
    }
}

#[test]
fn decode_body_unknown_type_keeps_raw_area() {
    let h = Header { structure_type: 200, length: 8, handle: 9 };
    let rec = decode_body(h, &[10, 20, 30, 40]).unwrap();
    match rec {
        StructureRecord::Unknown(x) => {
            assert_eq!(x.header.structure_type, 200);
            assert_eq!(x.header.handle, 9);
            assert_eq!(x.raw_formatted_area, vec![10, 20, 30, 40]);
        }
        _ => panic!("expected an Unknown record"),
    }
}

#[test]
fn decode_body_baseboard_handles() {
    let mut a = vec![0u8; 11];
    a[7] = 0x21;
    a[8] = 0x43; // chassis handle 0x4321
    a[10] = 2; // two contained handles
    a.extend_from_slice(&[0x11, 0x11, 0x22, 0x22]);
    let h = Header { structure_type: 2, length: (a.len() + 4) as u8, handle: 1 };
    match decode_body(h, &a).unwrap() {
        StructureRecord::Baseboard(x) => {
            assert_eq!(x.chassis_handle, Some(0x4321));
            assert_eq!(x.contained_object_handle_count, Some(2));
            assert_eq!(x.contained_object_handles, vec![0x1111, 0x2222]);
        }
        _ => panic!("expected a Baseboard record"),
    }
}

#[test]
fn decode_body_baseboard_handles_capped_by_area() {
    let mut a = vec![0u8; 11];
    a[10] = 3; // declares three handles, only two fit
    a.extend_from_slice(&[0x11, 0x11, 0x22, 0x22, 0x33]);
    let h = Header { structure_type: 2, length: (a.len() + 4) as u8, handle: 1 };
    match decode_body(h, &a).unwrap() {
        StructureRecord::Baseboard(x) => {
            assert_eq!(x.contained_object_handles, vec![0x1111, 0x2222]);
        }
        _ => panic!("expected a Baseboard record"),
    }
}

fn type1_structure() -> Vec<u8> {
    // header {type 1, length 27, handle 0x0100}, then the 23-byte formatted
    // area, then "Acme", "Widget-9000" and the terminator.
    let mut b = vec![1u8, 27, 0x00, 0x01];
    let mut area = vec![0u8; 23];
    area[0] = 1; // manufacturer -> string 1
    area[1] = 2; // product name -> string 2
    for i in 0..16 {
        area[4 + i] = i as u8; // uuid
    }
    b.extend_from_slice(&area);
    b.extend_from_slice(b"Acme\0Widget-9000\0\0");
    b
}

fn plain_entry() -> EntryPoint {
    EntryPoint {
        version: EntryPointVersion::V3,
        table_start_offset: 0,
        table_length: None,
        table_max_size: Some(0x1000),
        structure_count: None,
        table_address: 0,
    }
}

#[test]
fn walk_end_to_end_type1() {
    let mut b = type1_structure();
    b.extend_from_slice(&[127, 4, 0, 0]); // end-of-table marker
    let t = walk(&b, &plain_entry()).unwrap();
    assert!(!t.truncated);
    assert_eq!(t.entries.len(), 2);
    let first = &t.entries[0];
    assert_eq!(first.total_byte_length, 45);
    match &first.record {
        StructureRecord::SystemInfo(x) => {
            assert_eq!(x.header.handle, 0x0100);
            assert_eq!(x.manufacturer, Some(1));
            assert_eq!(x.product_name, Some(2));
            let uuid = x.uuid.as_ref().unwrap();
            assert_eq!(uuid.len(), 16);
            assert_eq!(uuid[15], 15);
            let manufacturer = first.strings.get(x.manufacturer.unwrap()).unwrap();
            assert_eq!(manufacturer.as_str(), "Acme");
            let product = first.strings.get(x.product_name.unwrap()).unwrap();
            assert_eq!(product.as_str(), "Widget-9000");
        }
        _ => panic!("expected a System Information record"),
    }
    match &t.entries[1].record {
        StructureRecord::Unknown(x) => {
            assert_eq!(x.header.structure_type, 127);
        }
        _ => panic!("expected the end-of-table marker"),
    }
}

#[test]
fn walk_twice_is_identical() {
    let mut b = type1_structure();
    b.extend_from_slice(&[127, 4, 0, 0]);
    let e = plain_entry();
    let t1 = walk(&b, &e).unwrap();
    let t2 = walk(&b, &e).unwrap();
    assert_eq!(t1.truncated, t2.truncated);
    assert_eq!(t1.entries.len(), t2.entries.len());
    for (d1, d2) in t1.entries.iter().zip(t2.entries.iter()) {
        assert_eq!(d1.total_byte_length, d2.total_byte_length);
        assert_eq!(d1.strings.entries, d2.strings.entries);
        match (&d1.record, &d2.record) {
            (StructureRecord::SystemInfo(x1), StructureRecord::SystemInfo(x2)) => {
                assert_eq!(x1.manufacturer, x2.manufacturer);
                assert_eq!(x1.product_name, x2.product_name);
                assert_eq!(x1.uuid, x2.uuid);
            }
            (StructureRecord::Unknown(x1), StructureRecord::Unknown(x2)) => {
                assert_eq!(x1.header, x2.header);
                assert_eq!(x1.raw_formatted_area, x2.raw_formatted_area);
            }
            _ => panic!("variants differ between the two walks"),
        }
    }
}

#[test]
fn walk_unterminated_string_table_keeps_partial() {
    let mut b: Vec<u8> = Vec::new();
    // first structure: unknown type, empty formatted area, empty string table
    b.extend_from_slice(&[200, 4, 0, 0, 0, 0]);
    // second structure: its string table never reaches a double NUL
    b.extend_from_slice(&[1, 4, 0, 0]);
    b.extend_from_slice(b"AB\0");
    let f = walk(&b, &plain_entry()).unwrap_err();
    assert_eq!(f.error, DecodeError::UnterminatedStringTable);
    assert_eq!(f.partial.entries.len(), 1);
    match &f.partial.entries[0].record {
        StructureRecord::Unknown(x) => assert_eq!(x.header.structure_type, 200),
        _ => panic!("expected the first structure only"),
    }
}

#[test]
fn walk_malformed_string_table_aborts() {
    let mut b: Vec<u8> = Vec::new();
    b.extend_from_slice(&[1, 4, 0, 0]);
    b.extend_from_slice(b"AB"); // no NUL at all before the buffer ends
    let f = walk(&b, &plain_entry()).unwrap_err();
    assert_eq!(f.error, DecodeError::MalformedStringTable);
    assert_eq!(f.partial.entries.len(), 0);
}

#[test]
fn walk_stops_at_structure_count() {
    let mut b: Vec<u8> = Vec::new();
    b.extend_from_slice(&[200, 4, 0, 0, 0, 0]);
    b.extend_from_slice(&[201, 4, 0, 0, 0, 0]);
    let mut e = plain_entry();
    e.version = EntryPointVersion::Legacy;
    e.table_max_size = None;
    e.table_length = Some(100);
    e.structure_count = Some(1);
    let t = walk(&b, &e).unwrap();
    assert_eq!(t.entries.len(), 1);
    assert!(!t.truncated);
}

#[test]
fn walk_stops_at_declared_table_length() {
    let mut b: Vec<u8> = Vec::new();
    b.extend_from_slice(&[200, 4, 0, 0, 0, 0]);
    b.extend_from_slice(&[201, 4, 0, 0, 0, 0]);
    let mut e = plain_entry();
    e.version = EntryPointVersion::Legacy;
    e.table_max_size = None;
    e.table_length = Some(6);
    e.structure_count = Some(100);
    let t = walk(&b, &e).unwrap();
    assert_eq!(t.entries.len(), 1);
    assert!(!t.truncated);
}

#[test]
fn walk_truncated_tail_is_diagnosed() {
    // three stray bytes cannot hold a header
    let b = [200u8, 4, 0, 0, 0, 0, 9, 9, 9];
    let t = walk(&b, &plain_entry()).unwrap();
    assert_eq!(t.entries.len(), 1);
    assert!(t.truncated);
}

#[test]
fn walk_empty_buffer() {
    let t = walk(&[], &plain_entry()).unwrap();
    assert_eq!(t.entries.len(), 0);
    assert!(t.truncated);
}

#[test]
fn legacy_entry_template() {
    let e = SMBios21Entry::new();
    assert_eq!(e.anchor_string, [0x5f, 0x53, 0x4d, 0x5f]);
    assert_eq!(e.intermediate_anchor, [0x5f, 0x44, 0x4d, 0x49, 0x5f]);
    assert_eq!(e.major, 2);
    assert_eq!(e.minor, 1);
    assert_eq!(e.bcd_revision, 0x21);
    assert_eq!(e.structure_table_length, 0);
}

#[test]
fn v3_entry_template() {
    let e = SMBios30Entry::new();
    assert_eq!(e.anchor_string, [0x5f, 0x53, 0x4d, 0x33, 0x5f]);
    assert_eq!(e.major, 3);
    assert_eq!(e.minor, 0);
    assert_eq!(e.structure_table_address, 0);
}

#[test]
fn wrap_table_round_trip() {
    let w = WrapTable::new(vec![1u8, 2, 3]);
    assert_eq!(w.into_inner(), vec![1u8, 2, 3]);
}

#[test]
fn decode_body_processor_fields() {
    let mut a = vec![0u8; 46];
    a[0] = 1; // socket designation string index
    a[1] = 3; // processor type
    a[4] = 0xEF;
    a[5] = 0xBE; // processor id low bytes
    a[14] = 0x64; // external clock 100 MHz
    a[16] = 0x10;
    a[17] = 0x0E; // max speed 0x0E10 = 3600
    a[22] = 0x05;
    a[23] = 0x00; // L1 cache handle 5
    let h = Header { structure_type: 4, length: 50, handle: 0x0042 };
    match decode_body(h, &a).unwrap() {
        StructureRecord::Processor(x) => {
            assert_eq!(x.header.handle, 0x0042);
            assert_eq!(x.socket_designation, Some(1));
            assert_eq!(x.processor_type, Some(3));
            assert_eq!(x.processor_id, Some(0xBEEF));
            assert_eq!(x.external_clock, Some(100));
            assert_eq!(x.max_speed, Some(3600));
            assert_eq!(x.l1_cache_handle, Some(5));
            assert_eq!(x.thread_enabled, Some(0));
        }
        _ => panic!("expected a Processor record"),
    }
}

#[test]
fn decode_body_processor_short_area() {
    // a 2.0-era record that stops before the cache handles
    let a = vec![0u8; 22];
    let h = Header { structure_type: 4, length: 26, handle: 0 };
    match decode_body(h, &a).unwrap() {
        StructureRecord::Processor(x) => {
            assert_eq!(x.status, Some(0));
            assert_eq!(x.l1_cache_handle, None);
            assert_eq!(x.thread_enabled, None);
        }
        _ => panic!("expected a Processor record"),
    }
}

#[test]
fn decode_body_cache_info() {
    let mut a = vec![0u8; 23];
    a[0] = 1;
    a[1] = 0x80;
    a[2] = 0x01; // cache configuration 0x0180
    a[15] = 0x40;
    a[16] = 0x00;
    a[17] = 0x00;
    a[18] = 0x00; // maximum cache size 2 = 0x40
    let h = Header { structure_type: 7, length: 27, handle: 5 };
    match decode_body(h, &a).unwrap() {
        StructureRecord::CacheInfo(x) => {
            assert_eq!(x.socket_designation, Some(1));
            assert_eq!(x.cache_configuration, Some(0x0180));
            assert_eq!(x.maximum_cache_size_2, Some(0x40));
        }
        _ => panic!("expected a Cache Information record"),
    }
}

#[test]
fn decode_body_port_connector() {
    let a = [1u8, 0x0B, 2, 0x0D, 0x10];
    let h = Header { structure_type: 8, length: 9, handle: 2 };
    match decode_body(h, &a).unwrap() {
        StructureRecord::PortConnector(x) => {
            assert_eq!(x.internal_reference_designator, Some(1));
            assert_eq!(x.internal_connector_type, Some(0x0B));
            assert_eq!(x.external_reference_designator, Some(2));
            assert_eq!(x.external_connector_type, Some(0x0D));
            assert_eq!(x.port_type, Some(0x10));
        }
        _ => panic!("expected a Port Connector record"),
    }
}

#[test]
fn decode_body_system_slots_peer_groups() {
    let mut a = vec![0u8; 15];
    a[0] = 1; // slot designation string index
    a[5] = 0x07;
    a[6] = 0x00; // slot id 7
    a[14] = 1; // one peer group of five bytes
    a.extend_from_slice(&[0xAA, 0xBB, 0xCC, 0xDD, 0xEE]);
    a.extend_from_slice(&[9, 8, 0x34, 0x12, 7]); // fields after the array
    let h = Header { structure_type: 9, length: (a.len() + 4) as u8, handle: 3 };
    match decode_body(h, &a).unwrap() {
        StructureRecord::SystemSlots(x) => {
            assert_eq!(x.slot_designation, Some(1));
            assert_eq!(x.slot_id, Some(7));
            assert_eq!(x.peer_grouping_count, Some(1));
            assert_eq!(x.peer_groups, vec![0xAA, 0xBB, 0xCC, 0xDD, 0xEE]);
            assert_eq!(x.slot_information, Some(9));
            assert_eq!(x.slot_physical_width, Some(8));
            assert_eq!(x.slot_pitch, Some(0x1234));
            assert_eq!(x.slot_height, Some(7));
        }
        _ => panic!("expected a System Slots record"),
    }
}

#[test]
fn decode_body_oem_strings_and_config_options() {
    let h11 = Header { structure_type: 11, length: 5, handle: 0 };
    match decode_body(h11, &[3]).unwrap() {
        StructureRecord::OemStrings(x) => assert_eq!(x.count, Some(3)),
        _ => panic!("expected an OEM Strings record"),
    }
    let h12 = Header { structure_type: 12, length: 5, handle: 0 };
    match decode_body(h12, &[2]).unwrap() {
        StructureRecord::SystemConfigOptions(x) => assert_eq!(x.count, Some(2)),
        _ => panic!("expected a System Configuration Options record"),
    }
}

#[test]
fn decode_body_bios_language() {
    let mut a = vec![0u8; 18];
    a[0] = 3; // three installable languages
    a[1] = 1; // abbreviated format flag
    a[17] = 2; // current language string index
    let h = Header { structure_type: 13, length: 22, handle: 0 };
    match decode_body(h, &a).unwrap() {
        StructureRecord::BiosLanguage(x) => {
            assert_eq!(x.installable_languages, Some(3));
            assert_eq!(x.flags, Some(1));
            assert_eq!(x.reserved.len(), 15);
            assert_eq!(x.current_language, Some(2));
        }
        _ => panic!("expected a BIOS Language record"),
    }
}

#[test]
fn decode_body_group_associations() {
    let a = [1u8, 4, 0x10, 0x00];
    let h = Header { structure_type: 14, length: 8, handle: 0 };
    match decode_body(h, &a).unwrap() {
        StructureRecord::GroupAssociations(x) => {
            assert_eq!(x.group_name, Some(1));
            assert_eq!(x.item_type, Some(4));
            assert_eq!(x.item_handle, Some(0x10));
        }
        _ => panic!("expected a Group Associations record"),
    }
}

#[test]
fn decode_body_system_event_log_descriptors() {
    let mut a = vec![0u8; 19];
    a[0] = 0x00;
    a[1] = 0x10; // log area length 0x1000
    a[17] = 2; // two descriptors
    a[18] = 2; // two bytes each
    a.extend_from_slice(&[1, 2, 3, 4]);
    let h = Header { structure_type: 15, length: (a.len() + 4) as u8, handle: 0 };
    match decode_body(h, &a).unwrap() {
        StructureRecord::SystemEventLog(x) => {
            assert_eq!(x.log_area_length, Some(0x1000));
            assert_eq!(x.descriptor_count, Some(2));
            assert_eq!(x.descriptor_length, Some(2));
            assert_eq!(x.log_type_descriptors, vec![1, 2, 3, 4]);
        }
        _ => panic!("expected a System Event Log record"),
    }
}

#[test]
fn decode_body_enclosure_elements_and_trailing_sku() {
    let mut a = vec![0u8; 17];
    a[1] = 0x03; // chassis type
    a[9] = 0xDE;
    a[10] = 0xAD;
    a[11] = 0xBE;
    a[12] = 0xEF; // oem defined 0xEFBEADDE
    a[15] = 2; // two contained elements
    a[16] = 3; // of three bytes each
    a.extend_from_slice(&[1, 2, 3, 4, 5, 6]);
    a.push(7); // sku number string index after the array
    let h = Header { structure_type: 3, length: (a.len() + 4) as u8, handle: 0 };
    match decode_body(h, &a).unwrap() {
        StructureRecord::Enclosure(x) => {
            assert_eq!(x.chassis_type, Some(3));
            assert_eq!(x.oem_defined, Some(0xEFBEADDE));
            assert_eq!(x.contained_element_count, Some(2));
            assert_eq!(x.contained_element_record_length, Some(3));
            assert_eq!(x.contained_elements, vec![1, 2, 3, 4, 5, 6]);
            assert_eq!(x.sku_number, Some(7));
        }
        _ => panic!("expected a System Enclosure record"),
    }
}
