use vstd::prelude::*;

use crate::bytes::{
    le16, read_bytes_at, read_u16_at, read_u32_at, read_u64_at, read_u8_at, spec_bytes_at,
    spec_u16_at, spec_u32_at, spec_u64_at, spec_u8_at,
};
use crate::error::DecodeError;
use crate::header::Header;

verus! {

// Every fixed field is decoded from its documented offset within the
// formatted area (the structure's documented offset minus the four header
// bytes). A field whose byte range exceeds the formatted area is absent:
// older firmware legitimately writes shorter structures, so a short record
// decodes its prefix and never fails the call. String-valued fields hold the
// raw 1-based string index; 0 means "not set".

/// BIOS Information, structure type 0.
#[derive(Clone, Debug)]
pub struct BiosInfo {
    pub header: Header,
    pub vendor: Option<u8>,
    pub bios_version: Option<u8>,
    pub bios_starting_address_segment: Option<u16>,
    pub bios_release_date: Option<u8>,
    pub bios_rom_size: Option<u8>,
    pub bios_characteristics: Option<u64>,
    pub bios_characteristics_extension_bytes: Option<u16>,
    pub system_bios_major_release: Option<u8>,
    pub system_bios_minor_release: Option<u8>,
    pub embedded_controller_firmware_major_release: Option<u8>,
    pub embedded_controller_firmware_minor_release: Option<u8>,
    pub extended_bios_rom_size: Option<u16>,
}

pub open spec fn spec_bios_info(h: Header, a: Seq<u8>) -> BiosInfo {
    BiosInfo {
        header: h,
        vendor: spec_u8_at(a, 0),
        bios_version: spec_u8_at(a, 1),
        bios_starting_address_segment: spec_u16_at(a, 2),
        bios_release_date: spec_u8_at(a, 4),
        bios_rom_size: spec_u8_at(a, 5),
        bios_characteristics: spec_u64_at(a, 6),
        bios_characteristics_extension_bytes: spec_u16_at(a, 14),
        system_bios_major_release: spec_u8_at(a, 16),
        system_bios_minor_release: spec_u8_at(a, 17),
        embedded_controller_firmware_major_release: spec_u8_at(a, 18),
        embedded_controller_firmware_minor_release: spec_u8_at(a, 19),
        extended_bios_rom_size: spec_u16_at(a, 20),
    }
}

fn decode_bios_info(header: Header, a: &[u8]) -> (r: BiosInfo)
    ensures
        r == spec_bios_info(header, a@),
{
    BiosInfo {
        header,
        vendor: read_u8_at(a, 0),
        bios_version: read_u8_at(a, 1),
        bios_starting_address_segment: read_u16_at(a, 2),
        bios_release_date: read_u8_at(a, 4),
        bios_rom_size: read_u8_at(a, 5),
        bios_characteristics: read_u64_at(a, 6),
        bios_characteristics_extension_bytes: read_u16_at(a, 14),
        system_bios_major_release: read_u8_at(a, 16),
        system_bios_minor_release: read_u8_at(a, 17),
        embedded_controller_firmware_major_release: read_u8_at(a, 18),
        embedded_controller_firmware_minor_release: read_u8_at(a, 19),
        extended_bios_rom_size: read_u16_at(a, 20),
    }
}

/// System Information, structure type 1.
#[derive(Clone, Debug)]
pub struct SystemInfo {
    pub header: Header,
    pub manufacturer: Option<u8>,
    pub product_name: Option<u8>,
    pub version: Option<u8>,
    pub serial_number: Option<u8>,
    pub uuid: Option<Vec<u8>>,
    pub wake_up_type: Option<u8>,
    pub sku_number: Option<u8>,
    pub family: Option<u8>,
}

pub open spec fn system_info_matches(h: Header, a: Seq<u8>, r: SystemInfo) -> bool {
    &&& r.header == h
    &&& r.manufacturer == spec_u8_at(a, 0)
    &&& r.product_name == spec_u8_at(a, 1)
    &&& r.version == spec_u8_at(a, 2)
    &&& r.serial_number == spec_u8_at(a, 3)
    &&& match r.uuid {
        Some(v) => a.len() >= 20 && v@ == a.subrange(4, 20),
        None => a.len() < 20,
    }
    &&& r.wake_up_type == spec_u8_at(a, 20)
    &&& r.sku_number == spec_u8_at(a, 21)
    &&& r.family == spec_u8_at(a, 22)
}

fn decode_system_info(header: Header, a: &[u8]) -> (r: SystemInfo)
    ensures
        system_info_matches(header, a@, r),
{
    let uuid = if a.len() >= 20 {
        Some(read_bytes_at(a, 4, 16))
    } else {
        None
    };
    SystemInfo {
        header,
        manufacturer: read_u8_at(a, 0),
        product_name: read_u8_at(a, 1),
        version: read_u8_at(a, 2),
        serial_number: read_u8_at(a, 3),
        uuid,
        wake_up_type: read_u8_at(a, 20),
        sku_number: read_u8_at(a, 21),
        family: read_u8_at(a, 22),
    }
}

/// Baseboard Information, structure type 2. The contained-object handles are
/// the trailing variable-length array: as many two-byte handles as the count
/// field declares and the formatted area can hold; trailing partial bytes are
/// firmware slack, kept out of the list without being an error.
#[derive(Clone, Debug)]
pub struct Baseboard {
    pub header: Header,
    pub manufacturer: Option<u8>,
    pub product: Option<u8>,
    pub version: Option<u8>,
    pub serial_number: Option<u8>,
    pub asset_tag: Option<u8>,
    pub feature_flags: Option<u8>,
    pub location_in_chassis: Option<u8>,
    pub chassis_handle: Option<u16>,
    pub board_type: Option<u8>,
    pub contained_object_handle_count: Option<u8>,
    pub contained_object_handles: Vec<u16>,
}

/// How many contained-object handles are actually present: the declared
/// count, capped by what fits in the formatted area after offset 11.
pub open spec fn spec_baseboard_handle_count(a: Seq<u8>) -> int {
    match spec_u8_at(a, 10) {
        Some(c) => {
            let avail = (a.len() - 11) / 2;
            if c as int <= avail {
                c as int
            } else {
                avail
            }
        },
        None => 0,
    }
}

/// The `n` little-endian u16 values starting at `start`.
pub open spec fn spec_u16_list(s: Seq<u8>, start: int, n: int) -> Seq<u16> {
    Seq::new(
        if n >= 0 {
            n as nat
        } else {
            0
        },
        |i: int| le16(s, start + 2 * i),
    )
}

fn read_u16_list(s: &[u8], start: usize, n: usize) -> (v: Vec<u16>)
    requires
        start + 2 * n <= s@.len(),
    ensures
        v@ == spec_u16_list(s@, start as int, n as int),
{
    let mut v: Vec<u16> = Vec::new();
    let total = s.len();
    let mut i: usize = 0;
    while i < n
        invariant
            i <= n,
            total == s@.len(),
            start + 2 * n <= s@.len(),
            v@.len() == i,
            forall|k: int| 0 <= k < i ==> v@[k] == le16(s@, start + 2 * k),
        decreases n - i,
    {
        assert(start + 2 * i + 1 < s@.len());
        let off: usize = start + 2 * i;
        v.push((s[off] as u16) | ((s[off + 1] as u16) << 8));
        i = i + 1;
    }
    assert(v@ =~= spec_u16_list(s@, start as int, n as int));
    v
}

pub open spec fn baseboard_matches(h: Header, a: Seq<u8>, r: Baseboard) -> bool {
    &&& r.header == h
    &&& r.manufacturer == spec_u8_at(a, 0)
    &&& r.product == spec_u8_at(a, 1)
    &&& r.version == spec_u8_at(a, 2)
    &&& r.serial_number == spec_u8_at(a, 3)
    &&& r.asset_tag == spec_u8_at(a, 4)
    &&& r.feature_flags == spec_u8_at(a, 5)
    &&& r.location_in_chassis == spec_u8_at(a, 6)
    &&& r.chassis_handle == spec_u16_at(a, 7)
    &&& r.board_type == spec_u8_at(a, 9)
    &&& r.contained_object_handle_count == spec_u8_at(a, 10)
    &&& r.contained_object_handles@ == spec_u16_list(a, 11, spec_baseboard_handle_count(a))
}

fn decode_baseboard(header: Header, a: &[u8]) -> (r: Baseboard)
    ensures
        baseboard_matches(header, a@, r),
{
    let count = read_u8_at(a, 10);
    let handles: Vec<u16> = match count {
        Some(c) => {
            let avail = (a.len() - 11) / 2;
            let n = if (c as usize) <= avail {
                c as usize
            } else {
                avail
            };
            assert(11 + 2 * n <= a@.len());
            read_u16_list(a, 11, n)
        },
        None => Vec::new(),
    };
    assert(handles@ =~= spec_u16_list(a@, 11, spec_baseboard_handle_count(a@)));
    Baseboard {
        header,
        manufacturer: read_u8_at(a, 0),
        product: read_u8_at(a, 1),
        version: read_u8_at(a, 2),
        serial_number: read_u8_at(a, 3),
        asset_tag: read_u8_at(a, 4),
        feature_flags: read_u8_at(a, 5),
        location_in_chassis: read_u8_at(a, 6),
        chassis_handle: read_u16_at(a, 7),
        board_type: read_u8_at(a, 9),
        contained_object_handle_count: count,
        contained_object_handles: handles,
    }
}

/// System Enclosure, structure type 3. The contained elements are the
/// trailing variable-length array, element count times element record length
/// bytes, kept as raw bytes; the SKU number field follows the full declared
/// array.
#[derive(Clone, Debug)]
pub struct Enclosure {
    pub header: Header,
    pub manufacturer: Option<u8>,
    pub chassis_type: Option<u8>,
    pub version: Option<u8>,
    pub serial_number: Option<u8>,
    pub asset_tag_number: Option<u8>,
    pub bootup_state: Option<u8>,
    pub power_supply_state: Option<u8>,
    pub thermal_state: Option<u8>,
    pub security_status: Option<u8>,
    pub oem_defined: Option<u32>,
    pub height: Option<u8>,
    pub num_of_power_cords: Option<u8>,
    pub contained_element_count: Option<u8>,
    pub contained_element_record_length: Option<u8>,
    pub contained_elements: Vec<u8>,
    pub sku_number: Option<u8>,
}

/// Declared byte size of the contained-element array: count times record
/// length, 0 when either field is absent.
pub open spec fn spec_enclosure_element_bytes(a: Seq<u8>) -> int {
    match (spec_u8_at(a, 15), spec_u8_at(a, 16)) {
        (Some(c), Some(l)) => c as int * l as int,
        _ => 0,
    }
}

pub open spec fn enclosure_matches(h: Header, a: Seq<u8>, r: Enclosure) -> bool {
    &&& r.header == h
    &&& r.manufacturer == spec_u8_at(a, 0)
    &&& r.chassis_type == spec_u8_at(a, 1)
    &&& r.version == spec_u8_at(a, 2)
    &&& r.serial_number == spec_u8_at(a, 3)
    &&& r.asset_tag_number == spec_u8_at(a, 4)
    &&& r.bootup_state == spec_u8_at(a, 5)
    &&& r.power_supply_state == spec_u8_at(a, 6)
    &&& r.thermal_state == spec_u8_at(a, 7)
    &&& r.security_status == spec_u8_at(a, 8)
    &&& r.oem_defined == spec_u32_at(a, 9)
    &&& r.height == spec_u8_at(a, 13)
    &&& r.num_of_power_cords == spec_u8_at(a, 14)
    &&& r.contained_element_count == spec_u8_at(a, 15)
    &&& r.contained_element_record_length == spec_u8_at(a, 16)
    &&& r.contained_elements@ == spec_bytes_at(a, 17, spec_enclosure_element_bytes(a))
    &&& r.sku_number == spec_u8_at(a, 17 + spec_enclosure_element_bytes(a))
}

fn decode_enclosure(header: Header, a: &[u8]) -> (r: Enclosure)
    ensures
        enclosure_matches(header, a@, r),
{
    let count = read_u8_at(a, 15);
    let rlen = read_u8_at(a, 16);
    let want: usize = match (count, rlen) {
        (Some(c), Some(l)) => {
            proof {
                assert((c as int) * (l as int) <= 255 * 255) by (nonlinear_arith)
                    requires
                        c <= 255,
                        l <= 255,
                ;
            }
            (c as usize) * (l as usize)
        },
        _ => 0,
    };
    let elements = read_bytes_at(a, 17, want);
    let sku = read_u8_at(a, 17 + want);
    Enclosure {
        header,
        manufacturer: read_u8_at(a, 0),
        chassis_type: read_u8_at(a, 1),
        version: read_u8_at(a, 2),
        serial_number: read_u8_at(a, 3),
        asset_tag_number: read_u8_at(a, 4),
        bootup_state: read_u8_at(a, 5),
        power_supply_state: read_u8_at(a, 6),
        thermal_state: read_u8_at(a, 7),
        security_status: read_u8_at(a, 8),
        oem_defined: read_u32_at(a, 9),
        height: read_u8_at(a, 13),
        num_of_power_cords: read_u8_at(a, 14),
        contained_element_count: count,
        contained_element_record_length: rlen,
        contained_elements: elements,
        sku_number: sku,
    }
}

/// Processor Information, structure type 4.
#[derive(Clone, Debug)]
pub struct Processor {
    pub header: Header,
    pub socket_designation: Option<u8>,
    pub processor_type: Option<u8>,
    pub processor_family: Option<u8>,
    pub processor_manufacturer: Option<u8>,
    pub processor_id: Option<u64>,
    pub processor_version: Option<u8>,
    pub voltage: Option<u8>,
    pub external_clock: Option<u16>,
    pub max_speed: Option<u16>,
    pub current_speed: Option<u16>,
    pub status: Option<u8>,
    pub processor_upgrade: Option<u8>,
    pub l1_cache_handle: Option<u16>,
    pub l2_cache_handle: Option<u16>,
    pub l3_cache_handle: Option<u16>,
    pub serial_number: Option<u8>,
    pub asset_tag: Option<u8>,
    pub part_number: Option<u8>,
    pub core_count: Option<u8>,
    pub core_enabled: Option<u8>,
    pub thread_count: Option<u8>,
    pub processor_characteristics: Option<u16>,
    pub processor_family_2: Option<u16>,
    pub core_count_2: Option<u16>,
    pub core_enabled_2: Option<u16>,
    pub thread_count_2: Option<u16>,
    pub thread_enabled: Option<u16>,
}

pub open spec fn spec_processor(h: Header, a: Seq<u8>) -> Processor {
    Processor {
        header: h,
        socket_designation: spec_u8_at(a, 0),
        processor_type: spec_u8_at(a, 1),
        processor_family: spec_u8_at(a, 2),
        processor_manufacturer: spec_u8_at(a, 3),
        processor_id: spec_u64_at(a, 4),
        processor_version: spec_u8_at(a, 12),
        voltage: spec_u8_at(a, 13),
        external_clock: spec_u16_at(a, 14),
        max_speed: spec_u16_at(a, 16),
        current_speed: spec_u16_at(a, 18),
        status: spec_u8_at(a, 20),
        processor_upgrade: spec_u8_at(a, 21),
        l1_cache_handle: spec_u16_at(a, 22),
        l2_cache_handle: spec_u16_at(a, 24),
        l3_cache_handle: spec_u16_at(a, 26),
        serial_number: spec_u8_at(a, 28),
        asset_tag: spec_u8_at(a, 29),
        part_number: spec_u8_at(a, 30),
        core_count: spec_u8_at(a, 31),
        core_enabled: spec_u8_at(a, 32),
        thread_count: spec_u8_at(a, 33),
        processor_characteristics: spec_u16_at(a, 34),
        processor_family_2: spec_u16_at(a, 36),
        core_count_2: spec_u16_at(a, 38),
        core_enabled_2: spec_u16_at(a, 40),
        thread_count_2: spec_u16_at(a, 42),
        thread_enabled: spec_u16_at(a, 44),
    }
}

fn decode_processor(header: Header, a: &[u8]) -> (r: Processor)
    ensures
        r == spec_processor(header, a@),
{
    Processor {
        header,
        socket_designation: read_u8_at(a, 0),
        processor_type: read_u8_at(a, 1),
        processor_family: read_u8_at(a, 2),
        processor_manufacturer: read_u8_at(a, 3),
        processor_id: read_u64_at(a, 4),
        processor_version: read_u8_at(a, 12),
        voltage: read_u8_at(a, 13),
        external_clock: read_u16_at(a, 14),
        max_speed: read_u16_at(a, 16),
        current_speed: read_u16_at(a, 18),
        status: read_u8_at(a, 20),
        processor_upgrade: read_u8_at(a, 21),
        l1_cache_handle: read_u16_at(a, 22),
        l2_cache_handle: read_u16_at(a, 24),
        l3_cache_handle: read_u16_at(a, 26),
        serial_number: read_u8_at(a, 28),
        asset_tag: read_u8_at(a, 29),
        part_number: read_u8_at(a, 30),
        core_count: read_u8_at(a, 31),
        core_enabled: read_u8_at(a, 32),
        thread_count: read_u8_at(a, 33),
        processor_characteristics: read_u16_at(a, 34),
        processor_family_2: read_u16_at(a, 36),
        core_count_2: read_u16_at(a, 38),
        core_enabled_2: read_u16_at(a, 40),
        thread_count_2: read_u16_at(a, 42),
        thread_enabled: read_u16_at(a, 44),
    }
}

/// Cache Information, structure type 7.
#[derive(Clone, Debug)]
pub struct CacheInfo {
    pub header: Header,
    pub socket_designation: Option<u8>,
    pub cache_configuration: Option<u16>,
    pub maximum_cache_size: Option<u16>,
    pub installed_size: Option<u16>,
    pub supported_sram_type: Option<u16>,
    pub current_sram_type: Option<u16>,
    pub cache_speed: Option<u8>,
    pub error_correction_type: Option<u8>,
    pub system_cache_type: Option<u8>,
    pub associativity: Option<u8>,
    pub maximum_cache_size_2: Option<u32>,
    pub installed_cache_size_2: Option<u32>,
}

pub open spec fn spec_cache_info(h: Header, a: Seq<u8>) -> CacheInfo {
    CacheInfo {
        header: h,
        socket_designation: spec_u8_at(a, 0),
        cache_configuration: spec_u16_at(a, 1),
        maximum_cache_size: spec_u16_at(a, 3),
        installed_size: spec_u16_at(a, 5),
        supported_sram_type: spec_u16_at(a, 7),
        current_sram_type: spec_u16_at(a, 9),
        cache_speed: spec_u8_at(a, 11),
        error_correction_type: spec_u8_at(a, 12),
        system_cache_type: spec_u8_at(a, 13),
        associativity: spec_u8_at(a, 14),
        maximum_cache_size_2: spec_u32_at(a, 15),
        installed_cache_size_2: spec_u32_at(a, 19),
    }
}

fn decode_cache_info(header: Header, a: &[u8]) -> (r: CacheInfo)
    ensures
        r == spec_cache_info(header, a@),
{
    CacheInfo {
        header,
        socket_designation: read_u8_at(a, 0),
        cache_configuration: read_u16_at(a, 1),
        maximum_cache_size: read_u16_at(a, 3),
        installed_size: read_u16_at(a, 5),
        supported_sram_type: read_u16_at(a, 7),
        current_sram_type: read_u16_at(a, 9),
        cache_speed: read_u8_at(a, 11),
        error_correction_type: read_u8_at(a, 12),
        system_cache_type: read_u8_at(a, 13),
        associativity: read_u8_at(a, 14),
        maximum_cache_size_2: read_u32_at(a, 15),
        installed_cache_size_2: read_u32_at(a, 19),
    }
}

/// Port Connector Information, structure type 8.
#[derive(Clone, Debug)]
pub struct PortConnector {
    pub header: Header,
    pub internal_reference_designator: Option<u8>,
    pub internal_connector_type: Option<u8>,
    pub external_reference_designator: Option<u8>,
    pub external_connector_type: Option<u8>,
    pub port_type: Option<u8>,
}

pub open spec fn spec_port_connector(h: Header, a: Seq<u8>) -> PortConnector {
    PortConnector {
        header: h,
        internal_reference_designator: spec_u8_at(a, 0),
        internal_connector_type: spec_u8_at(a, 1),
        external_reference_designator: spec_u8_at(a, 2),
        external_connector_type: spec_u8_at(a, 3),
        port_type: spec_u8_at(a, 4),
    }
}

fn decode_port_connector(header: Header, a: &[u8]) -> (r: PortConnector)
    ensures
        r == spec_port_connector(header, a@),
{
    PortConnector {
        header,
        internal_reference_designator: read_u8_at(a, 0),
        internal_connector_type: read_u8_at(a, 1),
        external_reference_designator: read_u8_at(a, 2),
        external_connector_type: read_u8_at(a, 3),
        port_type: read_u8_at(a, 4),
    }
}

/// System Slots, structure type 9. The peer groups are the trailing
/// variable-length array, five bytes per declared peer group, kept as raw
/// bytes; the remaining fields follow the full declared array.
#[derive(Clone, Debug)]
pub struct SystemSlots {
    pub header: Header,
    pub slot_designation: Option<u8>,
    pub slot_type: Option<u8>,
    pub slot_data_bus_width: Option<u8>,
    pub current_usage: Option<u8>,
    pub slot_length: Option<u8>,
    pub slot_id: Option<u16>,
    pub slot_characteristics_1: Option<u8>,
    pub slot_characteristics_2: Option<u8>,
    pub segment_group_number: Option<u16>,
    pub bus_number: Option<u8>,
    pub device_function_number: Option<u8>,
    pub data_bus_width: Option<u8>,
    pub peer_grouping_count: Option<u8>,
    pub peer_groups: Vec<u8>,
    pub slot_information: Option<u8>,
    pub slot_physical_width: Option<u8>,
    pub slot_pitch: Option<u16>,
    pub slot_height: Option<u8>,
}

/// Declared byte size of the peer-group array: five bytes per peer group.
pub open spec fn spec_slots_peer_bytes(a: Seq<u8>) -> int {
    match spec_u8_at(a, 14) {
        Some(c) => c as int * 5,
        None => 0,
    }
}

pub open spec fn system_slots_matches(h: Header, a: Seq<u8>, r: SystemSlots) -> bool {
    let peer = spec_slots_peer_bytes(a);
    &&& r.header == h
    &&& r.slot_designation == spec_u8_at(a, 0)
    &&& r.slot_type == spec_u8_at(a, 1)
    &&& r.slot_data_bus_width == spec_u8_at(a, 2)
    &&& r.current_usage == spec_u8_at(a, 3)
    &&& r.slot_length == spec_u8_at(a, 4)
    &&& r.slot_id == spec_u16_at(a, 5)
    &&& r.slot_characteristics_1 == spec_u8_at(a, 7)
    &&& r.slot_characteristics_2 == spec_u8_at(a, 8)
    &&& r.segment_group_number == spec_u16_at(a, 9)
    &&& r.bus_number == spec_u8_at(a, 11)
    &&& r.device_function_number == spec_u8_at(a, 12)
    &&& r.data_bus_width == spec_u8_at(a, 13)
    &&& r.peer_grouping_count == spec_u8_at(a, 14)
    &&& r.peer_groups@ == spec_bytes_at(a, 15, peer)
    &&& r.slot_information == spec_u8_at(a, 15 + peer)
    &&& r.slot_physical_width == spec_u8_at(a, 16 + peer)
    &&& r.slot_pitch == spec_u16_at(a, 17 + peer)
    &&& r.slot_height == spec_u8_at(a, 19 + peer)
}

fn decode_system_slots(header: Header, a: &[u8]) -> (r: SystemSlots)
    ensures
        system_slots_matches(header, a@, r),
{
    let count = read_u8_at(a, 14);
    let peer: usize = match count {
        Some(c) => (c as usize) * 5,
        None => 0,
    };
    SystemSlots {
        header,
        slot_designation: read_u8_at(a, 0),
        slot_type: read_u8_at(a, 1),
        slot_data_bus_width: read_u8_at(a, 2),
        current_usage: read_u8_at(a, 3),
        slot_length: read_u8_at(a, 4),
        slot_id: read_u16_at(a, 5),
        slot_characteristics_1: read_u8_at(a, 7),
        slot_characteristics_2: read_u8_at(a, 8),
        segment_group_number: read_u16_at(a, 9),
        bus_number: read_u8_at(a, 11),
        device_function_number: read_u8_at(a, 12),
        data_bus_width: read_u8_at(a, 13),
        peer_grouping_count: count,
        peer_groups: read_bytes_at(a, 15, peer),
        slot_information: read_u8_at(a, 15 + peer),
        slot_physical_width: read_u8_at(a, 16 + peer),
        slot_pitch: read_u16_at(a, 17 + peer),
        slot_height: read_u8_at(a, 19 + peer),
    }
}

/// OEM Strings, structure type 11: only the count of free-form strings in the
/// trailing string table.
#[derive(Clone, Debug)]
pub struct OemStrings {
    pub header: Header,
    pub count: Option<u8>,
}

pub open spec fn spec_oem_strings(h: Header, a: Seq<u8>) -> OemStrings {
    OemStrings { header: h, count: spec_u8_at(a, 0) }
}

fn decode_oem_strings(header: Header, a: &[u8]) -> (r: OemStrings)
    ensures
        r == spec_oem_strings(header, a@),
{
    OemStrings { header, count: read_u8_at(a, 0) }
}

/// System Configuration Options, structure type 12.
#[derive(Clone, Debug)]
pub struct SystemConfigOptions {
    pub header: Header,
    pub count: Option<u8>,
}

pub open spec fn spec_system_config_options(h: Header, a: Seq<u8>) -> SystemConfigOptions {
    SystemConfigOptions { header: h, count: spec_u8_at(a, 0) }
}

fn decode_system_config_options(header: Header, a: &[u8]) -> (r: SystemConfigOptions)
    ensures
        r == spec_system_config_options(header, a@),
{
    SystemConfigOptions { header, count: read_u8_at(a, 0) }
}

/// BIOS Language Information, structure type 13.
#[derive(Clone, Debug)]
pub struct BiosLanguage {
    pub header: Header,
    pub installable_languages: Option<u8>,
    pub flags: Option<u8>,
    pub reserved: Vec<u8>,
    pub current_language: Option<u8>,
}

pub open spec fn bios_language_matches(h: Header, a: Seq<u8>, r: BiosLanguage) -> bool {
    &&& r.header == h
    &&& r.installable_languages == spec_u8_at(a, 0)
    &&& r.flags == spec_u8_at(a, 1)
    &&& r.reserved@ == spec_bytes_at(a, 2, 15)
    &&& r.current_language == spec_u8_at(a, 17)
}

fn decode_bios_language(header: Header, a: &[u8]) -> (r: BiosLanguage)
    ensures
        bios_language_matches(header, a@, r),
{
    BiosLanguage {
        header,
        installable_languages: read_u8_at(a, 0),
        flags: read_u8_at(a, 1),
        reserved: read_bytes_at(a, 2, 15),
        current_language: read_u8_at(a, 17),
    }
}

/// Group Associations, structure type 14.
#[derive(Clone, Debug)]
pub struct GroupAssociations {
    pub header: Header,
    pub group_name: Option<u8>,
    pub item_type: Option<u8>,
    pub item_handle: Option<u16>,
}

pub open spec fn spec_group_associations(h: Header, a: Seq<u8>) -> GroupAssociations {
    GroupAssociations {
        header: h,
        group_name: spec_u8_at(a, 0),
        item_type: spec_u8_at(a, 1),
        item_handle: spec_u16_at(a, 2),
    }
}

fn decode_group_associations(header: Header, a: &[u8]) -> (r: GroupAssociations)
    ensures
        r == spec_group_associations(header, a@),
{
    GroupAssociations {
        header,
        group_name: read_u8_at(a, 0),
        item_type: read_u8_at(a, 1),
        item_handle: read_u16_at(a, 2),
    }
}

/// System Event Log, structure type 15. The supported log type descriptors
/// are the trailing variable-length array, descriptor count times descriptor
/// length bytes, kept as raw bytes.
#[derive(Clone, Debug)]
pub struct SystemEventLog {
    pub header: Header,
    pub log_area_length: Option<u16>,
    pub log_header_start_offset: Option<u16>,
    pub log_data_start_offset: Option<u16>,
    pub access_method: Option<u8>,
    pub log_status: Option<u8>,
    pub log_change_token: Option<u32>,
    pub access_method_address: Option<u32>,
    pub log_header_format: Option<u8>,
    pub descriptor_count: Option<u8>,
    pub descriptor_length: Option<u8>,
    pub log_type_descriptors: Vec<u8>,
}

/// Declared byte size of the descriptor array: count times per-descriptor
/// length, 0 when either field is absent.
pub open spec fn spec_event_log_descriptor_bytes(a: Seq<u8>) -> int {
    match (spec_u8_at(a, 17), spec_u8_at(a, 18)) {
        (Some(c), Some(l)) => c as int * l as int,
        _ => 0,
    }
}

pub open spec fn system_event_log_matches(h: Header, a: Seq<u8>, r: SystemEventLog) -> bool {
    &&& r.header == h
    &&& r.log_area_length == spec_u16_at(a, 0)
    &&& r.log_header_start_offset == spec_u16_at(a, 2)
    &&& r.log_data_start_offset == spec_u16_at(a, 4)
    &&& r.access_method == spec_u8_at(a, 6)
    &&& r.log_status == spec_u8_at(a, 7)
    &&& r.log_change_token == spec_u32_at(a, 8)
    &&& r.access_method_address == spec_u32_at(a, 12)
    &&& r.log_header_format == spec_u8_at(a, 16)
    &&& r.descriptor_count == spec_u8_at(a, 17)
    &&& r.descriptor_length == spec_u8_at(a, 18)
    &&& r.log_type_descriptors@ == spec_bytes_at(a, 19, spec_event_log_descriptor_bytes(a))
}

fn decode_system_event_log(header: Header, a: &[u8]) -> (r: SystemEventLog)
    ensures
        system_event_log_matches(header, a@, r),
{
    let count = read_u8_at(a, 17);
    let dlen = read_u8_at(a, 18);
    let want: usize = match (count, dlen) {
        (Some(c), Some(l)) => {
            proof {
                assert((c as int) * (l as int) <= 255 * 255) by (nonlinear_arith)
                    requires
                        c <= 255,
                        l <= 255,
                ;
            }
            (c as usize) * (l as usize)
        },
        _ => 0,
    };
    SystemEventLog {
        header,
        log_area_length: read_u16_at(a, 0),
        log_header_start_offset: read_u16_at(a, 2),
        log_data_start_offset: read_u16_at(a, 4),
        access_method: read_u8_at(a, 6),
        log_status: read_u8_at(a, 7),
        log_change_token: read_u32_at(a, 8),
        access_method_address: read_u32_at(a, 12),
        log_header_format: read_u8_at(a, 16),
        descriptor_count: count,
        descriptor_length: dlen,
        log_type_descriptors: read_bytes_at(a, 19, want),
    }
}

/// A structure of a type outside the known-type table, its formatted area
/// kept verbatim.
#[derive(Clone, Debug)]
pub struct UnknownStructure {
    pub header: Header,
    pub raw_formatted_area: Vec<u8>,
}

pub open spec fn unknown_matches(h: Header, a: Seq<u8>, r: UnknownStructure) -> bool {
    &&& r.header == h
    &&& r.raw_formatted_area@ == a
}

fn decode_unknown(header: Header, a: &[u8]) -> (r: UnknownStructure)
    ensures
        unknown_matches(header, a@, r),
{
    let raw = read_bytes_at(a, 0, a.len());
    assert(raw@ =~= a@);
    UnknownStructure { header, raw_formatted_area: raw }
}

/// One decoded structure: a closed variant for each known structure type,
/// and `Unknown` for every other type, the end-of-table marker included.
#[derive(Clone, Debug)]
pub enum StructureRecord {
    BiosInfo(BiosInfo),
    SystemInfo(SystemInfo),
    Baseboard(Baseboard),
    Enclosure(Enclosure),
    Processor(Processor),
    CacheInfo(CacheInfo),
    PortConnector(PortConnector),
    SystemSlots(SystemSlots),
    OemStrings(OemStrings),
    SystemConfigOptions(SystemConfigOptions),
    BiosLanguage(BiosLanguage),
    GroupAssociations(GroupAssociations),
    SystemEventLog(SystemEventLog),
    Unknown(UnknownStructure),
}

/// `r` is exactly what decoding a formatted area `a` under header `h` yields:
/// the variant matches the header's type and every field holds the value read
/// from its documented offset, absent where `a` is too short.
pub open spec fn body_matches(h: Header, a: Seq<u8>, r: StructureRecord) -> bool {
    let t = h.structure_type;
    if t == 0 {
        r matches StructureRecord::BiosInfo(x) && x == spec_bios_info(h, a)
    } else if t == 1 {
        r matches StructureRecord::SystemInfo(x) && system_info_matches(h, a, x)
    } else if t == 2 {
        r matches StructureRecord::Baseboard(x) && baseboard_matches(h, a, x)
    } else if t == 3 {
        r matches StructureRecord::Enclosure(x) && enclosure_matches(h, a, x)
    } else if t == 4 {
        r matches StructureRecord::Processor(x) && x == spec_processor(h, a)
    } else if t == 7 {
        r matches StructureRecord::CacheInfo(x) && x == spec_cache_info(h, a)
    } else if t == 8 {
        r matches StructureRecord::PortConnector(x) && x == spec_port_connector(h, a)
    } else if t == 9 {
        r matches StructureRecord::SystemSlots(x) && system_slots_matches(h, a, x)
    } else if t == 11 {
        r matches StructureRecord::OemStrings(x) && x == spec_oem_strings(h, a)
    } else if t == 12 {
        r matches StructureRecord::SystemConfigOptions(x) && x == spec_system_config_options(h, a)
    } else if t == 13 {
        r matches StructureRecord::BiosLanguage(x) && bios_language_matches(h, a, x)
    } else if t == 14 {
        r matches StructureRecord::GroupAssociations(x) && x == spec_group_associations(h, a)
    } else if t == 15 {
        r matches StructureRecord::SystemEventLog(x) && system_event_log_matches(h, a, x)
    } else {
        r matches StructureRecord::Unknown(x) && unknown_matches(h, a, x)
    }
}

/// The two records agree on every observable field: equal outright for the
/// all-scalar variants, and with equal element sequences for the variants
/// that carry owned byte or handle lists.
pub open spec fn record_equiv(r1: StructureRecord, r2: StructureRecord) -> bool {
    match (r1, r2) {
        (StructureRecord::BiosInfo(x1), StructureRecord::BiosInfo(x2)) => x1 == x2,
        (StructureRecord::SystemInfo(x1), StructureRecord::SystemInfo(x2)) => {
            &&& x1.header == x2.header
            &&& x1.manufacturer == x2.manufacturer
            &&& x1.product_name == x2.product_name
            &&& x1.version == x2.version
            &&& x1.serial_number == x2.serial_number
            &&& match (x1.uuid, x2.uuid) {
                (Some(v1), Some(v2)) => v1@ == v2@,
                (None, None) => true,
                _ => false,
            }
            &&& x1.wake_up_type == x2.wake_up_type
            &&& x1.sku_number == x2.sku_number
            &&& x1.family == x2.family
        },
        (StructureRecord::Baseboard(x1), StructureRecord::Baseboard(x2)) => {
            &&& x1.header == x2.header
            &&& x1.manufacturer == x2.manufacturer
            &&& x1.product == x2.product
            &&& x1.version == x2.version
            &&& x1.serial_number == x2.serial_number
            &&& x1.asset_tag == x2.asset_tag
            &&& x1.feature_flags == x2.feature_flags
            &&& x1.location_in_chassis == x2.location_in_chassis
            &&& x1.chassis_handle == x2.chassis_handle
            &&& x1.board_type == x2.board_type
            &&& x1.contained_object_handle_count == x2.contained_object_handle_count
            &&& x1.contained_object_handles@ == x2.contained_object_handles@
        },
        (StructureRecord::Enclosure(x1), StructureRecord::Enclosure(x2)) => {
            &&& x1.header == x2.header
            &&& x1.manufacturer == x2.manufacturer
            &&& x1.chassis_type == x2.chassis_type
            &&& x1.version == x2.version
            &&& x1.serial_number == x2.serial_number
            &&& x1.asset_tag_number == x2.asset_tag_number
            &&& x1.bootup_state == x2.bootup_state
            &&& x1.power_supply_state == x2.power_supply_state
            &&& x1.thermal_state == x2.thermal_state
            &&& x1.security_status == x2.security_status
            &&& x1.oem_defined == x2.oem_defined
            &&& x1.height == x2.height
            &&& x1.num_of_power_cords == x2.num_of_power_cords
            &&& x1.contained_element_count == x2.contained_element_count
            &&& x1.contained_element_record_length == x2.contained_element_record_length
            &&& x1.contained_elements@ == x2.contained_elements@
            &&& x1.sku_number == x2.sku_number
        },
        (StructureRecord::Processor(x1), StructureRecord::Processor(x2)) => x1 == x2,
        (StructureRecord::CacheInfo(x1), StructureRecord::CacheInfo(x2)) => x1 == x2,
        (StructureRecord::PortConnector(x1), StructureRecord::PortConnector(x2)) => x1 == x2,
        (StructureRecord::SystemSlots(x1), StructureRecord::SystemSlots(x2)) => {
            &&& x1.header == x2.header
            &&& x1.slot_designation == x2.slot_designation
            &&& x1.slot_type == x2.slot_type
            &&& x1.slot_data_bus_width == x2.slot_data_bus_width
            &&& x1.current_usage == x2.current_usage
            &&& x1.slot_length == x2.slot_length
            &&& x1.slot_id == x2.slot_id
            &&& x1.slot_characteristics_1 == x2.slot_characteristics_1
            &&& x1.slot_characteristics_2 == x2.slot_characteristics_2
            &&& x1.segment_group_number == x2.segment_group_number
            &&& x1.bus_number == x2.bus_number
            &&& x1.device_function_number == x2.device_function_number
            &&& x1.data_bus_width == x2.data_bus_width
            &&& x1.peer_grouping_count == x2.peer_grouping_count
            &&& x1.peer_groups@ == x2.peer_groups@
            &&& x1.slot_information == x2.slot_information
            &&& x1.slot_physical_width == x2.slot_physical_width
            &&& x1.slot_pitch == x2.slot_pitch
            &&& x1.slot_height == x2.slot_height
        },
        (StructureRecord::OemStrings(x1), StructureRecord::OemStrings(x2)) => x1 == x2,
        (StructureRecord::SystemConfigOptions(x1), StructureRecord::SystemConfigOptions(x2)) => x1
            == x2,
        (StructureRecord::BiosLanguage(x1), StructureRecord::BiosLanguage(x2)) => {
            &&& x1.header == x2.header
            &&& x1.installable_languages == x2.installable_languages
            &&& x1.flags == x2.flags
            &&& x1.reserved@ == x2.reserved@
            &&& x1.current_language == x2.current_language
        },
        (StructureRecord::GroupAssociations(x1), StructureRecord::GroupAssociations(x2)) => x1
            == x2,
        (StructureRecord::SystemEventLog(x1), StructureRecord::SystemEventLog(x2)) => {
            &&& x1.header == x2.header
            &&& x1.log_area_length == x2.log_area_length
            &&& x1.log_header_start_offset == x2.log_header_start_offset
            &&& x1.log_data_start_offset == x2.log_data_start_offset
            &&& x1.access_method == x2.access_method
            &&& x1.log_status == x2.log_status
            &&& x1.log_change_token == x2.log_change_token
            &&& x1.access_method_address == x2.access_method_address
            &&& x1.log_header_format == x2.log_header_format
            &&& x1.descriptor_count == x2.descriptor_count
            &&& x1.descriptor_length == x2.descriptor_length
            &&& x1.log_type_descriptors@ == x2.log_type_descriptors@
        },
        (StructureRecord::Unknown(x1), StructureRecord::Unknown(x2)) => {
            &&& x1.header == x2.header
            &&& x1.raw_formatted_area@ == x2.raw_formatted_area@
        },
        _ => false,
    }
}

/// Decoding is a function of the header and the formatted area: two records
/// that both decode the same bytes agree on every observable field.
pub proof fn lemma_body_matches_functional(
    h: Header,
    a: Seq<u8>,
    r1: StructureRecord,
    r2: StructureRecord,
)
    requires
        body_matches(h, a, r1),
        body_matches(h, a, r2),
    ensures
        record_equiv(r1, r2),
{
}

/// Decodes a structure's formatted area under its header: known types map
/// their fixed layouts to typed records, any other type decodes to `Unknown`
/// with the formatted area kept verbatim. Decoding never fails: a field whose
/// byte range exceeds the formatted area is reported absent, which is the
/// `TruncatedField` condition absorbed locally.
pub fn decode_body(header: Header, formatted_area: &[u8]) -> (r: Result<
    StructureRecord,
    DecodeError,
>)
    ensures
        r matches Ok(rec) && body_matches(header, formatted_area@, rec),
{
    let t = header.structure_type;
    if t == 0 {
        Ok(StructureRecord::BiosInfo(decode_bios_info(header, formatted_area)))
    } else if t == 1 {
        Ok(StructureRecord::SystemInfo(decode_system_info(header, formatted_area)))
    } else if t == 2 {
        Ok(StructureRecord::Baseboard(decode_baseboard(header, formatted_area)))
    } else if t == 3 {
        Ok(StructureRecord::Enclosure(decode_enclosure(header, formatted_area)))
    } else if t == 4 {
        Ok(StructureRecord::Processor(decode_processor(header, formatted_area)))
    } else if t == 7 {
        Ok(StructureRecord::CacheInfo(decode_cache_info(header, formatted_area)))
    } else if t == 8 {
        Ok(StructureRecord::PortConnector(decode_port_connector(header, formatted_area)))
    } else if t == 9 {
        Ok(StructureRecord::SystemSlots(decode_system_slots(header, formatted_area)))
    } else if t == 11 {
        Ok(StructureRecord::OemStrings(decode_oem_strings(header, formatted_area)))
    } else if t == 12 {
        Ok(StructureRecord::SystemConfigOptions(decode_system_config_options(header, formatted_area)))
    } else if t == 13 {
        Ok(StructureRecord::BiosLanguage(decode_bios_language(header, formatted_area)))
    } else if t == 14 {
        Ok(StructureRecord::GroupAssociations(decode_group_associations(header, formatted_area)))
    } else if t == 15 {
        Ok(StructureRecord::SystemEventLog(decode_system_event_log(header, formatted_area)))
    } else {
        Ok(StructureRecord::Unknown(decode_unknown(header, formatted_area)))
    }
}

} // verus!
