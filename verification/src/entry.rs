use vstd::prelude::*;

use crate::bytes::{le16, le32, le64};
use crate::error::DecodeError;

verus! {

/// Byte size of a complete legacy ("_SM_") entry point.
pub const LEGACY_ENTRY_POINT_SIZE: usize = 31;

/// Byte size of a complete 64-bit ("_SM3_") entry point.
pub const V3_ENTRY_POINT_SIZE: usize = 24;

/// Offset of the intermediate "_DMI_" anchor inside a legacy entry point.
pub const INTERMEDIATE_ANCHOR_OFFSET: usize = 16;

/// The four legacy anchor bytes, "_SM_".
pub open spec fn anchor21_bytes() -> Seq<u8> {
    seq![0x5fu8, 0x53u8, 0x4du8, 0x5fu8]
}

/// The five 64-bit anchor bytes, "_SM3_".
pub open spec fn anchor30_bytes() -> Seq<u8> {
    seq![0x5fu8, 0x53u8, 0x4du8, 0x33u8, 0x5fu8]
}

/// The five intermediate anchor bytes, "_DMI_".
pub open spec fn intermediate_anchor_bytes() -> Seq<u8> {
    seq![0x5fu8, 0x44u8, 0x4du8, 0x49u8, 0x5fu8]
}

/// The buffer begins with the legacy anchor "_SM_".
pub open spec fn has_anchor21(b: Seq<u8>) -> bool {
    b.len() >= 4 && b[0] == 0x5f && b[1] == 0x53 && b[2] == 0x4d && b[3] == 0x5f
}

/// The buffer begins with the 64-bit anchor "_SM3_".
pub open spec fn has_anchor30(b: Seq<u8>) -> bool {
    b.len() >= 5 && b[0] == 0x5f && b[1] == 0x53 && b[2] == 0x4d && b[3] == 0x33 && b[4] == 0x5f
}

/// The buffer holds the intermediate anchor "_DMI_" at its fixed offset
/// inside the legacy entry point.
pub open spec fn has_intermediate_anchor(b: Seq<u8>) -> bool {
    b.len() >= 21 && b[16] == 0x5f && b[17] == 0x44 && b[18] == 0x4d && b[19] == 0x49 && b[20]
        == 0x5f
}

/// Which entry-point format was recognized.
#[derive(Clone, Copy, Debug, PartialEq, Eq, Structural)]
pub enum EntryPointVersion {
    /// The 32-bit "2.1" format, anchored by "_SM_" plus "_DMI_".
    Legacy,
    /// The 64-bit "3.0" format, anchored by "_SM3_".
    V3,
}

/// A normalized entry-point descriptor. Exactly one of the two per-format
/// field groups is populated: a legacy entry carries the exact table length
/// and the structure count, a 64-bit entry carries only the maximum table
/// size. `table_start_offset` is where the structure table begins when the
/// table region directly follows the entry point in the same buffer;
/// `table_address` is the physical address the firmware reported.
#[derive(Clone, Copy, Debug, PartialEq, Eq, Structural)]
pub struct EntryPoint {
    pub version: EntryPointVersion,
    pub table_start_offset: usize,
    pub table_length: Option<u32>,
    pub table_max_size: Option<u32>,
    pub structure_count: Option<u16>,
    pub table_address: u64,
}

impl EntryPoint {
    /// The per-format field groups match the version: the legacy fields are
    /// populated exactly on a legacy entry, the maximum size exactly on a
    /// 64-bit entry.
    pub open spec fn wf(self) -> bool {
        match self.version {
            EntryPointVersion::Legacy => self.table_length is Some && self.structure_count is Some
                && self.table_max_size is None,
            EntryPointVersion::V3 => self.table_length is None && self.structure_count is None
                && self.table_max_size is Some,
        }
    }
}

/// What `locate` returns on a given buffer: the 64-bit anchor is tried first,
/// then the legacy anchor, which is valid only together with its intermediate
/// anchor; all trailer fields are read little-endian.
pub open spec fn spec_locate(b: Seq<u8>) -> Result<EntryPoint, DecodeError> {
    if b.len() < 4 {
        Err(DecodeError::BufferTooSmall)
    } else if has_anchor30(b) {
        if b.len() < V3_ENTRY_POINT_SIZE {
            Err(DecodeError::BufferTooSmall)
        } else {
            Ok(
                EntryPoint {
                    version: EntryPointVersion::V3,
                    table_start_offset: V3_ENTRY_POINT_SIZE,
                    table_length: None,
                    table_max_size: Some(le32(b, 12)),
                    structure_count: None,
                    table_address: le64(b, 16),
                },
            )
        }
    } else if has_anchor21(b) {
        if b.len() < LEGACY_ENTRY_POINT_SIZE {
            Err(DecodeError::BufferTooSmall)
        } else if !has_intermediate_anchor(b) {
            Err(DecodeError::MalformedEntryPoint)
        } else {
            Ok(
                EntryPoint {
                    version: EntryPointVersion::Legacy,
                    table_start_offset: LEGACY_ENTRY_POINT_SIZE,
                    table_length: Some(le16(b, 22) as u32),
                    table_max_size: None,
                    structure_count: Some(le16(b, 28)),
                    table_address: le32(b, 24) as u64,
                },
            )
        }
    } else {
        Err(DecodeError::MalformedEntryPoint)
    }
}

/// Recognizes either anchor signature at the start of `buffer` and parses the
/// matched entry point into a normalized descriptor. A legacy entry point is
/// accepted only when the intermediate "_DMI_" anchor stands at its fixed
/// offset; checksum bytes are read over but not validated.
pub fn locate(buffer: &[u8]) -> (r: Result<EntryPoint, DecodeError>)
    ensures
        r == spec_locate(buffer@),
{
    if buffer.len() < 4 {
        return Err(DecodeError::BufferTooSmall);
    }
    if buffer.len() >= 5 && buffer[0] == 0x5f && buffer[1] == 0x53 && buffer[2] == 0x4d
        && buffer[3] == 0x33 && buffer[4] == 0x5f {
        if buffer.len() < V3_ENTRY_POINT_SIZE {
            return Err(DecodeError::BufferTooSmall);
        }
        let table_max_size: u32 = (buffer[12] as u32) | ((buffer[13] as u32) << 8) | ((buffer[14]
            as u32) << 16) | ((buffer[15] as u32) << 24);
        let table_address: u64 = (buffer[16] as u64) | ((buffer[17] as u64) << 8) | ((buffer[18]
            as u64) << 16) | ((buffer[19] as u64) << 24) | ((buffer[20] as u64) << 32) | ((
        buffer[21] as u64) << 40) | ((buffer[22] as u64) << 48) | ((buffer[23] as u64) << 56);
        return Ok(
            EntryPoint {
                version: EntryPointVersion::V3,
                table_start_offset: V3_ENTRY_POINT_SIZE,
                table_length: None,
                table_max_size: Some(table_max_size),
                structure_count: None,
                table_address,
            },
        );
    }
    if buffer[0] == 0x5f && buffer[1] == 0x53 && buffer[2] == 0x4d && buffer[3] == 0x5f {
        if buffer.len() < LEGACY_ENTRY_POINT_SIZE {
            return Err(DecodeError::BufferTooSmall);
        }
        if !(buffer[16] == 0x5f && buffer[17] == 0x44 && buffer[18] == 0x4d && buffer[19] == 0x49
            && buffer[20] == 0x5f) {
            return Err(DecodeError::MalformedEntryPoint);
        }
        let table_length: u16 = (buffer[22] as u16) | ((buffer[23] as u16) << 8);
        let structure_count: u16 = (buffer[28] as u16) | ((buffer[29] as u16) << 8);
        let table_address: u32 = (buffer[24] as u32) | ((buffer[25] as u32) << 8) | ((buffer[26]
            as u32) << 16) | ((buffer[27] as u32) << 24);
        return Ok(
            EntryPoint {
                version: EntryPointVersion::Legacy,
                table_start_offset: LEGACY_ENTRY_POINT_SIZE,
                table_length: Some(table_length as u32),
                table_max_size: None,
                structure_count: Some(structure_count),
                table_address: table_address as u64,
            },
        );
    }
    Err(DecodeError::MalformedEntryPoint)
}

/// A legacy entry point is recognized only together with its intermediate
/// anchor: with "_SM_" present and "_DMI_" absent, locating fails with
/// `MalformedEntryPoint`, never with a successful parse.
pub proof fn lemma_locate_legacy_requires_intermediate(b: Seq<u8>)
    requires
        has_anchor21(b),
        b.len() >= LEGACY_ENTRY_POINT_SIZE,
        !has_intermediate_anchor(b),
    ensures
        spec_locate(b) == Err::<EntryPoint, DecodeError>(DecodeError::MalformedEntryPoint),
{
}

/// Every buffer long enough for a legacy entry point that carries both the
/// "_SM_" anchor and the intermediate "_DMI_" anchor is recognized as a
/// legacy entry point, with the table length, structure count and table
/// address read little-endian from their fixed offsets.
pub proof fn lemma_locate_legacy_recognized(b: Seq<u8>)
    requires
        has_anchor21(b),
        b.len() >= LEGACY_ENTRY_POINT_SIZE,
        has_intermediate_anchor(b),
    ensures
        spec_locate(b) matches Ok(e) && e.version == EntryPointVersion::Legacy
            && e.table_start_offset == LEGACY_ENTRY_POINT_SIZE && e.table_length == Some(
            le16(b, 22) as u32,
        ) && e.structure_count == Some(le16(b, 28)) && e.table_max_size is None
            && e.table_address == le32(b, 24) as u64,
{
}

/// Every buffer long enough for a 64-bit entry point that carries the "_SM3_"
/// anchor is recognized as a 64-bit entry point, whatever the bytes at the
/// legacy intermediate-anchor offset hold: the 64-bit format does not require
/// the intermediate anchor.
pub proof fn lemma_locate_v3_recognized(b: Seq<u8>)
    requires
        has_anchor30(b),
        b.len() >= V3_ENTRY_POINT_SIZE,
    ensures
        spec_locate(b) matches Ok(e) && e.version == EntryPointVersion::V3
            && e.table_start_offset == V3_ENTRY_POINT_SIZE && e.table_max_size == Some(le32(b, 12))
            && e.table_length is None && e.structure_count is None && e.table_address == le64(
            b,
            16,
        ),
{
}

/// Every entry point that `locate` accepts satisfies the `EntryPoint`
/// invariant: exactly one per-format field group is populated.
pub proof fn lemma_locate_well_formed(b: Seq<u8>)
    ensures
        spec_locate(b) matches Ok(e) ==> e.wf(),
{
}

/// A transparent wrapper marking a value as carrying a raw SMBIOS table
/// region handed over by a platform-specific byte source.
pub struct WrapTable<T>(pub T);

impl<T> WrapTable<T> {
    pub fn new(value: T) -> (r: Self)
        ensures
            r.0 == value,
    {
        WrapTable(value)
    }

    pub fn into_inner(self) -> (r: T)
        ensures
            r == self.0,
    {
        self.0
    }
}

/// The raw layout of a legacy ("_SM_") entry point, field for field.
pub struct SMBios21Entry {
    pub anchor_string: [u8; 4],
    pub checksum: u8,
    pub length: u8,
    pub major: u8,
    pub minor: u8,
    pub maximum_size: u16,
    pub revision: u8,
    pub formatted_area: [u8; 5],
    pub intermediate_anchor: [u8; 5],
    pub intermediate_checksum: u8,
    pub structure_table_length: u16,
    pub structure_table_address: u32,
    pub num_of_structures: u16,
    pub bcd_revision: u8,
}

impl SMBios21Entry {
    /// A blank legacy entry point: both anchors set, version 2.1, every other
    /// field zero.
    pub fn new() -> (r: Self)
        ensures
            r.anchor_string@ == anchor21_bytes(),
            r.checksum == 0,
            r.length == 0,
            r.major == 2,
            r.minor == 1,
            r.maximum_size == 0,
            r.revision == 0,
            r.formatted_area@ == seq![0u8, 0u8, 0u8, 0u8, 0u8],
            r.intermediate_anchor@ == intermediate_anchor_bytes(),
            r.intermediate_checksum == 0,
            r.structure_table_length == 0,
            r.structure_table_address == 0,
            r.num_of_structures == 0,
            r.bcd_revision == 0x21,
    {
        let anchor_string: [u8; 4] = [0x5f, 0x53, 0x4d, 0x5f];
        let formatted_area: [u8; 5] = [0, 0, 0, 0, 0];
        let intermediate_anchor: [u8; 5] = [0x5f, 0x44, 0x4d, 0x49, 0x5f];
        proof {
            assert(anchor_string@ =~= anchor21_bytes());
            assert(formatted_area@ =~= seq![0u8, 0u8, 0u8, 0u8, 0u8]);
            assert(intermediate_anchor@ =~= intermediate_anchor_bytes());
        }
        SMBios21Entry {
            anchor_string,
            checksum: 0,
            length: 0,
            major: 2,
            minor: 1,
            maximum_size: 0,
            revision: 0,
            formatted_area,
            intermediate_anchor,
            intermediate_checksum: 0,
            structure_table_length: 0,
            structure_table_address: 0,
            num_of_structures: 0,
            bcd_revision: 0x21,
        }
    }
}

/// The raw layout of a 64-bit ("_SM3_") entry point, field for field.
pub struct SMBios30Entry {
    pub anchor_string: [u8; 5],
    pub checksum: u8,
    pub length: u8,
    pub major: u8,
    pub minor: u8,
    pub doc_rev: u8,
    pub revision: u8,
    pub reserved: u8,
    pub structure_table_length: u32,
    pub structure_table_address: u64,
}

impl SMBios30Entry {
    /// A blank 64-bit entry point: anchor set, version 3.0, every other field
    /// zero.
    pub fn new() -> (r: Self)
        ensures
            r.anchor_string@ == anchor30_bytes(),
            r.checksum == 0,
            r.length == 0,
            r.major == 3,
            r.minor == 0,
            r.doc_rev == 0,
            r.revision == 0,
            r.reserved == 0,
            r.structure_table_length == 0,
            r.structure_table_address == 0,
    {
        let anchor_string: [u8; 5] = [0x5f, 0x53, 0x4d, 0x33, 0x5f];
        proof {
            assert(anchor_string@ =~= anchor30_bytes());
        }
        SMBios30Entry {
            anchor_string,
            checksum: 0,
            length: 0,
            major: 3,
            minor: 0,
            doc_rev: 0,
            revision: 0,
            reserved: 0,
            structure_table_length: 0,
            structure_table_address: 0,
        }
    }
}

} // verus!
