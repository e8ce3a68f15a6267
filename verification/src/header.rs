use vstd::prelude::*;

use crate::bytes::le16;
use crate::error::DecodeError;

verus! {

/// The four-byte header common to every SMBIOS structure. `length` counts the
/// formatted area including these four bytes and never the trailing string
/// table; a well-formed structure has `length >= 4`.
#[derive(Clone, Copy, Debug, PartialEq, Eq, Structural)]
pub struct Header {
    pub structure_type: u8,
    pub length: u8,
    pub handle: u16,
}

/// The header read from the first four bytes: type, length, then the handle
/// in little-endian order. Absent when fewer than four bytes are given.
pub open spec fn spec_header(s: Seq<u8>) -> Option<Header> {
    if s.len() >= 4 {
        Some(Header { structure_type: s[0], length: s[1], handle: le16(s, 2) })
    } else {
        None
    }
}

impl Header {
    /// Whether this header could head a well-formed structure.
    pub open spec fn wf(self) -> bool {
        self.length >= 4
    }

    /// Reads a header from the first four bytes of `bytes`, with the handle
    /// taken little-endian. At least four bytes must be present; nothing more
    /// is required, since a header-only structure is legal.
    pub fn from_le_bytes(bytes: &[u8]) -> (r: Option<Self>)
        ensures
            r == spec_header(bytes@),
    {
        if bytes.len() >= 4 {
            Some(
                Header {
                    structure_type: bytes[0],
                    length: bytes[1],
                    handle: (bytes[2] as u16) | ((bytes[3] as u16) << 8),
                },
            )
        } else {
            None
        }
    }
}

/// Decodes the common structure header, failing with `Truncated` when fewer
/// than four bytes are available. Pure field extraction: the `length` field
/// is reported as read, without further validation.
pub fn decode_header(buffer: &[u8]) -> (r: Result<Header, DecodeError>)
    ensures
        r == match spec_header(buffer@) {
            Some(h) => Ok::<Header, DecodeError>(h),
            None => Err::<Header, DecodeError>(DecodeError::Truncated),
        },
{
    match Header::from_le_bytes(buffer) {
        Some(h) => Ok(h),
        None => Err(DecodeError::Truncated),
    }
}

} // verus!
