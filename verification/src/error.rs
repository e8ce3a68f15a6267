use vstd::prelude::*;

verus! {

/// Failure kinds for entry-point discovery, header and body decoding,
/// string-table scanning and the table walk.
#[derive(Clone, Copy, Debug, PartialEq, Eq, Structural)]
pub enum DecodeError {
    /// The entry-point region holds fewer bytes than the minimum entry-point
    /// size of the matched anchor.
    BufferTooSmall,
    /// No anchor matched at the start of the region, or the legacy anchor
    /// matched without its intermediate anchor.
    MalformedEntryPoint,
    /// Fewer than four bytes remain where a structure header is expected.
    Truncated,
    /// A known field's byte range exceeds the formatted area. Body decoding
    /// absorbs this locally: the field is left absent and the rest of the
    /// structure still decodes.
    TruncatedField,
    /// A scanned string is not valid UTF-8.
    InvalidStringEncoding,
    /// The buffer ended before the double-NUL table terminator.
    UnterminatedStringTable,
    /// A string scan ran past the buffer end without finding a NUL, or a
    /// string span was empty.
    MalformedStringTable,
}

} // verus!
