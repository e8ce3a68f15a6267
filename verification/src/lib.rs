//! Decoder for raw SMBIOS structure tables.
//!
//! The table is a self-describing, variable-length binary stream: each
//! structure's true size is only known once its trailing string table has
//! been scanned for the double-NUL terminator, and two incompatible
//! entry-point formats bound and locate the stream. The modules follow that
//! shape: [`entry`] recognizes either anchor and normalizes the entry point,
//! [`header`] reads the four-byte structure header, [`body`] maps each known
//! type's fixed layout to a typed record, [`strings`] splits the trailing
//! string table and reports the exact byte count consumed, and [`walker`]
//! drives them from one structure to the next over a single in-memory
//! buffer.

pub mod body;
pub mod bytes;
pub mod entry;
pub mod error;
pub mod header;
pub mod strings;
pub mod walker;
