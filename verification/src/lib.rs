//! A streaming, in-memory ZIP archive writer.
//!
//! Callers open one entry at a time with [`ZipWriter::start_file`], feed it
//! raw bytes with [`ZipWriter::write`], and seal the archive with
//! [`ZipWriter::finish`], which returns the complete archive as a byte
//! buffer.  Entries are stored uncompressed; the writer maintains the
//! running CRC-32 and size counters itself and emits the local file
//! headers, the central directory and the end-of-central-directory record.

use vstd::prelude::*;

pub mod bytes;
pub mod crc32;
pub mod headers;
pub mod timestamp;
pub mod writer;

pub use crate::writer::FileOptions;
pub use crate::writer::ZipWriter;

verus! {

/// Errors reported by the archive writer.
#[derive(Clone, Copy, Debug, PartialEq, Eq, Structural)]
pub enum ZipError {
    /// A calendar field of a timestamp lies outside its representable range.
    InvalidTimestamp,
    /// An entry name is empty.
    InvalidName,
    /// An entry name does not fit the 16-bit length field of the format.
    NameTooLong,
    /// `write` was called while no entry was open.
    NoActiveEntry,
    /// A size, offset or count no longer fits its fixed-width field.
    ArchiveTooLarge,
}

} // verus!
