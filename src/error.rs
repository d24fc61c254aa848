//! The ways a conversion or a save can fail.

use vstd::prelude::*;

verus! {

/// Why a document could not be converted, or its Markdown not saved.
#[derive(Debug, PartialEq, Eq)]
pub enum ConvertError {
    /// The path does not end in `.xmind`.
    InvalidExtension,
    /// The file could not be opened or read; the cause is attached.
    FileOpenFailure(String),
    /// The bytes are not a readable ZIP archive.
    CorruptArchive,
    /// The archive holds the older XML layout only.
    UnsupportedLegacyFormat,
    /// Neither data entry nor legacy marker; the listing of the entries is attached.
    DataEntryNotFound(String),
    /// The data entry does not hold a topic tree.
    MalformedPayload,
    /// The destination could not be written; the cause is attached.
    WriteFailure(String),
}

} // verus!
