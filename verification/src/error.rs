//! The errors that parsing and record-identity queries can report.

use vstd::prelude::*;

verus! {

/// Why a stretch of plugin content could not be parsed.
#[derive(Debug)]
pub enum ParsingErrorKind {
    /// A record's type tag was not the expected one; carries the expected
    /// tag as its little-endian value.
    UnexpectedRecordType(u32),
    /// A subrecord's type tag was not the expected one; carries the expected
    /// tag as its little-endian value.
    UnexpectedSubrecordType(u32),
    /// A subrecord's data field was shorter than the number of bytes needed.
    SubrecordDataTooShort(usize),
    /// The input ended before the structure being read was complete.
    UnexpectedEndOfStream,
    /// A compressed record's data could not be decompressed.
    DecompressionFailed,
    /// A group's declared size was smaller than its own header.
    GroupMalformed,
}

/// An error raised while reading a plugin or answering a query about it.
#[derive(Debug)]
pub enum Error {
    /// Malformed plugin content: the offending bytes and what went wrong.
    ParsingError(Vec<u8>, ParsingErrorKind),
    /// Bytes for which the Windows-1252 decoder produced no mapping.
    DecodeError(Vec<u8>),
    /// The plugin's path has no final component; carries the path.
    NoFilename(String),
    /// A query that needs resolved record identifiers was asked before
    /// resolution; carries the plugin's path.
    UnresolvedRecordIds(String),
    /// A master referenced by the plugin was missing from the supplied
    /// metadata; carries the master's name.
    PluginMetadataNotFound(String),
}

} // verus!
