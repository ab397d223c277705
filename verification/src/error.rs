//! What can go wrong, and what reading the mapping file can give.

use vstd::prelude::*;

verus! {

/// Why an operation on the port mapping failed.
#[derive(Debug, Clone, PartialEq, Eq)]
pub enum PortMappingError {
    /// The mapping file could not be read or written. The text is the cause
    /// as the file system reported it.
    IoError(String),
    /// The mapping file holds something that is not a mapping from
    /// identifiers to ports. The text is the decoder's complaint.
    MalformedData(String),
    /// The mapping could not be turned into a document. The text says why:
    /// the mapping is too large for one, the encoder complained, or what it
    /// wrote does not read back as the mapping.
    SerializationError(String),
    /// The host had no free port to give.
    NoPortsAvailable,
}

/// What an attempt to read the mapping file gave.
#[derive(Debug, Clone, PartialEq, Eq)]
pub enum FileRead {
    /// There is no mapping file: nothing has been assigned yet.
    NotFound,
    /// The file is there and could not be read. The text is the cause as the
    /// file system reported it.
    Failed(String),
    /// The whole text of the file.
    Contents(String),
}

} // verus!
