//! Error taxonomy of the virtual filesystem.
//!
//! A lookup miss (`NotFound`) is recoverable and is skipped silently during
//! bulk extraction; every other failure is surfaced. Corruption is detected
//! before any decryption, never inferred after a fault.

use vstd::prelude::*;

verus! {

/// Failure of opening one entry.
#[derive(Clone, Copy, Debug, PartialEq, Eq, Structural)]
pub enum DvdBndEntryError {
    /// A declared encrypted range lies outside the entry's own bounds.
    CorruptEntry,
    /// No entry with the requested name hash exists: an expected, recoverable
    /// miss, distinct from corruption.
    NotFound,
    /// The entry's data region lies outside its archive's mapped bytes.
    UnableToMap,
}

/// Failure of the key provider for one archive.
#[derive(Clone, Copy, Debug, PartialEq, Eq, Structural)]
pub enum KeyError {
    /// No key is available for the archive.
    Missing,
    /// The key material exists but is not usable.
    Malformed,
}

/// Failure of loading one archive's table of contents.
#[derive(Clone, Copy, Debug, PartialEq, Eq, Structural)]
pub enum TocError {
    /// The encrypted index is not a whole number of cipher blocks.
    MisalignedIndex,
    /// The decrypted index fails validation: wrong magic, or truncated
    /// entry records. With a wrong archive key the decrypted bytes are
    /// garbage and fail here.
    CorruptIndex,
}

/// Failure of constructing the virtual filesystem. Construction is
/// fail-fast: any archive that cannot be loaded aborts the whole
/// construction, and no partial filesystem is ever produced.
#[derive(Clone, Copy, Debug, PartialEq, Eq, Structural)]
pub enum CreateError {
    /// The key provider failed for an archive.
    Key(KeyError),
    /// An archive's index could not be decrypted and validated.
    Index(TocError),
}

/// Failure of reading a compression envelope.
#[derive(Clone, Copy, Debug, PartialEq, Eq, Structural)]
pub enum DcxError {
    /// The bytes do not form a well-formed envelope header.
    BadHeader,
    /// The envelope names a compression algorithm this library cannot
    /// decompress.
    UnsupportedFormat,
    /// The compressed payload does not inflate, or inflates to a length
    /// other than the one the header declares.
    BadData,
}

/// Failure of parsing a nested container.
#[derive(Clone, Copy, Debug, PartialEq, Eq, Structural)]
pub enum Bnd4Error {
    /// The bytes do not form a well-formed container header.
    BadHeader,
    /// A member record or member name lies outside the container's bytes.
    Truncated,
    /// A member's path is not decodable text.
    BadMemberPath,
}

/// Failure of a nested lookup or of one extraction candidate.
#[derive(Clone, Copy, Debug, PartialEq, Eq, Structural)]
pub enum ReadFileError {
    /// Opening the underlying entry failed.
    Entry(DvdBndEntryError),
    /// The entry's compression envelope could not be read.
    Envelope(DcxError),
    /// A buffer along the chain could not be parsed as a nested container.
    Container(Bnd4Error),
    /// The requested member is absent from the nested container.
    MemberNotFound,
}

} // verus!
