//! A read-only virtual filesystem over the paired, encrypted archives of a
//! FROMSOFTWARE game installation, together with a nested-container lookup
//! chain and a bulk-extraction planner.
//!
//! Archives never store plaintext names: entries are addressed by a 64-bit
//! hash of a canonicalized virtual path. The library loads each archive's
//! encrypted table of contents, merges the entries into one frozen table
//! (last archive wins on a hash collision), and opens entries by decrypting
//! their declared byte ranges in place.

pub mod bnd4;
pub mod bytes;
pub mod cipher;
pub mod cli;
pub mod dcx;
pub mod decrypt;
pub mod dict;
pub mod entry;
pub mod errors;
pub mod extract;
pub mod mapped;
pub mod msb;
pub mod name;
pub mod reader;
pub mod strings;
pub mod table;
pub mod toc;
pub mod utf16;
pub mod vfs;

pub use crate::entry::VfsFileEntry;
pub use crate::errors::{Bnd4Error, CreateError, DcxError, DvdBndEntryError, KeyError, ReadFileError, TocError};
pub use crate::extract::ExtractOutcome;
pub use crate::name::Name;
pub use crate::reader::DvdBndEntryReader;
pub use crate::vfs::{ArchiveKeyProvider, ArchiveSource, DvdBnd, GameType};
