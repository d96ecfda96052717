//! What can go wrong while archiving.

use vstd::prelude::*;

verus! {

/// A field that every archived record must carry.
#[derive(Clone, Copy, Debug, PartialEq, Eq)]
pub enum RequiredField {
    Id,
    Timestamp,
}

/// The failures of the archive's operations.
#[derive(Debug, PartialEq, Eq)]
pub enum ArchiveError {
    /// A required record field is absent, not a string, or (for the id) empty.
    MissingField(RequiredField),
    /// The timestamp is not RFC 3339 text.
    MalformedTimestamp,
    /// Creating, reading, writing or deleting a file failed.
    Io(String),
    /// Encoding or decoding JSON failed.
    Serialization(String),
}

} // verus!
