//! Error taxonomy for reading, filtering, and merging replay containers.

use vstd::prelude::*;

verus! {

/// Why an operation on a replay container failed.
///
/// None of these conditions is retried or healed internally; each one is
/// surfaced to the caller as soon as it is detected.
#[derive(Debug, Clone, Copy, PartialEq, Eq, Structural)]
pub enum Error {
    /// The byte stream ended in the middle of a record or of a
    /// variable-length integer.
    TruncatedInput,
    /// A variable-length integer ran past its byte budget without a
    /// terminating byte.
    MalformedVarint,
    /// A named entry expected in a storage backend was absent.
    EntryNotFound,
    /// The underlying device or container reported a failure.
    IOError,
    /// A metadata document did not follow its schema.
    MetadataFormatError,
}

impl Error {
    /// A short human-readable description of the failure.
    pub fn message(&self) -> (r: &'static str)
        ensures
            r@.len() > 0,
    {
        proof {
            reveal_strlit("stream ended mid-record or mid-varint");
            reveal_strlit("varint exceeded its byte budget");
            reveal_strlit("entry not found in backend");
            reveal_strlit("backend I/O failure");
            reveal_strlit("metadata document failed to parse");
        }
        match self {
            Error::TruncatedInput => "stream ended mid-record or mid-varint",
            Error::MalformedVarint => "varint exceeded its byte budget",
            Error::EntryNotFound => "entry not found in backend",
            Error::IOError => "backend I/O failure",
            Error::MetadataFormatError => "metadata document failed to parse",
        }
    }
}

} // verus!
