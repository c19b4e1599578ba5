//! The storage backend abstraction: named byte entries behind a pair of
//! capability traits, so the same packet and metadata logic runs against a
//! compressed archive or any other store.
//!
//! A backend's observable content is a map from entry names to entry
//! bytes, given by each trait's `spec_entries`.  An entry is read or
//! written whole, as one byte vector; a backend that can only write
//! sequentially (such as a compressed archive) is therefore never left
//! with a half-written entry open.

use vstd::prelude::*;

pub mod zip;

use crate::error::Error;

verus! {

/// A backend holding named byte entries open for writing.
pub trait ArchiveWriter {
    /// The entries the backend holds, by name.  Backends outside the
    /// verified world inherit the default, about which nothing is claimed.
    open spec fn spec_entries(&self) -> Map<Seq<char>, Seq<u8>> {
        Map::empty()
    }

    /// Write `data` as the whole content of the entry called `filename`.
    fn write_entry(&mut self, filename: &str, data: &[u8]) -> (r: Result<(), Error>)
        ensures
            r is Ok ==> final(self).spec_entries() == old(self).spec_entries().insert(
                filename@,
                data@,
            ),
    ;
}

/// A backend holding named byte entries open for reading.
pub trait ArchiveReader {
    /// The entries the backend holds, by name.  Backends outside the
    /// verified world inherit the default, about which nothing is claimed.
    open spec fn spec_entries(&self) -> Map<Seq<char>, Seq<u8>> {
        Map::empty()
    }

    /// Read the whole content of the entry called `filename`;
    /// `EntryNotFound` exactly when the backend has no such entry.
    fn read_entry(&mut self, filename: &str) -> (r: Result<Vec<u8>, Error>)
        ensures
            final(self).spec_entries() == old(self).spec_entries(),
            match r {
                Ok(v) => old(self).spec_entries().dom().contains(filename@) && v@ == old(
                    self,
                ).spec_entries()[filename@],
                Err(Error::EntryNotFound) => !old(self).spec_entries().dom().contains(filename@),
                Err(Error::IOError) => true,
                Err(_) => false,
            },
            !old(self).spec_entries().dom().contains(filename@) ==> r == Err::<Vec<u8>, Error>(
                Error::EntryNotFound,
            ),
    ;
}

} // verus!
