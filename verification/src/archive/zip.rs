//! The compressed-archive storage backend, held in memory.
//!
//! The `zip` crate does the container work; this module declares its
//! reader type to the verifier, carries its writer behind an opaque
//! holder, and routes every call through a small trusted wrapper.  What an
//! archive holds is modeled as a map from entry names to entry bytes,
//! through three uninterpreted names: the entries of a writer in progress,
//! the entries of an opened archive, and the entries a finished byte
//! string decodes to.  Entries are written whole, one per call, which
//! meets the underlying container's sequential-write constraint by
//! construction.

use vstd::prelude::*;

use crate::archive::{ArchiveReader, ArchiveWriter};
use crate::error::Error;

verus! {

#[verifier::external_type_specification]
#[verifier::external_body]
#[verifier::reject_recursive_types(R)]
pub struct ExZipArchive<R>(zip::read::ZipArchive<R>);

/// An opaque holder for the crate's archive writer: `ZipWriter`'s own
/// generic bounds name traits the verifier does not know, so the writer
/// cannot be declared to it directly and is carried behind this struct.
#[verifier::external_body]
pub struct ZipWriterInner {
    writer: zip::write::ZipWriter<std::io::Cursor<Vec<u8>>>,
}

#[verifier::external_type_specification]
#[verifier::external_body]
#[verifier::reject_recursive_types(T)]
pub struct ExCursor<T>(std::io::Cursor<T>);

/// The entries a byte string holds as a compressed container: `None` when
/// the bytes are not a readable archive, else each entry's bytes by name.
pub uninterp spec fn zip_entries(bytes: Seq<u8>) -> Option<Map<Seq<char>, Seq<u8>>>;

/// The entries an opened archive holds, by name.
pub uninterp spec fn archive_entries(
    archive: zip::read::ZipArchive<std::io::Cursor<Vec<u8>>>,
) -> Map<Seq<char>, Seq<u8>>;

/// The entries written so far through a writer.
pub uninterp spec fn writer_entries(writer: ZipWriterInner) -> Map<Seq<char>, Seq<u8>>;

/// Relies on `zip::read::ZipArchive::new` over an in-memory cursor: it
/// parses the archive's central directory, succeeding exactly when the
/// bytes are a readable archive, and reads no entry yet.
#[verifier::external_body]
fn zip_open(bytes: Vec<u8>) -> (r: Result<zip::read::ZipArchive<std::io::Cursor<Vec<u8>>>, Error>)
    ensures
        match r {
            Ok(archive) => zip_entries(bytes@) == Some(archive_entries(archive)),
            Err(e) => zip_entries(bytes@) is None && e == Error::IOError,
        },
{
    match zip::read::ZipArchive::new(std::io::Cursor::new(bytes)) {
        Ok(z) => Ok(z),
        Err(_) => Err(Error::IOError),
    }
}

/// Relies on `zip::read::ZipArchive::by_name` — which answers
/// `FileNotFound` exactly when the archive has no entry of that name,
/// before any read — and on `std::io::Read::read_to_end` to decompress
/// the entry's bytes; neither changes what the archive holds.
#[verifier::external_body]
fn zip_read_entry(
    archive: &mut zip::read::ZipArchive<std::io::Cursor<Vec<u8>>>,
    name: &str,
) -> (r: Result<Vec<u8>, Error>)
    ensures
        archive_entries(*final(archive)) == archive_entries(*old(archive)),
        match r {
            Ok(v) => archive_entries(*old(archive)).dom().contains(name@) && v@ == archive_entries(
                *old(archive),
            )[name@],
            Err(e) => (e == Error::EntryNotFound || e == Error::IOError) && (e
                == Error::EntryNotFound <==> !archive_entries(*old(archive)).dom().contains(
                name@,
            )),
        },
{
    let mut file = match archive.by_name(name) {
        Ok(f) => f,
        Err(zip::result::ZipError::FileNotFound) => {
            return Err(Error::EntryNotFound);
        },
        Err(_) => {
            return Err(Error::IOError);
        },
    };
    let mut buf: Vec<u8> = Vec::new();
    match std::io::Read::read_to_end(&mut file, &mut buf) {
        Ok(_) => Ok(buf),
        Err(_) => Err(Error::IOError),
    }
}

/// Relies on `zip::write::ZipWriter::start_file`, which opens one deflated
/// entry at the given compression level and rejects a duplicate name, and
/// `std::io::Write::write_all`, which stores `data` as that entry's whole
/// content: on success the archive gains exactly this entry.
#[verifier::external_body]
fn zip_write_entry(
    inner: &mut ZipWriterInner,
    name: &str,
    data: &[u8],
    level: Option<i64>,
) -> (r: Result<(), Error>)
    ensures
        match r {
            Ok(()) => writer_entries(*final(inner)) == writer_entries(*old(inner)).insert(
                name@,
                data@,
            ),
            Err(e) => e == Error::IOError,
        },
{
    let writer = &mut inner.writer;
    let options = zip::write::SimpleFileOptions::default().compression_method(
        zip::CompressionMethod::Deflated,
    ).compression_level(level);
    if writer.start_file(name, options).is_err() {
        return Err(Error::IOError);
    }
    match std::io::Write::write_all(writer, data) {
        Ok(()) => Ok(()),
        Err(_) => Err(Error::IOError),
    }
}

/// Relies on `zip::write::ZipWriter::finish`, which writes the central
/// directory and hands the underlying cursor back: the finished bytes are
/// a readable archive holding exactly the entries written, whatever
/// compression level stored them.
#[verifier::external_body]
fn zip_finish(inner: ZipWriterInner) -> (r: Result<Vec<u8>, Error>)
    ensures
        match r {
            Ok(bytes) => zip_entries(bytes@) == Some(writer_entries(inner)),
            Err(e) => e == Error::IOError,
        },
{
    match inner.writer.finish() {
        Ok(cursor) => Ok(cursor.into_inner()),
        Err(_) => Err(Error::IOError),
    }
}

/// A compressed archive opened for reading, from its raw bytes.
pub struct ZipArchiveReader {
    archive: zip::read::ZipArchive<std::io::Cursor<Vec<u8>>>,
}

impl ZipArchiveReader {
    /// Open the archive held in `bytes`: exactly the entries those bytes
    /// hold become readable; `IOError` when the container is not a
    /// readable archive.
    pub fn new(bytes: Vec<u8>) -> (r: Result<Self, Error>)
        ensures
            match r {
                Ok(a) => zip_entries(bytes@) == Some(a.spec_entries()),
                Err(e) => zip_entries(bytes@) is None && e == Error::IOError,
            },
    {
        match zip_open(bytes) {
            Ok(archive) => Ok(ZipArchiveReader { archive }),
            Err(e) => Err(e),
        }
    }
}

impl ArchiveReader for ZipArchiveReader {
    closed spec fn spec_entries(&self) -> Map<Seq<char>, Seq<u8>> {
        archive_entries(self.archive)
    }

    fn read_entry(&mut self, filename: &str) -> (r: Result<Vec<u8>, Error>) {
        zip_read_entry(&mut self.archive, filename)
    }
}

/// A compressed archive being written in memory, one whole entry at a
/// time, at a chosen compression level.
pub struct ZipArchiveWriter {
    writer: ZipWriterInner,
    level: Option<i64>,
}

impl ZipArchiveWriter {
    /// The compression level entries are deflated at.
    pub closed spec fn spec_level(&self) -> Option<i64> {
        self.level
    }

    /// An empty archive; entries written later are deflated at
    /// `compression_level`, or at the container's default when `None`.
    /// The level never changes what an entry reads back as.
    /// Relies on `zip::write::ZipWriter::new` over an empty in-memory
    /// cursor: the fresh archive holds no entry.
    #[verifier::external_body]
    pub fn new(compression_level: Option<i64>) -> (r: Self)
        ensures
            r.spec_entries() =~= Map::empty(),
            r.spec_level() == compression_level,
    {
        ZipArchiveWriter {
            writer: ZipWriterInner {
                writer: zip::write::ZipWriter::new(std::io::Cursor::new(Vec::new())),
            },
            level: compression_level,
        }
    }

    /// Close the archive and hand its raw bytes over: they decode back to
    /// exactly the entries written.
    pub fn finish(self) -> (r: Result<Vec<u8>, Error>)
        ensures
            match r {
                Ok(bytes) => zip_entries(bytes@) == Some(self.spec_entries()),
                Err(e) => e == Error::IOError,
            },
    {
        zip_finish(self.writer)
    }
}

impl ArchiveWriter for ZipArchiveWriter {
    closed spec fn spec_entries(&self) -> Map<Seq<char>, Seq<u8>> {
        writer_entries(self.writer)
    }

    fn write_entry(&mut self, filename: &str, data: &[u8]) -> (r: Result<(), Error>) {
        zip_write_entry(&mut self.writer, filename, data, self.level)
    }
}

} // verus!
