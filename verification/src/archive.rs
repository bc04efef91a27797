//! Trusted boundary to the `zip` crate: an in-memory archive that entries are
//! written into one by one and then finalized to a byte buffer.
//!
//! The writer's contents are modelled as the sequence of entries written so
//! far, each a name and its bytes, in writing order. Every call below is
//! made with `SimpleFileOptions::DEFAULT`: entries are stored uncompressed
//! with a constant timestamp and constant permissions, so the finished bytes
//! are a function of the entry sequence alone.

use std::io::Write;
use vstd::prelude::*;

verus! {

#[verifier::external_type_specification]
#[verifier::external_body]
pub struct ExZipError(zip::result::ZipError);

/// An in-memory archive under construction, wrapping the `zip` crate's
/// writer over a byte cursor. Opaque to the verifier: what is known of it
/// is stated over [`archive_entries`] by the methods below.
#[verifier::external_body]
pub struct ArchiveBuilder {
    inner: zip::ZipWriter<std::io::Cursor<Vec<u8>>>,
}

/// The entries written to the archive so far: each entry's name and bytes,
/// in the order they were written.
pub uninterp spec fn archive_entries(w: ArchiveBuilder) -> Seq<(Seq<char>, Seq<u8>)>;

/// The bytes of a finished archive holding the given entries, stored
/// uncompressed with constant metadata.
pub uninterp spec fn zip_bytes(entries: Seq<(Seq<char>, Seq<u8>)>) -> Seq<u8>;

impl ArchiveBuilder {
    /// Relies on `zip::ZipWriter::new` over an empty in-memory cursor: a
    /// fresh archive holds no entry.
    #[verifier::external_body]
    pub(crate) fn new() -> (w: ArchiveBuilder)
        ensures
            archive_entries(w) == Seq::<(Seq<char>, Seq<u8>)>::empty(),
    {
        ArchiveBuilder { inner: zip::ZipWriter::new(std::io::Cursor::new(Vec::new())) }
    }

    /// Relies on `zip::ZipWriter::start_file` and `std::io::Write::write_all`:
    /// on success the archive gains exactly one entry, holding the given name
    /// and bytes; a name already present in the archive is refused.
    #[verifier::external_body]
    pub(crate) fn add(&mut self, name: &str, bytes: &[u8]) -> (r: Result<
        (),
        zip::result::ZipError,
    >)
        ensures
            r is Ok ==> archive_entries(*final(self)) == archive_entries(*old(self)).push(
                (name@, bytes@),
            ),
            (exists|i: int|
                0 <= i < archive_entries(*old(self)).len() && archive_entries(*old(self))[i].0
                    == name@) ==> r is Err,
    {
        self.inner.start_file(name, zip::write::SimpleFileOptions::DEFAULT)?;
        self.inner.write_all(bytes)?;
        Ok(())
    }

    /// Relies on `zip::ZipWriter::finish` and `std::io::Cursor::into_inner`:
    /// on success the returned bytes are the finished archive for the entries
    /// written, a function of those entries alone under the fixed options
    /// used by [`ArchiveBuilder::add`].
    #[verifier::external_body]
    pub(crate) fn finish(self) -> (r: Result<Vec<u8>, zip::result::ZipError>)
        ensures
            r matches Ok(b) ==> b@ == zip_bytes(archive_entries(self)),
    {
        let cursor = self.inner.finish()?;
        Ok(cursor.into_inner())
    }
}

} // verus!
