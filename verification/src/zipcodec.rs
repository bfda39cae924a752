//! Trusted boundary to the `zip` crate.
//!
//! Staging builds a store-only zip archive in memory; reading decodes one
//! entry of an in-memory archive at a time. The archive bytes produced for a
//! given entry sequence, and the entry sequence decoded from given bytes, are
//! functions of their inputs alone, so both are captured by uninterpreted
//! names that the contracts of the wrappers below tie to the real calls.

use vstd::prelude::*;

use crate::extract::ArchiveEntry;

verus! {

/// The error type of the `zip` crate, carried through opaquely.
#[verifier::external_type_specification]
#[verifier::external_body]
pub struct ExZipError(zip::result::ZipError);

/// The entry sequence a zip archive's bytes decode to: for each central
/// directory record in order, its name, its directory flag, and its fully
/// decompressed contents (empty for a directory).
pub uninterp spec fn zip_entries_of(bytes: Seq<u8>) -> Seq<(Seq<char>, bool, Seq<u8>)>;

/// Whether the archive decodes fully: the central directory parses and every
/// entry's contents decompress without error.
pub uninterp spec fn zip_decodes(bytes: Seq<u8>) -> bool;

/// Whether building a store-only archive whose entries carry these names and
/// directory flags, in this order and with the stager's fixed options,
/// succeeds end-to-end. Success depends on the names and kinds alone: the
/// writer runs in memory and stores contents verbatim.
pub uninterp spec fn zip_staging_ok(names: Seq<(Seq<char>, bool)>) -> bool;

/// The names and directory flags of an entry sequence, data dropped.
pub open spec fn entry_names(es: Seq<(Seq<char>, bool, Seq<u8>)>) -> Seq<(Seq<char>, bool)> {
    es.map_values(|e: (Seq<char>, bool, Seq<u8>)| (e.0, e.1))
}

/// The archive bytes that store-only zip encoding of the given entries
/// yields, with the fixed options the stager always uses (no compression,
/// constant timestamp, Unix system tag, 0o755 permissions).
pub uninterp spec fn zip_bytes_of(entries: Seq<(Seq<char>, bool, Seq<u8>)>) -> Seq<u8>;

/// The entries handed to a stager so far, in order: name, directory flag,
/// contents.
pub uninterp spec fn zip_stager_entries(z: ZipStager) -> Seq<(Seq<char>, bool, Seq<u8>)>;

/// An in-memory, store-only zip builder. The inner writer's state is opaque
/// to verification; `zip_stager_entries` names what it holds.
#[verifier::external_body]
pub struct ZipStager {
    inner: zip::ZipWriter<std::io::Cursor<Vec<u8>>>,
}

impl ZipStager {
    /// Relies on `zip::ZipWriter::new` over an in-memory cursor: a fresh
    /// builder holds no entries.
    #[verifier::external_body]
    pub(crate) fn new() -> (r: ZipStager)
        ensures
            zip_stager_entries(r) == Seq::<(Seq<char>, bool, Seq<u8>)>::empty(),
    {
        ZipStager { inner: zip::ZipWriter::new(std::io::Cursor::new(Vec::new())) }
    }

    /// Relies on `zip::ZipWriter::start_file` with store-only options and a
    /// constant timestamp: on success a file entry with the given name and,
    /// so far, empty contents is appended.
    #[verifier::external_body]
    pub(crate) fn start_file_entry(&mut self, name: &str) -> (r: Result<(), zip::result::ZipError>)
        ensures
            r is Ok ==> zip_stager_entries(*final(self)) == zip_stager_entries(*old(self)).push(
                (name@, false, Seq::<u8>::empty()),
            ),
            r is Err ==> (forall|rest: Seq<(Seq<char>, bool)>|
                !#[trigger] zip_staging_ok(
                    entry_names(zip_stager_entries(*old(self))).push((name@, false)) + rest,
                )),
    {
        let options = zip::write::SimpleFileOptions::DEFAULT
            .compression_method(zip::CompressionMethod::Stored)
            .system(zip::System::Unix)
            .unix_permissions(0o755);
        self.inner.start_file(name, options)
    }

    /// Relies on the `std::io::Write` implementation of `zip::ZipWriter`:
    /// writing directly after starting a file entry fills that entry's
    /// contents.
    #[verifier::external_body]
    pub(crate) fn write_file_data(&mut self, data: &Vec<u8>) -> (r: Result<(), zip::result::ZipError>)
        requires
            zip_stager_entries(*old(self)).len() > 0,
            !zip_stager_entries(*old(self)).last().1,
            zip_stager_entries(*old(self)).last().2 == Seq::<u8>::empty(),
        ensures
            r is Ok ==> zip_stager_entries(*final(self)) == zip_stager_entries(
                *old(self),
            ).update(zip_stager_entries(*old(self)).len() - 1, (
                zip_stager_entries(*old(self)).last().0,
                false,
                data@,
            )),
            r is Err ==> (forall|rest: Seq<(Seq<char>, bool)>|
                !#[trigger] zip_staging_ok(
                    entry_names(zip_stager_entries(*old(self))) + rest,
                )),
    {
        match std::io::Write::write_all(&mut self.inner, data.as_slice()) {
            Ok(()) => Ok(()),
            Err(e) => Err(zip::result::ZipError::Io(e)),
        }
    }

    /// Relies on `zip::ZipWriter::add_directory` with the same fixed
    /// options: on success a directory entry with the given name and empty
    /// contents is appended.
    #[verifier::external_body]
    pub(crate) fn add_directory_entry(&mut self, name: &str) -> (r: Result<(), zip::result::ZipError>)
        ensures
            r is Ok ==> zip_stager_entries(*final(self)) == zip_stager_entries(*old(self)).push(
                (name@, true, Seq::<u8>::empty()),
            ),
            r is Err ==> (forall|rest: Seq<(Seq<char>, bool)>|
                !#[trigger] zip_staging_ok(
                    entry_names(zip_stager_entries(*old(self))).push((name@, true)) + rest,
                )),
    {
        let options = zip::write::SimpleFileOptions::DEFAULT
            .compression_method(zip::CompressionMethod::Stored)
            .system(zip::System::Unix)
            .unix_permissions(0o755);
        self.inner.add_directory(name, options)
    }

    /// Relies on `zip::ZipWriter::finish`: on success the result is the
    /// complete archive encoding of the entries handed to the builder, a
    /// function of those entries alone.
    #[verifier::external_body]
    pub(crate) fn finish(self) -> (r: Result<Vec<u8>, zip::result::ZipError>)
        ensures
            r matches Ok(bytes) ==> bytes@ == zip_bytes_of(zip_stager_entries(self)),
            r is Err ==> !zip_staging_ok(entry_names(zip_stager_entries(self))),
    {
        match self.inner.finish() {
            Ok(cursor) => Ok(cursor.into_inner()),
            Err(e) => Err(e),
        }
    }
}

/// Relies on `zip::ZipArchive::new` and `zip::ZipArchive::len` over an
/// in-memory cursor: on success the result is the number of entries in the
/// archive's central directory.
#[verifier::external_body]
pub(crate) fn zip_entry_count(bytes: &Vec<u8>) -> (r: Result<usize, zip::result::ZipError>)
    ensures
        r matches Ok(n) ==> n == zip_entries_of(bytes@).len(),
        zip_decodes(bytes@) ==> r is Ok,
{
    let archive = zip::ZipArchive::new(std::io::Cursor::new(bytes.as_slice()))?;
    Ok(archive.len())
}

/// Relies on `zip::ZipArchive::by_index` and on the entry accessors
/// `ZipFile::name`, `ZipFile::is_dir` and the `std::io::Read`
/// implementation that decompresses the entry: on success the result is
/// exactly the indexed entry of the archive bytes.
#[verifier::external_body]
pub(crate) fn zip_entry_at(bytes: &Vec<u8>, index: usize) -> (r: Result<
    ArchiveEntry,
    zip::result::ZipError,
>)
    ensures
        r matches Ok(e) ==> index < zip_entries_of(bytes@).len() && e@ == zip_entries_of(
            bytes@,
        )[index as int],
        zip_decodes(bytes@) && index < zip_entries_of(bytes@).len() ==> r is Ok,
{
    let mut archive = zip::ZipArchive::new(std::io::Cursor::new(bytes.as_slice()))?;
    let mut file = archive.by_index(index)?;
    let name = file.name().to_string();
    let is_dir = file.is_dir();
    let mut data: Vec<u8> = Vec::new();
    std::io::Read::read_to_end(&mut file, &mut data)?;
    Ok(ArchiveEntry { name, is_dir, data })
}

} // verus!
