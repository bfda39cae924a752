//! Trusted boundary to the `tar` and `flate2` crates.
//!
//! Tar entries are decoded one at a time from an in-memory byte buffer, and a
//! gzip envelope is decompressed in one step. Both results are functions of
//! the input bytes alone and are captured by uninterpreted names.

use vstd::prelude::*;

verus! {

/// The error type of `std::io`, carried through opaquely; both the `tar`
/// crate and `flate2` report failures with it.
#[verifier::external_type_specification]
#[verifier::external_body]
pub struct ExIoError(std::io::Error);

/// One tar entry as the `tar` crate yields it: the declared path (decoded
/// lossily to text), whether the header marks a directory, whether it marks a
/// regular file (both false for kinds the extractor does not handle, such as
/// links), and the entry's full contents.
pub struct TarItem {
    pub name: String,
    pub is_dir: bool,
    pub is_file: bool,
    pub data: Vec<u8>,
}

impl View for TarItem {
    type V = (Seq<char>, bool, bool, Seq<u8>);

    open spec fn view(&self) -> (Seq<char>, bool, bool, Seq<u8>) {
        (self.name@, self.is_dir, self.is_file, self.data@)
    }
}

/// The entry sequence a tar stream's bytes decode to, in stream order: the
/// longest decodable prefix of the stream.
pub uninterp spec fn tar_entries_of(bytes: Seq<u8>) -> Seq<(Seq<char>, bool, bool, Seq<u8>)>;

/// Whether the whole tar stream decodes: iteration reaches the terminator
/// without an error, so `tar_entries_of` is the complete entry list.
pub uninterp spec fn tar_decodes(bytes: Seq<u8>) -> bool;

/// The decompressed payload of a gzip stream, or `None` when the bytes are
/// not a well-formed gzip envelope.
pub uninterp spec fn gunzip_of(bytes: Seq<u8>) -> Option<Seq<u8>>;

/// Relies on `tar::Archive::entries` and `Entries::nth` over an in-memory
/// reader, on `Entry::path_bytes`, `Header::entry_type` and the entry's
/// `std::io::Read` implementation: on success the result is exactly the
/// indexed entry of the stream, or `None` past the last entry; the entry
/// sequence is a function of the bytes alone, every yielded entry consumes
/// at least its 512-byte header from the stream, and on a stream that
/// decodes fully no index yields an error.
#[verifier::external_body]
pub(crate) fn tar_entry_at(bytes: &Vec<u8>, index: usize) -> (r: Result<Option<TarItem>, std::io::Error>)
    ensures
        match r {
            Ok(Some(e)) => index < tar_entries_of(bytes@).len() && e@ == tar_entries_of(
                bytes@,
            )[index as int] && tar_entries_of(bytes@).len() <= bytes@.len(),
            Ok(None) => index >= tar_entries_of(bytes@).len(),
            Err(_) => !tar_decodes(bytes@),
        },
{
    let mut archive = tar::Archive::new(bytes.as_slice());
    match archive.entries()?.nth(index) {
        None => Ok(None),
        Some(Err(e)) => Err(e),
        Some(Ok(mut entry)) => {
            let name = String::from_utf8_lossy(&entry.path_bytes()).into_owned();
            let kind = entry.header().entry_type();
            let mut data: Vec<u8> = Vec::new();
            std::io::Read::read_to_end(&mut entry, &mut data)?;
            Ok(Some(TarItem { name, is_dir: kind.is_dir(), is_file: kind.is_file(), data }))
        },
    }
}

/// Relies on `flate2::read::GzDecoder` and `std::io::Read::read_to_end`: on
/// success the result is the full decompressed stream, a function of the
/// compressed bytes alone.
#[verifier::external_body]
pub(crate) fn gzip_decode(bytes: &Vec<u8>) -> (r: Result<Vec<u8>, std::io::Error>)
    ensures
        r is Ok <==> gunzip_of(bytes@) is Some,
        r matches Ok(out) ==> out@ == gunzip_of(bytes@).unwrap(),
{
    let mut decoder = flate2::read::GzDecoder::new(bytes.as_slice());
    let mut out: Vec<u8> = Vec::new();
    match std::io::Read::read_to_end(&mut decoder, &mut out) {
        Ok(_) => Ok(out),
        Err(e) => Err(e),
    }
}

} // verus!
