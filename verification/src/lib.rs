//! A configurable HTTP transfer client core.
//!
//! The crate models the decision logic of an HTTP transfer client: TLS trust
//! establishment from a declarative policy, endpoint resolution and header
//! merging, multipart upload planning, download classification, archive
//! staging, and archive extraction with path-safety guarantees. Network and
//! filesystem plumbing live outside the library and consume the plans and
//! decisions produced here.

use vstd::prelude::*;

pub mod client;
pub mod download;
pub mod errors;
pub mod extract;
pub mod headers;
pub mod pathsafe;
pub mod staging;
pub mod status;
pub mod tarcodec;
pub mod trust;
pub mod upload;
pub mod urls;
pub mod zipcodec;

pub use trust::TlsConfig;

verus! {

/// The archive formats the extractor understands. `Gzip` means a
/// gzip-compressed tar stream.
#[derive(Debug, Clone)]
pub enum ArchiveType {
    Zip,
    Gzip,
    Tar,
}

impl ArchiveType {
    /// The format tag as a lower-case string.
    pub open spec fn spec_str(&self) -> Seq<char> {
        match self {
            ArchiveType::Zip => "zip"@,
            ArchiveType::Gzip => "gzip"@,
            ArchiveType::Tar => "tar"@,
        }
    }

    pub fn as_str(&self) -> (r: &'static str)
        ensures
            r@ == self.spec_str(),
    {
        match self {
            ArchiveType::Zip => "zip",
            ArchiveType::Gzip => "gzip",
            ArchiveType::Tar => "tar",
        }
    }
}

/// A minimal acknowledgement body that servers of this client commonly
/// return; kept as a plain value so callers can decode into it.
#[derive(Debug, Clone)]
pub struct OkJson {
    pub ok: bool,
}

} // verus!
