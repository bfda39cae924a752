//! The error taxonomy of the transfer client.
//!
//! Construction-time problems are `ConfigError`; everything that can go wrong
//! while a transfer or an extraction runs is a `TransferError`. None of these
//! are swallowed anywhere in the library: every operation returns them to the
//! caller as distinguishable outcomes.

use vstd::prelude::*;

verus! {

/// A recoverable error detected once, when a client is built.
#[derive(Debug, Clone, PartialEq, Eq, Structural)]
pub enum ConfigError {
    /// The custom-root policy payload held no certificate or malformed data.
    InvalidCertificate,
    /// The base address could not be parsed into an absolute URL.
    InvalidBaseAddress,
}

impl ConfigError {
    /// A short description, suitable for display by a caller.
    pub fn message(&self) -> (r: &'static str)
        ensures
            r@ == self.spec_message(),
    {
        match self {
            ConfigError::InvalidCertificate => "invalid certificate material",
            ConfigError::InvalidBaseAddress => "invalid base address",
        }
    }

    pub open spec fn spec_message(&self) -> Seq<char> {
        match self {
            ConfigError::InvalidCertificate => "invalid certificate material"@,
            ConfigError::InvalidBaseAddress => "invalid base address"@,
        }
    }
}

/// An error surfaced by a transfer, an upload, a download, or an extraction.
#[derive(Debug, Clone)]
pub enum TransferError {
    /// Connection, DNS, or I/O failure while sending or receiving.
    Transport(String),
    /// The server answered with a status code outside the 2xx range;
    /// the code is carried as-is.
    Status(u16),
    /// The endpoint did not resolve to a valid address on the client's
    /// scheme.
    Resolve,
    /// A malformed archive stream, or an archive entry of a kind the
    /// extractor does not handle.
    Decode,
    /// Permission or I/O failure creating directories or writing files.
    Filesystem(String),
    /// An archive entry's path would resolve outside the destination
    /// directory; the whole extraction is aborted.
    PathSafety,
}

impl TransferError {
    /// A short description, suitable for display by a caller.
    pub fn message(&self) -> (r: &'static str)
        ensures
            r@ == self.spec_message(),
    {
        match self {
            TransferError::Transport(_) => "transport failure",
            TransferError::Status(_) => "non-success status code",
            TransferError::Resolve => "endpoint does not resolve on the client's scheme",
            TransferError::Decode => "malformed or unsupported archive data",
            TransferError::Filesystem(_) => "filesystem failure",
            TransferError::PathSafety => "archive entry path escapes the destination",
        }
    }

    pub open spec fn spec_message(&self) -> Seq<char> {
        match self {
            TransferError::Transport(_) => "transport failure"@,
            TransferError::Status(_) => "non-success status code"@,
            TransferError::Resolve => "endpoint does not resolve on the client's scheme"@,
            TransferError::Decode => "malformed or unsupported archive data"@,
            TransferError::Filesystem(_) => "filesystem failure"@,
            TransferError::PathSafety => "archive entry path escapes the destination"@,
        }
    }
}

} // verus!
