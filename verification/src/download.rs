//! Download outcomes and persistence decisions.
//!
//! A fetch yields bytes on any 2xx response; an empty successful body is a
//! valid outcome, distinguishable from failure, and is reported as "no
//! payload" (nothing is written to disk for it). Persisting a payload fully
//! replaces whatever the destination held before: the write truncates, it
//! never appends.

use vstd::prelude::*;

use crate::errors::TransferError;
use crate::status::spec_is_success;

verus! {

/// Classify a fetched response: on a 2xx status a non-empty body is the
/// payload and an empty body is "no payload"; any other status is a `Status`
/// error carrying the code.
pub fn download_outcome(status: u16, body: Vec<u8>) -> (r: Result<Option<Vec<u8>>, TransferError>)
    ensures
        match r {
            Ok(Some(payload)) => spec_is_success(status) && body@.len() > 0 && payload@ == body@,
            Ok(None) => spec_is_success(status) && body@.len() == 0,
            Err(e) => !spec_is_success(status) && (e matches TransferError::Status(c) && c
                == status),
        },
{
    if !(200 <= status && status < 300) {
        return Err(TransferError::Status(status));
    }
    if body.len() == 0 {
        Ok(None)
    } else {
        Ok(Some(body))
    }
}

/// A pending truncating write: the destination's next full contents.
pub struct FileWrite {
    pub contents: Vec<u8>,
}

/// The destination's contents after a write: exactly the write's contents,
/// whatever was there before. This is the truncate-and-replace semantics the
/// surrounding plumbing must implement (create or truncate, never append).
pub open spec fn written_contents(prior: Seq<u8>, w: FileWrite) -> Seq<u8> {
    w.contents@
}

/// Decide what a fetch-to-path call writes: nothing when the fetch produced
/// no payload, otherwise one truncating write of exactly the payload.
pub fn persist_decision(fetched: Option<Vec<u8>>) -> (r: Option<FileWrite>)
    ensures
        match fetched {
            Some(payload) => r matches Some(w) && w.contents@ == payload@,
            None => r is None,
        },
{
    match fetched {
        Some(payload) => Some(FileWrite { contents: payload }),
        None => None,
    }
}

/// Fetching to the same destination twice leaves exactly the second payload,
/// whatever the two payloads' lengths: under the truncating write model no
/// byte of the first write survives the second.
pub proof fn lemma_second_write_wins(initial: Seq<u8>, w1: FileWrite, w2: FileWrite)
    ensures
        written_contents(written_contents(initial, w1), w2) == w2.contents@,
        written_contents(written_contents(initial, w1), w2) == written_contents(
            Seq::empty(),
            w2,
        ),
{
}

} // verus!
