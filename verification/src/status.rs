//! Response classification.
//!
//! A response is successful exactly when its status code is in the 2xx
//! range; every other code is a `Status` error carrying the code as-is. The
//! body is never inspected to infer success.

use vstd::prelude::*;

use crate::errors::TransferError;

verus! {

/// The success criterion: any 2xx status code.
pub open spec fn spec_is_success(status: u16) -> bool {
    200 <= status < 300
}

/// Whether a status code counts as success.
pub fn is_success_status(status: u16) -> (r: bool)
    ensures
        r == spec_is_success(status),
{
    200 <= status && status < 300
}

/// Classify a response by its status code alone: success for any 2xx code,
/// otherwise a `Status` error carrying the code, regardless of body content.
/// This is the outcome of an upload as well: a 4xx or 5xx response becomes
/// an error value, never an abort.
pub fn classify_response(status: u16) -> (r: Result<(), TransferError>)
    ensures
        match r {
            Ok(()) => spec_is_success(status),
            Err(e) => !spec_is_success(status) && (e matches TransferError::Status(c) && c
                == status),
        },
{
    if is_success_status(status) {
        Ok(())
    } else {
        Err(TransferError::Status(status))
    }
}

} // verus!
