//! The error type of the local backend.

use vstd::prelude::*;

verus! {

/// An error of the local backend: a failure described by a message, or an
/// HTTP response whose status is not a success.
#[derive(Debug, Clone)]
pub enum AIApiError {
    /// A failure, with the message that describes it.
    Other(String),
    /// A response with a status other than success: the status code and the
    /// response body.
    ErrorStatus(u16, String),
}

impl AIApiError {
    /// Whether this is the `Other` error with exactly the message `msg`.
    pub open spec fn is_other(self, msg: Seq<char>) -> bool {
        self matches AIApiError::Other(m) && m@ == msg
    }
}

} // verus!
