//! Progress of a blocking-semantics transfer over a non-blocking socket: each
//! attempt either moves some bytes, must be retried, or fails the transfer.

use vstd::prelude::*;
use crate::error::BaguaNetError;

verus! {

/// What one read or write attempt on a non-blocking socket reported.
#[derive(Debug, Clone, PartialEq, Eq)]
pub enum IoOutcome {
    /// The call moved this many bytes.
    Transferred(usize),
    /// The socket was not ready, or the call was interrupted: try again.
    Retry,
    /// The call failed, with the system's description.
    Failed(String),
}

/// Bytes moved so far after one more attempt of a `total`-byte transfer of
/// which `done` bytes were already moved. A call that moves no byte means
/// the peer is gone, and a count past the end cannot be honoured: both fail
/// the transfer, as does a failed call.
pub fn advance_transfer(done: usize, total: usize, outcome: IoOutcome) -> (r: Result<
    usize,
    BaguaNetError,
>)
    requires
        done <= total,
    ensures
        match outcome {
            IoOutcome::Transferred(n) => if 0 < n <= total - done {
                r == Ok::<usize, BaguaNetError>((done + n) as usize)
            } else {
                r is Err && r->Err_0 is IOError
            },
            IoOutcome::Retry => r == Ok::<usize, BaguaNetError>(done),
            IoOutcome::Failed(text) => r == Err::<usize, BaguaNetError>(
                BaguaNetError::IOError(text),
            ),
        },
{
    match outcome {
        IoOutcome::Transferred(n) => {
            if n == 0 {
                Err(BaguaNetError::IOError("the peer closed the connection".to_owned()))
            } else if n > total - done {
                Err(BaguaNetError::IOError("more bytes reported than requested".to_owned()))
            } else {
                Ok(done + n)
            }
        },
        IoOutcome::Retry => Ok(done),
        IoOutcome::Failed(text) => Err(BaguaNetError::IOError(text)),
    }
}

} // verus!
