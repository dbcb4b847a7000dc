//! Errors surfaced to the caller of the engine.

use vstd::prelude::*;

verus! {

/// What went wrong, with a diagnostic text that callers do not interpret.
#[derive(Debug, Clone, PartialEq, Eq)]
pub enum BaguaNetError {
    /// A socket-level read, write or setup call failed.
    IOError(String),
    /// Dialing or accepting a TCP connection failed.
    TCPError(String),
    /// A request the engine cannot serve: an unknown identifier, an
    /// unsupported address family, a length the buffer cannot hold.
    InnerError(String),
}

/// An `InnerError` carrying `text`.
pub fn inner_error(text: &str) -> (e: BaguaNetError)
    ensures
        e is InnerError,
{
    BaguaNetError::InnerError(text.to_owned())
}

} // verus!
