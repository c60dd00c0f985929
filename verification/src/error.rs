//! Errors surfaced to the host by the data client.

use vstd::prelude::*;

verus! {

/// The error kinds a fetch or poll-selection call can return.
#[derive(Clone, Copy, Debug, PartialEq, Eq, Structural)]
pub enum Error {
    /// No connected peer, or no non-ignored peer advertises the requested data.
    DataIsUnavailable,
    /// The RPC deadline was exceeded.
    Timeout,
    /// The response variant did not match the request, or was malformed.
    InvalidResponse,
    /// The remote peer reported an error, or the transport failed.
    InternalError,
}

} // verus!
