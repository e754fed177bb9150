//! Why a request is refused.
use vstd::prelude::*;

verus! {

/// Why an operation was refused to a caller.
#[derive(Debug, Clone, Copy, PartialEq, Eq, Structural)]
pub enum AccessError {
    /// The request is malformed or inconsistent.
    InvalidRequest,
    /// The caller may not do this.
    Unauthorized,
    /// The operation is not served here.
    UnsupportedOperation,
    /// A bound was reached; nothing was done.
    Capacity,
    /// Not now, or not here; nothing was done.
    Unavailable,
    /// The operation may or may not have been done.
    OutcomeUnknown,
    /// The snapshot a walk reads outlived its lease.
    SnapshotExpired,
}

} // verus!
