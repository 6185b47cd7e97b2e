//! The failure taxonomy of the engine.

use vstd::prelude::*;

verus! {

/// Platform-style code carried by [`Error::OsError`] when an operation would
/// block (an `accept` with no pending connection).
pub const CODE_WOULD_BLOCK: i64 = 11;

/// Platform-style code carried by [`Error::OsError`] when bytes are handed to
/// a stream whose write side is not open.
pub const CODE_NOT_WRITABLE: i64 = 32;

/// Why a synchronous call was refused. Local violations are reported here,
/// immediately, and never through a callback; asynchronous failures travel in
/// their operation's own dispatch instead.
#[derive(Clone, Copy, Debug, PartialEq, Eq, Structural)]
pub enum Error {
    /// A resource could not be constructed. Part of the taxonomy an
    /// embedder matches on; the engine's own handles use ordinary owned
    /// allocation, which aborts rather than reports, so no operation here
    /// returns it.
    AllocationFailure,
    /// The platform reported the wrapped error code.
    OsError(i64),
    /// The operation was issued in the wrong lifecycle phase.
    InvalidState,
    /// The operation is already running on this handle.
    AlreadyActive,
}

} // verus!
