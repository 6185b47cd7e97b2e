//! What enters an iteration (I/O readiness) and what leaves it (callback
//! dispatches).

use vstd::prelude::*;

verus! {

/// How a one-shot request (a queued write, a shutdown) ended.
#[derive(Clone, Copy, Debug, PartialEq, Eq, Structural)]
pub enum Status {
    /// The request ran to completion.
    Complete,
    /// The request was still pending when its handle closed.
    Cancelled,
    /// The platform reported the wrapped error code.
    Failed(i64),
}

/// What one read attempt produced.
#[derive(Clone, Copy, Debug, PartialEq, Eq, Structural)]
pub enum ReadOutcome {
    /// This many bytes arrived.
    Data(usize),
    /// The peer half-closed: end of stream.
    Eof,
    /// The platform reported the wrapped error code.
    Failed(i64),
}

/// Readiness reported by the platform's polling primitive, handed to the loop
/// as a plain value. `stream` is the index of the stream handle it concerns.
#[derive(Clone, Debug)]
pub enum IoEvent {
    /// A connection attempt concluded on a listening stream: `status` is
    /// the platform's report, negative for a failed attempt.
    Incoming { stream: usize, status: i64 },
    /// Bytes arrived on a reading stream.
    Data { stream: usize, bytes: Vec<u8> },
    /// The peer half-closed a reading stream.
    Eof { stream: usize },
    /// A read attempt failed with the given code.
    ReadFailed { stream: usize, code: i64 },
    /// The peer can take bytes: the stream's write queue drains.
    Writable { stream: usize },
}

/// One callback invocation owed to the embedder: which callback token to call,
/// on which handle, with which arguments. An iteration returns these in the
/// exact order the callbacks must run.
#[derive(Clone, Debug)]
#[allow(inconsistent_fields)]
pub enum Dispatch {
    /// A timer's deadline was reached.
    Timer { handle: usize, cb: u64 },
    /// A prepare hook runs, immediately before the poll step.
    Prepare { handle: usize, cb: u64 },
    /// A connection awaits `accept` on a listening stream.
    Connection { handle: usize, cb: u64, status: i64 },
    /// Storage for one read attempt is requested from the embedder.
    Alloc { handle: usize, cb: u64, suggested: usize },
    /// One read attempt finished; `bytes` holds the data when `outcome` does.
    Read { handle: usize, cb: u64, outcome: ReadOutcome, bytes: Vec<u8> },
    /// A queued write request completed with the given status.
    WriteDone { handle: usize, cb: u64, status: Status },
    /// A shutdown request completed with the given status.
    ShutdownDone { handle: usize, cb: u64, status: Status },
    /// A check hook runs, immediately after the poll step.
    Check { handle: usize, cb: u64 },
    /// The handle reached `Closed`; its resources may now be released.
    Close { handle: usize, cb: u64 },
}

/// The index of the handle a dispatch addresses.
pub open spec fn dispatch_handle(d: Dispatch) -> usize {
    match d {
        Dispatch::Timer { handle, .. } => handle,
        Dispatch::Prepare { handle, .. } => handle,
        Dispatch::Connection { handle, .. } => handle,
        Dispatch::Alloc { handle, .. } => handle,
        Dispatch::Read { handle, .. } => handle,
        Dispatch::WriteDone { handle, .. } => handle,
        Dispatch::ShutdownDone { handle, .. } => handle,
        Dispatch::Check { handle, .. } => handle,
        Dispatch::Close { handle, .. } => handle,
    }
}

/// The callback token a dispatch invokes.
pub open spec fn dispatch_cb(d: Dispatch) -> u64 {
    match d {
        Dispatch::Timer { cb, .. } => cb,
        Dispatch::Prepare { cb, .. } => cb,
        Dispatch::Connection { cb, .. } => cb,
        Dispatch::Alloc { cb, .. } => cb,
        Dispatch::Read { cb, .. } => cb,
        Dispatch::WriteDone { cb, .. } => cb,
        Dispatch::ShutdownDone { cb, .. } => cb,
        Dispatch::Check { cb, .. } => cb,
        Dispatch::Close { cb, .. } => cb,
    }
}

/// The outcome a read dispatch reports (meaningful only on `Read`).
pub open spec fn read_outcome_of(d: Dispatch) -> ReadOutcome {
    match d {
        Dispatch::Read { outcome, .. } => outcome,
        _ => arbitrary(),
    }
}

/// The bytes a read dispatch hands over (meaningful only on `Read`).
pub open spec fn read_bytes_of(d: Dispatch) -> Seq<u8> {
    match d {
        Dispatch::Read { bytes, .. } => bytes@,
        _ => arbitrary(),
    }
}

/// The status a completion dispatch reports (meaningful only on `WriteDone`
/// and `ShutdownDone`).
pub open spec fn status_of(d: Dispatch) -> Status {
    match d {
        Dispatch::WriteDone { status, .. } => status,
        Dispatch::ShutdownDone { status, .. } => status,
        _ => arbitrary(),
    }
}

/// The stream a readiness event concerns.
pub open spec fn io_target(ev: IoEvent) -> usize {
    match ev {
        IoEvent::Incoming { stream, .. } => stream,
        IoEvent::Data { stream, .. } => stream,
        IoEvent::Eof { stream } => stream,
        IoEvent::ReadFailed { stream, .. } => stream,
        IoEvent::Writable { stream } => stream,
    }
}

/// The phase a dispatch is emitted from, as a rank in the fixed phase order:
/// timers, prepare, I/O, check, close. A request completing with `Cancelled`
/// is close-phase work; one completing otherwise is I/O-phase work.
pub open spec fn phase_rank(d: Dispatch) -> int {
    match d {
        Dispatch::Timer { .. } => 0,
        Dispatch::Prepare { .. } => 1,
        Dispatch::Connection { .. } => 2,
        Dispatch::Alloc { .. } => 2,
        Dispatch::Read { .. } => 2,
        Dispatch::WriteDone { status, .. } => if status is Cancelled { 4 } else { 2 },
        Dispatch::ShutdownDone { status, .. } => if status is Cancelled { 4 } else { 2 },
        Dispatch::Check { .. } => 3,
        Dispatch::Close { .. } => 4,
    }
}

/// [`phase_rank`], computed: lets an embedder observe that a dispatch list
/// never crosses phase order.
pub fn phase_rank_of(d: &Dispatch) -> (r: u32)
    ensures
        r == phase_rank(*d),
{
    match d {
        Dispatch::Timer { .. } => 0,
        Dispatch::Prepare { .. } => 1,
        Dispatch::Connection { .. } => 2,
        Dispatch::Alloc { .. } => 2,
        Dispatch::Read { .. } => 2,
        Dispatch::WriteDone { status, .. } => if *status == Status::Cancelled {
            4
        } else {
            2
        },
        Dispatch::ShutdownDone { status, .. } => if *status == Status::Cancelled {
            4
        } else {
            2
        },
        Dispatch::Check { .. } => 3,
        Dispatch::Close { .. } => 4,
    }
}

} // verus!
