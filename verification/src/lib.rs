//! A single-threaded, event-driven I/O engine: an event loop that multiplexes
//! timers, per-iteration hooks and duplex byte streams over one poll step.
//!
//! The engine is deterministic. Time is the loop's own millisecond clock,
//! advanced only by the poll step. Callbacks are registered as opaque `u64`
//! tokens; running a phase yields the ordered list of [`events::Dispatch`]
//! values naming the callbacks to invoke, so an embedder that owns the real
//! closures performs the calls between iterations. Readiness found by the
//! platform's polling primitive enters the loop as plain [`events::IoEvent`]
//! values. Everything else - the handle lifecycle, the timer schedule, the
//! write queue, the fixed phase order - is decided here and verified.

pub mod addrinfo;
pub mod check;
pub mod error;
pub mod event_loop;
pub mod events;
pub mod handle;
pub mod laws;
pub mod prepare;
pub mod stream;
pub mod timer;
pub mod timespec;
