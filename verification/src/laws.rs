//! Engine-wide guarantees, stated and proved once over the model.

use vstd::prelude::*;

use crate::event_loop::{io_applicable, io_event_outcome, Loop};
use crate::events::{Dispatch, IoEvent};
use crate::handle::{queue_bytes, record_wf};
use crate::stream::StreamHandle;

verus! {

/// Bytes reach the peer in the exact order they were submitted. On every
/// well-formed loop, a stream's submitted history is precisely what its
/// peer has observed, followed by what still waits in the FIFO queue,
/// followed by what close cancelled: the peer's bytes are always a prefix
/// of the submitted bytes - never reshuffled, even across queued writes -
/// and once the queue has drained with nothing cancelled the peer has
/// observed the whole history.
pub proof fn lemma_write_order_preserved(lp: Loop, s: StreamHandle)
    requires
        lp.wf(),
        s.valid(lp),
    ensures
        s.data(lp).submitted@ == s.data(lp).delivered@ + queue_bytes(s.data(lp).write_queue@)
            + s.data(lp).cancelled@,
        s.data(lp).delivered@ == s.data(lp).submitted@.take(s.data(lp).delivered@.len() as int),
        (s.data(lp).write_queue@.len() == 0 && s.data(lp).cancelled@.len() == 0) ==> s.data(
            lp,
        ).delivered@ == s.data(lp).submitted@,
{
    assert(record_wf(lp.handles@[s.id as int]));
    let d = s.data(lp);
    assert(d.delivered@ == d.submitted@.take(d.delivered@.len() as int)) by {
        assert(d.submitted@ == d.delivered@ + queue_bytes(d.write_queue@) + d.cancelled@);
        assert(d.submitted@.take(d.delivered@.len() as int) =~= d.delivered@);
    }
    if d.write_queue@.len() == 0 && d.cancelled@.len() == 0 {
        assert(d.delivered@ =~= d.submitted@);
    }
}

/// An `accept` is owed success exactly once per connection callback:
/// delivering one incoming-connection event announces the connection and
/// leaves exactly one more pending on the server, so an `accept` is then
/// owed success; a successful `accept` consumes exactly one pending
/// connection, and with none pending `accept` is refused with the
/// platform's would-block error - so after the one success, a second call
/// for the same event fails.
pub proof fn lemma_accept_owed_once(
    before: Loop,
    after: Loop,
    s: StreamHandle,
    status: i64,
    r: Seq<Dispatch>,
)
    requires
        before.wf(),
        s.valid(before),
        status >= 0,
        io_applicable(before.handles@, IoEvent::Incoming { stream: s.id, status }),
        io_event_outcome(before, after, IoEvent::Incoming { stream: s.id, status }, r),
        s.data(before).pending_connections < u64::MAX,
    ensures
        accept_would_succeed(after, s),
        s.data(after).pending_connections == s.data(before).pending_connections + 1,
        r.len() == 1,
{
}

/// With no pending connection left, `accept` is owed nothing: the one
/// success per connection event has already been consumed.
pub proof fn lemma_accept_not_owed_twice(lp: Loop, s: StreamHandle)
    requires
        lp.wf(),
        s.valid(lp),
        s.data(lp).pending_connections == 0,
    ensures
        !accept_would_succeed(lp, s),
{
}

/// Whether `accept` on this server stream is owed success: a connection
/// callback has fired that no earlier `accept` consumed.
pub open spec fn accept_would_succeed(lp: Loop, s: StreamHandle) -> bool {
    &&& s.valid(lp)
    &&& !(lp.handles@[s.id as int].state is Closing)
    &&& !(lp.handles@[s.id as int].state is Closed)
    &&& s.data(lp).listening
    &&& s.data(lp).pending_connections > 0
}

} // verus!
