//! The event loop: cached time, the handle table, and the fixed phase order.

use vstd::prelude::*;

use crate::events::{
    dispatch_cb, dispatch_handle, io_target, phase_rank, read_bytes_of, read_outcome_of, status_of,
    Dispatch, IoEvent, ReadOutcome, Status,
};
use crate::handle::{
    check_of, keeps_alive, prepare_of, queue_bytes, record_wf, stream_of, timer_of, HandlePayload,
    HandleRecord, LifecycleState, ReadState, TimerData, WriteRequest,
};
use crate::stream::{append_bytes_of_request, clone_bytes, stream_at_mut};

verus! {

/// How `run` drives the loop: until no handle keeps it alive, for one
/// iteration, or for one iteration with an immediate poll. `UntilDone` is
/// the default mode; the other two never block in the poll step.
#[derive(Clone, Copy, Debug, PartialEq, Eq, Structural)]
pub enum RunMode {
    UntilDone,
    Once,
    NoWait,
}

/// One event loop. It owns every handle registered with it and drives them
/// all from one thread; `now_ms` is its cached clock in milliseconds,
/// advanced once per iteration by the poll step and never elsewhere.
pub struct Loop {
    pub now_ms: u64,
    pub handles: Vec<HandleRecord>,
    pub stop_flag: bool,
    pub next_start_order: u64,
}

/// `a + b` clamped to the largest representable millisecond count.
pub open spec fn sat_add_spec(a: u64, b: u64) -> u64 {
    if a + b > u64::MAX {
        u64::MAX
    } else {
        (a + b) as u64
    }
}

/// Saturating addition on the millisecond clock.
pub fn sat_add(a: u64, b: u64) -> (r: u64)
    ensures
        r == sat_add_spec(a, b),
{
    if b > u64::MAX - a {
        u64::MAX
    } else {
        a + b
    }
}

/// A mutable borrow of one handle record, with the table pinned around it.
pub(crate) fn record_at_mut(v: &mut Vec<HandleRecord>, i: usize) -> (element: &mut HandleRecord)
    requires
        i < old(v).len(),
    ensures
        *element == old(v)@[i as int],
        final(v)@ == old(v)@.update(i as int, *final(element)),
{
    &mut v[i]
}

impl Loop {
    /// Every stored record is well-formed.
    pub open spec fn wf(self) -> bool {
        forall|i: int| 0 <= i < self.handles@.len() ==> record_wf(#[trigger] self.handles@[i])
    }

    /// Whether any handle still keeps the loop running.
    pub open spec fn spec_alive(self) -> bool {
        seq_alive(self.handles@)
    }

    /// A fresh loop: no handles, clock at zero.
    pub fn new() -> (r: Loop)
        ensures
            r.wf(),
            r.now_ms == 0,
            r.handles@.len() == 0,
            !r.stop_flag,
            r.next_start_order == 0,
    {
        Loop { now_ms: 0, handles: Vec::new(), stop_flag: false, next_start_order: 0 }
    }

    /// The loop's cached notion of "now", in milliseconds.
    pub fn now(&self) -> (r: u64)
        ensures
            r == self.now_ms,
    {
        self.now_ms
    }

    /// Requests a graceful exit: the iteration in progress completes, and
    /// `run` stops before beginning another.
    pub fn stop(&mut self)
        ensures
            lp_stopped(*old(self), *final(self)),
    {
        self.stop_flag = true;
    }

    /// Whether any handle that is referenced and active - or still owes its
    /// close callback - remains.
    pub fn alive(&self) -> (r: bool)
        ensures
            r == self.spec_alive(),
    {
        let n = self.handles.len();
        let mut i: usize = 0;
        while i < n
            invariant
                n == self.handles@.len(),
                i <= n,
                forall|j: int| 0 <= j < i ==> !keeps_alive(#[trigger] self.handles@[j]),
            decreases n - i,
        {
            let h = &self.handles[i];
            if (h.referenced && h.state == LifecycleState::Active) || h.state
                == LifecycleState::Closing {
                assert(keeps_alive(self.handles@[i as int]));
                return true;
            }
            i += 1;
        }
        false
    }
}

/// The timeout the poll step uses in one iteration, computed on the table
/// as the timers phase leaves it.
pub open spec fn iteration_timeout(before: Loop, mode: RunMode, idle: u64) -> u64 {
    poll_timeout_spec(
        after_timers(before.handles@, before.now_ms),
        before.now_ms,
        before.stop_flag,
        mode,
        idle,
    )
}

/// Where the clock stands after one iteration: advanced by the poll timeout
/// when the default mode waited and nothing arrived, unchanged otherwise.
pub open spec fn iteration_now(before: Loop, mode: RunMode, idle: u64, no_events: bool) -> u64 {
    if mode is UntilDone && no_events {
        sat_add_spec(before.now_ms, iteration_timeout(before, mode, idle))
    } else {
        before.now_ms
    }
}

/// Every handle that keeps the loop alive is a one-shot timer already due:
/// the shape of a loop that has exactly one iteration of work left.
pub open spec fn keeper_is_due_oneshot(h: HandleRecord, now: u64) -> bool {
    keeps_alive(h) ==> (due_timer(h, now) && timer_of(h).repeat == 0)
}

/// The one change `stop` makes: the stop flag is raised, all else is kept.
pub open spec fn lp_stopped(before: Loop, after: Loop) -> bool {
    &&& after.now_ms == before.now_ms
    &&& after.handles@ == before.handles@
    &&& after.stop_flag
    &&& after.next_start_order == before.next_start_order
}

/// Whether any record of the table keeps the loop running.
pub open spec fn seq_alive(hs: Seq<HandleRecord>) -> bool {
    exists|i: int| 0 <= i < hs.len() && keeps_alive(#[trigger] hs[i])
}

/// A started timer that has not been stopped or closed.
pub open spec fn active_timer(h: HandleRecord) -> bool {
    h.payload is Timer && h.state is Active
}

/// An active timer whose deadline has been reached.
pub open spec fn due_timer(h: HandleRecord, now: u64) -> bool {
    active_timer(h) && timer_of(h).due <= now
}

/// A due timer after its firing: rescheduled one interval past its old
/// deadline when repeating (so an overrun makes the next firing immediate),
/// stopped otherwise.
pub open spec fn fired_timer_record(h: HandleRecord) -> HandleRecord {
    let t = timer_of(h);
    if t.repeat > 0 {
        HandleRecord {
            payload: HandlePayload::Timer(
                (TimerData { due: sat_add_spec(t.due, t.repeat), ..t }),
            ),
            ..h
        }
    } else {
        HandleRecord { state: LifecycleState::Inactive, ..h }
    }
}

/// The handle table as the timers phase leaves it: every due timer fired,
/// everything else untouched.
pub open spec fn after_timers(hs: Seq<HandleRecord>, now: u64) -> Seq<HandleRecord> {
    Seq::new(
        hs.len(),
        |i: int|
            if due_timer(hs[i], now) {
                fired_timer_record(hs[i])
            } else {
                hs[i]
            },
    )
}

/// Whether this record's hook runs in the given hook phase (prepare when
/// `prepare`, check otherwise).
pub open spec fn hook_runs(h: HandleRecord, prepare: bool) -> bool {
    if prepare {
        h.payload is Prepare && h.state is Active
    } else {
        h.payload is Check && h.state is Active
    }
}

/// The dispatch a hook phase emits for the record at index `i`.
pub open spec fn hook_dispatch(i: int, h: HandleRecord, prepare: bool) -> Dispatch {
    if prepare {
        Dispatch::Prepare { handle: i as usize, cb: prepare_of(h).cb->Some_0 }
    } else {
        Dispatch::Check { handle: i as usize, cb: check_of(h).cb->Some_0 }
    }
}

/// What a hook phase emits: one dispatch per active hook of its kind, in
/// handle-registration order.
pub open spec fn hook_dispatches(hs: Seq<HandleRecord>, prepare: bool) -> Seq<Dispatch>
    decreases hs.len(),
{
    if hs.len() == 0 {
        Seq::empty()
    } else {
        hook_dispatches(hs.drop_last(), prepare) + (if hook_runs(hs.last(), prepare) {
            seq![hook_dispatch(hs.len() - 1, hs.last(), prepare)]
        } else {
            Seq::empty()
        })
    }
}

pub proof fn lemma_hook_dispatches_take_step(hs: Seq<HandleRecord>, prepare: bool, i: int)
    requires
        0 <= i < hs.len(),
    ensures
        hook_dispatches(hs.take(i + 1), prepare) == hook_dispatches(hs.take(i), prepare) + (
        if hook_runs(hs[i], prepare) {
            seq![hook_dispatch(i, hs[i], prepare)]
        } else {
            Seq::<Dispatch>::empty()
        }),
{
    assert(hs.take(i + 1).drop_last() =~= hs.take(i));
    assert(hs.take(i + 1).last() == hs[i]);
}

/// A hook phase reads only the hook records: tables that agree on those
/// emit the same dispatches.
pub proof fn lemma_hook_dispatches_congruence(a: Seq<HandleRecord>, b: Seq<HandleRecord>, prepare: bool)
    requires
        a.len() == b.len(),
        forall|i: int|
            0 <= i < a.len() ==> (hook_runs(#[trigger] a[i], prepare) == hook_runs(b[i], prepare)
                && (hook_runs(a[i], prepare) ==> hook_dispatch(i, a[i], prepare) == hook_dispatch(
                i,
                b[i],
                prepare,
            ))),
    ensures
        hook_dispatches(a, prepare) == hook_dispatches(b, prepare),
    decreases a.len(),
{
    if a.len() > 0 {
        assert(a.drop_last() =~= a.take(a.len() - 1));
        assert(b.drop_last() =~= b.take(b.len() - 1));
        lemma_hook_dispatches_congruence(a.drop_last(), b.drop_last(), prepare);
    }
}

/// The earliest deadline among active timers, if any timer is active.
pub open spec fn next_timer_due(hs: Seq<HandleRecord>) -> Option<u64>
    decreases hs.len(),
{
    if hs.len() == 0 {
        None
    } else {
        let rest = next_timer_due(hs.drop_last());
        if active_timer(hs.last()) {
            let d = timer_of(hs.last()).due;
            match rest {
                None => Some(d),
                Some(m) => Some(if d < m { d } else { m }),
            }
        } else {
            rest
        }
    }
}

pub proof fn lemma_next_timer_due_take_step(hs: Seq<HandleRecord>, i: int)
    requires
        0 <= i < hs.len(),
    ensures
        next_timer_due(hs.take(i + 1)) == (if active_timer(hs[i]) {
            match next_timer_due(hs.take(i)) {
                None => Some(timer_of(hs[i]).due),
                Some(m) => Some(
                    if timer_of(hs[i]).due < m {
                        timer_of(hs[i]).due
                    } else {
                        m
                    },
                ),
            }
        } else {
            next_timer_due(hs.take(i))
        }),
{
    assert(hs.take(i + 1).drop_last() =~= hs.take(i));
    assert(hs.take(i + 1).last() == hs[i]);
}

/// Whether some handle owes its close callback.
pub open spec fn any_closing(hs: Seq<HandleRecord>) -> bool {
    exists|i: int| 0 <= i < hs.len() && (#[trigger] hs[i]).state is Closing
}

/// Whether some active timer is already due.
pub open spec fn any_due_timer(hs: Seq<HandleRecord>, now: u64) -> bool {
    exists|i: int| 0 <= i < hs.len() && due_timer(#[trigger] hs[i], now)
}

/// The timeout of the poll step: zero whenever the iteration must not block
/// (a non-default mode, a requested stop, a finished loop, due work); else
/// the time to the next timer deadline, capped by the caller's idle ceiling.
pub open spec fn poll_timeout_spec(
    hs: Seq<HandleRecord>,
    now: u64,
    stop: bool,
    mode: RunMode,
    idle: u64,
) -> u64 {
    if !(mode is UntilDone) || stop || !seq_alive(hs) || any_closing(hs) || any_due_timer(hs, now) {
        0
    } else {
        match next_timer_due(hs) {
            Some(d) => if d - now < idle {
                (d - now) as u64
            } else {
                idle
            },
            None => idle,
        }
    }
}

/// The completion dispatches a queue's requests receive, FIFO, with the
/// given status.
pub open spec fn drain_dispatches(q: Seq<WriteRequest>, i: int, st: Status) -> Seq<Dispatch>
    decreases q.len(),
{
    if q.len() == 0 {
        Seq::empty()
    } else {
        drain_dispatches(q.drop_last(), i, st) + seq![
            Dispatch::WriteDone { handle: i as usize, cb: q.last().cb, status: st },
        ]
    }
}

pub proof fn lemma_drain_dispatches_take_step(q: Seq<WriteRequest>, i: int, st: Status, k: int)
    requires
        0 <= k < q.len(),
    ensures
        drain_dispatches(q.take(k + 1), i, st) == drain_dispatches(q.take(k), i, st) + seq![
            Dispatch::WriteDone { handle: i as usize, cb: q[k].cb, status: st },
        ],
{
    assert(q.take(k + 1).drop_last() =~= q.take(k));
    assert(q.take(k + 1).last() == q[k]);
}

/// How one record leaves the close phase: a `Closing` handle settles to
/// `Closed` - a stream first releasing its queue into the cancelled history
/// and clearing all operational state - and every other handle is untouched.
pub open spec fn close_settled(h: HandleRecord, h2: HandleRecord) -> bool {
    if h.state is Closing {
        &&& h2.state is Closed
        &&& h2.referenced == h.referenced
        &&& h2.close_cb == h.close_cb
        &&& (match h.payload {
            HandlePayload::Stream(s) => {
                &&& h2.payload is Stream
                &&& ({
                    let s2 = stream_of(h2);
                    &&& s2.write_queue@.len() == 0
                    &&& s2.queued_bytes == 0
                    &&& !s2.shutting_down
                    &&& s2.shutdown_cb is None
                    &&& s2.read_state is Idle
                    &&& !s2.listening
                    &&& s2.pending_connections == 0
                    &&& !s2.readable
                    &&& !s2.writable
                    &&& s2.alloc_cb == s.alloc_cb
                    &&& s2.read_cb == s.read_cb
                    &&& s2.connection_cb == s.connection_cb
                    &&& s2.backlog == s.backlog
                    &&& s2.blocking == s.blocking
                    &&& s2.delivered@ == s.delivered@
                    &&& s2.delivered_handles@ == s.delivered_handles@
                    &&& s2.submitted@ == s.submitted@
                    &&& s2.cancelled@ == s.cancelled@ + queue_bytes(s.write_queue@)
                })
            },
            _ => h2.payload == h.payload,
        })
    } else {
        h2 == h
    }
}

/// What the close phase emits for the record at index `i`: nothing unless it
/// is `Closing`; else the cancelled completion of every pending request in
/// FIFO order, then a cancelled shutdown completion if one was pending, then
/// the close callback if one was supplied.
pub open spec fn close_dispatches_for(h: HandleRecord, i: int) -> Seq<Dispatch> {
    if h.state is Closing {
        (match h.payload {
            HandlePayload::Stream(s) => drain_dispatches(s.write_queue@, i, Status::Cancelled) + (
            if s.shutting_down {
                seq![
                    Dispatch::ShutdownDone {
                        handle: i as usize,
                        cb: s.shutdown_cb->Some_0,
                        status: Status::Cancelled,
                    },
                ]
            } else {
                Seq::<Dispatch>::empty()
            }),
            _ => Seq::<Dispatch>::empty(),
        }) + (match h.close_cb {
            Some(cb) => seq![Dispatch::Close { handle: i as usize, cb }],
            None => Seq::<Dispatch>::empty(),
        })
    } else {
        Seq::<Dispatch>::empty()
    }
}

/// What the close phase emits for the whole table, in handle order.
pub open spec fn close_phase_dispatches(hs: Seq<HandleRecord>) -> Seq<Dispatch>
    decreases hs.len(),
{
    if hs.len() == 0 {
        Seq::empty()
    } else {
        close_phase_dispatches(hs.drop_last()) + close_dispatches_for(hs.last(), hs.len() - 1)
    }
}

pub proof fn lemma_close_phase_take_step(hs: Seq<HandleRecord>, i: int)
    requires
        0 <= i < hs.len(),
    ensures
        close_phase_dispatches(hs.take(i + 1)) == close_phase_dispatches(hs.take(i))
            + close_dispatches_for(hs[i], i),
{
    assert(hs.take(i + 1).drop_last() =~= hs.take(i));
    assert(hs.take(i + 1).last() == hs[i]);
}

/// Every dispatch of a hook phase names an active hook of that phase's
/// kind, each such hook is named once, and the dispatches come in
/// handle-registration order.
pub proof fn lemma_hook_dispatches_shape(hs: Seq<HandleRecord>, prepare: bool)
    requires
        hs.len() <= usize::MAX,
    ensures
        (forall|k: int|
            0 <= k < hook_dispatches(hs, prepare).len() ==> {
                let d = #[trigger] hook_dispatches(hs, prepare)[k];
                &&& (if prepare {
                    d is Prepare
                } else {
                    d is Check
                })
                &&& dispatch_handle(d) < hs.len()
                &&& hook_runs(hs[dispatch_handle(d) as int], prepare)
                &&& d == hook_dispatch(
                    dispatch_handle(d) as int,
                    hs[dispatch_handle(d) as int],
                    prepare,
                )
            }),
        (forall|j: int|
            0 <= j < hs.len() && hook_runs(#[trigger] hs[j], prepare) ==> exists|k: int|
                0 <= k < hook_dispatches(hs, prepare).len() && dispatch_handle(
                    #[trigger] hook_dispatches(hs, prepare)[k],
                ) == j),
        (forall|k1: int, k2: int|
            0 <= k1 < k2 < hook_dispatches(hs, prepare).len() ==> dispatch_handle(
                #[trigger] hook_dispatches(hs, prepare)[k1],
            ) < dispatch_handle(#[trigger] hook_dispatches(hs, prepare)[k2])),
    decreases hs.len(),
{
    if hs.len() > 0 {
        lemma_hook_dispatches_shape(hs.drop_last(), prepare);
        assert forall|j: int|
            0 <= j < hs.len() && hook_runs(#[trigger] hs[j], prepare) implies exists|k: int|
            0 <= k < hook_dispatches(hs, prepare).len() && dispatch_handle(
                #[trigger] hook_dispatches(hs, prepare)[k],
            ) == j by {
            if j == hs.len() - 1 {
                let k = hook_dispatches(hs, prepare).len() - 1;
                assert(hook_runs(hs.last(), prepare));
                assert(hook_dispatches(hs, prepare) == hook_dispatches(hs.drop_last(), prepare)
                    + seq![hook_dispatch(hs.len() - 1, hs.last(), prepare)]);
                assert(hook_dispatches(hs, prepare)[k] == hook_dispatch(
                    hs.len() - 1,
                    hs.last(),
                    prepare,
                ));
                assert(dispatch_handle(hook_dispatches(hs, prepare)[k]) == j);
            } else {
                assert(hs.drop_last()[j] == hs[j]);
                let k = choose|k: int|
                    0 <= k < hook_dispatches(hs.drop_last(), prepare).len() && dispatch_handle(
                        #[trigger] hook_dispatches(hs.drop_last(), prepare)[k],
                    ) == j;
                assert(hook_dispatches(hs, prepare)[k] == hook_dispatches(
                    hs.drop_last(),
                    prepare,
                )[k]);
            }
        }
    }
}

/// Every dispatch the close phase emits for one record is close-phase work
/// addressed to that record; a close callback, when owed, comes exactly
/// once, after every cancelled completion.
pub proof fn lemma_close_dispatches_for_shape(h: HandleRecord, i: int)
    requires
        0 <= i <= usize::MAX,
    ensures
        (forall|k: int|
            0 <= k < close_dispatches_for(h, i).len() ==> phase_rank(
                #[trigger] close_dispatches_for(h, i)[k],
            ) == 4 && dispatch_handle(close_dispatches_for(h, i)[k]) == i as usize),
        (forall|k: int|
            0 <= k < close_dispatches_for(h, i).len() && (#[trigger] close_dispatches_for(
                h,
                i,
            )[k]) is Close ==> k == close_dispatches_for(h, i).len() - 1 && h.state is Closing
                && h.close_cb == Some(dispatch_cb(close_dispatches_for(h, i)[k]))),
        (h.state is Closing && h.close_cb is Some ==> close_dispatches_for(h, i).len() > 0
            && close_dispatches_for(h, i).last() is Close && dispatch_cb(
            close_dispatches_for(h, i).last(),
        ) == h.close_cb->Some_0),
{
    if h.state is Closing {
        match h.payload {
            HandlePayload::Stream(s) => {
                lemma_drain_dispatches_shape(s.write_queue@, i, Status::Cancelled);
            },
            _ => {},
        }
    }
}

/// The close phase's dispatches, over the whole table: all close-phase
/// work, each addressed within the table; close callbacks come only for
/// closing records, at most once each, always after that record's
/// cancelled completions.
#[verifier::rlimit(100)]
pub proof fn lemma_close_phase_shape(hs: Seq<HandleRecord>)
    requires
        hs.len() <= usize::MAX,
    ensures
        (forall|k: int|
            0 <= k < close_phase_dispatches(hs).len() ==> phase_rank(
                #[trigger] close_phase_dispatches(hs)[k],
            ) == 4 && dispatch_handle(close_phase_dispatches(hs)[k]) < hs.len()),
        (forall|k: int|
            0 <= k < close_phase_dispatches(hs).len() && (#[trigger] close_phase_dispatches(
                hs,
            )[k]) is Close ==> hs[dispatch_handle(close_phase_dispatches(hs)[k]) as int].state
                is Closing && hs[dispatch_handle(close_phase_dispatches(hs)[k]) as int].close_cb
                == Some(dispatch_cb(close_phase_dispatches(hs)[k]))),
        (forall|j: int|
            0 <= j < hs.len() && (#[trigger] hs[j]).state is Closing && hs[j].close_cb is Some
                ==> exists|k: int|
                0 <= k < close_phase_dispatches(hs).len() && (#[trigger] close_phase_dispatches(
                    hs,
                )[k]) is Close && dispatch_handle(close_phase_dispatches(hs)[k]) == j),
        (forall|k1: int, k2: int|
            0 <= k1 < k2 < close_phase_dispatches(hs).len() && (#[trigger] close_phase_dispatches(
                hs,
            )[k1]) is Close && (#[trigger] close_phase_dispatches(hs)[k2]) is Close
                ==> dispatch_handle(close_phase_dispatches(hs)[k1]) != dispatch_handle(
                close_phase_dispatches(hs)[k2],
            )),
        (forall|k1: int, k2: int|
            0 <= k1 < close_phase_dispatches(hs).len() && 0 <= k2 < close_phase_dispatches(
                hs,
            ).len() && (#[trigger] close_phase_dispatches(hs)[k1]) is WriteDone && (
            #[trigger] close_phase_dispatches(hs)[k2]) is Close && dispatch_handle(
                close_phase_dispatches(hs)[k1],
            ) == dispatch_handle(close_phase_dispatches(hs)[k2]) ==> k1 < k2),
    decreases hs.len(),
{
    if hs.len() > 0 {
        lemma_close_phase_shape(hs.drop_last());
        lemma_close_dispatches_for_shape(hs.last(), hs.len() - 1);
        let pre = close_phase_dispatches(hs.drop_last());
        let seg = close_dispatches_for(hs.last(), hs.len() - 1);
        assert forall|j: int|
            0 <= j < hs.len() && (#[trigger] hs[j]).state is Closing && hs[j].close_cb
                is Some implies exists|k: int|
            0 <= k < close_phase_dispatches(hs).len() && (#[trigger] close_phase_dispatches(
                hs,
            )[k]) is Close && dispatch_handle(close_phase_dispatches(hs)[k]) == j by {
            if j == hs.len() - 1 {
                let k = close_phase_dispatches(hs).len() - 1;
                assert(close_phase_dispatches(hs)[k] == seg.last());
            } else {
                assert(hs.drop_last()[j] == hs[j]);
                let k = choose|k: int|
                    0 <= k < pre.len() && (#[trigger] pre[k]) is Close && dispatch_handle(pre[k])
                        == j;
                assert(close_phase_dispatches(hs)[k] == pre[k]);
            }
        }
    }
}

/// Whether a readiness event finds a stream that takes it: the index names
/// a stream record that is neither closing nor closed, listening for a
/// connection event, reading for a data, end-of-stream or read-error event.
pub open spec fn io_applicable(hs: Seq<HandleRecord>, ev: IoEvent) -> bool {
    let t = io_target(ev) as int;
    &&& io_target(ev) < hs.len()
    &&& hs[t].payload is Stream
    &&& !(hs[t].state is Closing)
    &&& !(hs[t].state is Closed)
    &&& (match ev {
        IoEvent::Incoming { .. } => stream_of(hs[t]).listening,
        IoEvent::Data { .. } => stream_of(hs[t]).read_state is Reading,
        IoEvent::Eof { .. } => stream_of(hs[t]).read_state is Reading,
        IoEvent::ReadFailed { .. } => stream_of(hs[t]).read_state is Reading,
        IoEvent::Writable { .. } => true,
    })
}

/// What handling one readiness event does to the handle table. An event
/// that finds no stream to take it is dropped without a trace; the others
/// touch only their target: a connection outcome is announced with the
/// platform's status and, when it succeeded, counted toward `accept`;
/// arriving bytes are announced after a storage request, changing nothing;
/// end of stream and read errors are announced the same way and stop the
/// read loop; writability drains the whole write queue to the peer in FIFO
/// order, completing each request and then a pending shutdown.
pub open spec fn io_table_event_outcome(
    before: Seq<HandleRecord>,
    after: Seq<HandleRecord>,
    ev: IoEvent,
    r: Seq<Dispatch>,
) -> bool {
    if !io_applicable(before, ev) {
        after == before && r.len() == 0
    } else {
        let tu = io_target(ev);
        let t = tu as int;
        let h = before[t];
        let s = stream_of(h);
        match ev {
            IoEvent::Incoming { status, .. } => {
                &&& r == seq![
                    Dispatch::Connection { handle: tu, cb: s.connection_cb->Some_0, status: status },
                ]
                &&& after == before.update(
                    t,
                    (HandleRecord {
                        payload: HandlePayload::Stream(
                            (crate::handle::StreamData {
                                pending_connections: (if status >= 0 {
                                    sat_add_spec(s.pending_connections, 1)
                                } else {
                                    s.pending_connections
                                }),
                                ..s
                            }),
                        ),
                        ..h
                    }),
                )
            },
            IoEvent::Data { .. } => {
                &&& r.len() == 2
                &&& r[0] == (Dispatch::Alloc {
                    handle: tu,
                    cb: s.alloc_cb->Some_0,
                    suggested: read_bytes_of(r[1]).len() as usize,
                })
                &&& r[1] is Read
                &&& dispatch_handle(r[1]) == tu
                &&& dispatch_cb(r[1]) == s.read_cb->Some_0
                &&& read_outcome_of(r[1]) == ReadOutcome::Data(read_bytes_of(r[1]).len() as usize)
                &&& (ev matches IoEvent::Data { bytes, .. } && read_bytes_of(r[1]) == bytes@)
                &&& after == before
            },
            IoEvent::Eof { .. } => {
                &&& r.len() == 2
                &&& r[0] == (Dispatch::Alloc { handle: tu, cb: s.alloc_cb->Some_0, suggested: 0 })
                &&& r[1] is Read
                &&& dispatch_handle(r[1]) == tu
                &&& dispatch_cb(r[1]) == s.read_cb->Some_0
                &&& read_outcome_of(r[1]) == ReadOutcome::Eof
                &&& read_bytes_of(r[1]).len() == 0
                &&& after == before.update(t, read_stopped_record(h, false))
            },
            IoEvent::ReadFailed { code, .. } => {
                &&& r.len() == 2
                &&& r[0] == (Dispatch::Alloc { handle: tu, cb: s.alloc_cb->Some_0, suggested: 0 })
                &&& r[1] is Read
                &&& dispatch_handle(r[1]) == tu
                &&& dispatch_cb(r[1]) == s.read_cb->Some_0
                &&& read_outcome_of(r[1]) == ReadOutcome::Failed(code)
                &&& read_bytes_of(r[1]).len() == 0
                &&& after == before.update(t, read_stopped_record(h, true))
            },
            IoEvent::Writable { .. } => {
                let h2 = after[t];
                let s2 = stream_of(h2);
                &&& r == drain_dispatches(s.write_queue@, t, Status::Complete) + (
                if s.shutting_down {
                    seq![
                        Dispatch::ShutdownDone {
                            handle: tu,
                            cb: s.shutdown_cb->Some_0,
                            status: Status::Complete,
                        },
                    ]
                } else {
                    Seq::<Dispatch>::empty()
                })
                &&& crate::stream::only_table_record_changed(before, after, t)
                &&& h2.referenced == h.referenced
                &&& h2.close_cb == h.close_cb
                &&& h2.payload is Stream
                &&& h2.state == (if h.state is Active && !(s.listening || s.read_state is Reading) {
                    LifecycleState::Inactive
                } else {
                    h.state
                })
                &&& s2.write_queue@.len() == 0
                &&& s2.queued_bytes == 0
                &&& s2.delivered@ == s.delivered@ + queue_bytes(s.write_queue@)
                &&& s2.delivered_handles@ == s.delivered_handles@ + crate::handle::queue_transfers(
                    s.write_queue@,
                )
                &&& s2.submitted@ == s.submitted@
                &&& s2.cancelled@ == s.cancelled@
                &&& !s2.shutting_down
                &&& s2.shutdown_cb == (if s.shutting_down { None } else { s.shutdown_cb })
                &&& s2.writable == (if s.shutting_down { false } else { s.writable })
                &&& s2.readable == s.readable
                &&& s2.blocking == s.blocking
                &&& crate::stream::same_stream_reading(s, s2)
                &&& crate::stream::same_stream_server(s, s2)
            },
        }
    }
}

/// [`io_table_event_outcome`] on the loop's table, with the loop's scalar
/// fields untouched.
pub open spec fn io_event_outcome(before: Loop, after: Loop, ev: IoEvent, r: Seq<Dispatch>) -> bool {
    &&& after.now_ms == before.now_ms
    &&& after.stop_flag == before.stop_flag
    &&& after.next_start_order == before.next_start_order
    &&& io_table_event_outcome(before.handles@, after.handles@, ev, r)
}

/// The concatenation of per-event (or per-iteration) dispatch batches, in
/// order.
pub open spec fn dispatch_concat(batches: Seq<Seq<Dispatch>>) -> Seq<Dispatch>
    decreases batches.len(),
{
    if batches.len() == 0 {
        Seq::empty()
    } else {
        dispatch_concat(batches.drop_last()) + batches.last()
    }
}

/// A per-event trace of the I/O phase: `tables[i]` is the handle table
/// after event `i`, handled - per [`io_table_event_outcome`] - from the
/// table event `i - 1` left behind, and `batches[i]` is what it dispatched.
pub open spec fn io_trace_ok(
    before: Seq<HandleRecord>,
    events: Seq<IoEvent>,
    tables: Seq<Seq<HandleRecord>>,
    batches: Seq<Seq<Dispatch>>,
) -> bool {
    &&& tables.len() == events.len()
    &&& batches.len() == events.len()
    &&& (forall|i: int|
        0 <= i < events.len() ==> io_table_event_outcome(
            (if i == 0 {
                before
            } else {
                tables[i - 1]
            }),
            tables[i],
            events[i],
            #[trigger] batches[i],
        ))
}

/// What the whole I/O phase does: a per-event trace ties the final table
/// and the concatenated dispatches to the events, handled left to right.
pub open spec fn io_phase_outcome(
    before: Seq<HandleRecord>,
    after: Seq<HandleRecord>,
    events: Seq<IoEvent>,
    r: Seq<Dispatch>,
) -> bool {
    exists|tables: Seq<Seq<HandleRecord>>, batches: Seq<Seq<Dispatch>>|
        #![trigger io_trace_ok(before, events, tables, batches)]
        {
            &&& io_trace_ok(before, events, tables, batches)
            &&& after == (if events.len() == 0 {
                before
            } else {
                tables.last()
            })
            &&& r == dispatch_concat(batches)
        }
}

/// What one whole iteration does, tying every phase to the state the
/// previous phase left: the due timers of the entry table fire; the entry
/// table's active hooks run around the poll; the readiness events are
/// handled, per-event, on the table the timers phase left; the close phase
/// settles what that left `Closing`; the dispatches are exactly those five
/// phases' outputs in order; and the clock advances by the computed poll
/// timeout exactly when the default mode waited out an empty poll.
pub open spec fn iteration_outcome(
    before: Loop,
    after: Loop,
    mode: RunMode,
    idle: u64,
    events: Seq<IoEvent>,
    r: Seq<Dispatch>,
) -> bool {
    exists|rt: Seq<Dispatch>, hs3: Seq<HandleRecord>, rio: Seq<Dispatch>|
        #![trigger timer_dispatches_ok(before.handles@, before.now_ms, rt), io_phase_outcome(after_timers(before.handles@, before.now_ms), hs3, events, rio)]
        {
            &&& timer_dispatches_ok(before.handles@, before.now_ms, rt)
            &&& io_phase_outcome(after_timers(before.handles@, before.now_ms), hs3, events, rio)
            &&& after.handles@.len() == hs3.len()
            &&& (forall|j: int|
                0 <= j < hs3.len() ==> close_settled(hs3[j], #[trigger] after.handles@[j]))
            &&& r == rt + hook_dispatches(before.handles@, true) + rio + hook_dispatches(
                before.handles@,
                false,
            ) + close_phase_dispatches(hs3)
            &&& after.now_ms == iteration_now(before, mode, idle, events.len() == 0)
            &&& after.stop_flag == before.stop_flag
            &&& after.next_start_order == before.next_start_order
        }
}

/// A per-iteration trace of a `run`: `states[i]` is the loop after
/// iteration `i`, produced - per [`iteration_outcome`], with no readiness
/// events, from the state iteration `i - 1` left - and `batches[i]` is
/// what that iteration dispatched.
pub open spec fn run_trace_ok(
    start: Loop,
    mode: RunMode,
    idle: u64,
    states: Seq<Loop>,
    batches: Seq<Seq<Dispatch>>,
) -> bool {
    &&& batches.len() == states.len()
    &&& (forall|i: int|
        0 <= i < states.len() ==> iteration_outcome(
            (if i == 0 {
                start
            } else {
                states[i - 1]
            }),
            #[trigger] states[i],
            mode,
            idle,
            Seq::<IoEvent>::empty(),
            batches[i],
        ))
}

/// A reading stream's record after end of stream (or, with `keep_readable`,
/// after a read error): the read loop implicitly stopped, the handle left
/// active only while other stream work remains.
pub open spec fn read_stopped_record(h: HandleRecord, keep_readable: bool) -> HandleRecord {
    let s = stream_of(h);
    let s2 = crate::handle::StreamData {
        read_state: ReadState::Idle,
        readable: keep_readable && s.readable,
        ..s
    };
    HandleRecord {
        state: if h.state is Active && !crate::stream::stream_busy(s2) {
            LifecycleState::Inactive
        } else {
            h.state
        },
        payload: HandlePayload::Stream(s2),
        ..h
    }
}

/// Every element of a queue's completion dispatches is a completion for the
/// queue's handle with the given status.
pub proof fn lemma_drain_dispatches_shape(q: Seq<WriteRequest>, i: int, st: Status)
    ensures
        drain_dispatches(q, i, st).len() == q.len(),
        forall|k: int|
            0 <= k < q.len() ==> #[trigger] drain_dispatches(q, i, st)[k] == (Dispatch::WriteDone {
                handle: i as usize,
                cb: q[k].cb,
                status: st,
            }),
    decreases q.len(),
{
    if q.len() > 0 {
        lemma_drain_dispatches_shape(q.drop_last(), i, st);
    }
}

/// What one handled event leaves alone at each record: its membership in
/// the close lifecycle, its close callback, its reference flag, and its
/// payload kind.
pub open spec fn io_record_frame(h: HandleRecord, h2: HandleRecord) -> bool {
    &&& (h2.state is Closing <==> h.state is Closing)
    &&& (h2.state is Closed <==> h.state is Closed)
    &&& h2.close_cb == h.close_cb
    &&& h2.referenced == h.referenced
    &&& (h2.payload is Stream <==> h.payload is Stream)
}

/// What the whole I/O phase leaves alone: the table's length, the loop's
/// scalar fields, every non-stream record, every closing or closed record,
/// and at each record what [`io_record_frame`] names.
pub open spec fn io_frame(before: Loop, after: Loop) -> bool {
    &&& after.handles@.len() == before.handles@.len()
    &&& after.now_ms == before.now_ms
    &&& after.stop_flag == before.stop_flag
    &&& after.next_start_order == before.next_start_order
    &&& (forall|j: int|
        0 <= j < before.handles@.len() && !(before.handles@[j].payload is Stream)
            ==> after.handles@[j] == #[trigger] before.handles@[j])
    &&& (forall|j: int|
        0 <= j < before.handles@.len() && (before.handles@[j].state is Closing
            || before.handles@[j].state is Closed) ==> after.handles@[j] == #[trigger] before.handles@[j])
    &&& (forall|j: int|
        0 <= j < before.handles@.len() ==> io_record_frame(
            before.handles@[j],
            #[trigger] after.handles@[j],
        ))
}

/// Handling one event respects the I/O-phase frame.
pub proof fn lemma_io_event_frame(before: Loop, after: Loop, ev: IoEvent, r: Seq<Dispatch>)
    requires
        io_event_outcome(before, after, ev, r),
    ensures
        io_frame(before, after),
{
}

/// The I/O-phase frame composes across events.
pub proof fn lemma_io_frame_trans(a: Loop, b: Loop, c: Loop)
    requires
        io_frame(a, b),
        io_frame(b, c),
    ensures
        io_frame(a, c),
{
}

/// One due timer waiting to fire: its deadline, the order its latest start
/// was registered in, and its handle index.
#[derive(Clone, Copy, Debug)]
pub struct TimerFire {
    pub due: u64,
    pub order: u64,
    pub idx: usize,
}

/// Deadline order, with start-registration order breaking ties.
pub open spec fn fire_le(a: TimerFire, b: TimerFire) -> bool {
    a.due < b.due || (a.due == b.due && a.order <= b.order)
}

/// A worklist entry faithfully describes a due timer of the table.
pub open spec fn fire_entry_ok(hs: Seq<HandleRecord>, now: u64, e: TimerFire) -> bool {
    &&& e.idx < hs.len()
    &&& due_timer(hs[e.idx as int], now)
    &&& e.due == timer_of(hs[e.idx as int]).due
    &&& e.order == timer_of(hs[e.idx as int]).start_order
}

/// Whether handle `j` appears among the first `k` worklist entries.
pub open spec fn fired_in(w: Seq<TimerFire>, k: int, j: int) -> bool {
    exists|m: int| 0 <= m < k && (#[trigger] w[m]).idx == j
}

/// Two timer dispatches stand in deadline order (ties by start order) with
/// respect to the given table.
pub open spec fn timer_dispatch_le(hs: Seq<HandleRecord>, d1: Dispatch, d2: Dispatch) -> bool {
    let t1 = timer_of(hs[crate::events::dispatch_handle(d1) as int]);
    let t2 = timer_of(hs[crate::events::dispatch_handle(d2) as int]);
    t1.due < t2.due || (t1.due == t2.due && t1.start_order <= t2.start_order)
}

/// What the timers phase dispatches, against the table it saw: one `Timer`
/// dispatch per due timer - no other, none twice, each carrying the stored
/// callback - in deadline order with ties broken by start-registration
/// order.
pub open spec fn timer_dispatches_ok(hs: Seq<HandleRecord>, now: u64, r: Seq<Dispatch>) -> bool {
    &&& (forall|k: int| 0 <= k < r.len() ==> (#[trigger] r[k]) is Timer)
    &&& (forall|k: int|
        0 <= k < r.len() ==> dispatch_handle(#[trigger] r[k]) < hs.len() && due_timer(
            hs[dispatch_handle(r[k]) as int],
            now,
        ) && dispatch_cb(r[k]) == timer_of(hs[dispatch_handle(r[k]) as int]).cb->Some_0)
    &&& (forall|k1: int, k2: int|
        0 <= k1 < k2 < r.len() ==> dispatch_handle(#[trigger] r[k1]) != dispatch_handle(
            #[trigger] r[k2],
        ))
    &&& (forall|k1: int, k2: int|
        0 <= k1 < k2 < r.len() ==> timer_dispatch_le(hs, #[trigger] r[k1], #[trigger] r[k2]))
    &&& (forall|j: int|
        0 <= j < hs.len() && due_timer(#[trigger] hs[j], now) ==> exists|k: int|
            0 <= k < r.len() && dispatch_handle(#[trigger] r[k]) == j)
}

impl Loop {
    /// The timers phase: every active timer whose deadline has been reached
    /// fires exactly once, in deadline order with ties broken by
    /// start-registration order; a repeating timer is rescheduled one
    /// interval past its old deadline, a one-shot timer stops. No other
    /// handle is touched and the clock does not move.
    pub fn run_timers(&mut self) -> (r: Vec<Dispatch>)
        requires
            old(self).wf(),
        ensures
            final(self).wf(),
            final(self).handles@ == after_timers(old(self).handles@, old(self).now_ms),
            final(self).now_ms == old(self).now_ms,
            final(self).stop_flag == old(self).stop_flag,
            final(self).next_start_order == old(self).next_start_order,
            (forall|k: int| 0 <= k < r@.len() ==> (#[trigger] r@[k]) is Timer),
            forall|k: int|
                0 <= k < r@.len() ==> due_timer(
                    old(self).handles@[crate::events::dispatch_handle(#[trigger] r@[k]) as int],
                    old(self).now_ms,
                ),
            (forall|k: int|
                0 <= k < r@.len() ==> #[trigger] r@[k] == (Dispatch::Timer {
                    handle: crate::events::dispatch_handle(r@[k]),
                    cb: timer_of(
                        old(self).handles@[crate::events::dispatch_handle(r@[k]) as int],
                    ).cb->Some_0,
                })),
            forall|k1: int, k2: int|
                0 <= k1 < k2 < r@.len() ==> crate::events::dispatch_handle(#[trigger] r@[k1])
                    != crate::events::dispatch_handle(#[trigger] r@[k2]),
            forall|k1: int, k2: int|
                0 <= k1 < k2 < r@.len() ==> timer_dispatch_le(
                    old(self).handles@,
                    #[trigger] r@[k1],
                    #[trigger] r@[k2],
                ),
            (forall|j: int|
                0 <= j < old(self).handles@.len() && due_timer(
                    old(self).handles@[j],
                    old(self).now_ms,
                ) ==> exists|k: int|
                    0 <= k < r@.len() && crate::events::dispatch_handle(#[trigger] r@[k]) == j),
            timer_dispatches_ok(old(self).handles@, old(self).now_ms, r@),
    {
        let n = self.handles.len();
        let mut work: Vec<TimerFire> = Vec::new();
        let mut i: usize = 0;
        while i < n
            invariant
                self.wf(),
                *self == *old(self),
                n == self.handles@.len(),
                i <= n,
                forall|m: int|
                    0 <= m < work@.len() ==> fire_entry_ok(
                        self.handles@,
                        self.now_ms,
                        #[trigger] work@[m],
                    ) && work@[m].idx < i,
                forall|m1: int, m2: int|
                    0 <= m1 < m2 < work@.len() ==> fire_le(#[trigger] work@[m1], #[trigger] work@[m2]),
                forall|m1: int, m2: int|
                    0 <= m1 < m2 < work@.len() ==> (#[trigger] work@[m1]).idx != (
                    #[trigger] work@[m2]).idx,
                forall|j: int|
                    0 <= j < i && due_timer(#[trigger] self.handles@[j], self.now_ms) ==> fired_in(
                        work@,
                        work@.len() as int,
                        j,
                    ),
            decreases n - i,
        {
            let h = &self.handles[i];
            let is_due = h.state == LifecycleState::Active && match &h.payload {
                HandlePayload::Timer(t) => t.due <= self.now_ms,
                _ => false,
            };
            if is_due {
                let (due, order) = match &h.payload {
                    HandlePayload::Timer(t) => (t.due, t.start_order),
                    _ => vstd::pervasive::unreached(),
                };
                let e = TimerFire { due, order, idx: i };
                let ghost before = work@;
                let mut pos: usize = 0;
                while pos < work.len() && (work[pos].due < e.due || (work[pos].due == e.due
                    && work[pos].order <= e.order))
                    invariant
                        work@ == before,
                        e.due == due && e.order == order && e.idx == i,
                        pos <= work@.len(),
                        forall|m: int| 0 <= m < pos ==> fire_le(#[trigger] work@[m], e),
                    decreases work@.len() - pos,
                {
                    pos = pos + 1;
                }
                proof {
                    before.insert_ensures(pos as int, e);
                }
                work.insert(pos, e);
                proof {
                    assert forall|m1: int, m2: int|
                        0 <= m1 < m2 < work@.len() implies fire_le(
                        #[trigger] work@[m1],
                        #[trigger] work@[m2],
                    ) by {
                        if m2 < pos {
                        } else if m1 < pos && m2 == pos {
                        } else if m1 < pos && m2 > pos {
                            assert(work@[m2] == before[m2 - 1]);
                        } else if m1 == pos {
                            assert(work@[m2] == before[m2 - 1]);
                            assert(!fire_le(before[pos as int], e));
                        } else {
                            assert(work@[m1] == before[m1 - 1]);
                            assert(work@[m2] == before[m2 - 1]);
                        }
                    }
                    assert forall|j: int|
                        0 <= j < i + 1 && due_timer(
                            #[trigger] self.handles@[j],
                            self.now_ms,
                        ) implies fired_in(work@, work@.len() as int, j) by {
                        if j == i {
                            assert(work@[pos as int].idx == j);
                        } else {
                            let m = choose|m: int|
                                0 <= m < before.len() && (#[trigger] before[m]).idx == j;
                            if m < pos {
                                assert(work@[m].idx == j);
                            } else {
                                assert(work@[m + 1].idx == j);
                            }
                        }
                    }
                }
            }
            i = i + 1;
        }
        let wn = work.len();
        let mut out: Vec<Dispatch> = Vec::new();
        let mut k: usize = 0;
        while k < wn
            invariant
                wn == work@.len(),
                k <= wn,
                n == self.handles@.len(),
                n == old(self).handles@.len(),
                self.now_ms == old(self).now_ms,
                self.stop_flag == old(self).stop_flag,
                self.next_start_order == old(self).next_start_order,
                forall|m: int|
                    0 <= m < wn ==> fire_entry_ok(
                        old(self).handles@,
                        old(self).now_ms,
                        #[trigger] work@[m],
                    ),
                forall|m1: int, m2: int|
                    0 <= m1 < m2 < wn ==> fire_le(#[trigger] work@[m1], #[trigger] work@[m2]),
                forall|m1: int, m2: int|
                    0 <= m1 < m2 < wn ==> (#[trigger] work@[m1]).idx != (#[trigger] work@[m2]).idx,
                forall|j: int|
                    0 <= j < n && due_timer(#[trigger] old(self).handles@[j], old(self).now_ms)
                        ==> fired_in(work@, wn as int, j),
                forall|j: int|
                    0 <= j < n ==> #[trigger] self.handles@[j] == (if fired_in(work@, k as int, j) {
                        fired_timer_record(old(self).handles@[j])
                    } else {
                        old(self).handles@[j]
                    }),
                forall|j: int| 0 <= j < n ==> record_wf(#[trigger] self.handles@[j]),
                out@.len() == k,
                (forall|m: int|
                    0 <= m < k ==> #[trigger] out@[m] == (Dispatch::Timer {
                        handle: work@[m].idx,
                        cb: timer_of(old(self).handles@[work@[m].idx as int]).cb->Some_0,
                    })),
            decreases wn - k,
        {
            let e = work[k];
            proof {
                assert(!fired_in(work@, k as int, e.idx as int));
                assert(self.handles@[e.idx as int] == old(self).handles@[e.idx as int]);
                assert(record_wf(old(self).handles@[e.idx as int]));
            }
            let cb = match &self.handles[e.idx].payload {
                HandlePayload::Timer(t) => match t.cb {
                    Some(c) => c,
                    None => vstd::pervasive::unreached(),
                },
                _ => vstd::pervasive::unreached(),
            };
            out.push(Dispatch::Timer { handle: e.idx, cb });
            let rec = record_at_mut(&mut self.handles, e.idx);
            let repeat = match &rec.payload {
                HandlePayload::Timer(t) => t.repeat,
                _ => vstd::pervasive::unreached(),
            };
            if repeat > 0 {
                match &mut rec.payload {
                    HandlePayload::Timer(t) => {
                        t.due = sat_add(t.due, t.repeat);
                    },
                    _ => {},
                }
            } else {
                rec.state = LifecycleState::Inactive;
            }
            proof {
                assert(self.handles@[e.idx as int] == fired_timer_record(
                    old(self).handles@[e.idx as int],
                ));
                assert forall|j: int| 0 <= j < n implies #[trigger] self.handles@[j] == (
                if fired_in(work@, k + 1, j) {
                    fired_timer_record(old(self).handles@[j])
                } else {
                    old(self).handles@[j]
                }) by {
                    if j == e.idx as int {
                        assert(work@[k as int].idx == j);
                        assert(fired_in(work@, k + 1, j));
                    } else {
                        if fired_in(work@, k + 1, j) {
                            let m = choose|m: int| 0 <= m < k + 1 && (#[trigger] work@[m]).idx == j;
                            assert(m < k);
                            assert(fired_in(work@, k as int, j));
                        }
                        if fired_in(work@, k as int, j) {
                            assert(fired_in(work@, k + 1, j));
                        }
                    }
                }
            }
            k = k + 1;
        }
        proof {
            assert forall|j: int|
                0 <= j < n && #[trigger] due_timer(
                    old(self).handles@[j],
                    old(self).now_ms,
                ) implies fired_in(work@, wn as int, j) by {}
            assert(self.handles@ =~= after_timers(old(self).handles@, old(self).now_ms));
            assert forall|k1: int, k2: int|
                0 <= k1 < k2 < out@.len() implies timer_dispatch_le(
                old(self).handles@,
                #[trigger] out@[k1],
                #[trigger] out@[k2],
            ) by {
                assert(fire_le(work@[k1], work@[k2]));
            }
            assert forall|j: int|
                0 <= j < old(self).handles@.len() && due_timer(
                    old(self).handles@[j],
                    old(self).now_ms,
                ) implies exists|k: int|
                0 <= k < out@.len() && crate::events::dispatch_handle(#[trigger] out@[k]) == j by {
                let m = choose|m: int| 0 <= m < wn && (#[trigger] work@[m]).idx == j;
                assert(crate::events::dispatch_handle(out@[m]) == j);
            }
        }
        out
    }

    /// Handles one readiness event of the poll step, exactly as
    /// [`io_event_outcome`] states.
    pub fn process_io_event(&mut self, ev: &IoEvent) -> (r: Vec<Dispatch>)
        requires
            old(self).wf(),
        ensures
            final(self).wf(),
            io_event_outcome(*old(self), *final(self), *ev, r@),
            (forall|k: int| 0 <= k < r@.len() ==> phase_rank(#[trigger] r@[k]) == 2),
    {
        let t = match ev {
            IoEvent::Incoming { stream, .. } => *stream,
            IoEvent::Data { stream, .. } => *stream,
            IoEvent::Eof { stream } => *stream,
            IoEvent::ReadFailed { stream, .. } => *stream,
            IoEvent::Writable { stream } => *stream,
        };
        if t >= self.handles.len() {
            return Vec::new();
        }
        let st = self.handles[t].state;
        let is_stream = match &self.handles[t].payload {
            HandlePayload::Stream(_) => true,
            _ => false,
        };
        if !is_stream || st == LifecycleState::Closing || st == LifecycleState::Closed {
            return Vec::new();
        }
        proof {
            assert(record_wf(self.handles@[t as int]));
        }
        let mut out: Vec<Dispatch> = Vec::new();
        match ev {
            IoEvent::Incoming { status, .. } => {
                let (listening, cb) = match &self.handles[t].payload {
                    HandlePayload::Stream(s) => (s.listening, s.connection_cb),
                    _ => vstd::pervasive::unreached(),
                };
                if !listening {
                    return out;
                }
                let cb = match cb {
                    Some(c) => c,
                    None => vstd::pervasive::unreached(),
                };
                out.push(Dispatch::Connection { handle: t, cb, status: *status });
                let s = stream_at_mut(&mut self.handles, t);
                if *status >= 0 {
                    s.pending_connections = sat_add(s.pending_connections, 1);
                }
            },
            IoEvent::Data { bytes, .. } => {
                let (reading, alloc_cb, read_cb) = match &self.handles[t].payload {
                    HandlePayload::Stream(s) => (
                        s.read_state == ReadState::Reading,
                        s.alloc_cb,
                        s.read_cb,
                    ),
                    _ => vstd::pervasive::unreached(),
                };
                if !reading {
                    return out;
                }
                let acb = match alloc_cb {
                    Some(c) => c,
                    None => vstd::pervasive::unreached(),
                };
                let rcb = match read_cb {
                    Some(c) => c,
                    None => vstd::pervasive::unreached(),
                };
                let data = clone_bytes(bytes);
                let n = data.len();
                out.push(Dispatch::Alloc { handle: t, cb: acb, suggested: n });
                out.push(
                    Dispatch::Read {
                        handle: t,
                        cb: rcb,
                        outcome: ReadOutcome::Data(n),
                        bytes: data,
                    },
                );
            },
            IoEvent::Eof { .. } => {
                let outcome = ReadOutcome::Eof;
                if !self.read_event(t, outcome, &mut out) {
                    return out;
                }
            },
            IoEvent::ReadFailed { code, .. } => {
                let outcome = ReadOutcome::Failed(*code);
                if !self.read_event(t, outcome, &mut out) {
                    return out;
                }
            },
            IoEvent::Writable { .. } => {
                let ghost before_lp = *self;
                {
                    let s = stream_at_mut(&mut self.handles, t);
                    let ghost sold = *s;
                    let ghost q = s.write_queue@;
                    let ghost d0 = s.delivered@;
                    let ghost t0 = s.delivered_handles@;
                    let qlen = s.write_queue.len();
                    let mut k: usize = 0;
                    while k < qlen
                        invariant
                            qlen == s.write_queue@.len(),
                            q == s.write_queue@,
                            k <= qlen,
                            out@ == drain_dispatches(q.take(k as int), t as int, Status::Complete),
                            s.delivered@ == d0 + queue_bytes(q.take(k as int)),
                            s.delivered_handles@ == t0 + crate::handle::queue_transfers(
                                q.take(k as int),
                            ),
                            s.submitted@ == sold.submitted@,
                            s.cancelled@ == sold.cancelled@,
                            s.queued_bytes == sold.queued_bytes,
                            crate::stream::same_stream_reading(sold, *s),
                            crate::stream::same_stream_server(sold, *s),
                            crate::stream::same_stream_shutdown(sold, *s),
                            crate::stream::same_stream_flags(sold, *s),
                        decreases qlen - k,
                    {
                        proof {
                            lemma_drain_dispatches_take_step(
                                q,
                                t as int,
                                Status::Complete,
                                k as int,
                            );
                            crate::handle::lemma_queue_bytes_take_step(q, k as int);
                            crate::handle::lemma_queue_transfers_take_step(q, k as int);
                        }
                        let cb = s.write_queue[k].cb;
                        out.push(Dispatch::WriteDone { handle: t, cb, status: Status::Complete });
                        append_bytes_of_request(s, k);
                        proof {
                            assert(s.delivered@ =~= d0 + queue_bytes(q.take(k + 1)));
                            assert(s.delivered_handles@ =~= t0 + crate::handle::queue_transfers(
                                q.take(k + 1),
                            ));
                        }
                        k = k + 1;
                    }
                    proof {
                        assert(q.take(qlen as int) =~= q);
                    }
                    s.write_queue.clear();
                    s.queued_bytes = 0;
                    if s.shutting_down {
                        let cb = match s.shutdown_cb {
                            Some(c) => c,
                            None => vstd::pervasive::unreached(),
                        };
                        out.push(
                            Dispatch::ShutdownDone { handle: t, cb, status: Status::Complete },
                        );
                        s.shutting_down = false;
                        s.shutdown_cb = None;
                        s.writable = false;
                    }
                }
                let (listening, reading) = match &self.handles[t].payload {
                    HandlePayload::Stream(s) => (s.listening, s.read_state == ReadState::Reading),
                    _ => vstd::pervasive::unreached(),
                };
                let rec = record_at_mut(&mut self.handles, t);
                if rec.state == LifecycleState::Active && !listening && !reading {
                    rec.state = LifecycleState::Inactive;
                }
                proof {
                    let s = stream_of(old(self).handles@[t as int]);
                    let s2 = stream_of(self.handles@[t as int]);
                    assert(s.cancelled@.len() == 0);
                    assert(s2.submitted@ =~= s2.delivered@ + queue_bytes(s2.write_queue@)
                        + s2.cancelled@);
                    assert(record_wf(self.handles@[t as int]));
                    lemma_drain_dispatches_shape(s.write_queue@, t as int, Status::Complete);
                    assert(out@ =~= drain_dispatches(s.write_queue@, t as int, Status::Complete)
                        + (if s.shutting_down {
                        seq![
                            Dispatch::ShutdownDone {
                                handle: t,
                                cb: s.shutdown_cb->Some_0,
                                status: Status::Complete,
                            },
                        ]
                    } else {
                        Seq::<Dispatch>::empty()
                    }));
                    assert forall|k: int| 0 <= k < out@.len() implies phase_rank(
                        #[trigger] out@[k],
                    ) == 2 by {
                        if k < s.write_queue@.len() {
                            assert(out@[k] == drain_dispatches(
                                s.write_queue@,
                                t as int,
                                Status::Complete,
                            )[k]);
                        }
                    }
                    assert forall|j: int|
                        0 <= j < self.handles@.len() implies record_wf(
                        #[trigger] self.handles@[j],
                    ) by {
                        if j != t as int {
                            assert(self.handles@[j] == old(self).handles@[j]);
                            assert(record_wf(old(self).handles@[j]));
                        }
                    }
                }
            },
        }
        out
    }

    /// The shared body of the end-of-stream and read-error events: the
    /// stored alloc and read callbacks are announced, and the read loop
    /// implicitly stops. Returns false when the stream was not reading.
    fn read_event(&mut self, t: usize, outcome: ReadOutcome, out: &mut Vec<Dispatch>) -> (applied:
        bool)
        requires
            old(self).wf(),
            t < old(self).handles@.len(),
            old(self).handles@[t as int].payload is Stream,
            !(old(self).handles@[t as int].state is Closing),
            !(old(self).handles@[t as int].state is Closed),
            old(out)@.len() == 0,
            !(outcome is Data),
        ensures
            final(self).wf(),
            ({
                let h = old(self).handles@[t as int];
                let s = stream_of(h);
                if !(s.read_state is Reading) {
                    !applied && *final(self) == *old(self) && final(out)@ == old(out)@
                } else {
                    &&& applied
                    &&& final(out)@.len() == 2
                    &&& final(out)@[0] == (Dispatch::Alloc {
                        handle: t,
                        cb: s.alloc_cb->Some_0,
                        suggested: 0,
                    })
                    &&& final(out)@[1] is Read
                    &&& dispatch_handle(final(out)@[1]) == t
                    &&& dispatch_cb(final(out)@[1]) == s.read_cb->Some_0
                    &&& read_outcome_of(final(out)@[1]) == outcome
                    &&& read_bytes_of(final(out)@[1]).len() == 0
                    &&& final(self).handles@ == old(self).handles@.update(
                        t as int,
                        read_stopped_record(h, outcome is Failed),
                    )
                    &&& final(self).now_ms == old(self).now_ms
                    &&& final(self).stop_flag == old(self).stop_flag
                    &&& final(self).next_start_order == old(self).next_start_order
                }
            }),
    {
        proof {
            assert(record_wf(old(self).handles@[t as int]));
        }
        let (reading, alloc_cb, read_cb) = match &self.handles[t].payload {
            HandlePayload::Stream(s) => (s.read_state == ReadState::Reading, s.alloc_cb, s.read_cb),
            _ => vstd::pervasive::unreached(),
        };
        if !reading {
            return false;
        }
        let acb = match alloc_cb {
            Some(c) => c,
            None => vstd::pervasive::unreached(),
        };
        let rcb = match read_cb {
            Some(c) => c,
            None => vstd::pervasive::unreached(),
        };
        out.push(Dispatch::Alloc { handle: t, cb: acb, suggested: 0 });
        out.push(Dispatch::Read { handle: t, cb: rcb, outcome, bytes: Vec::new() });
        let keep_readable = match outcome {
            ReadOutcome::Failed(_) => true,
            _ => false,
        };
        {
            let s = stream_at_mut(&mut self.handles, t);
            s.read_state = ReadState::Idle;
            if !keep_readable {
                s.readable = false;
            }
        }
        let (listening, queued, shutting) = match &self.handles[t].payload {
            HandlePayload::Stream(s) => (s.listening, s.write_queue.len(), s.shutting_down),
            _ => vstd::pervasive::unreached(),
        };
        let rec = record_at_mut(&mut self.handles, t);
        if rec.state == LifecycleState::Active && !listening && queued == 0 && !shutting {
            rec.state = LifecycleState::Inactive;
        }
        proof {
            assert(self.handles@ =~= old(self).handles@.update(
                t as int,
                read_stopped_record(old(self).handles@[t as int], outcome is Failed),
            ));
        }
        true
    }

    /// The I/O phase: handles the poll step's readiness events in the order
    /// the platform reported them. Only stream records change; no handle
    /// enters or leaves `Closing` or `Closed` here, and close callbacks stay
    /// untouched.
    pub fn run_io(&mut self, events: &Vec<IoEvent>) -> (r: Vec<Dispatch>)
        requires
            old(self).wf(),
        ensures
            final(self).wf(),
            io_phase_outcome(old(self).handles@, final(self).handles@, events@, r@),
            io_frame(*old(self), *final(self)),
            (forall|k: int| 0 <= k < r@.len() ==> phase_rank(#[trigger] r@[k]) == 2),
            events@.len() == 0 ==> *final(self) == *old(self) && r@.len() == 0,
    {
        let mut out: Vec<Dispatch> = Vec::new();
        let ghost mut tables: Seq<Seq<HandleRecord>> = Seq::empty();
        let ghost mut batches: Seq<Seq<Dispatch>> = Seq::empty();
        let en = events.len();
        let mut i: usize = 0;
        while i < en
            invariant
                self.wf(),
                en == events@.len(),
                i <= en,
                tables.len() == i,
                batches.len() == i,
                io_trace_ok(old(self).handles@, events@.take(i as int), tables, batches),
                self.handles@ == (if i == 0 {
                    old(self).handles@
                } else {
                    tables.last()
                }),
                out@ == dispatch_concat(batches),
                io_frame(*old(self), *self),
                (forall|k: int| 0 <= k < out@.len() ==> phase_rank(#[trigger] out@[k]) == 2),
                i == 0 ==> *self == *old(self) && out@.len() == 0,
            decreases en - i,
        {
            let ghost mid = *self;
            let ghost tables_pre = tables;
            let ghost batches_pre = batches;
            let mut batch = self.process_io_event(&events[i]);
            proof {
                lemma_io_event_frame(mid, *self, events@[i as int], batch@);
                lemma_io_frame_trans(*old(self), mid, *self);
                tables = tables.push(self.handles@);
                batches = batches.push(batch@);
                assert(dispatch_concat(batches) =~= dispatch_concat(batches.drop_last())
                    + batches.last());
                assert(batches.drop_last() =~= batches_pre);
                assert forall|j: int|
                    0 <= j < i + 1 implies io_table_event_outcome(
                    (if j == 0 {
                        old(self).handles@
                    } else {
                        tables[j - 1]
                    }),
                    tables[j],
                    events@.take(i + 1)[j],
                    #[trigger] batches[j],
                ) by {
                    if j < i {
                        assert(batches[j] == batches_pre[j]);
                        assert(tables[j] == tables_pre[j]);
                        assert(events@.take(i + 1)[j] == events@.take(i as int)[j]);
                        assert(io_table_event_outcome(
                            (if j == 0 {
                                old(self).handles@
                            } else {
                                tables_pre[j - 1]
                            }),
                            tables_pre[j],
                            events@.take(i as int)[j],
                            batches_pre[j],
                        ));
                    } else {
                        assert(io_table_event_outcome(
                            mid.handles@,
                            self.handles@,
                            events@[i as int],
                            batch@,
                        ));
                    }
                }
            }
            out.append(&mut batch);
            i = i + 1;
        }
        proof {
            assert(events@.take(en as int) =~= events@);
            assert(io_trace_ok(old(self).handles@, events@, tables, batches));
            assert(out@ == dispatch_concat(batches));
        }
        out
    }

    /// The close phase: every handle marked `Closing` settles to `Closed`,
    /// its pending requests resolving with `Cancelled` strictly before its
    /// own close callback, in handle order.
    pub fn run_close(&mut self) -> (r: Vec<Dispatch>)
        requires
            old(self).wf(),
        ensures
            final(self).wf(),
            r@ == close_phase_dispatches(old(self).handles@),
            final(self).handles@.len() == old(self).handles@.len(),
            forall|j: int|
                0 <= j < old(self).handles@.len() ==> close_settled(
                    old(self).handles@[j],
                    #[trigger] final(self).handles@[j],
                ),
            final(self).now_ms == old(self).now_ms,
            final(self).stop_flag == old(self).stop_flag,
            final(self).next_start_order == old(self).next_start_order,
    {
        let mut out: Vec<Dispatch> = Vec::new();
        let n = self.handles.len();
        let mut i: usize = 0;
        while i < n
            invariant
                n == self.handles@.len(),
                n == old(self).handles@.len(),
                i <= n,
                self.now_ms == old(self).now_ms,
                self.stop_flag == old(self).stop_flag,
                self.next_start_order == old(self).next_start_order,
                forall|j: int|
                    0 <= j < i ==> close_settled(
                        old(self).handles@[j],
                        #[trigger] self.handles@[j],
                    ),
                forall|j: int| i <= j < n ==> self.handles@[j] == old(self).handles@[j],
                forall|j: int| 0 <= j < n ==> record_wf(#[trigger] self.handles@[j]),
                out@ == close_phase_dispatches(old(self).handles@.take(i as int)),
            decreases n - i,
        {
            proof {
                lemma_close_phase_take_step(old(self).handles@, i as int);
                assert(self.handles@[i as int] == old(self).handles@[i as int]);
                assert(record_wf(old(self).handles@[i as int]));
            }
            let st = self.handles[i].state;
            if st == LifecycleState::Closing {
                match &self.handles[i].payload {
                    HandlePayload::Stream(s) => {
                        let ghost q = s.write_queue@;
                        let qlen = s.write_queue.len();
                        let ghost base = out@;
                        let mut k: usize = 0;
                        while k < qlen
                            invariant
                                i < n,
                                n == self.handles@.len(),
                                self.handles@[i as int] == old(self).handles@[i as int],
                                self.handles@[i as int].payload is Stream,
                                q == stream_of(self.handles@[i as int]).write_queue@,
                                qlen == q.len(),
                                k <= qlen,
                                out@ == base + drain_dispatches(
                                    q.take(k as int),
                                    i as int,
                                    Status::Cancelled,
                                ),
                            decreases qlen - k,
                        {
                            proof {
                                lemma_drain_dispatches_take_step(
                                    q,
                                    i as int,
                                    Status::Cancelled,
                                    k as int,
                                );
                            }
                            let cb = match &self.handles[i].payload {
                                HandlePayload::Stream(s2) => s2.write_queue[k].cb,
                                _ => vstd::pervasive::unreached(),
                            };
                            out.push(
                                Dispatch::WriteDone {
                                    handle: i,
                                    cb,
                                    status: Status::Cancelled,
                                },
                            );
                            k = k + 1;
                        }
                        proof {
                            assert(q.take(qlen as int) =~= q);
                        }
                        let (shutting, shutdown_cb) = match &self.handles[i].payload {
                            HandlePayload::Stream(s2) => (s2.shutting_down, s2.shutdown_cb),
                            _ => vstd::pervasive::unreached(),
                        };
                        if shutting {
                            let cb = match shutdown_cb {
                                Some(c) => c,
                                None => vstd::pervasive::unreached(),
                            };
                            out.push(
                                Dispatch::ShutdownDone {
                                    handle: i,
                                    cb,
                                    status: Status::Cancelled,
                                },
                            );
                        }
                    },
                    _ => {},
                }
                if let Some(cb) = self.handles[i].close_cb {
                    out.push(Dispatch::Close { handle: i, cb });
                }
                let rec = record_at_mut(&mut self.handles, i);
                match &mut rec.payload {
                    HandlePayload::Stream(s) => {
                        s.cancelled = Ghost(s.cancelled@ + queue_bytes(s.write_queue@));
                        s.write_queue.clear();
                        s.queued_bytes = 0;
                        s.shutting_down = false;
                        s.shutdown_cb = None;
                        s.read_state = ReadState::Idle;
                        s.listening = false;
                        s.pending_connections = 0;
                        s.readable = false;
                        s.writable = false;
                    },
                    _ => {},
                }
                rec.state = LifecycleState::Closed;
                proof {
                    let hold = old(self).handles@[i as int];
                    let hnew = self.handles@[i as int];
                    if hold.payload is Stream {
                        let s = stream_of(hold);
                        let s2 = stream_of(hnew);
                        assert(s.cancelled@.len() == 0);
                        assert(s2.submitted@ =~= s2.delivered@ + queue_bytes(s2.write_queue@)
                            + s2.cancelled@);
                    }
                    assert(record_wf(self.handles@[i as int]));
                    assert(close_settled(old(self).handles@[i as int], self.handles@[i as int]));
                }
            }
            i = i + 1;
        }
        proof {
            assert(old(self).handles@.take(n as int) =~= old(self).handles@);
        }
        out
    }

    /// One hook phase: emits the dispatch of every active hook of the given
    /// kind, in handle-registration order, changing nothing.
    fn run_hooks(&self, prepare: bool) -> (r: Vec<Dispatch>)
        requires
            self.wf(),
        ensures
            r@ == hook_dispatches(self.handles@, prepare),
    {
        let mut out: Vec<Dispatch> = Vec::new();
        let mut i: usize = 0;
        let n = self.handles.len();
        while i < n
            invariant
                self.wf(),
                n == self.handles@.len(),
                i <= n,
                out@ == hook_dispatches(self.handles@.take(i as int), prepare),
            decreases n - i,
        {
            proof {
                lemma_hook_dispatches_take_step(self.handles@, prepare, i as int);
                assert(record_wf(self.handles@[i as int]));
            }
            let h = &self.handles[i];
            if h.state == LifecycleState::Active {
                if prepare {
                    match &h.payload {
                        HandlePayload::Prepare(p) => {
                            let cb = match p.cb {
                                Some(c) => c,
                                None => vstd::pervasive::unreached(),
                            };
                            out.push(Dispatch::Prepare { handle: i, cb });
                        },
                        _ => {},
                    }
                } else {
                    match &h.payload {
                        HandlePayload::Check(c) => {
                            let cb = match c.cb {
                                Some(cbv) => cbv,
                                None => vstd::pervasive::unreached(),
                            };
                            out.push(Dispatch::Check { handle: i, cb });
                        },
                        _ => {},
                    }
                }
            }
            i = i + 1;
        }
        proof {
            assert(self.handles@.take(n as int) =~= self.handles@);
        }
        out
    }

    /// The prepare phase: every active prepare hook, in registration order.
    pub fn run_prepare(&self) -> (r: Vec<Dispatch>)
        requires
            self.wf(),
        ensures
            r@ == hook_dispatches(self.handles@, true),
    {
        self.run_hooks(true)
    }

    /// The check phase: every active check hook, in registration order.
    pub fn run_check(&self) -> (r: Vec<Dispatch>)
        requires
            self.wf(),
        ensures
            r@ == hook_dispatches(self.handles@, false),
    {
        self.run_hooks(false)
    }

    /// Computes the poll step's timeout for this iteration.
    pub fn poll_timeout(&self, mode: RunMode, idle: u64) -> (r: u64)
        ensures
            r == poll_timeout_spec(self.handles@, self.now_ms, self.stop_flag, mode, idle),
    {
        if mode != RunMode::UntilDone {
            return 0;
        }
        if self.stop_flag {
            return 0;
        }
        if !self.alive() {
            return 0;
        }
        let n = self.handles.len();
        let mut i: usize = 0;
        let mut closing_found = false;
        let mut min_due: Option<u64> = None;
        while i < n
            invariant
                n == self.handles@.len(),
                i <= n,
                closing_found == exists|j: int|
                    0 <= j < i && (#[trigger] self.handles@[j]).state is Closing,
                min_due == next_timer_due(self.handles@.take(i as int)),
                (exists|j: int| 0 <= j < i && due_timer(#[trigger] self.handles@[j], self.now_ms))
                    <==> (min_due is Some && min_due->Some_0 <= self.now_ms),
            decreases n - i,
        {
            proof {
                lemma_next_timer_due_take_step(self.handles@, i as int);
            }
            let h = &self.handles[i];
            if h.state == LifecycleState::Closing {
                closing_found = true;
                proof {
                    assert(self.handles@[i as int].state is Closing);
                }
            }
            let is_active_timer = h.state == LifecycleState::Active && match &h.payload {
                HandlePayload::Timer(_) => true,
                _ => false,
            };
            if is_active_timer {
                let due = match &h.payload {
                    HandlePayload::Timer(t) => t.due,
                    _ => vstd::pervasive::unreached(),
                };
                min_due = match min_due {
                    None => Some(due),
                    Some(m) => Some(if due < m { due } else { m }),
                };
                proof {
                    if due <= self.now_ms {
                        assert(due_timer(self.handles@[i as int], self.now_ms));
                    }
                }
            }
            i = i + 1;
        }
        proof {
            assert(self.handles@.take(n as int) =~= self.handles@);
        }
        if closing_found {
            return 0;
        }
        match min_due {
            Some(d) => {
                if d <= self.now_ms {
                    0
                } else {
                    let delta = d - self.now_ms;
                    if delta < idle {
                        delta
                    } else {
                        idle
                    }
                }
            },
            None => idle,
        }
    }

    /// The timeout the poll step of the next iteration will wait, computed
    /// on the table as the timers phase will leave it: what an embedder
    /// sleeps before handing `run_iteration` an empty poll, so that wall
    /// time tracks the engine's clock.
    pub fn next_timeout(&self, mode: RunMode, idle: u64) -> (r: u64)
        ensures
            r == iteration_timeout(*self, mode, idle),
    {
        let ghost hs2 = after_timers(self.handles@, self.now_ms);
        if mode != RunMode::UntilDone {
            return 0;
        }
        if self.stop_flag {
            return 0;
        }
        let n = self.handles.len();
        let mut i: usize = 0;
        let mut alive_found = false;
        let mut closing_found = false;
        let mut min_due: Option<u64> = None;
        while i < n
            invariant
                n == self.handles@.len(),
                i <= n,
                hs2 == after_timers(self.handles@, self.now_ms),
                hs2.len() == n,
                alive_found == exists|j: int| 0 <= j < i && keeps_alive(#[trigger] hs2[j]),
                closing_found == exists|j: int| 0 <= j < i && (#[trigger] hs2[j]).state is Closing,
                min_due == next_timer_due(hs2.take(i as int)),
                (exists|j: int| 0 <= j < i && due_timer(#[trigger] hs2[j], self.now_ms)) <==> (
                min_due is Some && min_due->Some_0 <= self.now_ms),
            decreases n - i,
        {
            proof {
                lemma_next_timer_due_take_step(hs2, i as int);
            }
            let h = &self.handles[i];
            let fired_one_shot = h.state == LifecycleState::Active && match &h.payload {
                HandlePayload::Timer(t) => t.due <= self.now_ms && t.repeat == 0,
                _ => false,
            };
            let keeps = if fired_one_shot {
                false
            } else {
                (h.referenced && h.state == LifecycleState::Active) || h.state
                    == LifecycleState::Closing
            };
            if keeps {
                alive_found = true;
                proof {
                    assert(keeps_alive(hs2[i as int]));
                }
            }
            if h.state == LifecycleState::Closing {
                closing_found = true;
                proof {
                    assert(hs2[i as int].state is Closing);
                }
            }
            let shifted_due: Option<u64> = match &h.payload {
                HandlePayload::Timer(t) => {
                    if h.state == LifecycleState::Active {
                        if t.due <= self.now_ms {
                            if t.repeat > 0 {
                                Some(sat_add(t.due, t.repeat))
                            } else {
                                None
                            }
                        } else {
                            Some(t.due)
                        }
                    } else {
                        None
                    }
                },
                _ => None,
            };
            proof {
                if due_timer(self.handles@[i as int], self.now_ms) {
                    assert(hs2[i as int] == fired_timer_record(self.handles@[i as int]));
                } else {
                    assert(hs2[i as int] == self.handles@[i as int]);
                }
            }
            if let Some(due) = shifted_due {
                min_due = match min_due {
                    None => Some(due),
                    Some(m) => Some(if due < m { due } else { m }),
                };
                proof {
                    assert(active_timer(hs2[i as int]));
                    if due <= self.now_ms {
                        assert(due_timer(hs2[i as int], self.now_ms));
                    }
                }
            } else {
                proof {
                    assert(!active_timer(hs2[i as int]));
                }
            }
            i = i + 1;
        }
        proof {
            assert(hs2.take(n as int) =~= hs2);
        }
        if !alive_found {
            return 0;
        }
        if closing_found {
            return 0;
        }
        match min_due {
            Some(d) => {
                if d <= self.now_ms {
                    0
                } else {
                    let delta = d - self.now_ms;
                    if delta < idle {
                        delta
                    } else {
                        idle
                    }
                }
            },
            None => idle,
        }
    }

    /// One iteration of the loop, in the fixed phase order: due timers
    /// fire; prepare hooks run; the poll timeout is computed and - in the
    /// default mode, when the poll reported nothing - the clock advances by
    /// it; the poll's readiness events are handled; check hooks run; and
    /// handles marked `Closing` settle to `Closed`, each one's pending
    /// requests cancelled strictly before its close callback. The returned
    /// dispatches never cross phase order.
    #[verifier::rlimit(100)]
    pub fn run_iteration(&mut self, mode: RunMode, idle: u64, events: &Vec<IoEvent>) -> (r: Vec<
        Dispatch,
    >)
        requires
            old(self).wf(),
        ensures
            final(self).wf(),
            final(self).handles@.len() == old(self).handles@.len(),
            final(self).now_ms == iteration_now(*old(self), mode, idle, events@.len() == 0),
            final(self).stop_flag == old(self).stop_flag,
            final(self).next_start_order == old(self).next_start_order,
            (forall|k1: int, k2: int|
                0 <= k1 < k2 < r@.len() ==> phase_rank(#[trigger] r@[k1]) <= phase_rank(
                    #[trigger] r@[k2],
                )),
            (forall|k: int|
                0 <= k < r@.len() && (#[trigger] r@[k]) is Timer ==> due_timer(
                    old(self).handles@[dispatch_handle(r@[k]) as int],
                    old(self).now_ms,
                ) && dispatch_cb(r@[k]) == timer_of(
                    old(self).handles@[dispatch_handle(r@[k]) as int],
                ).cb->Some_0),
            (forall|j: int|
                0 <= j < old(self).handles@.len() && due_timer(
                    #[trigger] old(self).handles@[j],
                    old(self).now_ms,
                ) ==> exists|k: int|
                    0 <= k < r@.len() && (#[trigger] r@[k]) is Timer && dispatch_handle(r@[k])
                        == j),
            (forall|k1: int, k2: int|
                0 <= k1 < k2 < r@.len() && (#[trigger] r@[k1]) is Timer && (#[trigger] r@[k2])
                    is Timer ==> dispatch_handle(r@[k1]) != dispatch_handle(r@[k2])),
            (forall|j: int|
                0 <= j < old(self).handles@.len() && due_timer(
                    #[trigger] old(self).handles@[j],
                    old(self).now_ms,
                ) ==> final(self).handles@[j] == fired_timer_record(old(self).handles@[j])),
            (forall|j: int|
                0 <= j < old(self).handles@.len() && (#[trigger] old(self).handles@[j]).state
                    is Closing ==> close_settled(old(self).handles@[j], final(self).handles@[j])),
            (forall|j: int|
                0 <= j < old(self).handles@.len() && !due_timer(
                    #[trigger] old(self).handles@[j],
                    old(self).now_ms,
                ) && !(old(self).handles@[j].state is Closing) && !(old(self).handles@[j].payload
                    is Stream) ==> final(self).handles@[j] == old(self).handles@[j]),
            (events@.len() == 0 ==> (forall|j: int|
                0 <= j < old(self).handles@.len() && !due_timer(
                    #[trigger] old(self).handles@[j],
                    old(self).now_ms,
                ) && !(old(self).handles@[j].state is Closing) ==> final(self).handles@[j] == old(
                    self,
                ).handles@[j])),
            (forall|k: int|
                0 <= k < r@.len() && (#[trigger] r@[k]) is Close ==> old(
                    self,
                ).handles@[dispatch_handle(r@[k]) as int].state is Closing && old(
                    self,
                ).handles@[dispatch_handle(r@[k]) as int].close_cb == Some(dispatch_cb(r@[k]))),
            (forall|j: int|
                0 <= j < old(self).handles@.len() && (#[trigger] old(self).handles@[j]).state
                    is Closing && old(self).handles@[j].close_cb is Some ==> exists|k: int|
                    0 <= k < r@.len() && (#[trigger] r@[k]) is Close && dispatch_handle(r@[k])
                        == j),
            (forall|k1: int, k2: int|
                0 <= k1 < k2 < r@.len() && (#[trigger] r@[k1]) is Close && (#[trigger] r@[k2])
                    is Close ==> dispatch_handle(r@[k1]) != dispatch_handle(r@[k2])),
            (forall|k1: int, k2: int|
                0 <= k1 < r@.len() && 0 <= k2 < r@.len() && (#[trigger] r@[k1]) is WriteDone
                    && status_of(r@[k1]) is Cancelled && (#[trigger] r@[k2]) is Close
                    && dispatch_handle(r@[k1]) == dispatch_handle(r@[k2]) ==> k1 < k2),
            (forall|k: int|
                0 <= k < r@.len() && (#[trigger] r@[k]) is Prepare ==> hook_runs(
                    old(self).handles@[dispatch_handle(r@[k]) as int],
                    true,
                ) && r@[k] == hook_dispatch(
                    dispatch_handle(r@[k]) as int,
                    old(self).handles@[dispatch_handle(r@[k]) as int],
                    true,
                )),
            (forall|j: int|
                0 <= j < old(self).handles@.len() && hook_runs(#[trigger] old(self).handles@[j], true)
                    ==> exists|k: int|
                    0 <= k < r@.len() && (#[trigger] r@[k]) is Prepare && dispatch_handle(r@[k])
                        == j),
            (forall|k: int|
                0 <= k < r@.len() && (#[trigger] r@[k]) is Check ==> hook_runs(
                    old(self).handles@[dispatch_handle(r@[k]) as int],
                    false,
                ) && r@[k] == hook_dispatch(
                    dispatch_handle(r@[k]) as int,
                    old(self).handles@[dispatch_handle(r@[k]) as int],
                    false,
                )),
            (forall|j: int|
                0 <= j < old(self).handles@.len() && hook_runs(
                    #[trigger] old(self).handles@[j],
                    false,
                ) ==> exists|k: int|
                    0 <= k < r@.len() && (#[trigger] r@[k]) is Check && dispatch_handle(r@[k])
                        == j),
            (forall|k1: int, k2: int|
                0 <= k1 < k2 < r@.len() && (#[trigger] r@[k1]) is Prepare && (#[trigger] r@[k2])
                    is Prepare ==> dispatch_handle(r@[k1]) < dispatch_handle(r@[k2])),
            (forall|k1: int, k2: int|
                0 <= k1 < k2 < r@.len() && (#[trigger] r@[k1]) is Check && (#[trigger] r@[k2])
                    is Check ==> dispatch_handle(r@[k1]) < dispatch_handle(r@[k2])),
            ((events@.len() == 0 && !any_closing(old(self).handles@) && (forall|j: int|
                0 <= j < old(self).handles@.len() ==> keeper_is_due_oneshot(
                    #[trigger] old(self).handles@[j],
                    old(self).now_ms,
                ))) ==> !final(self).spec_alive()),
            iteration_outcome(*old(self), *final(self), mode, idle, events@, r@),
    {
        let ghost l0 = *old(self);
        let table_len = self.handles.len();
        let mut out = self.run_timers();
        let ghost dt = out@;
        let ghost l1 = *self;
        let mut dp_v = self.run_prepare();
        let ghost dp = dp_v@;
        out.append(&mut dp_v);
        let timeout = self.poll_timeout(mode, idle);
        if mode == RunMode::UntilDone && events.len() == 0 {
            self.now_ms = sat_add(self.now_ms, timeout);
        }
        let ghost l2 = *self;
        let mut dio_v = self.run_io(events);
        let ghost dio = dio_v@;
        out.append(&mut dio_v);
        let ghost l3 = *self;
        let mut dc_v = self.run_check();
        let ghost dc = dc_v@;
        out.append(&mut dc_v);
        let mut dcl_v = self.run_close();
        let ghost dcl = dcl_v@;
        out.append(&mut dcl_v);
        proof {
            let hs0 = l0.handles@;
            let now0 = l0.now_ms;
            let n = hs0.len() as int;
            assert(hs0.len() == table_len);
            assert(l3.handles@.len() == table_len);
            assert(l1.handles@ == after_timers(hs0, now0));
            assert(l2.handles@ == l1.handles@);
            // the prepare hooks saw the same hook records as the entry table
            assert forall|i: int|
                0 <= i < n implies (hook_runs(#[trigger] l1.handles@[i], true) == hook_runs(
                hs0[i],
                true,
            ) && (hook_runs(l1.handles@[i], true) ==> hook_dispatch(i, l1.handles@[i], true)
                == hook_dispatch(i, hs0[i], true))) by {
                if due_timer(hs0[i], now0) {
                    assert(l1.handles@[i] == fired_timer_record(hs0[i]));
                } else {
                    assert(l1.handles@[i] == hs0[i]);
                }
            }
            lemma_hook_dispatches_congruence(l1.handles@, hs0, true);
            assert(dp == hook_dispatches(hs0, true));
            // the check hooks saw them too: the I/O phase leaves non-stream
            // records alone
            assert forall|i: int|
                0 <= i < n implies (hook_runs(#[trigger] l3.handles@[i], false) == hook_runs(
                hs0[i],
                false,
            ) && (hook_runs(l3.handles@[i], false) ==> hook_dispatch(i, l3.handles@[i], false)
                == hook_dispatch(i, hs0[i], false))) by {
                if !(l2.handles@[i].payload is Stream) {
                    assert(l3.handles@[i] == l2.handles@[i]);
                    if due_timer(hs0[i], now0) {
                        assert(l2.handles@[i] == fired_timer_record(hs0[i]));
                    } else {
                        assert(l2.handles@[i] == hs0[i]);
                    }
                } else {
                    assert(!(hs0[i].payload is Check));
                    assert(l3.handles@[i].payload is Stream);
                }
            }
            lemma_hook_dispatches_congruence(l3.handles@, hs0, false);
            assert(dc == hook_dispatches(hs0, false));
            // a closing record is untouched until the close phase
            assert forall|j: int|
                0 <= j < n implies ((#[trigger] l3.handles@[j]).state is Closing <==> hs0[j].state
                is Closing) && (hs0[j].state is Closing ==> l3.handles@[j] == hs0[j]) by {
                if due_timer(hs0[j], now0) {
                    assert(l2.handles@[j] == fired_timer_record(hs0[j]));
                } else {
                    assert(l2.handles@[j] == hs0[j]);
                }
            }
            lemma_iteration_assembly(hs0, now0, l3.handles@, dt, dp, dio, dc, dcl, out@);
            assert(timer_dispatches_ok(hs0, now0, dt));
            assert(io_phase_outcome(after_timers(hs0, now0), l3.handles@, events@, dio));
            assert(out@ == dt + hook_dispatches(hs0, true) + dio + hook_dispatches(hs0, false)
                + close_phase_dispatches(l3.handles@));
        }
        out
    }

    /// Drives iterations with no injected readiness events: one iteration
    /// for `Once` and `NoWait` (when anything keeps the loop alive), else
    /// until nothing does, `stop` was requested, or `max_iterations` have
    /// run. An embedder with real descriptors drives `run_iteration` itself
    /// and hands the poll's events in. Returns how many iterations ran and
    /// every dispatch they emitted, in order; the stop request, if any, is
    /// consumed.
    /// One iteration as `run` drives it, under the few facts the driver
    /// needs.
    fn run_step(&mut self, mode: RunMode, idle: u64, events: &Vec<IoEvent>) -> (r: Vec<Dispatch>)
        requires
            old(self).wf(),
        ensures
            final(self).wf(),
            final(self).stop_flag == old(self).stop_flag,
            iteration_outcome(*old(self), *final(self), mode, idle, events@, r@),
            ((events@.len() == 0 && !any_closing(old(self).handles@) && (forall|j: int|
                0 <= j < old(self).handles@.len() ==> keeper_is_due_oneshot(
                    #[trigger] old(self).handles@[j],
                    old(self).now_ms,
                ))) ==> !final(self).spec_alive()),
    {
        self.run_iteration(mode, idle, events)
    }

    #[verifier::rlimit(100)]
    pub fn run(&mut self, mode: RunMode, idle: u64, max_iterations: u64) -> (r: (
        u64,
        Vec<Dispatch>,
    ))
        requires
            old(self).wf(),
        ensures
            final(self).wf(),
            !final(self).stop_flag,
            mode is UntilDone ==> r.0 <= max_iterations,
            (mode is Once || mode is NoWait) ==> r.0 == (
            if old(self).spec_alive() && !old(self).stop_flag {
                1u64
            } else {
                0u64
            }),
            (mode is UntilDone && r.0 < max_iterations) ==> (!final(self).spec_alive() || old(
                self,
            ).stop_flag),
            ((mode is UntilDone && max_iterations >= 1 && !old(self).stop_flag && !any_closing(
                old(self).handles@,
            ) && (forall|j: int|
                0 <= j < old(self).handles@.len() ==> keeper_is_due_oneshot(
                    #[trigger] old(self).handles@[j],
                    old(self).now_ms,
                ))) ==> r.0 == (if old(self).spec_alive() {
                1u64
            } else {
                0u64
            }) && !final(self).spec_alive()),
            (exists|states: Seq<Loop>, batches: Seq<Seq<Dispatch>>|
                #![trigger run_trace_ok(*old(self), mode, idle, states, batches)]
                {
                    &&& run_trace_ok(*old(self), mode, idle, states, batches)
                    &&& states.len() == r.0
                    &&& r.1@ == dispatch_concat(batches)
                    &&& *final(self) == (Loop {
                        stop_flag: false,
                        ..(if r.0 == 0 {
                            *old(self)
                        } else {
                            states.last()
                        })
                    })
                }),
    {
        let mut iters: u64 = 0;
        let mut out: Vec<Dispatch> = Vec::new();
        let ghost mut states: Seq<Loop> = Seq::empty();
        let ghost mut batches: Seq<Seq<Dispatch>> = Seq::empty();
        let events: Vec<IoEvent> = Vec::new();
        if mode == RunMode::Once || mode == RunMode::NoWait {
            if self.alive() && !self.stop_flag {
                let ghost pre = *self;
                let mut d = self.run_step(mode, idle, &events);
                proof {
                    states = states.push(*self);
                    batches = batches.push(d@);
                    assert(batches.drop_last() =~= Seq::<Seq<Dispatch>>::empty());
                    assert(dispatch_concat(batches) == dispatch_concat(batches.drop_last())
                        + batches.last());
                    assert(dispatch_concat(batches) =~= d@);
                    assert(events@ =~= Seq::<IoEvent>::empty());
                    assert(iteration_outcome(
                        pre,
                        states[0],
                        mode,
                        idle,
                        Seq::<IoEvent>::empty(),
                        batches[0],
                    ));
                }
                out.append(&mut d);
                iters = 1;
            }
            self.stop_flag = false;
            proof {
                assert(out@ =~= dispatch_concat(batches));
                assert(run_trace_ok(*old(self), mode, idle, states, batches));
                assert(*self == (Loop {
                    stop_flag: false,
                    ..(if iters == 0 {
                        *old(self)
                    } else {
                        states.last()
                    })
                }));
            }
            return (iters, out);
        }
        let mut done = !self.alive() || self.stop_flag;
        while !done && iters < max_iterations
            invariant
                mode is UntilDone,
                events@.len() == 0,
                self.wf(),
                iters <= max_iterations,
                self.stop_flag == old(self).stop_flag,
                done ==> (!self.spec_alive() || self.stop_flag),
                !done ==> (self.spec_alive() && !self.stop_flag),
                states.len() == iters,
                batches.len() == iters,
                run_trace_ok(*old(self), mode, idle, states, batches),
                iters == 0 ==> *self == *old(self),
                iters > 0 ==> *self == states.last(),
                out@ == dispatch_concat(batches),
                ((!old(self).stop_flag && !any_closing(old(self).handles@) && (forall|j: int|
                    0 <= j < old(self).handles@.len() ==> keeper_is_due_oneshot(
                        #[trigger] old(self).handles@[j],
                        old(self).now_ms,
                    ))) ==> ((iters == 0 && *self == *old(self)) || (iters == 1 && done
                    && !self.spec_alive() && old(self).spec_alive()))),
            decreases max_iterations - iters,
        {
            let ghost pre = *self;
            let ghost states_pre = states;
            let ghost batches_pre = batches;
            let mut d = self.run_step(mode, idle, &events);
            proof {
                states = states.push(*self);
                batches = batches.push(d@);
                assert(dispatch_concat(batches) =~= dispatch_concat(batches.drop_last())
                    + batches.last());
                assert(batches.drop_last() =~= batches_pre);
                assert forall|i: int|
                    0 <= i < iters + 1 implies iteration_outcome(
                    (if i == 0 {
                        *old(self)
                    } else {
                        states[i - 1]
                    }),
                    #[trigger] states[i],
                    mode,
                    idle,
                    Seq::<IoEvent>::empty(),
                    batches[i],
                ) by {
                    if i < iters {
                        assert(states[i] == states_pre[i]);
                        assert(batches[i] == batches_pre[i]);
                        assert(iteration_outcome(
                            (if i == 0 {
                                *old(self)
                            } else {
                                states_pre[i - 1]
                            }),
                            states_pre[i],
                            mode,
                            idle,
                            Seq::<IoEvent>::empty(),
                            batches_pre[i],
                        ));
                    } else {
                        assert(events@ =~= Seq::<IoEvent>::empty());
                        assert(iteration_outcome(pre, *self, mode, idle, events@, d@));
                    }
                }
                if !old(self).stop_flag && !any_closing(old(self).handles@) && (forall|j: int|
                    0 <= j < old(self).handles@.len() ==> keeper_is_due_oneshot(
                        #[trigger] old(self).handles@[j],
                        old(self).now_ms,
                    )) {
                    assert(pre == *old(self));
                    assert(!any_closing(pre.handles@));
                    assert forall|j: int|
                        0 <= j < pre.handles@.len() implies keeper_is_due_oneshot(
                        #[trigger] pre.handles@[j],
                        pre.now_ms,
                    ) by {
                        assert(pre.handles@[j] == old(self).handles@[j]);
                    }
                    assert(!self.spec_alive());
                    assert(pre.spec_alive());
                }
            }
            out.append(&mut d);
            iters = iters + 1;
            done = !self.alive() || self.stop_flag;
        }
        self.stop_flag = false;
        proof {
            assert(run_trace_ok(*old(self), mode, idle, states, batches));
            assert(*self == (Loop {
                stop_flag: false,
                ..(if iters == 0 {
                    *old(self)
                } else {
                    states.last()
                })
            }));
        }
        (iters, out)
    }
}


/// Assembles the guarantees of one iteration's dispatch list from the five
/// phase outputs: phases never interleave, timer dispatches are exactly the
/// due timers, hook dispatches are exactly the active hooks, close
/// callbacks come exactly once per closing handle, and every cancelled
/// completion precedes its handle's close callback.
#[verifier::rlimit(100)]
pub proof fn lemma_iteration_assembly(
    hs0: Seq<HandleRecord>,
    now0: u64,
    hs3: Seq<HandleRecord>,
    dt: Seq<Dispatch>,
    dp: Seq<Dispatch>,
    dio: Seq<Dispatch>,
    dc: Seq<Dispatch>,
    dcl: Seq<Dispatch>,
    r: Seq<Dispatch>,
)
    requires
        hs0.len() <= usize::MAX,
        hs3.len() == hs0.len(),
        r == dt + dp + dio + dc + dcl,
        (forall|k: int| 0 <= k < dt.len() ==> (#[trigger] dt[k]) is Timer),
        (forall|k: int|
            0 <= k < dt.len() ==> due_timer(
                hs0[dispatch_handle(#[trigger] dt[k]) as int],
                now0,
            ) && dispatch_cb(dt[k]) == timer_of(
                hs0[dispatch_handle(dt[k]) as int],
            ).cb->Some_0),
        (forall|k1: int, k2: int|
            0 <= k1 < k2 < dt.len() ==> dispatch_handle(#[trigger] dt[k1]) != dispatch_handle(
                #[trigger] dt[k2],
            )),
        (forall|j: int|
            0 <= j < hs0.len() && due_timer(#[trigger] hs0[j], now0) ==> exists|k: int|
                0 <= k < dt.len() && dispatch_handle(#[trigger] dt[k]) == j),
        dp == hook_dispatches(hs0, true),
        dc == hook_dispatches(hs0, false),
        (forall|k: int| 0 <= k < dio.len() ==> phase_rank(#[trigger] dio[k]) == 2),
        dcl == close_phase_dispatches(hs3),
        (forall|j: int|
            0 <= j < hs0.len() ==> (((#[trigger] hs3[j]).state is Closing <==> hs0[j].state
                is Closing) && (hs0[j].state is Closing ==> hs3[j] == hs0[j]))),
    ensures
        (forall|k1: int, k2: int|
            0 <= k1 < k2 < r.len() ==> phase_rank(#[trigger] r[k1]) <= phase_rank(
                #[trigger] r[k2],
            )),
        (forall|k: int|
            0 <= k < r.len() && (#[trigger] r[k]) is Timer ==> due_timer(
                hs0[dispatch_handle(r[k]) as int],
                now0,
            ) && dispatch_cb(r[k]) == timer_of(hs0[dispatch_handle(r[k]) as int]).cb->Some_0),
        (forall|j: int|
            0 <= j < hs0.len() && due_timer(#[trigger] hs0[j], now0) ==> exists|k: int|
                0 <= k < r.len() && (#[trigger] r[k]) is Timer && dispatch_handle(r[k]) == j),
        (forall|k1: int, k2: int|
            0 <= k1 < k2 < r.len() && (#[trigger] r[k1]) is Timer && (#[trigger] r[k2]) is Timer
                ==> dispatch_handle(r[k1]) != dispatch_handle(r[k2])),
        (forall|k: int|
            0 <= k < r.len() && (#[trigger] r[k]) is Close ==> hs0[dispatch_handle(
                r[k],
            ) as int].state is Closing && hs0[dispatch_handle(r[k]) as int].close_cb == Some(
                dispatch_cb(r[k]),
            )),
        (forall|j: int|
            0 <= j < hs0.len() && (#[trigger] hs0[j]).state is Closing && hs0[j].close_cb is Some
                ==> exists|k: int|
                0 <= k < r.len() && (#[trigger] r[k]) is Close && dispatch_handle(r[k]) == j),
        (forall|k1: int, k2: int|
            0 <= k1 < k2 < r.len() && (#[trigger] r[k1]) is Close && (#[trigger] r[k2]) is Close
                ==> dispatch_handle(r[k1]) != dispatch_handle(r[k2])),
        (forall|k1: int, k2: int|
            0 <= k1 < r.len() && 0 <= k2 < r.len() && (#[trigger] r[k1]) is WriteDone && status_of(
                r[k1],
            ) is Cancelled && (#[trigger] r[k2]) is Close && dispatch_handle(r[k1])
                == dispatch_handle(r[k2]) ==> k1 < k2),
        (forall|k: int|
            0 <= k < r.len() && (#[trigger] r[k]) is Prepare ==> hook_runs(
                hs0[dispatch_handle(r[k]) as int],
                true,
            ) && r[k] == hook_dispatch(
                dispatch_handle(r[k]) as int,
                hs0[dispatch_handle(r[k]) as int],
                true,
            )),
        (forall|j: int|
            0 <= j < hs0.len() && hook_runs(#[trigger] hs0[j], true) ==> exists|k: int|
                0 <= k < r.len() && (#[trigger] r[k]) is Prepare && dispatch_handle(r[k]) == j),
        (forall|k: int|
            0 <= k < r.len() && (#[trigger] r[k]) is Check ==> hook_runs(
                hs0[dispatch_handle(r[k]) as int],
                false,
            ) && r[k] == hook_dispatch(
                dispatch_handle(r[k]) as int,
                hs0[dispatch_handle(r[k]) as int],
                false,
            )),
        (forall|j: int|
            0 <= j < hs0.len() && hook_runs(#[trigger] hs0[j], false) ==> exists|k: int|
                0 <= k < r.len() && (#[trigger] r[k]) is Check && dispatch_handle(r[k]) == j),
        (forall|k1: int, k2: int|
            0 <= k1 < k2 < r.len() && (#[trigger] r[k1]) is Prepare && (#[trigger] r[k2])
                is Prepare ==> dispatch_handle(r[k1]) < dispatch_handle(r[k2])),
        (forall|k1: int, k2: int|
            0 <= k1 < k2 < r.len() && (#[trigger] r[k1]) is Check && (#[trigger] r[k2]) is Check
                ==> dispatch_handle(r[k1]) < dispatch_handle(r[k2])),
{
    lemma_hook_dispatches_shape(hs0, true);
    lemma_hook_dispatches_shape(hs0, false);
    lemma_close_phase_shape(hs3);
    let a0 = dt.len() as int;
    let a1 = a0 + dp.len();
    let a2 = a1 + dio.len();
    let a3 = a2 + dc.len();
    let a4 = a3 + dcl.len();
    assert(r.len() == a4);
    assert forall|k: int| 0 <= k < a4 implies segment_fact(r, dt, dp, dio, dc, dcl, k) by {
        if k < a0 {
            assert(r[k] == dt[k]);
        } else if k < a1 {
            assert(r[k] == dp[k - a0]);
        } else if k < a2 {
            assert(r[k] == dio[k - a1]);
        } else if k < a3 {
            assert(r[k] == dc[k - a2]);
        } else {
            assert(r[k] == dcl[k - a3]);
        }
    }
    assert forall|k: int| 0 <= k < a4 implies phase_rank(#[trigger] r[k]) == (if k < a0 {
        0int
    } else if k < a1 {
        1int
    } else if k < a2 {
        2int
    } else if k < a3 {
        3int
    } else {
        4int
    }) by {
        assert(segment_fact(r, dt, dp, dio, dc, dcl, k));
        if k < a0 {
            assert(dt[k] is Timer);
        } else if k < a1 {
            assert(dp[k - a0] is Prepare);
        } else if k < a3 {
        } else {
        }
    }
    assert forall|j: int|
        0 <= j < hs0.len() && due_timer(#[trigger] hs0[j], now0) implies exists|k: int|
        0 <= k < r.len() && (#[trigger] r[k]) is Timer && dispatch_handle(r[k]) == j by {
        let k = choose|k: int| 0 <= k < dt.len() && dispatch_handle(#[trigger] dt[k]) == j;
        assert(segment_fact(r, dt, dp, dio, dc, dcl, k));
        assert(r[k] == dt[k]);
        assert(r[k] is Timer && dispatch_handle(r[k]) == j);
    }
    assert forall|j: int|
        0 <= j < hs0.len() && hook_runs(#[trigger] hs0[j], true) implies exists|k: int|
        0 <= k < r.len() && (#[trigger] r[k]) is Prepare && dispatch_handle(r[k]) == j by {
        let k = choose|k: int| 0 <= k < dp.len() && dispatch_handle(#[trigger] dp[k]) == j;
        assert(segment_fact(r, dt, dp, dio, dc, dcl, a0 + k));
        assert(r[a0 + k] == dp[k]);
        assert(r[a0 + k] is Prepare && dispatch_handle(r[a0 + k]) == j);
    }
    assert forall|j: int|
        0 <= j < hs0.len() && hook_runs(#[trigger] hs0[j], false) implies exists|k: int|
        0 <= k < r.len() && (#[trigger] r[k]) is Check && dispatch_handle(r[k]) == j by {
        let k = choose|k: int| 0 <= k < dc.len() && dispatch_handle(#[trigger] dc[k]) == j;
        assert(segment_fact(r, dt, dp, dio, dc, dcl, a2 + k));
        assert(r[a2 + k] == dc[k]);
        assert(r[a2 + k] is Check && dispatch_handle(r[a2 + k]) == j);
    }
    assert forall|j: int|
        0 <= j < hs0.len() && (#[trigger] hs0[j]).state is Closing && hs0[j].close_cb
            is Some implies exists|k: int|
        0 <= k < r.len() && (#[trigger] r[k]) is Close && dispatch_handle(r[k]) == j by {
        assert(hs3[j].state is Closing && hs3[j].close_cb is Some);
        let k = choose|k: int|
            0 <= k < dcl.len() && (#[trigger] dcl[k]) is Close && dispatch_handle(dcl[k]) == j;
        assert(segment_fact(r, dt, dp, dio, dc, dcl, a3 + k));
        assert(r[a3 + k] == dcl[k]);
        assert(r[a3 + k] is Close && dispatch_handle(r[a3 + k]) == j);
    }
    assert forall|k: int|
        0 <= k < r.len() && (#[trigger] r[k]) is Close implies hs0[dispatch_handle(
        r[k],
    ) as int].state is Closing && hs0[dispatch_handle(r[k]) as int].close_cb == Some(
        dispatch_cb(r[k]),
    ) by {
        assert(phase_rank(r[k]) == 4);
        assert(k >= a3);
        assert(segment_fact(r, dt, dp, dio, dc, dcl, k));
        assert(r[k] == dcl[k - a3]);
        let j = dispatch_handle(r[k]) as int;
        assert(hs3[j].state is Closing && hs3[j].close_cb == Some(dispatch_cb(r[k])));
        assert(hs3[j] == hs0[j]);
    }
    assert forall|k1: int, k2: int|
        0 <= k1 < k2 < r.len() && (#[trigger] r[k1]) is Close && (#[trigger] r[k2])
            is Close implies dispatch_handle(r[k1]) != dispatch_handle(r[k2]) by {
        assert(phase_rank(r[k1]) == 4 && phase_rank(r[k2]) == 4);
        assert(k1 >= a3 && k2 >= a3);
        assert(segment_fact(r, dt, dp, dio, dc, dcl, k1));
        assert(segment_fact(r, dt, dp, dio, dc, dcl, k2));
    }
    assert forall|k1: int, k2: int|
        0 <= k1 < r.len() && 0 <= k2 < r.len() && (#[trigger] r[k1]) is WriteDone && status_of(
            r[k1],
        ) is Cancelled && (#[trigger] r[k2]) is Close && dispatch_handle(r[k1]) == dispatch_handle(
            r[k2],
        ) implies k1 < k2 by {
        assert(phase_rank(r[k1]) == 4);
        assert(k1 >= a3 && k2 >= a3);
        assert(segment_fact(r, dt, dp, dio, dc, dcl, k1));
        assert(segment_fact(r, dt, dp, dio, dc, dcl, k2));
        assert(dcl[k1 - a3] is WriteDone && dcl[k2 - a3] is Close);
        assert(k1 - a3 < k2 - a3);
    }
    assert forall|k: int|
        0 <= k < r.len() && (#[trigger] r[k]) is Timer implies due_timer(
        hs0[dispatch_handle(r[k]) as int],
        now0,
    ) && dispatch_cb(r[k]) == timer_of(hs0[dispatch_handle(r[k]) as int]).cb->Some_0 by {
        assert(phase_rank(r[k]) == 0);
        assert(k < a0);
        assert(segment_fact(r, dt, dp, dio, dc, dcl, k));
    }
    assert forall|k1: int, k2: int|
        0 <= k1 < k2 < r.len() && (#[trigger] r[k1]) is Timer && (#[trigger] r[k2])
            is Timer implies dispatch_handle(r[k1]) != dispatch_handle(r[k2]) by {
        assert(phase_rank(r[k1]) == 0 && phase_rank(r[k2]) == 0);
        assert(k1 < a0 && k2 < a0);
        assert(segment_fact(r, dt, dp, dio, dc, dcl, k1));
        assert(segment_fact(r, dt, dp, dio, dc, dcl, k2));
    }
    assert forall|k: int|
        0 <= k < r.len() && (#[trigger] r[k]) is Prepare implies hook_runs(
        hs0[dispatch_handle(r[k]) as int],
        true,
    ) && r[k] == hook_dispatch(
        dispatch_handle(r[k]) as int,
        hs0[dispatch_handle(r[k]) as int],
        true,
    ) by {
        assert(phase_rank(r[k]) == 1);
        assert(a0 <= k < a1);
        assert(segment_fact(r, dt, dp, dio, dc, dcl, k));
    }
    assert forall|k: int|
        0 <= k < r.len() && (#[trigger] r[k]) is Check implies hook_runs(
        hs0[dispatch_handle(r[k]) as int],
        false,
    ) && r[k] == hook_dispatch(
        dispatch_handle(r[k]) as int,
        hs0[dispatch_handle(r[k]) as int],
        false,
    ) by {
        assert(phase_rank(r[k]) == 3);
        assert(a2 <= k < a3);
        assert(segment_fact(r, dt, dp, dio, dc, dcl, k));
    }
    assert forall|k1: int, k2: int|
        0 <= k1 < k2 < r.len() && (#[trigger] r[k1]) is Prepare && (#[trigger] r[k2])
            is Prepare implies dispatch_handle(r[k1]) < dispatch_handle(r[k2]) by {
        assert(phase_rank(r[k1]) == 1 && phase_rank(r[k2]) == 1);
        assert(a0 <= k1 < a1 && a0 <= k2 < a1);
        assert(segment_fact(r, dt, dp, dio, dc, dcl, k1));
        assert(segment_fact(r, dt, dp, dio, dc, dcl, k2));
    }
    assert forall|k1: int, k2: int|
        0 <= k1 < k2 < r.len() && (#[trigger] r[k1]) is Check && (#[trigger] r[k2])
            is Check implies dispatch_handle(r[k1]) < dispatch_handle(r[k2]) by {
        assert(phase_rank(r[k1]) == 3 && phase_rank(r[k2]) == 3);
        assert(a2 <= k1 < a3 && a2 <= k2 < a3);
        assert(segment_fact(r, dt, dp, dio, dc, dcl, k1));
        assert(segment_fact(r, dt, dp, dio, dc, dcl, k2));
    }
}

/// The dispatch at position `k` of an iteration's output is the
/// corresponding element of the phase segment it falls in.
pub open spec fn segment_fact(
    r: Seq<Dispatch>,
    dt: Seq<Dispatch>,
    dp: Seq<Dispatch>,
    dio: Seq<Dispatch>,
    dc: Seq<Dispatch>,
    dcl: Seq<Dispatch>,
    k: int,
) -> bool {
    let a0 = dt.len() as int;
    let a1 = a0 + dp.len();
    let a2 = a1 + dio.len();
    let a3 = a2 + dc.len();
    if k < a0 {
        r[k] == dt[k]
    } else if k < a1 {
        r[k] == dp[k - a0]
    } else if k < a2 {
        r[k] == dio[k - a1]
    } else if k < a3 {
        r[k] == dc[k - a2]
    } else {
        r[k] == dcl[k - a3]
    }
}

} // verus!
