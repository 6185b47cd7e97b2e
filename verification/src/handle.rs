//! The base lifecycle entity shared by every resource kind, and the records
//! the loop stores for each kind.

use vstd::prelude::*;

use crate::error::Error;
use crate::event_loop::{record_at_mut, Loop};

verus! {

/// The closed set of handle kinds the engine knows.
#[derive(Clone, Copy, Debug, PartialEq, Eq, Structural)]
pub enum HandleType {
    Timer,
    Prepare,
    Check,
    Stream,
}

impl HandleType {
    /// The conventional lower-case name of the handle type.
    pub fn name(&self) -> (r: String)
        ensures
            self is Timer ==> r@ == "timer"@,
            self is Prepare ==> r@ == "prepare"@,
            self is Check ==> r@ == "check"@,
            self is Stream ==> r@ == "stream"@,
    {
        proof {
            broadcast use vstd::string::to_string_from_display_ensures_for_str;

        }
        match self {
            HandleType::Timer => "timer".to_string(),
            HandleType::Prepare => "prepare".to_string(),
            HandleType::Check => "check".to_string(),
            HandleType::Stream => "stream".to_string(),
        }
    }
}

/// Where a handle stands in its life. `Initialized` handles become `Active`
/// through a kind-specific start operation and `Inactive` through stop;
/// `close` marks a handle `Closing`, and the close phase of the next loop
/// iteration settles it to `Closed`.
#[derive(Clone, Copy, Debug, PartialEq, Eq, Structural)]
pub enum LifecycleState {
    Initialized,
    Active,
    Inactive,
    Closing,
    Closed,
}

/// The schedule of one timer: its next deadline, its repeat interval
/// (0 = one-shot), its stored callback token, and the order in which its
/// latest start was registered, which breaks deadline ties.
#[derive(Clone, Copy, Debug)]
pub struct TimerData {
    pub cb: Option<u64>,
    pub due: u64,
    pub repeat: u64,
    pub start_order: u64,
}

/// The stored callback of a prepare hook.
#[derive(Clone, Copy, Debug)]
pub struct PrepareData {
    pub cb: Option<u64>,
}

/// The stored callback of a check hook.
#[derive(Clone, Copy, Debug)]
pub struct CheckData {
    pub cb: Option<u64>,
}

/// Whether a stream's asynchronous read loop is running.
#[derive(Clone, Copy, Debug, PartialEq, Eq, Structural)]
pub enum ReadState {
    Idle,
    Reading,
}

/// One pending write: the submitted buffer set in submission order, the
/// completion callback token, and the handle transferred alongside, if any.
#[derive(Clone, Debug)]
pub struct WriteRequest {
    pub bufs: Vec<Vec<u8>>,
    pub cb: u64,
    pub transfer: Option<usize>,
}

/// The duplex-channel payload of a stream handle: read state, FIFO write
/// queue, server state, shutdown state, duplex capability flags, and the
/// bytes the peer has observed so far.
#[derive(Clone)]
pub struct StreamData {
    pub read_state: ReadState,
    pub alloc_cb: Option<u64>,
    pub read_cb: Option<u64>,
    pub write_queue: Vec<WriteRequest>,
    pub queued_bytes: u64,
    pub listening: bool,
    pub backlog: u32,
    pub connection_cb: Option<u64>,
    pub pending_connections: u64,
    pub shutting_down: bool,
    pub shutdown_cb: Option<u64>,
    pub readable: bool,
    pub writable: bool,
    pub blocking: bool,
    pub delivered: Vec<u8>,
    pub delivered_handles: Vec<usize>,
    pub submitted: Ghost<Seq<u8>>,
    pub cancelled: Ghost<Seq<u8>>,
}

/// The kind-specific payload of a handle.
#[derive(Clone)]
pub enum HandlePayload {
    Timer(TimerData),
    Prepare(PrepareData),
    Check(CheckData),
    Stream(StreamData),
}

/// One handle as the loop stores it: lifecycle state, whether it keeps the
/// loop alive, the stored close callback, and the kind-specific payload.
#[derive(Clone)]
pub struct HandleRecord {
    pub state: LifecycleState,
    pub referenced: bool,
    pub close_cb: Option<u64>,
    pub payload: HandlePayload,
}

/// The timer payload of a record (meaningful only on timer records).
pub open spec fn timer_of(h: HandleRecord) -> TimerData {
    match h.payload {
        HandlePayload::Timer(t) => t,
        _ => arbitrary(),
    }
}

/// The prepare payload of a record (meaningful only on prepare records).
pub open spec fn prepare_of(h: HandleRecord) -> PrepareData {
    match h.payload {
        HandlePayload::Prepare(p) => p,
        _ => arbitrary(),
    }
}

/// The check payload of a record (meaningful only on check records).
pub open spec fn check_of(h: HandleRecord) -> CheckData {
    match h.payload {
        HandlePayload::Check(c) => c,
        _ => arbitrary(),
    }
}

/// The stream payload of a record (meaningful only on stream records).
pub open spec fn stream_of(h: HandleRecord) -> StreamData {
    match h.payload {
        HandlePayload::Stream(s) => s,
        _ => arbitrary(),
    }
}

/// The kind of a record's payload.
pub open spec fn payload_type(h: HandleRecord) -> HandleType {
    match h.payload {
        HandlePayload::Timer(_) => HandleType::Timer,
        HandlePayload::Prepare(_) => HandleType::Prepare,
        HandlePayload::Check(_) => HandleType::Check,
        HandlePayload::Stream(_) => HandleType::Stream,
    }
}

/// The concatenation of a buffer set, in submission order.
pub open spec fn bufs_bytes(bufs: Seq<Seq<u8>>) -> Seq<u8>
    decreases bufs.len(),
{
    if bufs.len() == 0 {
        Seq::empty()
    } else {
        bufs_bytes(bufs.drop_last()) + bufs.last()
    }
}

/// The bytes one write request carries, in submission order.
pub open spec fn req_bytes(r: WriteRequest) -> Seq<u8> {
    bufs_bytes(r.bufs@.map_values(|b: Vec<u8>| b@))
}

/// The bytes a whole write queue carries, FIFO.
pub open spec fn queue_bytes(q: Seq<WriteRequest>) -> Seq<u8>
    decreases q.len(),
{
    if q.len() == 0 {
        Seq::empty()
    } else {
        queue_bytes(q.drop_last()) + req_bytes(q.last())
    }
}

/// The handles a write queue transfers to the peer, FIFO.
pub open spec fn queue_transfers(q: Seq<WriteRequest>) -> Seq<usize>
    decreases q.len(),
{
    if q.len() == 0 {
        Seq::empty()
    } else {
        queue_transfers(q.drop_last()) + (match q.last().transfer {
            Some(id) => seq![id],
            None => Seq::empty(),
        })
    }
}

pub proof fn lemma_bufs_bytes_take_step(bufs: Seq<Seq<u8>>, i: int)
    requires
        0 <= i < bufs.len(),
    ensures
        bufs_bytes(bufs.take(i + 1)) == bufs_bytes(bufs.take(i)) + bufs[i],
{
    assert(bufs.take(i + 1).drop_last() =~= bufs.take(i));
    assert(bufs.take(i + 1).last() == bufs[i]);
}

pub proof fn lemma_bufs_bytes_take_le(bufs: Seq<Seq<u8>>, i: int)
    requires
        0 <= i <= bufs.len(),
    ensures
        bufs_bytes(bufs.take(i)).len() <= bufs_bytes(bufs).len(),
    decreases bufs.len() - i,
{
    if i == bufs.len() {
        assert(bufs.take(i) =~= bufs);
    } else {
        lemma_bufs_bytes_take_step(bufs, i);
        lemma_bufs_bytes_take_le(bufs, i + 1);
    }
}

pub proof fn lemma_queue_bytes_take_step(q: Seq<WriteRequest>, i: int)
    requires
        0 <= i < q.len(),
    ensures
        queue_bytes(q.take(i + 1)) == queue_bytes(q.take(i)) + req_bytes(q[i]),
{
    assert(q.take(i + 1).drop_last() =~= q.take(i));
    assert(q.take(i + 1).last() == q[i]);
}

pub proof fn lemma_queue_transfers_take_step(q: Seq<WriteRequest>, i: int)
    requires
        0 <= i < q.len(),
    ensures
        queue_transfers(q.take(i + 1)) == queue_transfers(q.take(i)) + (match q[i].transfer {
            Some(id) => seq![id],
            None => Seq::<usize>::empty(),
        }),
{
    assert(q.take(i + 1).drop_last() =~= q.take(i));
    assert(q.take(i + 1).last() == q[i]);
}

pub proof fn lemma_queue_bytes_push(q: Seq<WriteRequest>, r: WriteRequest)
    ensures
        queue_bytes(q.push(r)) == queue_bytes(q) + req_bytes(r),
{
    assert(q.push(r).drop_last() =~= q);
}

/// Well-formedness of a stream payload: stored callbacks exist for every
/// running operation, the cached queue size is the queue's byte count, and
/// every byte ever submitted is accounted for - delivered to the peer, still
/// queued, or cancelled - in submission order.
pub open spec fn stream_wf(s: StreamData) -> bool {
    &&& (s.listening ==> s.connection_cb is Some)
    &&& (s.read_state is Reading ==> s.alloc_cb is Some && s.read_cb is Some)
    &&& (s.shutting_down ==> s.shutdown_cb is Some)
    &&& s.queued_bytes == queue_bytes(s.write_queue@).len()
    &&& s.submitted@ == s.delivered@ + queue_bytes(s.write_queue@) + s.cancelled@
}

/// Well-formedness of one handle record. Cancelled bytes exist only on
/// handles that have entered `Closing`: cancellation is expressed through
/// `close` alone.
pub open spec fn record_wf(h: HandleRecord) -> bool {
    match h.payload {
        HandlePayload::Timer(t) => h.state is Active ==> t.cb is Some,
        HandlePayload::Prepare(p) => h.state is Active ==> p.cb is Some,
        HandlePayload::Check(c) => h.state is Active ==> c.cb is Some,
        HandlePayload::Stream(s) => stream_wf(s) && (s.cancelled@.len() > 0 ==> h.state
            is Closed),
    }
}

/// Whether this handle alone keeps the loop running: it is referenced and
/// active, or it still owes its close callback.
pub open spec fn keeps_alive(h: HandleRecord) -> bool {
    (h.referenced && h.state is Active) || h.state is Closing
}

/// A closing handle's payload: a stream loses its duplex capability the
/// moment `close` is requested, so `is_readable` and `is_writable` agree
/// with the operations that are now refused; other payloads are untouched.
pub open spec fn closing_payload(p: HandlePayload) -> HandlePayload {
    match p {
        HandlePayload::Stream(s) => HandlePayload::Stream(
            (StreamData { readable: false, writable: false, ..s }),
        ),
        _ => p,
    }
}

/// The base surface every handle kind shares, addressed by the handle's
/// index in its owning loop. A handle belongs to that one loop for its whole
/// life: the index never migrates.
#[derive(Clone, Copy, Debug, PartialEq, Eq, Structural)]
pub struct Handle {
    pub id: usize,
}

impl Handle {
    /// Whether this handle names a record of the given loop.
    pub open spec fn valid(self, lp: Loop) -> bool {
        self.id < lp.handles@.len()
    }

    /// Requests the handle to close. Legal from any state but `Closing` and
    /// `Closed` (so closing twice is refused); the handle is marked `Closing`
    /// synchronously - a stream losing its duplex capability at once - while
    /// the transition to `Closed` and the close callback happen in the close
    /// phase of the next iteration, never here.
    pub fn close(&self, lp: &mut Loop, on_close: Option<u64>) -> (r: Result<(), Error>)
        requires
            old(lp).wf(),
            self.valid(*old(lp)),
        ensures
            final(lp).wf(),
            final(lp).now_ms == old(lp).now_ms,
            final(lp).stop_flag == old(lp).stop_flag,
            final(lp).next_start_order == old(lp).next_start_order,
            ({
                let h = old(lp).handles@[self.id as int];
                if h.state is Closing || h.state is Closed {
                    r == Err::<(), Error>(Error::InvalidState) && final(lp).handles@ == old(
                        lp,
                    ).handles@
                } else {
                    r == Ok::<(), Error>(()) && final(lp).handles@ == old(lp).handles@.update(
                        self.id as int,
                        (HandleRecord {
                            state: LifecycleState::Closing,
                            close_cb: on_close,
                            payload: closing_payload(h.payload),
                            ..h
                        }),
                    )
                }
            }),
    {
        let st = lp.handles[self.id].state;
        if st == LifecycleState::Closing || st == LifecycleState::Closed {
            return Err(Error::InvalidState);
        }
        let rec = record_at_mut(&mut lp.handles, self.id);
        rec.state = LifecycleState::Closing;
        rec.close_cb = on_close;
        match &mut rec.payload {
            HandlePayload::Stream(s) => {
                s.readable = false;
                s.writable = false;
            },
            _ => {},
        }
        Ok(())
    }

    /// Whether the handle has been started and not yet stopped or closed.
    pub fn is_active(&self, lp: &Loop) -> (r: bool)
        requires
            self.valid(*lp),
        ensures
            r == (lp.handles@[self.id as int].state is Active),
    {
        lp.handles[self.id].state == LifecycleState::Active
    }

    /// Whether `close` has been requested (or has settled) on the handle.
    pub fn is_closing(&self, lp: &Loop) -> (r: bool)
        requires
            self.valid(*lp),
        ensures
            r == (lp.handles@[self.id as int].state is Closing || lp.handles@[self.id as int].state
                is Closed),
    {
        let st = lp.handles[self.id].state;
        st == LifecycleState::Closing || st == LifecycleState::Closed
    }

    /// Makes the handle count toward keeping the loop alive. Idempotent.
    pub fn ref_up(&self, lp: &mut Loop)
        requires
            old(lp).wf(),
            self.valid(*old(lp)),
        ensures
            final(lp).wf(),
            final(lp).now_ms == old(lp).now_ms,
            final(lp).stop_flag == old(lp).stop_flag,
            final(lp).next_start_order == old(lp).next_start_order,
            final(lp).handles@ == old(lp).handles@.update(
                self.id as int,
                (HandleRecord { referenced: true, ..old(lp).handles@[self.id as int] }),
            ),
    {
        let rec = record_at_mut(&mut lp.handles, self.id);
        rec.referenced = true;
    }

    /// Stops the handle from counting toward keeping the loop alive.
    /// Idempotent.
    pub fn unref(&self, lp: &mut Loop)
        requires
            old(lp).wf(),
            self.valid(*old(lp)),
        ensures
            final(lp).wf(),
            final(lp).now_ms == old(lp).now_ms,
            final(lp).stop_flag == old(lp).stop_flag,
            final(lp).next_start_order == old(lp).next_start_order,
            final(lp).handles@ == old(lp).handles@.update(
                self.id as int,
                (HandleRecord { referenced: false, ..old(lp).handles@[self.id as int] }),
            ),
    {
        let rec = record_at_mut(&mut lp.handles, self.id);
        rec.referenced = false;
    }

    /// Whether the handle currently counts toward keeping the loop alive.
    pub fn has_ref(&self, lp: &Loop) -> (r: bool)
        requires
            self.valid(*lp),
        ensures
            r == lp.handles@[self.id as int].referenced,
    {
        lp.handles[self.id].referenced
    }

    /// The kind of the handle.
    pub fn get_type(&self, lp: &Loop) -> (r: HandleType)
        requires
            self.valid(*lp),
        ensures
            r == payload_type(lp.handles@[self.id as int]),
    {
        match &lp.handles[self.id].payload {
            HandlePayload::Timer(_) => HandleType::Timer,
            HandlePayload::Prepare(_) => HandleType::Prepare,
            HandlePayload::Check(_) => HandleType::Check,
            HandlePayload::Stream(_) => HandleType::Stream,
        }
    }
}

} // verus!
