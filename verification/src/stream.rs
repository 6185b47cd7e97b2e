//! Stream handles: duplex byte channels with a FIFO write queue.

use vstd::prelude::*;

use crate::error::{Error, CODE_NOT_WRITABLE, CODE_WOULD_BLOCK};
use crate::event_loop::{record_at_mut, Loop};
use crate::handle::{
    bufs_bytes, lemma_bufs_bytes_take_le, lemma_bufs_bytes_take_step, lemma_queue_bytes_push,
    queue_bytes, req_bytes, stream_of, Handle, HandlePayload, HandleRecord, LifecycleState,
    ReadState, StreamData, WriteRequest,
};

verus! {

/// Whether a stream payload has work that makes its handle active: it is
/// listening, reading, holding queued writes, or shutting down.
pub open spec fn stream_busy(s: StreamData) -> bool {
    s.listening || s.read_state is Reading || s.write_queue@.len() > 0 || s.shutting_down
}

/// The read-loop fields agree.
pub open spec fn same_stream_reading(a: StreamData, b: StreamData) -> bool {
    b.read_state == a.read_state && b.alloc_cb == a.alloc_cb && b.read_cb == a.read_cb
}

/// The server-mode fields agree.
pub open spec fn same_stream_server(a: StreamData, b: StreamData) -> bool {
    b.listening == a.listening && b.backlog == a.backlog && b.connection_cb == a.connection_cb
        && b.pending_connections == a.pending_connections
}

/// The shutdown fields agree.
pub open spec fn same_stream_shutdown(a: StreamData, b: StreamData) -> bool {
    b.shutting_down == a.shutting_down && b.shutdown_cb == a.shutdown_cb
}

/// The capability and mode flags agree.
pub open spec fn same_stream_flags(a: StreamData, b: StreamData) -> bool {
    b.readable == a.readable && b.writable == a.writable && b.blocking == a.blocking
}

/// The write queue and its cached size agree.
pub open spec fn same_stream_queue(a: StreamData, b: StreamData) -> bool {
    b.write_queue@ == a.write_queue@ && b.queued_bytes == a.queued_bytes
}

/// Every record of the table unchanged but the one at `id`.
pub open spec fn only_table_record_changed(
    before: Seq<HandleRecord>,
    after: Seq<HandleRecord>,
    id: int,
) -> bool {
    &&& after.len() == before.len()
    &&& forall|j: int| 0 <= j < before.len() && j != id ==> after[j] == #[trigger] before[j]
}

/// Every non-stream handle of the loop unchanged, and the loop's scalar
/// fields kept, with the one record at `id` the only difference.
pub open spec fn only_record_changed(before: Loop, after: Loop, id: int) -> bool {
    &&& only_table_record_changed(before.handles@, after.handles@, id)
    &&& after.now_ms == before.now_ms
    &&& after.stop_flag == before.stop_flag
    &&& after.next_start_order == before.next_start_order
}

/// A stream handle, addressed by its index in its owning loop.
#[derive(Clone, Copy, Debug, PartialEq, Eq, Structural)]
pub struct StreamHandle {
    pub id: usize,
}

/// A mutable borrow of one stream payload, with the record and table pinned
/// around it.
pub(crate) fn stream_at_mut(v: &mut Vec<HandleRecord>, i: usize) -> (s: &mut StreamData)
    requires
        i < old(v).len(),
        old(v)@[i as int].payload is Stream,
    ensures
        *s == stream_of(old(v)@[i as int]),
        final(v)@ == old(v)@.update(
            i as int,
            (HandleRecord { payload: HandlePayload::Stream(*final(s)), ..old(v)@[i as int] }),
        ),
{
    let rec = record_at_mut(v, i);
    match &mut rec.payload {
        HandlePayload::Stream(s) => s,
        _ => vstd::pervasive::unreached(),
    }
}

/// The number of bytes a buffer set carries.
fn total_bytes(bufs: &Vec<Vec<u8>>) -> (r: u64)
    requires
        bufs_bytes(bufs@.map_values(|b: Vec<u8>| b@)).len() <= u64::MAX,
    ensures
        r == bufs_bytes(bufs@.map_values(|b: Vec<u8>| b@)).len(),
{
    let ghost bb = bufs@.map_values(|b: Vec<u8>| b@);
    let mut sum: u64 = 0;
    let mut i: usize = 0;
    while i < bufs.len()
        invariant
            i <= bufs@.len(),
            bb == bufs@.map_values(|b: Vec<u8>| b@),
            sum == bufs_bytes(bb.take(i as int)).len(),
            bufs_bytes(bb).len() <= u64::MAX,
        decreases bufs@.len() - i,
    {
        proof {
            lemma_bufs_bytes_take_step(bb, i as int);
            lemma_bufs_bytes_take_le(bb, i + 1);
        }
        sum = sum + bufs[i].len() as u64;
        i = i + 1;
    }
    proof {
        assert(bb.take(bufs@.len() as int) =~= bb);
    }
    sum
}

/// A byte-for-byte copy of a buffer.
pub(crate) fn clone_bytes(b: &Vec<u8>) -> (r: Vec<u8>)
    ensures
        r@ == b@,
{
    let mut out: Vec<u8> = Vec::new();
    let mut i: usize = 0;
    while i < b.len()
        invariant
            i <= b@.len(),
            out@ == b@.take(i as int),
        decreases b@.len() - i,
    {
        out.push(b[i]);
        proof {
            assert(b@.take(i + 1) =~= b@.take(i as int).push(b@[i as int]));
        }
        i = i + 1;
    }
    proof {
        assert(b@.take(b@.len() as int) =~= b@);
    }
    out
}

/// Hands request `k`'s bytes - and its transferred handle, if any - to the
/// peer, leaving the queue itself untouched.
pub(crate) fn append_bytes_of_request(s: &mut StreamData, k: usize)
    requires
        k < old(s).write_queue@.len(),
    ensures
        final(s).delivered@ == old(s).delivered@ + req_bytes(old(s).write_queue@[k as int]),
        final(s).delivered_handles@ == old(s).delivered_handles@ + (match old(
            s,
        ).write_queue@[k as int].transfer {
            Some(id) => seq![id],
            None => Seq::<usize>::empty(),
        }),
        final(s).write_queue@ == old(s).write_queue@,
        final(s).queued_bytes == old(s).queued_bytes,
        final(s).submitted@ == old(s).submitted@,
        final(s).cancelled@ == old(s).cancelled@,
        same_stream_reading(*old(s), *final(s)),
        same_stream_server(*old(s), *final(s)),
        same_stream_shutdown(*old(s), *final(s)),
        same_stream_flags(*old(s), *final(s)),
{
    append_bytes(&mut s.delivered, &s.write_queue[k].bufs);
    let transfer = s.write_queue[k].transfer;
    if let Some(id) = transfer {
        s.delivered_handles.push(id);
    }
}

/// Appends every byte of a buffer set, in submission order.
fn append_bytes(dst: &mut Vec<u8>, bufs: &Vec<Vec<u8>>)
    ensures
        final(dst)@ == old(dst)@ + bufs_bytes(bufs@.map_values(|b: Vec<u8>| b@)),
{
    let ghost bb = bufs@.map_values(|b: Vec<u8>| b@);
    let mut i: usize = 0;
    while i < bufs.len()
        invariant
            i <= bufs@.len(),
            bb == bufs@.map_values(|b: Vec<u8>| b@),
            dst@ == old(dst)@ + bufs_bytes(bb.take(i as int)),
        decreases bufs@.len() - i,
    {
        let mut j: usize = 0;
        let buf_len = bufs[i].len();
        while j < buf_len
            invariant
                i < bufs@.len(),
                j <= buf_len,
                bb == bufs@.map_values(|b: Vec<u8>| b@),
                buf_len == bb[i as int].len(),
                dst@ == old(dst)@ + bufs_bytes(bb.take(i as int)) + bb[i as int].take(j as int),
            decreases buf_len - j,
        {
            dst.push(bufs[i][j]);
            proof {
                assert(bb[i as int].take(j + 1) =~= bb[i as int].take(j as int).push(
                    bb[i as int][j as int],
                ));
                assert(old(dst)@ + bufs_bytes(bb.take(i as int)) + bb[i as int].take(j + 1) =~= (old(
                    dst,
                )@ + bufs_bytes(bb.take(i as int)) + bb[i as int].take(j as int)).push(
                    bb[i as int][j as int],
                ));
            }
            j = j + 1;
        }
        proof {
            lemma_bufs_bytes_take_step(bb, i as int);
            assert(bb[i as int].take(bb[i as int].len() as int) =~= bb[i as int]);
            assert(old(dst)@ + bufs_bytes(bb.take(i + 1)) =~= old(dst)@ + bufs_bytes(
                bb.take(i as int),
            ) + bb[i as int]);
        }
        i = i + 1;
    }
    proof {
        assert(bb.take(bufs@.len() as int) =~= bb);
    }
}

impl StreamHandle {
    /// Whether this handle names a stream record of the given loop.
    pub open spec fn valid(self, lp: Loop) -> bool {
        self.id < lp.handles@.len() && lp.handles@[self.id as int].payload is Stream
    }

    /// The stream payload this handle names.
    pub open spec fn data(self, lp: Loop) -> StreamData {
        stream_of(lp.handles@[self.id as int])
    }

    /// The lifecycle state of this handle.
    pub open spec fn state(self, lp: Loop) -> LifecycleState {
        lp.handles@[self.id as int].state
    }

    /// This stream as a plain stream handle.
    pub fn to_stream(&self) -> (r: StreamHandle)
        ensures
            r == *self,
    {
        *self
    }

    /// The base handle surface of this stream.
    pub fn to_handle(&self) -> (r: Handle)
        ensures
            r.id == self.id,
    {
        Handle { id: self.id }
    }

    /// Creates a stream on the loop: initialized, referenced, neither
    /// readable nor writable until it is accepted onto a connection.
    pub fn new(lp: &mut Loop) -> (t: StreamHandle)
        requires
            old(lp).wf(),
        ensures
            final(lp).wf(),
            t.id == old(lp).handles@.len(),
            t.valid(*final(lp)),
            final(lp).handles@.len() == old(lp).handles@.len() + 1,
            forall|j: int|
                0 <= j < old(lp).handles@.len() ==> final(lp).handles@[j] == #[trigger] old(
                    lp,
                ).handles@[j],
            ({
                let h = final(lp).handles@[t.id as int];
                let s = stream_of(h);
                &&& h.state is Initialized
                &&& h.referenced
                &&& h.close_cb is None
                &&& h.payload is Stream
                &&& s.read_state is Idle
                &&& s.alloc_cb is None
                &&& s.read_cb is None
                &&& s.write_queue@.len() == 0
                &&& s.queued_bytes == 0
                &&& !s.listening
                &&& s.connection_cb is None
                &&& s.pending_connections == 0
                &&& !s.shutting_down
                &&& s.shutdown_cb is None
                &&& !s.readable
                &&& !s.writable
                &&& !s.blocking
                &&& s.delivered@.len() == 0
                &&& s.delivered_handles@.len() == 0
                &&& s.submitted@.len() == 0
                &&& s.cancelled@.len() == 0
            }),
            final(lp).now_ms == old(lp).now_ms,
            final(lp).stop_flag == old(lp).stop_flag,
            final(lp).next_start_order == old(lp).next_start_order,
    {
        let id = lp.handles.len();
        lp.handles.push(
            HandleRecord {
                state: LifecycleState::Initialized,
                referenced: true,
                close_cb: None,
                payload: HandlePayload::Stream(
                    StreamData {
                        read_state: ReadState::Idle,
                        alloc_cb: None,
                        read_cb: None,
                        write_queue: Vec::new(),
                        queued_bytes: 0,
                        listening: false,
                        backlog: 0,
                        connection_cb: None,
                        pending_connections: 0,
                        shutting_down: false,
                        shutdown_cb: None,
                        readable: false,
                        writable: false,
                        blocking: false,
                        delivered: Vec::new(),
                        delivered_handles: Vec::new(),
                        submitted: Ghost(Seq::empty()),
                        cancelled: Ghost(Seq::empty()),
                    },
                ),
            },
        );
        StreamHandle { id }
    }

    /// Switches the stream to server mode: `backlog` bounds the connections
    /// the platform may queue, and the callback fires once per incoming
    /// connection. Starting again replaces backlog and callback wholesale.
    /// Refused on a closing or closed handle.
    pub fn listen(&self, lp: &mut Loop, backlog: u32, cb: u64) -> (r: Result<(), Error>)
        requires
            old(lp).wf(),
            self.valid(*old(lp)),
        ensures
            final(lp).wf(),
            self.valid(*final(lp)),
            ({
                let h = old(lp).handles@[self.id as int];
                if h.state is Closing || h.state is Closed {
                    r == Err::<(), Error>(Error::InvalidState) && *final(lp) == *old(lp)
                } else {
                    r == Ok::<(), Error>(()) && final(lp).handles@ == old(lp).handles@.update(
                        self.id as int,
                        (HandleRecord {
                            state: LifecycleState::Active,
                            payload: HandlePayload::Stream(
                                (StreamData {
                                    listening: true,
                                    backlog: backlog,
                                    connection_cb: Some(cb),
                                    ..stream_of(h)
                                }),
                            ),
                            ..h
                        }),
                    ) && only_record_changed(*old(lp), *final(lp), self.id as int)
                }
            }),
    {
        let st = lp.handles[self.id].state;
        if st == LifecycleState::Closing || st == LifecycleState::Closed {
            return Err(Error::InvalidState);
        }
        let s = stream_at_mut(&mut lp.handles, self.id);
        s.listening = true;
        s.backlog = backlog;
        s.connection_cb = Some(cb);
        let rec = record_at_mut(&mut lp.handles, self.id);
        rec.state = LifecycleState::Active;
        proof {
            assert(lp.handles@ =~= old(lp).handles@.update(
                self.id as int,
                (HandleRecord {
                    state: LifecycleState::Active,
                    payload: HandlePayload::Stream(
                        (StreamData {
                            listening: true,
                            backlog: backlog,
                            connection_cb: Some(cb),
                            ..stream_of(old(lp).handles@[self.id as int])
                        }),
                    ),
                    ..old(lp).handles@[self.id as int]
                }),
            ));
        }
        Ok(())
    }

    /// Accepts one pending connection onto `client`, which becomes readable
    /// and writable. Owed success exactly when a connection callback has
    /// fired that no earlier `accept` consumed; a second call for the same
    /// event reports the platform's would-block error.
    #[verifier::rlimit(50)]
    pub fn accept(&self, lp: &mut Loop, client: StreamHandle) -> (r: Result<(), Error>)
        requires
            old(lp).wf(),
            self.valid(*old(lp)),
            client.valid(*old(lp)),
        ensures
            final(lp).wf(),
            self.valid(*final(lp)),
            client.valid(*final(lp)),
            ({
                let h = old(lp).handles@[self.id as int];
                let hc = old(lp).handles@[client.id as int];
                let s = stream_of(h);
                if client.id == self.id || h.state is Closing || h.state is Closed || !s.listening
                    || hc.state is Closing || hc.state is Closed {
                    r == Err::<(), Error>(Error::InvalidState) && *final(lp) == *old(lp)
                } else if s.pending_connections == 0 {
                    r == Err::<(), Error>(Error::OsError(CODE_WOULD_BLOCK)) && *final(lp) == *old(
                        lp,
                    )
                } else {
                    r == Ok::<(), Error>(()) && final(lp).handles@ == old(lp).handles@.update(
                        self.id as int,
                        (HandleRecord {
                            payload: HandlePayload::Stream(
                                (StreamData {
                                    pending_connections: (s.pending_connections - 1) as u64,
                                    ..s
                                }),
                            ),
                            ..h
                        }),
                    ).update(
                        client.id as int,
                        (HandleRecord {
                            payload: HandlePayload::Stream(
                                (StreamData { readable: true, writable: true, ..stream_of(hc) }),
                            ),
                            ..hc
                        }),
                    ) && final(lp).now_ms == old(lp).now_ms && final(lp).stop_flag == old(
                        lp,
                    ).stop_flag && final(lp).next_start_order == old(lp).next_start_order
                }
            }),
    {
        if client.id == self.id {
            return Err(Error::InvalidState);
        }
        let st = lp.handles[self.id].state;
        if st == LifecycleState::Closing || st == LifecycleState::Closed {
            return Err(Error::InvalidState);
        }
        let (listening, pending) = match &lp.handles[self.id].payload {
            HandlePayload::Stream(s) => (s.listening, s.pending_connections),
            _ => vstd::pervasive::unreached(),
        };
        if !listening {
            return Err(Error::InvalidState);
        }
        let stc = lp.handles[client.id].state;
        if stc == LifecycleState::Closing || stc == LifecycleState::Closed {
            return Err(Error::InvalidState);
        }
        if pending == 0 {
            return Err(Error::OsError(CODE_WOULD_BLOCK));
        }
        let s = stream_at_mut(&mut lp.handles, self.id);
        s.pending_connections = s.pending_connections - 1;
        let c = stream_at_mut(&mut lp.handles, client.id);
        c.readable = true;
        c.writable = true;
        proof {
            assert(lp.handles@ =~= old(lp).handles@.update(
                self.id as int,
                (HandleRecord {
                    payload: HandlePayload::Stream(
                        (StreamData {
                            pending_connections: (stream_of(
                                old(lp).handles@[self.id as int],
                            ).pending_connections - 1) as u64,
                            ..stream_of(old(lp).handles@[self.id as int])
                        }),
                    ),
                    ..old(lp).handles@[self.id as int]
                }),
            ).update(
                client.id as int,
                (HandleRecord {
                    payload: HandlePayload::Stream(
                        (StreamData {
                            readable: true,
                            writable: true,
                            ..stream_of(old(lp).handles@[client.id as int])
                        }),
                    ),
                    ..old(lp).handles@[client.id as int]
                }),
            ));
        }
        Ok(())
    }

    /// Begins the asynchronous read loop: before each read attempt the
    /// alloc callback is asked for storage, then the read callback receives
    /// the outcome, until `read_stop`, end of stream, or a read error.
    /// Refused with `AlreadyActive` - leaving the stored callbacks in effect
    /// - when the stream is already reading, and with `InvalidState` on a
    /// closing or closed handle.
    pub fn read_start(&self, lp: &mut Loop, alloc_cb: u64, read_cb: u64) -> (r: Result<(), Error>)
        requires
            old(lp).wf(),
            self.valid(*old(lp)),
        ensures
            final(lp).wf(),
            self.valid(*final(lp)),
            ({
                let h = old(lp).handles@[self.id as int];
                let s = stream_of(h);
                if h.state is Closing || h.state is Closed {
                    r == Err::<(), Error>(Error::InvalidState) && *final(lp) == *old(lp)
                } else if s.read_state is Reading {
                    r == Err::<(), Error>(Error::AlreadyActive) && *final(lp) == *old(lp)
                } else {
                    r == Ok::<(), Error>(()) && final(lp).handles@ == old(lp).handles@.update(
                        self.id as int,
                        (HandleRecord {
                            state: LifecycleState::Active,
                            payload: HandlePayload::Stream(
                                (StreamData {
                                    read_state: ReadState::Reading,
                                    alloc_cb: Some(alloc_cb),
                                    read_cb: Some(read_cb),
                                    ..s
                                }),
                            ),
                            ..h
                        }),
                    ) && only_record_changed(*old(lp), *final(lp), self.id as int)
                }
            }),
    {
        let st = lp.handles[self.id].state;
        if st == LifecycleState::Closing || st == LifecycleState::Closed {
            return Err(Error::InvalidState);
        }
        let reading = match &lp.handles[self.id].payload {
            HandlePayload::Stream(s) => s.read_state == ReadState::Reading,
            _ => vstd::pervasive::unreached(),
        };
        if reading {
            return Err(Error::AlreadyActive);
        }
        let s = stream_at_mut(&mut lp.handles, self.id);
        s.read_state = ReadState::Reading;
        s.alloc_cb = Some(alloc_cb);
        s.read_cb = Some(read_cb);
        let rec = record_at_mut(&mut lp.handles, self.id);
        rec.state = LifecycleState::Active;
        proof {
            assert(lp.handles@ =~= old(lp).handles@.update(
                self.id as int,
                (HandleRecord {
                    state: LifecycleState::Active,
                    payload: HandlePayload::Stream(
                        (StreamData {
                            read_state: ReadState::Reading,
                            alloc_cb: Some(alloc_cb),
                            read_cb: Some(read_cb),
                            ..stream_of(old(lp).handles@[self.id as int])
                        }),
                    ),
                    ..old(lp).handles@[self.id as int]
                }),
            ));
        }
        Ok(())
    }

    /// Stops the read loop; the stored callbacks are kept. Idempotent on an
    /// idle stream; refused on a closing or closed handle. The handle stays
    /// active only while other stream work remains.
    pub fn read_stop(&self, lp: &mut Loop) -> (r: Result<(), Error>)
        requires
            old(lp).wf(),
            self.valid(*old(lp)),
        ensures
            final(lp).wf(),
            self.valid(*final(lp)),
            ({
                let h = old(lp).handles@[self.id as int];
                let s = stream_of(h);
                if h.state is Closing || h.state is Closed {
                    r == Err::<(), Error>(Error::InvalidState) && *final(lp) == *old(lp)
                } else {
                    let s2 = (StreamData { read_state: ReadState::Idle, ..s });
                    r == Ok::<(), Error>(()) && final(lp).handles@ == old(lp).handles@.update(
                        self.id as int,
                        (HandleRecord {
                            state: if h.state is Active && !stream_busy(s2) {
                                LifecycleState::Inactive
                            } else {
                                h.state
                            },
                            payload: HandlePayload::Stream(s2),
                            ..h
                        }),
                    ) && only_record_changed(*old(lp), *final(lp), self.id as int)
                }
            }),
    {
        let st = lp.handles[self.id].state;
        if st == LifecycleState::Closing || st == LifecycleState::Closed {
            return Err(Error::InvalidState);
        }
        let busy_after = match &lp.handles[self.id].payload {
            HandlePayload::Stream(s) => s.listening || s.write_queue.len() > 0 || s.shutting_down,
            _ => vstd::pervasive::unreached(),
        };
        let s = stream_at_mut(&mut lp.handles, self.id);
        s.read_state = ReadState::Idle;
        let rec = record_at_mut(&mut lp.handles, self.id);
        if rec.state == LifecycleState::Active && !busy_after {
            rec.state = LifecycleState::Inactive;
        }
        proof {
            let h = old(lp).handles@[self.id as int];
            let s2 = (StreamData {
                read_state: ReadState::Idle,
                ..stream_of(old(lp).handles@[self.id as int])
            });
            assert(lp.handles@ =~= old(lp).handles@.update(
                self.id as int,
                (HandleRecord {
                    state: if h.state is Active && !stream_busy(s2) {
                        LifecycleState::Inactive
                    } else {
                        h.state
                    },
                    payload: HandlePayload::Stream(s2),
                    ..h
                }),
            ));
        }
        Ok(())
    }

    /// Submits one write: the buffer set reaches the peer in submission
    /// order, after everything queued before it, and the completion
    /// callback fires exactly once. In blocking mode with nothing queued,
    /// the bytes reach the peer synchronously and only the completion
    /// callback waits for the next writable round; otherwise the request
    /// queues whole at the tail. Refused on a closing or closed handle and
    /// on a stream whose write side is not open.
    pub fn write(&self, lp: &mut Loop, bufs: Vec<Vec<u8>>, cb: u64) -> (r: Result<(), Error>)
        requires
            old(lp).wf(),
            self.valid(*old(lp)),
            queue_bytes(self.data(*old(lp)).write_queue@).len() + bufs_bytes(
                bufs@.map_values(|b: Vec<u8>| b@),
            ).len() <= u64::MAX,
        ensures
            final(lp).wf(),
            self.valid(*final(lp)),
            write_outcome(*old(lp), *final(lp), self.id, bufs, cb, None, r),
    {
        self.write_inner(lp, bufs, cb, None)
    }

    /// `write`, transferring the given handle to the peer alongside the
    /// bytes, over a channel that supports it.
    pub fn write2(
        &self,
        lp: &mut Loop,
        send_handle: StreamHandle,
        bufs: Vec<Vec<u8>>,
        cb: u64,
    ) -> (r: Result<(), Error>)
        requires
            old(lp).wf(),
            self.valid(*old(lp)),
            send_handle.valid(*old(lp)),
            queue_bytes(self.data(*old(lp)).write_queue@).len() + bufs_bytes(
                bufs@.map_values(|b: Vec<u8>| b@),
            ).len() <= u64::MAX,
        ensures
            final(lp).wf(),
            self.valid(*final(lp)),
            write_outcome(*old(lp), *final(lp), self.id, bufs, cb, Some(send_handle.id), r),
    {
        self.write_inner(lp, bufs, cb, Some(send_handle.id))
    }

    /// The shared body of `write` and `write2`.
    fn write_inner(
        &self,
        lp: &mut Loop,
        bufs: Vec<Vec<u8>>,
        cb: u64,
        transfer: Option<usize>,
    ) -> (r: Result<(), Error>)
        requires
            old(lp).wf(),
            self.valid(*old(lp)),
            queue_bytes(self.data(*old(lp)).write_queue@).len() + bufs_bytes(
                bufs@.map_values(|b: Vec<u8>| b@),
            ).len() <= u64::MAX,
        ensures
            final(lp).wf(),
            self.valid(*final(lp)),
            write_outcome(*old(lp), *final(lp), self.id, bufs, cb, transfer, r),
    {
        let st = lp.handles[self.id].state;
        if st == LifecycleState::Closing || st == LifecycleState::Closed {
            return Err(Error::InvalidState);
        }
        let (writable, shutting) = match &lp.handles[self.id].payload {
            HandlePayload::Stream(s) => (s.writable, s.shutting_down),
            _ => vstd::pervasive::unreached(),
        };
        if !writable || shutting {
            return Err(Error::OsError(CODE_NOT_WRITABLE));
        }
        proof {
            assert(crate::handle::record_wf(old(lp).handles@[self.id as int]));
        }
        let (blocking, queued) = match &lp.handles[self.id].payload {
            HandlePayload::Stream(s) => (s.blocking, s.write_queue.len()),
            _ => vstd::pervasive::unreached(),
        };
        let ghost bytes = bufs_bytes(bufs@.map_values(|b: Vec<u8>| b@));
        if blocking && queued == 0 {
            {
                let s = stream_at_mut(&mut lp.handles, self.id);
                append_bytes(&mut s.delivered, &bufs);
                s.submitted = Ghost(s.submitted@ + bytes);
                if let Some(id) = transfer {
                    s.delivered_handles.push(id);
                }
                let req = WriteRequest { bufs: Vec::new(), cb, transfer: None };
                proof {
                    lemma_queue_bytes_push(s.write_queue@, req);
                }
                s.write_queue.push(req);
            }
            let rec = record_at_mut(&mut lp.handles, self.id);
            rec.state = LifecycleState::Active;
            proof {
                let sold = stream_of(old(lp).handles@[self.id as int]);
                let s2 = stream_of(lp.handles@[self.id as int]);
                assert(sold.cancelled@.len() == 0);
                assert(req_bytes(s2.write_queue@.last()) =~= Seq::<u8>::empty());
                assert(queue_bytes(s2.write_queue@) =~= Seq::<u8>::empty());
                match transfer {
                    Some(t) => {
                        assert(s2.delivered_handles@ =~= sold.delivered_handles@ + seq![t]);
                    },
                    None => {
                        assert(s2.delivered_handles@ =~= sold.delivered_handles@
                            + Seq::<usize>::empty());
                    },
                }
                assert(s2.submitted@ =~= s2.delivered@ + queue_bytes(s2.write_queue@)
                    + s2.cancelled@);
                assert(crate::handle::record_wf(lp.handles@[self.id as int]));
                assert forall|j: int|
                    0 <= j < lp.handles@.len() implies crate::handle::record_wf(
                    #[trigger] lp.handles@[j],
                ) by {
                    if j != self.id as int {
                        assert(lp.handles@[j] == old(lp).handles@[j]);
                        assert(crate::handle::record_wf(old(lp).handles@[j]));
                    }
                }
            }
            return Ok(());
        }
        let total = total_bytes(&bufs);
        let s = stream_at_mut(&mut lp.handles, self.id);
        s.queued_bytes = s.queued_bytes + total;
        s.submitted = Ghost(s.submitted@ + bytes);
        let req = WriteRequest { bufs, cb, transfer };
        proof {
            lemma_queue_bytes_push(s.write_queue@, req);
        }
        s.write_queue.push(req);
        let rec = record_at_mut(&mut lp.handles, self.id);
        rec.state = LifecycleState::Active;
        proof {
            let s2 = stream_of(lp.handles@[self.id as int]);
            assert(stream_of(old(lp).handles@[self.id as int]).cancelled@.len() == 0);
            assert(s2.submitted@ =~= s2.delivered@ + queue_bytes(s2.write_queue@) + s2.cancelled@);
            assert(crate::handle::record_wf(lp.handles@[self.id as int]));
            assert forall|j: int|
                0 <= j < lp.handles@.len() implies crate::handle::record_wf(
                #[trigger] lp.handles@[j],
            ) by {
                if j != self.id as int {
                    assert(lp.handles@[j] == old(lp).handles@[j]);
                    assert(crate::handle::record_wf(old(lp).handles@[j]));
                }
            }
        }
        Ok(())
    }

    /// Attempts an immediate write that never enqueues a request: with an
    /// empty write queue on an open write side, all bytes reach the peer now
    /// and the byte count is returned; with writes still queued, nothing is
    /// written and the count is zero. Refused on a closing or closed handle
    /// and on a stream whose write side is not open.
    pub fn try_write(&self, lp: &mut Loop, bufs: &Vec<Vec<u8>>) -> (r: Result<usize, Error>)
        requires
            old(lp).wf(),
            self.valid(*old(lp)),
            bufs_bytes(bufs@.map_values(|b: Vec<u8>| b@)).len() <= usize::MAX,
        ensures
            final(lp).wf(),
            self.valid(*final(lp)),
            try_write_outcome(*old(lp), *final(lp), self.id, bufs@, None, r),
    {
        self.try_write_inner(lp, bufs, None)
    }

    /// `try_write`, transferring the given handle to the peer alongside the
    /// bytes when anything is written.
    pub fn try_write2(&self, lp: &mut Loop, send_handle: StreamHandle, bufs: &Vec<Vec<u8>>) -> (r:
        Result<usize, Error>)
        requires
            old(lp).wf(),
            self.valid(*old(lp)),
            send_handle.valid(*old(lp)),
            bufs_bytes(bufs@.map_values(|b: Vec<u8>| b@)).len() <= usize::MAX,
        ensures
            final(lp).wf(),
            self.valid(*final(lp)),
            try_write_outcome(*old(lp), *final(lp), self.id, bufs@, Some(send_handle.id), r),
    {
        self.try_write_inner(lp, bufs, Some(send_handle.id))
    }

    /// The shared body of `try_write` and `try_write2`.
    fn try_write_inner(&self, lp: &mut Loop, bufs: &Vec<Vec<u8>>, transfer: Option<usize>) -> (r:
        Result<usize, Error>)
        requires
            old(lp).wf(),
            self.valid(*old(lp)),
            bufs_bytes(bufs@.map_values(|b: Vec<u8>| b@)).len() <= usize::MAX,
        ensures
            final(lp).wf(),
            self.valid(*final(lp)),
            try_write_outcome(*old(lp), *final(lp), self.id, bufs@, transfer, r),
    {
        let st = lp.handles[self.id].state;
        if st == LifecycleState::Closing || st == LifecycleState::Closed {
            return Err(Error::InvalidState);
        }
        let (writable, shutting, queued) = match &lp.handles[self.id].payload {
            HandlePayload::Stream(s) => (s.writable, s.shutting_down, s.write_queue.len()),
            _ => vstd::pervasive::unreached(),
        };
        if !writable || shutting {
            return Err(Error::OsError(CODE_NOT_WRITABLE));
        }
        if queued > 0 {
            return Ok(0);
        }
        proof {
            assert(crate::handle::record_wf(old(lp).handles@[self.id as int]));
        }
        let ghost bytes = bufs_bytes(bufs@.map_values(|b: Vec<u8>| b@));
        let mut count: usize = 0;
        {
            let s = stream_at_mut(&mut lp.handles, self.id);
            let before = s.delivered.len();
            append_bytes(&mut s.delivered, bufs);
            count = s.delivered.len() - before;
            s.submitted = Ghost(s.submitted@ + bytes);
            if let Some(id) = transfer {
                s.delivered_handles.push(id);
            }
        }
        proof {
            let s = stream_of(old(lp).handles@[self.id as int]);
            let s2 = stream_of(lp.handles@[self.id as int]);
            assert(s.cancelled@.len() == 0);
            assert(s2.submitted@ =~= s2.delivered@ + queue_bytes(s2.write_queue@) + s2.cancelled@);
            match transfer {
                Some(t) => {
                    assert(s2.delivered_handles@ =~= s.delivered_handles@ + seq![t]);
                },
                None => {
                    assert(s2.delivered_handles@ =~= s.delivered_handles@ + Seq::<usize>::empty());
                },
            }
            assert(crate::handle::record_wf(lp.handles@[self.id as int]));
            assert forall|j: int|
                0 <= j < lp.handles@.len() implies crate::handle::record_wf(
                #[trigger] lp.handles@[j],
            ) by {
                if j != self.id as int {
                    assert(lp.handles@[j] == old(lp).handles@[j]);
                    assert(crate::handle::record_wf(old(lp).handles@[j]));
                }
            }
        }
        Ok(count)
    }

    /// Half-closes the write side once the write queue drains; the callback
    /// fires when that has happened. Refused while a shutdown is already in
    /// progress, on a closing or closed handle, and on a stream whose write
    /// side is not open.
    pub fn shutdown(&self, lp: &mut Loop, cb: u64) -> (r: Result<(), Error>)
        requires
            old(lp).wf(),
            self.valid(*old(lp)),
        ensures
            final(lp).wf(),
            self.valid(*final(lp)),
            ({
                let h = old(lp).handles@[self.id as int];
                let s = stream_of(h);
                if h.state is Closing || h.state is Closed {
                    r == Err::<(), Error>(Error::InvalidState) && *final(lp) == *old(lp)
                } else if s.shutting_down {
                    r == Err::<(), Error>(Error::InvalidState) && *final(lp) == *old(lp)
                } else if !s.writable {
                    r == Err::<(), Error>(Error::OsError(CODE_NOT_WRITABLE)) && *final(lp) == *old(
                        lp,
                    )
                } else {
                    r == Ok::<(), Error>(()) && final(lp).handles@ == old(lp).handles@.update(
                        self.id as int,
                        (HandleRecord {
                            state: LifecycleState::Active,
                            payload: HandlePayload::Stream(
                                (StreamData { shutting_down: true, shutdown_cb: Some(cb), ..s }),
                            ),
                            ..h
                        }),
                    ) && only_record_changed(*old(lp), *final(lp), self.id as int)
                }
            }),
    {
        let st = lp.handles[self.id].state;
        if st == LifecycleState::Closing || st == LifecycleState::Closed {
            return Err(Error::InvalidState);
        }
        let (writable, shutting) = match &lp.handles[self.id].payload {
            HandlePayload::Stream(s) => (s.writable, s.shutting_down),
            _ => vstd::pervasive::unreached(),
        };
        if shutting {
            return Err(Error::InvalidState);
        }
        if !writable {
            return Err(Error::OsError(CODE_NOT_WRITABLE));
        }
        let s = stream_at_mut(&mut lp.handles, self.id);
        s.shutting_down = true;
        s.shutdown_cb = Some(cb);
        let rec = record_at_mut(&mut lp.handles, self.id);
        rec.state = LifecycleState::Active;
        proof {
            assert(lp.handles@ =~= old(lp).handles@.update(
                self.id as int,
                (HandleRecord {
                    state: LifecycleState::Active,
                    payload: HandlePayload::Stream(
                        (StreamData {
                            shutting_down: true,
                            shutdown_cb: Some(cb),
                            ..stream_of(old(lp).handles@[self.id as int])
                        }),
                    ),
                    ..old(lp).handles@[self.id as int]
                }),
            ));
        }
        Ok(())
    }

    /// Whether the read side of the channel is open.
    pub fn is_readable(&self, lp: &Loop) -> (r: bool)
        requires
            self.valid(*lp),
        ensures
            r == self.data(*lp).readable,
    {
        match &lp.handles[self.id].payload {
            HandlePayload::Stream(s) => s.readable,
            _ => vstd::pervasive::unreached(),
        }
    }

    /// Whether the write side of the channel is open.
    pub fn is_writable(&self, lp: &Loop) -> (r: bool)
        requires
            self.valid(*lp),
        ensures
            r == self.data(*lp).writable,
    {
        match &lp.handles[self.id].payload {
            HandlePayload::Stream(s) => s.writable,
            _ => vstd::pervasive::unreached(),
        }
    }

    /// Switches write completion to the synchronous convention: a write
    /// submitted while nothing is queued delivers its bytes at once, its
    /// completion callback still arriving through the loop. With requests
    /// already queued a write queues as usual - so set the mode right after
    /// creation, before the first write. Refused on a closing or closed
    /// handle.
    pub fn set_blocking(&self, lp: &mut Loop, blocking: bool) -> (r: Result<(), Error>)
        requires
            old(lp).wf(),
            self.valid(*old(lp)),
        ensures
            final(lp).wf(),
            self.valid(*final(lp)),
            ({
                let h = old(lp).handles@[self.id as int];
                if h.state is Closing || h.state is Closed {
                    r == Err::<(), Error>(Error::InvalidState) && *final(lp) == *old(lp)
                } else {
                    r == Ok::<(), Error>(()) && final(lp).handles@ == old(lp).handles@.update(
                        self.id as int,
                        (HandleRecord {
                            payload: HandlePayload::Stream(
                                (StreamData { blocking: blocking, ..stream_of(h) }),
                            ),
                            ..h
                        }),
                    ) && only_record_changed(*old(lp), *final(lp), self.id as int)
                }
            }),
    {
        let st = lp.handles[self.id].state;
        if st == LifecycleState::Closing || st == LifecycleState::Closed {
            return Err(Error::InvalidState);
        }
        let s = stream_at_mut(&mut lp.handles, self.id);
        s.blocking = blocking;
        Ok(())
    }

    /// The total queued bytes not yet handed to the peer: the quantity a
    /// producer watches to apply backpressure.
    pub fn get_write_queue_size(&self, lp: &Loop) -> (r: u64)
        requires
            lp.wf(),
            self.valid(*lp),
        ensures
            r == self.data(*lp).queued_bytes,
            r == queue_bytes(self.data(*lp).write_queue@).len(),
    {
        proof {
            assert(crate::handle::record_wf(lp.handles@[self.id as int]));
        }
        match &lp.handles[self.id].payload {
            HandlePayload::Stream(s) => s.queued_bytes,
            _ => vstd::pervasive::unreached(),
        }
    }

    /// The bytes the peer has observed on this channel so far, in order.
    pub fn delivered_bytes<'a>(&self, lp: &'a Loop) -> (r: &'a Vec<u8>)
        requires
            self.valid(*lp),
        ensures
            r@ == self.data(*lp).delivered@,
    {
        match &lp.handles[self.id].payload {
            HandlePayload::Stream(s) => &s.delivered,
            _ => vstd::pervasive::unreached(),
        }
    }

    /// The handles the peer has received over this channel so far, in order.
    pub fn transferred_handles<'a>(&self, lp: &'a Loop) -> (r: &'a Vec<usize>)
        requires
            self.valid(*lp),
        ensures
            r@ == self.data(*lp).delivered_handles@,
    {
        match &lp.handles[self.id].payload {
            HandlePayload::Stream(s) => &s.delivered_handles,
            _ => vstd::pervasive::unreached(),
        }
    }
}

/// What `try_write` and `try_write2` do: refused on a closing handle or a
/// shut write side; zero bytes written while requests are queued ahead;
/// else every byte delivered to the peer immediately, with the transferred
/// handle, if any, alongside.
pub open spec fn try_write_outcome(
    before: Loop,
    after: Loop,
    id: usize,
    bufs: Seq<Vec<u8>>,
    transfer: Option<usize>,
    r: Result<usize, Error>,
) -> bool {
    let h = before.handles@[id as int];
    let s = stream_of(h);
    let bytes = bufs_bytes(bufs.map_values(|b: Vec<u8>| b@));
    if h.state is Closing || h.state is Closed {
        r == Err::<usize, Error>(Error::InvalidState) && after == before
    } else if !s.writable || s.shutting_down {
        r == Err::<usize, Error>(Error::OsError(CODE_NOT_WRITABLE)) && after == before
    } else if s.write_queue@.len() > 0 {
        r == Ok::<usize, Error>(0) && after == before
    } else {
        let h2 = after.handles@[id as int];
        let s2 = stream_of(h2);
        &&& r == Ok::<usize, Error>(bytes.len() as usize)
        &&& only_record_changed(before, after, id as int)
        &&& h2.state == h.state
        &&& h2.referenced == h.referenced
        &&& h2.close_cb == h.close_cb
        &&& h2.payload is Stream
        &&& s2.delivered@ == s.delivered@ + bytes
        &&& s2.submitted@ == s.submitted@ + bytes
        &&& s2.delivered_handles@ == s.delivered_handles@ + (match transfer {
            Some(t) => seq![t],
            None => Seq::<usize>::empty(),
        })
        &&& same_stream_reading(s, s2)
        &&& same_stream_server(s, s2)
        &&& same_stream_shutdown(s, s2)
        &&& same_stream_flags(s, s2)
        &&& same_stream_queue(s, s2)
        &&& s2.cancelled@ == s.cancelled@
    }
}

/// What `write` and `write2` do: refused on a closing handle or a shut
/// write side with nothing changed. In blocking mode with an empty write
/// queue, completion is synchronous: the bytes (and the transferred handle)
/// reach the peer at once and only an empty carrier request holding the
/// completion callback waits for the next writable round. Otherwise one
/// request is enqueued at the tail carrying the whole buffer set, the
/// cached size and submitted history grown by its bytes, and the handle
/// active either way.
pub open spec fn write_outcome(
    before: Loop,
    after: Loop,
    id: usize,
    bufs: Vec<Vec<u8>>,
    cb: u64,
    transfer: Option<usize>,
    r: Result<(), Error>,
) -> bool {
    let h = before.handles@[id as int];
    let s = stream_of(h);
    let bytes = bufs_bytes(bufs@.map_values(|b: Vec<u8>| b@));
    if h.state is Closing || h.state is Closed {
        r == Err::<(), Error>(Error::InvalidState) && after == before
    } else if !s.writable || s.shutting_down {
        r == Err::<(), Error>(Error::OsError(CODE_NOT_WRITABLE)) && after == before
    } else if s.blocking && s.write_queue@.len() == 0 {
        let h2 = after.handles@[id as int];
        let s2 = stream_of(h2);
        &&& r == Ok::<(), Error>(())
        &&& only_record_changed(before, after, id as int)
        &&& h2.state is Active
        &&& h2.referenced == h.referenced
        &&& h2.close_cb == h.close_cb
        &&& h2.payload is Stream
        &&& s2.delivered@ == s.delivered@ + bytes
        &&& s2.delivered_handles@ == s.delivered_handles@ + (match transfer {
            Some(t) => seq![t],
            None => Seq::<usize>::empty(),
        })
        &&& s2.submitted@ == s.submitted@ + bytes
        &&& s2.write_queue@.len() == 1
        &&& s2.write_queue@.last().cb == cb
        &&& s2.write_queue@.last().transfer is None
        &&& req_bytes(s2.write_queue@.last()).len() == 0
        &&& s2.queued_bytes == 0
        &&& same_stream_reading(s, s2)
        &&& same_stream_server(s, s2)
        &&& same_stream_shutdown(s, s2)
        &&& same_stream_flags(s, s2)
        &&& s2.cancelled@ == s.cancelled@
    } else {
        let h2 = after.handles@[id as int];
        let s2 = stream_of(h2);
        &&& r == Ok::<(), Error>(())
        &&& only_record_changed(before, after, id as int)
        &&& h2.state is Active
        &&& h2.referenced == h.referenced
        &&& h2.close_cb == h.close_cb
        &&& h2.payload is Stream
        &&& s2.write_queue@ == s.write_queue@.push(
            (WriteRequest { bufs: bufs, cb: cb, transfer: transfer }),
        )
        &&& s2.queued_bytes == s.queued_bytes + bytes.len()
        &&& s2.submitted@ == s.submitted@ + bytes
        &&& same_stream_reading(s, s2)
        &&& same_stream_server(s, s2)
        &&& same_stream_shutdown(s, s2)
        &&& same_stream_flags(s, s2)
        &&& s2.delivered@ == s.delivered@
        &&& s2.delivered_handles@ == s.delivered_handles@
        &&& s2.cancelled@ == s.cancelled@
    }
}

} // verus!
