use evloop::error::{Error, CODE_NOT_WRITABLE, CODE_WOULD_BLOCK};
use evloop::event_loop::{Loop, RunMode};
use evloop::events::{Dispatch, IoEvent, ReadOutcome, Status};
use evloop::stream::StreamHandle;

/// A listening server stream and a freshly accepted client stream.
fn accepted_pair(lp: &mut Loop) -> (StreamHandle, StreamHandle) {
    let server = StreamHandle::new(lp);
    let client = StreamHandle::new(lp);
    server.listen(lp, 16, 1).unwrap();
    let ds = lp.process_io_event(&IoEvent::Incoming { stream: server.id, status: 0 });
    assert!(matches!(ds[0], Dispatch::Connection { status: 0, .. }));
    server.accept(lp, client).unwrap();
    (server, client)
}

#[test]
fn accept_succeeds_exactly_once_per_connection_event() {
    let mut lp = Loop::new();
    let server = StreamHandle::new(&mut lp);
    let client = StreamHandle::new(&mut lp);
    server.listen(&mut lp, 8, 42).unwrap();

    // before any connection event, accept would block
    assert_eq!(lp_accept(&mut lp, server, client), Err(Error::OsError(CODE_WOULD_BLOCK)));

    let ds = lp.process_io_event(&IoEvent::Incoming { stream: server.id, status: 0 });
    assert_eq!(ds.len(), 1);
    match &ds[0] {
        Dispatch::Connection { handle, cb, status } => {
            assert_eq!((*handle, *cb, *status), (server.id, 42, 0));
        },
        _ => unreachable!(),
    }

    assert_eq!(lp_accept(&mut lp, server, client), Ok(()));
    assert!(client.is_readable(&lp) && client.is_writable(&lp));

    // a second accept for the same event fails
    let another = StreamHandle::new(&mut lp);
    assert_eq!(lp_accept(&mut lp, server, another), Err(Error::OsError(CODE_WOULD_BLOCK)));
}

fn lp_accept(lp: &mut Loop, server: StreamHandle, client: StreamHandle) -> Result<(), Error> {
    server.accept(lp, client)
}

#[test]
fn failed_connection_is_reported_and_funds_no_accept() {
    let mut lp = Loop::new();
    let server = StreamHandle::new(&mut lp);
    let client = StreamHandle::new(&mut lp);
    server.listen(&mut lp, 8, 42).unwrap();
    let ds = lp.process_io_event(&IoEvent::Incoming { stream: server.id, status: -104 });
    assert_eq!(ds.len(), 1);
    match &ds[0] {
        Dispatch::Connection { handle, cb, status } => {
            assert_eq!((*handle, *cb, *status), (server.id, 42, -104));
        },
        _ => unreachable!(),
    }
    // a failed attempt leaves nothing to accept
    assert_eq!(server.accept(&mut lp, client), Err(Error::OsError(CODE_WOULD_BLOCK)));
}

#[test]
fn read_start_twice_reports_already_active_and_keeps_first_callbacks() {
    let mut lp = Loop::new();
    let (_server, client) = accepted_pair(&mut lp);
    client.read_start(&mut lp, 10, 11).unwrap();
    assert_eq!(client.read_start(&mut lp, 20, 21), Err(Error::AlreadyActive));

    // the original callbacks stay in effect
    let ds = lp.process_io_event(&IoEvent::Data { stream: client.id, bytes: vec![7, 8, 9] });
    assert_eq!(ds.len(), 2);
    match &ds[0] {
        Dispatch::Alloc { handle, cb, suggested } => {
            assert_eq!((*handle, *cb, *suggested), (client.id, 10, 3));
        },
        _ => unreachable!(),
    }
    match &ds[1] {
        Dispatch::Read { handle, cb, outcome, bytes } => {
            assert_eq!((*handle, *cb), (client.id, 11));
            assert_eq!(*outcome, ReadOutcome::Data(3));
            assert_eq!(bytes, &vec![7, 8, 9]);
        },
        _ => unreachable!(),
    }
}

#[test]
fn end_of_stream_stops_the_read_loop() {
    let mut lp = Loop::new();
    let (_server, client) = accepted_pair(&mut lp);
    client.read_start(&mut lp, 1, 2).unwrap();
    let ds = lp.process_io_event(&IoEvent::Eof { stream: client.id });
    assert_eq!(ds.len(), 2);
    match &ds[1] {
        Dispatch::Read { outcome, bytes, .. } => {
            assert_eq!(*outcome, ReadOutcome::Eof);
            assert!(bytes.is_empty());
        },
        _ => unreachable!(),
    }
    assert!(!client.is_readable(&lp));
    // further data finds no reading stream and is dropped
    let ds = lp.process_io_event(&IoEvent::Data { stream: client.id, bytes: vec![1] });
    assert!(ds.is_empty());
    // a fresh read_start is legal again after the implicit stop
    assert_eq!(client.read_start(&mut lp, 3, 4), Ok(()));
}

#[test]
fn read_stop_is_idempotent() {
    let mut lp = Loop::new();
    let (_server, client) = accepted_pair(&mut lp);
    client.read_start(&mut lp, 1, 2).unwrap();
    assert_eq!(client.read_stop(&mut lp), Ok(()));
    assert_eq!(client.read_stop(&mut lp), Ok(()));
    let ds = lp.process_io_event(&IoEvent::Data { stream: client.id, bytes: vec![1] });
    assert!(ds.is_empty());
}

#[test]
fn peer_observes_buffers_in_submission_order() {
    let mut lp = Loop::new();
    let (_server, client) = accepted_pair(&mut lp);
    client.write(&mut lp, vec![vec![1], vec![2, 3], vec![4]], 100).unwrap();
    client.write(&mut lp, vec![vec![5, 6]], 101).unwrap();
    assert_eq!(client.get_write_queue_size(&lp), 6);

    let ds = lp.process_io_event(&IoEvent::Writable { stream: client.id });
    let done: Vec<u64> = ds
        .iter()
        .filter_map(|d| match d {
            Dispatch::WriteDone { cb, status: Status::Complete, .. } => Some(*cb),
            _ => None,
        })
        .collect();
    assert_eq!(done, vec![100, 101]);
    assert_eq!(client.delivered_bytes(&lp), &vec![1, 2, 3, 4, 5, 6]);
    assert_eq!(client.get_write_queue_size(&lp), 0);
}

#[test]
fn write2_transfers_the_handle_with_the_bytes() {
    let mut lp = Loop::new();
    let (_server, client) = accepted_pair(&mut lp);
    let sent = StreamHandle::new(&mut lp);
    client.write2(&mut lp, sent, vec![vec![9]], 7).unwrap();
    let _ = lp.process_io_event(&IoEvent::Writable { stream: client.id });
    assert_eq!(client.delivered_bytes(&lp), &vec![9]);
    assert_eq!(client.transferred_handles(&lp), &vec![sent.id]);
}

#[test]
fn try_write_never_queues() {
    let mut lp = Loop::new();
    let (_server, client) = accepted_pair(&mut lp);
    // empty queue: everything is written immediately
    assert_eq!(client.try_write(&mut lp, &vec![vec![1, 2], vec![3]]), Ok(3));
    assert_eq!(client.delivered_bytes(&lp), &vec![1, 2, 3]);
    assert_eq!(client.get_write_queue_size(&lp), 0);
    // with a request queued, nothing is written
    client.write(&mut lp, vec![vec![4]], 1).unwrap();
    assert_eq!(client.try_write(&mut lp, &vec![vec![5]]), Ok(0));
    assert_eq!(client.delivered_bytes(&lp), &vec![1, 2, 3]);
}

#[test]
fn try_write2_transfers_only_when_bytes_are_written() {
    let mut lp = Loop::new();
    let (_server, client) = accepted_pair(&mut lp);
    let sent = StreamHandle::new(&mut lp);
    assert_eq!(client.try_write2(&mut lp, sent, &vec![vec![1, 2]]), Ok(2));
    assert_eq!(client.delivered_bytes(&lp), &vec![1, 2]);
    assert_eq!(client.transferred_handles(&lp), &vec![sent.id]);
    // with a request queued, nothing is written and nothing is transferred
    client.write(&mut lp, vec![vec![3]], 1).unwrap();
    assert_eq!(client.try_write2(&mut lp, sent, &vec![vec![4]]), Ok(0));
    assert_eq!(client.transferred_handles(&lp), &vec![sent.id]);
}

#[test]
fn write_on_a_stream_without_an_open_write_side_is_refused() {
    let mut lp = Loop::new();
    let fresh = StreamHandle::new(&mut lp);
    assert_eq!(
        fresh.write(&mut lp, vec![vec![1]], 1),
        Err(Error::OsError(CODE_NOT_WRITABLE)),
    );
    assert_eq!(fresh.try_write(&mut lp, &vec![vec![1]]), Err(Error::OsError(CODE_NOT_WRITABLE)));
}

#[test]
fn shutdown_completes_after_the_queue_drains() {
    let mut lp = Loop::new();
    let (_server, client) = accepted_pair(&mut lp);
    client.write(&mut lp, vec![vec![1, 2]], 50).unwrap();
    client.shutdown(&mut lp, 60).unwrap();
    // a second shutdown while one is pending is refused
    assert_eq!(client.shutdown(&mut lp, 61), Err(Error::InvalidState));
    // writes after shutdown are refused
    assert_eq!(client.write(&mut lp, vec![vec![3]], 51), Err(Error::OsError(CODE_NOT_WRITABLE)));

    let ds = lp.process_io_event(&IoEvent::Writable { stream: client.id });
    assert_eq!(ds.len(), 2);
    assert!(matches!(ds[0], Dispatch::WriteDone { cb: 50, status: Status::Complete, .. }));
    assert!(matches!(ds[1], Dispatch::ShutdownDone { cb: 60, status: Status::Complete, .. }));
    assert_eq!(client.delivered_bytes(&lp), &vec![1, 2]);
    assert!(!client.is_writable(&lp));
}

#[test]
fn closing_a_stream_cancels_pending_requests_before_its_close_callback() {
    let mut lp = Loop::new();
    let (_server, client) = accepted_pair(&mut lp);
    client.write(&mut lp, vec![vec![1, 2, 3]], 100).unwrap();
    client.to_handle().close(&mut lp, Some(200)).unwrap();

    let empty: Vec<IoEvent> = Vec::new();
    let ds = lp.run_iteration(RunMode::NoWait, 0, &empty);
    let cancel_pos = ds.iter().position(|d| {
        matches!(d, Dispatch::WriteDone { cb: 100, status: Status::Cancelled, .. })
    });
    let close_pos = ds.iter().position(|d| matches!(d, Dispatch::Close { cb: 200, .. }));
    assert!(cancel_pos.is_some(), "pending request was not cancelled");
    assert!(close_pos.is_some(), "close callback did not fire");
    assert!(cancel_pos.unwrap() < close_pos.unwrap(), "cancel must precede the close callback");
    // the cancelled bytes never reached the peer
    assert!(client.delivered_bytes(&lp).is_empty());
}

#[test]
fn blocking_mode_makes_writes_complete_synchronously() {
    let mut lp = Loop::new();
    let (_server, client) = accepted_pair(&mut lp);
    assert_eq!(client.set_blocking(&mut lp, true), Ok(()));
    // the bytes reach the peer at submission, with nothing counted as queued
    client.write(&mut lp, vec![vec![1, 2], vec![3]], 70).unwrap();
    assert_eq!(client.delivered_bytes(&lp), &vec![1, 2, 3]);
    assert_eq!(client.get_write_queue_size(&lp), 0);
    // the completion callback still arrives through the loop
    let ds = lp.process_io_event(&IoEvent::Writable { stream: client.id });
    assert!(matches!(ds[0], Dispatch::WriteDone { cb: 70, status: Status::Complete, .. }));
    assert_eq!(client.delivered_bytes(&lp), &vec![1, 2, 3]);
    // the mode cannot be changed once the stream is closing
    client.to_handle().close(&mut lp, None).unwrap();
    assert_eq!(client.set_blocking(&mut lp, false), Err(Error::InvalidState));
}

#[test]
fn operations_on_a_closing_stream_are_refused() {
    let mut lp = Loop::new();
    let (server, client) = accepted_pair(&mut lp);
    client.to_handle().close(&mut lp, None).unwrap();
    // the duplex capability is gone the moment the close is requested
    assert!(!client.is_readable(&lp) && !client.is_writable(&lp));
    assert_eq!(client.read_start(&mut lp, 1, 2), Err(Error::InvalidState));
    assert_eq!(client.read_stop(&mut lp), Err(Error::InvalidState));
    assert_eq!(client.write(&mut lp, vec![vec![1]], 1), Err(Error::InvalidState));
    assert_eq!(client.try_write(&mut lp, &vec![vec![1]]), Err(Error::InvalidState));
    assert_eq!(client.shutdown(&mut lp, 1), Err(Error::InvalidState));
    assert_eq!(client.listen(&mut lp, 1, 1), Err(Error::InvalidState));
    assert_eq!(server.accept(&mut lp, client), Err(Error::InvalidState));
    // readiness for a closing stream is dropped
    let ds = lp.process_io_event(&IoEvent::Writable { stream: client.id });
    assert!(ds.is_empty());
}
