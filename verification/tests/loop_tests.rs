use evloop::addrinfo::AddrInfo;
use evloop::error::Error;
use evloop::event_loop::{Loop, RunMode};
use evloop::events::{phase_rank_of, Dispatch, IoEvent};
use evloop::handle::HandleType;
use evloop::stream::StreamHandle;
use evloop::timespec::TimeSpec;

#[test]
fn close_settles_after_exactly_one_iteration_with_one_close_callback() {
    let mut lp = Loop::new();
    let t = lp.timer();
    let h = t.to_handle();
    assert!(!h.is_closing(&lp));
    h.close(&mut lp, Some(7)).unwrap();
    assert!(h.is_closing(&lp), "close marks the handle synchronously");

    let empty: Vec<IoEvent> = Vec::new();
    let ds = lp.run_iteration(RunMode::NoWait, 0, &empty);
    let closes: Vec<&Dispatch> = ds
        .iter()
        .filter(|d| matches!(d, Dispatch::Close { .. }))
        .collect();
    assert_eq!(closes.len(), 1, "the close callback fires exactly once");
    match closes[0] {
        Dispatch::Close { handle, cb } => {
            assert_eq!((*handle, *cb), (t.id, 7));
        },
        _ => unreachable!(),
    }

    // closing twice is an error, before and after the handle settles
    assert_eq!(h.close(&mut lp, None), Err(Error::InvalidState));
    let ds = lp.run_iteration(RunMode::NoWait, 0, &empty);
    assert!(ds.iter().all(|d| !matches!(d, Dispatch::Close { .. })));
}

#[test]
fn close_without_callback_still_settles() {
    let mut lp = Loop::new();
    let p = lp.prepare();
    p.to_handle().close(&mut lp, None).unwrap();
    let empty: Vec<IoEvent> = Vec::new();
    let ds = lp.run_iteration(RunMode::NoWait, 0, &empty);
    assert!(ds.is_empty());
    assert!(p.to_handle().is_closing(&lp));
    assert!(!lp.alive());
}

#[test]
fn phases_never_interleave_within_an_iteration() {
    let mut lp = Loop::new();
    let p = lp.prepare();
    p.start(&mut lp, 1).unwrap();
    let c = lp.check();
    c.start(&mut lp, 2).unwrap();
    let t = lp.timer();
    t.start(&mut lp, 3, 0, 0).unwrap();
    let reader = StreamHandle::new(&mut lp);
    let listener = StreamHandle::new(&mut lp);
    listener.listen(&mut lp, 4, 40).unwrap();
    reader_setup(&mut lp, listener, reader);

    let events = vec![IoEvent::Data { stream: reader.id, bytes: vec![1, 2] }];
    let ds = lp.run_iteration(RunMode::NoWait, 0, &events);

    // timer, prepare, io, check - every phase is represented...
    assert!(ds.iter().any(|d| matches!(d, Dispatch::Timer { cb: 3, .. })));
    assert!(ds.iter().any(|d| matches!(d, Dispatch::Prepare { cb: 1, .. })));
    assert!(ds.iter().any(|d| matches!(d, Dispatch::Read { .. })));
    assert!(ds.iter().any(|d| matches!(d, Dispatch::Check { cb: 2, .. })));
    // ...and their ranks never go backwards: prepare strictly before the
    // iteration's I/O, check strictly after
    let ranks: Vec<u32> = ds.iter().map(phase_rank_of).collect();
    for w in ranks.windows(2) {
        assert!(w[0] <= w[1], "phase order violated: {:?}", ranks);
    }
}

fn reader_setup(lp: &mut Loop, listener: StreamHandle, reader: StreamHandle) {
    let _ = lp.process_io_event(&IoEvent::Incoming { stream: listener.id, status: 0 });
    listener.accept(lp, reader).unwrap();
    reader.read_start(lp, 10, 11).unwrap();
}

#[test]
fn unreferenced_handles_do_not_keep_the_loop_running() {
    let mut lp = Loop::new();
    let t = lp.timer();
    t.start(&mut lp, 1, 10, 10).unwrap();
    let h = t.to_handle();
    assert!(h.has_ref(&lp));
    assert!(lp.alive());

    h.unref(&mut lp);
    assert!(!h.has_ref(&lp));
    assert!(!lp.alive());
    let (iterations, _) = lp.run(RunMode::UntilDone, 100, 1000);
    assert_eq!(iterations, 0);

    // referencing is idempotent and restores loop-keeping
    h.ref_up(&mut lp);
    h.ref_up(&mut lp);
    assert!(h.has_ref(&lp));
    assert!(lp.alive());
}

#[test]
fn stop_requests_a_graceful_exit_and_is_consumed() {
    let mut lp = Loop::new();
    let t = lp.timer();
    t.start(&mut lp, 1, 10, 10).unwrap();
    lp.stop();
    let (iterations, _) = lp.run(RunMode::UntilDone, 100, 1000);
    assert_eq!(iterations, 0);
    // the stop request was consumed: the loop runs again afterwards
    let (iterations, _) = lp.run(RunMode::Once, 100, 1000);
    assert_eq!(iterations, 1);
}

#[test]
fn once_mode_runs_a_single_iteration() {
    let mut lp = Loop::new();
    let t = lp.timer();
    t.start(&mut lp, 1, 0, 5).unwrap();
    let (iterations, ds) = lp.run(RunMode::Once, 100, 1000);
    assert_eq!(iterations, 1);
    assert!(ds.iter().any(|d| matches!(d, Dispatch::Timer { .. })));
    assert!(lp.alive(), "the repeating timer still keeps the loop alive");
}

#[test]
fn poll_timeout_is_time_to_next_timer_capped_by_the_idle_ceiling() {
    let mut lp = Loop::new();
    assert_eq!(lp.poll_timeout(RunMode::UntilDone, 250), 0, "a finished loop never blocks");
    let t = lp.timer();
    t.start(&mut lp, 1, 50, 0).unwrap();
    assert_eq!(lp.poll_timeout(RunMode::UntilDone, 250), 50);
    assert_eq!(lp.poll_timeout(RunMode::UntilDone, 20), 20);
    assert_eq!(lp.poll_timeout(RunMode::NoWait, 250), 0);
    assert_eq!(lp.poll_timeout(RunMode::Once, 250), 0);
    t.to_handle().close(&mut lp, None).unwrap();
    assert_eq!(lp.poll_timeout(RunMode::UntilDone, 250), 0, "pending close work never blocks");
}

#[test]
fn next_timeout_looks_past_the_timers_about_to_fire() {
    let mut lp = Loop::new();
    let t = lp.timer();
    t.start(&mut lp, 1, 0, 30).unwrap();
    // the pre-iteration timeout is zero (a timer is due), but the coming
    // iteration fires it, reschedules it 30ms out, and advances the clock
    // by exactly what next_timeout reports - the sleep an embedder owes
    assert_eq!(lp.poll_timeout(RunMode::UntilDone, 1000), 0);
    assert_eq!(lp.next_timeout(RunMode::UntilDone, 1000), 30);
    let before = lp.now();
    let empty: Vec<IoEvent> = Vec::new();
    let _ = lp.run_iteration(RunMode::UntilDone, 1000, &empty);
    assert_eq!(lp.now() - before, 30);
    // and it is capped by the idle ceiling like the poll itself
    assert_eq!(lp.next_timeout(RunMode::UntilDone, 10), 10);
}

#[test]
fn prepare_and_check_hooks_toggle_with_start_and_stop() {
    let mut lp = Loop::new();
    let p = lp.prepare();
    let c = lp.check();
    let empty: Vec<IoEvent> = Vec::new();

    let ds = lp.run_iteration(RunMode::NoWait, 0, &empty);
    assert!(ds.is_empty(), "hooks that were never started do not run");

    p.start(&mut lp, 1).unwrap();
    c.start(&mut lp, 2).unwrap();
    let ds = lp.run_iteration(RunMode::NoWait, 0, &empty);
    assert!(matches!(ds[0], Dispatch::Prepare { cb: 1, .. }));
    assert!(matches!(ds[1], Dispatch::Check { cb: 2, .. }));

    // starting again replaces the stored callback wholesale
    p.start(&mut lp, 9).unwrap();
    let ds = lp.run_iteration(RunMode::NoWait, 0, &empty);
    assert!(matches!(ds[0], Dispatch::Prepare { cb: 9, .. }));

    p.stop(&mut lp).unwrap();
    c.stop(&mut lp).unwrap();
    let ds = lp.run_iteration(RunMode::NoWait, 0, &empty);
    assert!(ds.is_empty());
}

#[test]
fn handle_types_carry_their_names() {
    let mut lp = Loop::new();
    let t = lp.timer();
    let p = lp.prepare();
    let c = lp.check();
    let s = StreamHandle::new(&mut lp);
    assert_eq!(t.to_handle().get_type(&lp), HandleType::Timer);
    assert_eq!(p.to_handle().get_type(&lp), HandleType::Prepare);
    assert_eq!(c.to_handle().get_type(&lp), HandleType::Check);
    assert_eq!(s.to_handle().get_type(&lp), HandleType::Stream);
    assert_eq!(HandleType::Timer.name(), "timer");
    assert_eq!(HandleType::Prepare.name(), "prepare");
    assert_eq!(HandleType::Check.name(), "check");
    assert_eq!(HandleType::Stream.name(), "stream");
}

#[test]
fn plain_value_records_round_their_fields() {
    let ts = TimeSpec::new(12, 500);
    assert_eq!((ts.sec, ts.nsec), (12, 500));
    let ai = AddrInfo::new(1, 2, 3, 4, Some(String::from("example")));
    assert_eq!((ai.flags, ai.family, ai.socktype, ai.protocol), (1, 2, 3, 4));
    assert_eq!(ai.canonical_name.as_deref(), Some("example"));
    assert_eq!(Error::OsError(11), Error::OsError(11));
    assert_ne!(Error::OsError(11), Error::InvalidState);
}
