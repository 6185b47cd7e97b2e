use evloop::error::Error;
use evloop::event_loop::{Loop, RunMode};
use evloop::events::{Dispatch, IoEvent};

fn timer_fires(ds: &[Dispatch]) -> Vec<(usize, u64)> {
    ds.iter()
        .filter_map(|d| match d {
            Dispatch::Timer { handle, cb } => Some((*handle, *cb)),
            _ => None,
        })
        .collect()
}

#[test]
fn one_shot_timer_fires_once_not_before_deadline() {
    let mut lp = Loop::new();
    let t = lp.timer();
    t.start(&mut lp, 5, 50, 0).unwrap();
    let empty: Vec<IoEvent> = Vec::new();

    let ds1 = lp.run_iteration(RunMode::UntilDone, 1000, &empty);
    assert!(timer_fires(&ds1).is_empty(), "fired before 50ms of simulated time");
    assert_eq!(lp.now(), 50);

    let ds2 = lp.run_iteration(RunMode::UntilDone, 1000, &empty);
    assert_eq!(timer_fires(&ds2), vec![(t.id, 5)]);
    assert!(!t.to_handle().is_active(&lp));

    let ds3 = lp.run_iteration(RunMode::UntilDone, 1000, &empty);
    assert!(timer_fires(&ds3).is_empty());
}

#[test]
fn repeating_timer_fires_at_10_then_every_30() {
    let mut lp = Loop::new();
    let t = lp.timer();
    t.start(&mut lp, 9, 10, 30).unwrap();
    let empty: Vec<IoEvent> = Vec::new();

    let mut fire_times: Vec<u64> = Vec::new();
    for _ in 0..5 {
        let at = lp.now();
        let ds = lp.run_iteration(RunMode::UntilDone, 1000, &empty);
        if !timer_fires(&ds).is_empty() {
            fire_times.push(at);
        }
    }
    assert_eq!(fire_times, vec![10, 40, 70, 100]);

    t.stop(&mut lp).unwrap();
    let ds = lp.run_iteration(RunMode::UntilDone, 1000, &empty);
    assert!(timer_fires(&ds).is_empty());
}

#[test]
fn start_on_active_timer_updates_in_place() {
    let mut lp = Loop::new();
    let t = lp.timer();
    t.start(&mut lp, 1, 50, 0).unwrap();
    // updating is no error and replaces the schedule wholesale
    t.start(&mut lp, 2, 10, 0).unwrap();
    let empty: Vec<IoEvent> = Vec::new();
    let _ = lp.run_iteration(RunMode::UntilDone, 1000, &empty);
    assert_eq!(lp.now(), 10);
    let ds = lp.run_iteration(RunMode::UntilDone, 1000, &empty);
    assert_eq!(timer_fires(&ds), vec![(t.id, 2)]);
}

#[test]
fn again_restarts_with_repeat_and_needs_a_first_start() {
    let mut lp = Loop::new();
    let t = lp.timer();
    assert_eq!(t.again(&mut lp), Err(Error::InvalidState));

    t.start(&mut lp, 3, 5, 25).unwrap();
    t.stop(&mut lp).unwrap();
    t.again(&mut lp).unwrap();
    let empty: Vec<IoEvent> = Vec::new();
    let _ = lp.run_iteration(RunMode::UntilDone, 1000, &empty);
    // again used the repeat value (25) as the new timeout
    assert_eq!(lp.now(), 25);
}

#[test]
fn set_repeat_changes_interval_without_touching_pending_firing() {
    let mut lp = Loop::new();
    let t = lp.timer();
    t.start(&mut lp, 4, 10, 30).unwrap();
    assert_eq!(t.get_repeat(&lp), 30);
    let empty: Vec<IoEvent> = Vec::new();

    let _ = lp.run_iteration(RunMode::UntilDone, 1000, &empty);
    let at = lp.now();
    let ds = lp.run_iteration(RunMode::UntilDone, 1000, &empty);
    assert!(!timer_fires(&ds).is_empty());
    assert_eq!(at, 10);

    // the firing at t=40 is already scheduled; a new interval starts only
    // from the next reschedule
    t.set_repeat(&mut lp, 100);
    assert_eq!(t.get_repeat(&lp), 100);
    let at = lp.now();
    let ds = lp.run_iteration(RunMode::UntilDone, 1000, &empty);
    assert!(!timer_fires(&ds).is_empty());
    assert_eq!(at, 40);

    let at = lp.now();
    let ds = lp.run_iteration(RunMode::UntilDone, 1000, &empty);
    assert!(!timer_fires(&ds).is_empty());
    assert_eq!(at, 140);
}

#[test]
fn due_timers_fire_in_deadline_order_with_ties_by_registration() {
    let mut lp = Loop::new();
    let a = lp.timer();
    let b = lp.timer();
    let c = lp.timer();
    // register c first so registration order, not handle order, breaks ties
    c.start(&mut lp, 30, 5, 0).unwrap();
    a.start(&mut lp, 10, 5, 0).unwrap();
    b.start(&mut lp, 20, 2, 0).unwrap();
    let empty: Vec<IoEvent> = Vec::new();
    let _ = lp.run_iteration(RunMode::UntilDone, 1000, &empty);
    // b is earliest (2ms) and fires alone
    let ds = lp.run_iteration(RunMode::UntilDone, 1000, &empty);
    assert_eq!(timer_fires(&ds), vec![(b.id, 20)]);
    // c and a tie at 5ms and fire in start-registration order: c, then a
    let ds = lp.run_iteration(RunMode::UntilDone, 1000, &empty);
    assert_eq!(timer_fires(&ds), vec![(c.id, 30), (a.id, 10)]);
}

#[test]
fn zero_timeout_timer_runs_loop_exactly_one_iteration() {
    let mut lp = Loop::new();
    let t = lp.timer();
    t.start(&mut lp, 8, 0, 0).unwrap();
    assert!(lp.alive());
    let (iterations, ds) = lp.run(RunMode::UntilDone, 1000, 1000);
    assert_eq!(iterations, 1);
    assert_eq!(timer_fires(&ds), vec![(t.id, 8)]);
    assert!(!lp.alive());
}

#[test]
fn timer_start_on_closing_handle_is_refused() {
    let mut lp = Loop::new();
    let t = lp.timer();
    t.to_handle().close(&mut lp, None).unwrap();
    assert_eq!(t.start(&mut lp, 1, 10, 0), Err(Error::InvalidState));
    assert_eq!(t.stop(&mut lp), Err(Error::InvalidState));
}
