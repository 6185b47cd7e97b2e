//! Timer handles: callbacks scheduled for deadlines on the loop's clock.

use vstd::prelude::*;

use crate::error::Error;
use crate::event_loop::{record_at_mut, sat_add, sat_add_spec, Loop};
use crate::handle::{timer_of, Handle, HandlePayload, HandleRecord, LifecycleState, TimerData};

verus! {

/// A timer handle, addressed by its index in its owning loop.
#[derive(Clone, Copy, Debug, PartialEq, Eq, Structural)]
pub struct TimerHandle {
    pub id: usize,
}

impl TimerHandle {
    /// Whether this handle names a timer record of the given loop.
    pub open spec fn valid(self, lp: Loop) -> bool {
        self.id < lp.handles@.len() && lp.handles@[self.id as int].payload is Timer
    }

    /// The base handle surface of this timer.
    pub fn to_handle(&self) -> (r: Handle)
        ensures
            r.id == self.id,
    {
        Handle { id: self.id }
    }

    /// Creates a timer on the loop: initialized, referenced, not yet
    /// scheduled.
    pub fn new(lp: &mut Loop) -> (t: TimerHandle)
        requires
            old(lp).wf(),
        ensures
            final(lp).wf(),
            t.id == old(lp).handles@.len(),
            t.valid(*final(lp)),
            final(lp).handles@ == old(lp).handles@.push(
                (HandleRecord {
                    state: LifecycleState::Initialized,
                    referenced: true,
                    close_cb: None,
                    payload: HandlePayload::Timer(
                        (TimerData { cb: None, due: 0, repeat: 0, start_order: 0 }),
                    ),
                }),
            ),
            final(lp).now_ms == old(lp).now_ms,
            final(lp).stop_flag == old(lp).stop_flag,
            final(lp).next_start_order == old(lp).next_start_order,
    {
        let id = lp.handles.len();
        lp.handles.push(
            HandleRecord {
                state: LifecycleState::Initialized,
                referenced: true,
                close_cb: None,
                payload: HandlePayload::Timer(TimerData { cb: None, due: 0, repeat: 0, start_order: 0 }),
            },
        );
        TimerHandle { id }
    }

    /// Schedules the callback to fire once `timeout` milliseconds from now
    /// and then, if `repeat > 0`, every `repeat` milliseconds. On an already
    /// active timer the schedule and callback are simply replaced. Refused
    /// only on a closing or closed handle.
    pub fn start(&self, lp: &mut Loop, cb: u64, timeout: u64, repeat: u64) -> (r: Result<
        (),
        Error,
    >)
        requires
            old(lp).wf(),
            self.valid(*old(lp)),
        ensures
            final(lp).wf(),
            self.valid(*final(lp)),
            final(lp).now_ms == old(lp).now_ms,
            final(lp).stop_flag == old(lp).stop_flag,
            ({
                let h = old(lp).handles@[self.id as int];
                if h.state is Closing || h.state is Closed {
                    r == Err::<(), Error>(Error::InvalidState) && final(lp).handles@ == old(
                        lp,
                    ).handles@ && final(lp).next_start_order == old(lp).next_start_order
                } else {
                    r == Ok::<(), Error>(()) && final(lp).handles@ == old(lp).handles@.update(
                        self.id as int,
                        (HandleRecord {
                            state: LifecycleState::Active,
                            payload: HandlePayload::Timer(
                                (TimerData {
                                    cb: Some(cb),
                                    due: sat_add_spec(old(lp).now_ms, timeout),
                                    repeat: repeat,
                                    start_order: old(lp).next_start_order,
                                }),
                            ),
                            ..h
                        }),
                    ) && final(lp).next_start_order == sat_add_spec(old(lp).next_start_order, 1)
                }
            }),
    {
        let st = lp.handles[self.id].state;
        if st == LifecycleState::Closing || st == LifecycleState::Closed {
            return Err(Error::InvalidState);
        }
        let due = sat_add(lp.now_ms, timeout);
        let order = lp.next_start_order;
        lp.next_start_order = sat_add(order, 1);
        let rec = record_at_mut(&mut lp.handles, self.id);
        rec.state = LifecycleState::Active;
        rec.payload = HandlePayload::Timer(
            TimerData { cb: Some(cb), due, repeat, start_order: order },
        );
        Ok(())
    }

    /// Cancels future firings; the schedule and callback stay stored.
    /// Refused on a closing or closed handle.
    pub fn stop(&self, lp: &mut Loop) -> (r: Result<(), Error>)
        requires
            old(lp).wf(),
            self.valid(*old(lp)),
        ensures
            final(lp).wf(),
            self.valid(*final(lp)),
            final(lp).now_ms == old(lp).now_ms,
            final(lp).stop_flag == old(lp).stop_flag,
            final(lp).next_start_order == old(lp).next_start_order,
            ({
                let h = old(lp).handles@[self.id as int];
                if h.state is Closing || h.state is Closed {
                    r == Err::<(), Error>(Error::InvalidState) && final(lp).handles@ == old(
                        lp,
                    ).handles@
                } else {
                    r == Ok::<(), Error>(()) && final(lp).handles@ == old(lp).handles@.update(
                        self.id as int,
                        (HandleRecord { state: LifecycleState::Inactive, ..h }),
                    )
                }
            }),
    {
        let st = lp.handles[self.id].state;
        if st == LifecycleState::Closing || st == LifecycleState::Closed {
            return Err(Error::InvalidState);
        }
        let rec = record_at_mut(&mut lp.handles, self.id);
        rec.state = LifecycleState::Inactive;
        Ok(())
    }

    /// Stops the timer and restarts it with the stored repeat interval as
    /// the new timeout. Refused on a closing or closed handle, and on a
    /// timer that was never started.
    pub fn again(&self, lp: &mut Loop) -> (r: Result<(), Error>)
        requires
            old(lp).wf(),
            self.valid(*old(lp)),
        ensures
            final(lp).wf(),
            self.valid(*final(lp)),
            final(lp).now_ms == old(lp).now_ms,
            final(lp).stop_flag == old(lp).stop_flag,
            ({
                let h = old(lp).handles@[self.id as int];
                let t = timer_of(h);
                if h.state is Closing || h.state is Closed || t.cb is None {
                    r == Err::<(), Error>(Error::InvalidState) && final(lp).handles@ == old(
                        lp,
                    ).handles@ && final(lp).next_start_order == old(lp).next_start_order
                } else {
                    r == Ok::<(), Error>(()) && final(lp).handles@ == old(lp).handles@.update(
                        self.id as int,
                        (HandleRecord {
                            state: LifecycleState::Active,
                            payload: HandlePayload::Timer(
                                (TimerData {
                                    due: sat_add_spec(old(lp).now_ms, t.repeat),
                                    start_order: old(lp).next_start_order,
                                    ..t
                                }),
                            ),
                            ..h
                        }),
                    ) && final(lp).next_start_order == sat_add_spec(old(lp).next_start_order, 1)
                }
            }),
    {
        let st = lp.handles[self.id].state;
        if st == LifecycleState::Closing || st == LifecycleState::Closed {
            return Err(Error::InvalidState);
        }
        let (cb, repeat) = match &lp.handles[self.id].payload {
            HandlePayload::Timer(t) => (t.cb, t.repeat),
            _ => vstd::pervasive::unreached(),
        };
        let cb = match cb {
            Some(c) => c,
            None => { return Err(Error::InvalidState) },
        };
        let due = sat_add(lp.now_ms, repeat);
        let order = lp.next_start_order;
        lp.next_start_order = sat_add(order, 1);
        let rec = record_at_mut(&mut lp.handles, self.id);
        rec.state = LifecycleState::Active;
        rec.payload = HandlePayload::Timer(
            TimerData { cb: Some(cb), due, repeat, start_order: order },
        );
        Ok(())
    }

    /// Changes the repeat interval. The change does not touch an already
    /// scheduled pending firing: it takes effect from the next reschedule.
    pub fn set_repeat(&self, lp: &mut Loop, repeat: u64)
        requires
            old(lp).wf(),
            self.valid(*old(lp)),
        ensures
            final(lp).wf(),
            self.valid(*final(lp)),
            final(lp).now_ms == old(lp).now_ms,
            final(lp).stop_flag == old(lp).stop_flag,
            final(lp).next_start_order == old(lp).next_start_order,
            final(lp).handles@ == old(lp).handles@.update(
                self.id as int,
                (HandleRecord {
                    payload: HandlePayload::Timer(
                        (TimerData { repeat: repeat, ..timer_of(old(lp).handles@[self.id as int]) }),
                    ),
                    ..old(lp).handles@[self.id as int]
                }),
            ),
    {
        let rec = record_at_mut(&mut lp.handles, self.id);
        match &mut rec.payload {
            HandlePayload::Timer(t) => {
                t.repeat = repeat;
            },
            _ => {
                proof {
                    assert(false);
                }
            },
        }
    }

    /// The current repeat interval.
    pub fn get_repeat(&self, lp: &Loop) -> (r: u64)
        requires
            self.valid(*lp),
        ensures
            r == timer_of(lp.handles@[self.id as int]).repeat,
    {
        match &lp.handles[self.id].payload {
            HandlePayload::Timer(t) => t.repeat,
            _ => vstd::pervasive::unreached(),
        }
    }
}

impl Loop {
    /// Creates a timer on this loop.
    pub fn timer(&mut self) -> (t: TimerHandle)
        requires
            old(self).wf(),
        ensures
            final(self).wf(),
            t.id == old(self).handles@.len(),
            t.valid(*final(self)),
            final(self).handles@ == old(self).handles@.push(
                (HandleRecord {
                    state: LifecycleState::Initialized,
                    referenced: true,
                    close_cb: None,
                    payload: HandlePayload::Timer(
                        (TimerData { cb: None, due: 0, repeat: 0, start_order: 0 }),
                    ),
                }),
            ),
            final(self).now_ms == old(self).now_ms,
            final(self).stop_flag == old(self).stop_flag,
            final(self).next_start_order == old(self).next_start_order,
    {
        TimerHandle::new(self)
    }
}

} // verus!
