//! Prepare handles: hooks that run once per iteration, right before the poll
//! step.

use vstd::prelude::*;

use crate::error::Error;
use crate::event_loop::{record_at_mut, Loop};
use crate::handle::{Handle, HandlePayload, HandleRecord, LifecycleState, PrepareData};

verus! {

/// A prepare-hook handle, addressed by its index in its owning loop.
#[derive(Clone, Copy, Debug, PartialEq, Eq, Structural)]
pub struct PrepareHandle {
    pub id: usize,
}

impl PrepareHandle {
    /// Whether this handle names a prepare record of the given loop.
    pub open spec fn valid(self, lp: Loop) -> bool {
        self.id < lp.handles@.len() && lp.handles@[self.id as int].payload is Prepare
    }

    /// The base handle surface of this hook.
    pub fn to_handle(&self) -> (r: Handle)
        ensures
            r.id == self.id,
    {
        Handle { id: self.id }
    }

    /// Creates a prepare hook on the loop: initialized, referenced, not yet
    /// participating.
    pub fn new(lp: &mut Loop) -> (t: PrepareHandle)
        requires
            old(lp).wf(),
        ensures
            final(lp).wf(),
            t.id == old(lp).handles@.len(),
            t.valid(*final(lp)),
            final(lp).handles@ == old(lp).handles@.push(
                (HandleRecord {
                    state: LifecycleState::Initialized,
                    referenced: true,
                    close_cb: None,
                    payload: HandlePayload::Prepare((PrepareData { cb: None })),
                }),
            ),
            final(lp).now_ms == old(lp).now_ms,
            final(lp).stop_flag == old(lp).stop_flag,
            final(lp).next_start_order == old(lp).next_start_order,
    {
        let id = lp.handles.len();
        lp.handles.push(
            HandleRecord {
                state: LifecycleState::Initialized,
                referenced: true,
                close_cb: None,
                payload: HandlePayload::Prepare(PrepareData { cb: None }),
            },
        );
        PrepareHandle { id }
    }

    /// Starts the hook with the given callback, replacing any stored one
    /// wholesale. Refused on a closing or closed handle.
    pub fn start(&self, lp: &mut Loop, cb: u64) -> (r: Result<(), Error>)
        requires
            old(lp).wf(),
            self.valid(*old(lp)),
        ensures
            final(lp).wf(),
            self.valid(*final(lp)),
            final(lp).now_ms == old(lp).now_ms,
            final(lp).stop_flag == old(lp).stop_flag,
            final(lp).next_start_order == old(lp).next_start_order,
            ({
                let h = old(lp).handles@[self.id as int];
                if h.state is Closing || h.state is Closed {
                    r == Err::<(), Error>(Error::InvalidState) && final(lp).handles@ == old(
                        lp,
                    ).handles@
                } else {
                    r == Ok::<(), Error>(()) && final(lp).handles@ == old(lp).handles@.update(
                        self.id as int,
                        (HandleRecord {
                            state: LifecycleState::Active,
                            payload: HandlePayload::Prepare((PrepareData { cb: Some(cb) })),
                            ..h
                        }),
                    )
                }
            }),
    {
        let st = lp.handles[self.id].state;
        if st == LifecycleState::Closing || st == LifecycleState::Closed {
            return Err(Error::InvalidState);
        }
        let rec = record_at_mut(&mut lp.handles, self.id);
        rec.state = LifecycleState::Active;
        rec.payload = HandlePayload::Prepare(PrepareData { cb: Some(cb) });
        Ok(())
    }

    /// Stops the hook from participating; the stored callback is kept.
    /// Refused on a closing or closed handle.
    pub fn stop(&self, lp: &mut Loop) -> (r: Result<(), Error>)
        requires
            old(lp).wf(),
            self.valid(*old(lp)),
        ensures
            final(lp).wf(),
            self.valid(*final(lp)),
            final(lp).now_ms == old(lp).now_ms,
            final(lp).stop_flag == old(lp).stop_flag,
            final(lp).next_start_order == old(lp).next_start_order,
            ({
                let h = old(lp).handles@[self.id as int];
                if h.state is Closing || h.state is Closed {
                    r == Err::<(), Error>(Error::InvalidState) && final(lp).handles@ == old(
                        lp,
                    ).handles@
                } else {
                    r == Ok::<(), Error>(()) && final(lp).handles@ == old(lp).handles@.update(
                        self.id as int,
                        (HandleRecord { state: LifecycleState::Inactive, ..h }),
                    )
                }
            }),
    {
        let st = lp.handles[self.id].state;
        if st == LifecycleState::Closing || st == LifecycleState::Closed {
            return Err(Error::InvalidState);
        }
        let rec = record_at_mut(&mut lp.handles, self.id);
        rec.state = LifecycleState::Inactive;
        Ok(())
    }
}

impl Loop {
    /// Creates a prepare hook on this loop.
    pub fn prepare(&mut self) -> (t: PrepareHandle)
        requires
            old(self).wf(),
        ensures
            final(self).wf(),
            t.id == old(self).handles@.len(),
            t.valid(*final(self)),
            final(self).handles@ == old(self).handles@.push(
                (HandleRecord {
                    state: LifecycleState::Initialized,
                    referenced: true,
                    close_cb: None,
                    payload: HandlePayload::Prepare((PrepareData { cb: None })),
                }),
            ),
            final(self).now_ms == old(self).now_ms,
            final(self).stop_flag == old(self).stop_flag,
            final(self).next_start_order == old(self).next_start_order,
    {
        PrepareHandle::new(self)
    }
}

} // verus!
