//! The per-actor ownership cell.
//!
//! Each FSM lives in a three-state cell: `Idle` with the boxed FSM
//! inside, `Notified` while a worker or scheduler queue owns the box,
//! or `Dropped` once the mailbox is closed.  Because the box moves in
//! and out of the cell by Rust ownership, it is owned by exactly one
//! place at every instant: the cell's data slot, the stack of whoever
//! took it, or a scheduler queue it was handed to.

use vstd::prelude::*;
use std::sync::Arc;
use std::sync::atomic::AtomicUsize;
use crate::util::counter_add_one;

verus! {

/// The scheduling tier of an FSM.
#[derive(Clone, Copy, Debug, PartialEq, Eq, Structural)]
pub enum Priority {
    Low,
    Normal,
}

/// A user-supplied actor: its message type, whether it has stopped,
/// and which tier it wants to run on.
///
/// The design this models also let an actor carry its own mailbox, set
/// during notification, so it could send itself work.  A single-owner
/// mailbox cannot be cloned into its actor, so that pair of hooks has
/// no counterpart here: an actor addresses itself through the router
/// by the address the schedulers carry alongside every scheduled box.
pub trait Fsm: Sized {
    type Message;

    fn is_stopped(&self) -> bool;

    fn get_priority(&self) -> Priority;
}

/// Accepts ready FSMs for a later handling round.
pub trait FsmScheduler: Sized {
    type Fsm: Fsm;

    /// Queue `fsm`, registered under `addr`, for a worker.
    fn schedule(&self, fsm: Box<Self::Fsm>, addr: u64);

    /// Wake every worker so it can observe shutdown.
    fn shutdown(&self);
}

/// The phase of an ownership cell.
#[derive(Clone, Copy, Debug, PartialEq, Eq, Structural)]
pub enum FsmStatus {
    /// The FSM is out being driven, or a release is mid-flight.
    Notified,
    /// The cell owns the FSM and nobody is driving it.
    Idle,
    /// Terminal: whoever holds the FSM must drop it on release.
    Dropped,
}

/// The ownership cell of one FSM.
pub struct FsmState<N> {
    status: FsmStatus,
    data: Option<Box<N>>,
    state_cnt: Arc<AtomicUsize>,
}

impl<N: Fsm> FsmState<N> {
    pub closed spec fn spec_status(&self) -> FsmStatus {
        self.status
    }

    pub closed spec fn spec_data(&self) -> Option<Box<N>> {
        self.data
    }

    /// An idle cell always owns its FSM.
    pub open spec fn wf(&self) -> bool {
        self.spec_status() == FsmStatus::Idle ==> self.spec_data() is Some
    }

    /// What a take hands out: the FSM exactly when the cell is idle.
    pub open spec fn spec_take_result(&self) -> Option<Box<N>> {
        if self.spec_status() == FsmStatus::Idle {
            self.spec_data()
        } else {
            None
        }
    }

    /// The cell after a take.
    pub closed spec fn spec_take_state(&self) -> FsmState<N> {
        if self.status == FsmStatus::Idle {
            FsmState { status: FsmStatus::Notified, data: None, state_cnt: self.state_cnt }
        } else {
            *self
        }
    }

    /// The cell after a release of `fsm`.
    pub closed spec fn spec_release_state(&self, fsm: Box<N>) -> FsmState<N> {
        if self.status == FsmStatus::Notified {
            FsmState { status: FsmStatus::Idle, data: Some(fsm), state_cnt: self.state_cnt }
        } else {
            *self
        }
    }

    /// A fresh idle cell owning `data`; bumps the shared creation
    /// counter.  The counter only ever grows: the verified model has no
    /// destructors, so destroyed cells are not subtracted.
    pub fn new(data: Box<N>, state_cnt: Arc<AtomicUsize>) -> (s: FsmState<N>)
        ensures
            s.wf(),
            s.spec_status() == FsmStatus::Idle,
            s.spec_data() == Some(data),
    {
        counter_add_one(&state_cnt);
        FsmState { status: FsmStatus::Idle, data: Some(data), state_cnt }
    }

    /// Whether the cell currently owns its FSM.
    pub fn has_fsm(&self) -> (r: bool)
        ensures
            r == (self.spec_data() is Some),
    {
        self.data.is_some()
    }

    /// Take the FSM out if the cell is idle; the caller becomes its
    /// sole owner.  On any other phase nothing changes.
    pub fn take_fsm(&mut self) -> (r: Option<Box<N>>)
        requires
            old(self).wf(),
        ensures
            final(self).wf(),
            r == old(self).spec_take_result(),
            *final(self) == old(self).spec_take_state(),
            old(self).spec_status() == FsmStatus::Idle ==> r is Some && final(self).spec_status()
                == FsmStatus::Notified && final(self).spec_data() is None,
            old(self).spec_status() != FsmStatus::Idle ==> r is None && *final(self) == *old(self),
    {
        if self.status == FsmStatus::Idle {
            self.status = FsmStatus::Notified;
            self.data.take()
        } else {
            None
        }
    }

    /// Return `fsm` to the cell.  A notified cell becomes idle and owns
    /// it again; a dropped cell is terminal, so `fsm` is dropped here.
    pub fn release(&mut self, fsm: Box<N>)
        requires
            old(self).wf(),
            old(self).spec_data() is None,
        ensures
            final(self).wf(),
            *final(self) == old(self).spec_release_state(fsm),
            old(self).spec_status() == FsmStatus::Notified ==> final(self).spec_status()
                == FsmStatus::Idle && final(self).spec_data() == Some(fsm),
            old(self).spec_status() != FsmStatus::Notified ==> *final(self) == *old(self),
    {
        if self.status == FsmStatus::Notified {
            self.data = Some(fsm);
            self.status = FsmStatus::Idle;
        }
    }

    /// Take the FSM out if the cell is idle and hand it to `scheduler`
    /// together with `addr`, where its mailbox is registered; if
    /// someone else is already driving it, do nothing.
    pub fn notify<S: FsmScheduler<Fsm = N>>(&mut self, scheduler: &S, addr: u64)
        requires
            old(self).wf(),
        ensures
            final(self).wf(),
            *final(self) == old(self).spec_take_state(),
            old(self).spec_status() == FsmStatus::Idle ==> final(self).spec_status()
                == FsmStatus::Notified && final(self).spec_data() is None,
            old(self).spec_status() != FsmStatus::Idle ==> *final(self) == *old(self),
    {
        match self.take_fsm() {
            None => {},
            Some(n) => {
                scheduler.schedule(n, addr);
            },
        }
    }

    /// Make the cell terminal.  An idle cell drops its FSM here; a
    /// notified cell leaves the drop to whoever currently drives it.
    pub fn clear(&mut self)
        ensures
            final(self).wf(),
            final(self).spec_status() == FsmStatus::Dropped,
            old(self).spec_status() == FsmStatus::Idle ==> final(self).spec_data() is None,
            old(self).spec_status() != FsmStatus::Idle ==> final(self).spec_data() == old(
                self,
            ).spec_data(),
    {
        match self.status {
            FsmStatus::Idle => {
                self.status = FsmStatus::Dropped;
                self.data = None;
            },
            _ => {
                self.status = FsmStatus::Dropped;
            },
        }
    }

    /// Law: a cell hands its FSM out exactly once.  A take yields the
    /// FSM precisely when the cell is idle, leaves the cell empty, and
    /// a second take from the resulting cell yields nothing until a
    /// release puts an FSM back.
    pub proof fn lemma_take_exclusive(&self)
        requires
            self.wf(),
        ensures
            self.spec_take_result() is Some <==> self.spec_status() == FsmStatus::Idle,
            self.spec_take_state().spec_data() is None || self.spec_status() != FsmStatus::Idle,
            self.spec_take_state().spec_take_result() is None,
    {
    }

    /// Law: a release followed by a take on a notified, empty cell is a
    /// round trip — the cell comes back exactly as it was.
    pub proof fn lemma_release_then_take_roundtrip(&self, fsm: Box<N>)
        requires
            self.spec_status() == FsmStatus::Notified,
            self.spec_data() is None,
        ensures
            self.spec_release_state(fsm).spec_take_state() == *self,
    {
    }

    /// Law: releasing the FSM taken from an idle cell makes the cell
    /// idle again, owning that FSM.
    pub proof fn lemma_take_then_release(&self, fsm: Box<N>)
        requires
            self.wf(),
            self.spec_status() == FsmStatus::Idle,
        ensures
            self.spec_take_state().spec_release_state(fsm).spec_status() == FsmStatus::Idle,
            self.spec_take_state().spec_release_state(fsm).spec_data() == Some(fsm),
    {
    }
}

} // verus!
