//! A mailbox fuses one FSM's message queue with its ownership cell, so
//! that a successful enqueue can immediately hand the idle FSM to a
//! scheduler: "enqueue, then wake if idle" as one operation.

use vstd::prelude::*;
use std::sync::Arc;
use std::sync::atomic::AtomicUsize;
use crate::fsm::Fsm;
use crate::fsm::FsmScheduler;
use crate::fsm::FsmState;
use crate::fsm::FsmStatus;
use crate::mpsc::CHECK_INTERVAL;
use crate::mpsc::LooseBoundedSender;
use crate::mpsc::SendError;
use crate::mpsc::TrySendError;

verus! {

/// The queue and the ownership cell of one FSM.
pub struct BasicMailbox<Owner: Fsm> {
    sender: LooseBoundedSender<Owner::Message>,
    state: FsmState<Owner>,
    /// Where the router registered this mailbox; schedulers carry it so
    /// that a worker can find the mailbox again on release.
    addr: u64,
}

impl<Owner: Fsm> BasicMailbox<Owner> {
    pub closed spec fn spec_sender(&self) -> LooseBoundedSender<Owner::Message> {
        self.sender
    }

    pub closed spec fn spec_state(&self) -> FsmState<Owner> {
        self.state
    }

    /// The sender side is still open.
    pub open spec fn spec_connected(&self) -> bool {
        self.spec_sender().spec_connected()
    }

    pub open spec fn spec_status(&self) -> FsmStatus {
        self.spec_state().spec_status()
    }

    pub open spec fn wf(&self) -> bool {
        self.spec_state().wf()
    }

    pub closed spec fn spec_addr(&self) -> u64 {
        self.addr
    }

    /// Record where the router registered this mailbox.
    pub(crate) fn set_addr(&mut self, addr: u64)
        ensures
            final(self).spec_addr() == addr,
            final(self).spec_sender() == old(self).spec_sender(),
            final(self).spec_state() == old(self).spec_state(),
    {
        self.addr = addr;
    }

    /// A mailbox for `fsm`, idle and owning it.
    pub fn new(
        sender: LooseBoundedSender<Owner::Message>,
        fsm: Box<Owner>,
        state_cnt: Arc<AtomicUsize>,
    ) -> (mb: BasicMailbox<Owner>)
        ensures
            mb.wf(),
            mb.spec_sender() == sender,
            mb.spec_status() == FsmStatus::Idle,
            mb.spec_state().spec_data() == Some(fsm),
    {
        BasicMailbox { sender, state: FsmState::new(fsm, state_cnt), addr: 0 }
    }

    pub fn is_connected(&self) -> (r: bool)
        ensures
            r == self.spec_connected(),
    {
        self.sender.is_sender_connected()
    }

    /// Return a driven FSM to its cell.
    pub fn release(&mut self, fsm: Box<Owner>)
        requires
            old(self).wf(),
            old(self).spec_state().spec_data() is None,
        ensures
            final(self).wf(),
            final(self).spec_state() == old(self).spec_state().spec_release_state(fsm),
            final(self).spec_sender() == old(self).spec_sender(),
            old(self).spec_status() == FsmStatus::Notified ==> final(self).spec_status()
                == FsmStatus::Idle && final(self).spec_state().spec_data() == Some(fsm),
            old(self).spec_status() != FsmStatus::Notified ==> final(self).spec_state() == old(self).spec_state(),
    {
        self.state.release(fsm)
    }

    /// Take the FSM out if its cell is idle.
    pub fn take_fsm(&mut self) -> (r: Option<Box<Owner>>)
        requires
            old(self).wf(),
        ensures
            final(self).wf(),
            r == old(self).spec_state().spec_take_result(),
            final(self).spec_state() == old(self).spec_state().spec_take_state(),
            final(self).spec_sender() == old(self).spec_sender(),
            old(self).spec_status() == FsmStatus::Idle ==> r == old(self).spec_state().spec_data()
                && final(self).spec_status() == FsmStatus::Notified && final(self).spec_state().spec_data() is None,
            old(self).spec_status() != FsmStatus::Idle ==> r is None && final(self).spec_state()
                == old(self).spec_state(),
    {
        self.state.take_fsm()
    }

    /// Whether the cell currently owns its FSM (nobody is driving it).
    pub fn has_fsm(&self) -> (r: bool)
        ensures
            r == (self.spec_state().spec_data() is Some),
    {
        self.state.has_fsm()
    }

    /// How many messages the queue held at the instant of the call.
    pub fn len(&self) -> usize {
        self.sender.len()
    }

    pub fn is_empty(&self) -> bool {
        self.sender.is_empty()
    }

    /// Enqueue whatever the queue length, then hand the FSM to
    /// `scheduler` if it was idle.  On a send failure the cell is left
    /// untouched and the message comes back.
    pub fn force_send<S: FsmScheduler<Fsm = Owner>>(
        &mut self,
        msg: Owner::Message,
        scheduler: &S,
    ) -> (r: Result<(), SendError<Owner::Message>>)
        requires
            old(self).wf(),
        ensures
            final(self).wf(),
            final(self).spec_connected() == old(self).spec_connected(),
            final(self).spec_sender().spec_limit() == old(self).spec_sender().spec_limit(),
            !old(self).spec_connected() ==> r is Err,
            r is Ok ==> old(self).spec_connected(),
            r matches Err(e) ==> e.0 == msg && final(self).spec_state() == old(self).spec_state(),
            r is Ok ==> final(self).spec_state() == old(self).spec_state().spec_take_state(),
    {
        match self.sender.force_send(msg) {
            Ok(()) => {
                self.state.notify(scheduler, self.addr);
                Ok(())
            },
            Err(e) => Err(e),
        }
    }

    /// Enqueue under the soft capacity, then hand the FSM to
    /// `scheduler` if it was idle.  On `Full` nothing changes at all;
    /// on `Disconnected` the cell is left untouched.
    pub fn try_send<S: FsmScheduler<Fsm = Owner>>(
        &mut self,
        msg: Owner::Message,
        scheduler: &S,
    ) -> (r: Result<(), TrySendError<Owner::Message>>)
        requires
            old(self).wf(),
        ensures
            final(self).wf(),
            final(self).spec_connected() == old(self).spec_connected(),
            final(self).spec_sender().spec_limit() == old(self).spec_sender().spec_limit(),
            !old(self).spec_connected() ==> r is Err,
            !old(self).spec_connected() && old(self).spec_sender().spec_tried_cnt()
                < CHECK_INTERVAL ==> (r matches Err(TrySendError::Disconnected(m)) && m == msg),
            r is Ok ==> old(self).spec_connected(),
            r matches Err(TrySendError::Full(m)) ==> m == msg && *final(self) == *old(self)
                && old(self).spec_sender().spec_tried_cnt() >= CHECK_INTERVAL,
            r matches Err(TrySendError::Disconnected(m)) ==> m == msg && final(self).spec_state()
                == old(self).spec_state(),
            r is Ok ==> final(self).spec_state() == old(self).spec_state().spec_take_state(),
    {
        match self.sender.try_send(msg) {
            Ok(()) => {
                self.state.notify(scheduler, self.addr);
                Ok(())
            },
            Err(e) => Err(e),
        }
    }

    /// Close the queue and make the cell terminal: an idle FSM is
    /// dropped here, a driven one will be dropped on its release.
    pub fn close(&mut self)
        ensures
            final(self).wf(),
            !final(self).spec_connected(),
            final(self).spec_status() == FsmStatus::Dropped,
            old(self).spec_status() == FsmStatus::Idle ==> final(self).spec_state().spec_data()
                is None,
            old(self).spec_status() != FsmStatus::Idle ==> final(self).spec_state().spec_data()
                == old(self).spec_state().spec_data(),
            final(self).spec_sender().spec_tried_cnt() == old(self).spec_sender().spec_tried_cnt(),
            final(self).spec_sender().spec_limit() == old(self).spec_sender().spec_limit(),
    {
        self.sender.close_sender();
        self.state.clear()
    }
}

} // verus!
