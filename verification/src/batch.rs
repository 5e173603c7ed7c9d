//! The worker loop: schedulers feed ready FSMs through two priority
//! channels, a poller gathers them into batches, drives the
//! user-supplied handler across each batch, and then releases, drops or
//! reschedules every FSM according to the handler's verdicts and the
//! hot-FSM fairness rule.

use vstd::prelude::*;
use crate::config::Config;
use crate::fsm::Fsm;
use crate::fsm::FsmScheduler;
use crate::fsm::FsmStatus;
use crate::fsm::Priority;
use crate::mailbox::BasicMailbox;
use crate::mpsc::LooseBoundedSender;
use crate::mpsc::Receiver;
use crate::mpsc::Sender;
use crate::mpsc::unbounded;
use crate::router::Router;
use crate::util::counter_clone;
use crate::util::counter_new;

verus! {

/// What travels through a scheduler channel: a ready normal FSM with
/// its address, the control FSM, or a shutdown sentinel.
pub enum FsmTypes<N, C> {
    Normal(Box<N>, u64),
    Control(Box<C>),
    /// A signal that the receiving worker should wind down.
    Empty,
}

/// One message slot of wall-clock time, opaque to the verifier.
#[verifier::external_type_specification]
#[verifier::external_body]
pub struct ExInstant(std::time::Instant);

/// Relies on std::time::Instant::now: a fresh monotonic timestamp.
#[verifier::external_body]
fn instant_now() -> std::time::Instant {
    std::time::Instant::now()
}

/// Relies on std::time::Instant::elapsed: whole milliseconds since the
/// timestamp was taken; depends on the clock, so nothing is promised.
#[verifier::external_body]
fn elapsed_millis(t: &std::time::Instant) -> u64 {
    t.elapsed().as_millis() as u64
}

/// Feeds normal FSMs to the worker pools, picking the channel by the
/// FSM's own priority.
#[verifier::reject_recursive_types(N)]
#[verifier::reject_recursive_types(C)]
pub struct NormalScheduler<N, C> {
    sender: Sender<FsmTypes<N, C>>,
    low_sender: Sender<FsmTypes<N, C>>,
    /// How many shutdown sentinels to post per channel: enough to wake
    /// every worker of the larger pool, with slack.
    sentinels: usize,
}

impl<N: Fsm, C: Fsm> FsmScheduler for NormalScheduler<N, C> {
    type Fsm = N;

    fn schedule(&self, fsm: Box<Self::Fsm>, addr: u64) {
        let prio = fsm.get_priority();
        let sender = match prio {
            Priority::Normal => &self.sender,
            Priority::Low => &self.low_sender,
        };
        let _ = sender.send(FsmTypes::Normal(fsm, addr));
    }

    fn shutdown(&self) {
        let n = self.sentinels;
        let mut i: usize = 0;
        while i < n
            invariant
                i <= n,
            decreases n - i,
        {
            let _ = self.sender.send(FsmTypes::Empty);
            let _ = self.low_sender.send(FsmTypes::Empty);
            i = i + 1;
        }
    }
}

/// Feeds the control FSM to the worker pools; control work is always
/// tagged as control, whatever channel it rides on.
#[verifier::reject_recursive_types(N)]
#[verifier::reject_recursive_types(C)]
pub struct ControlScheduler<N, C> {
    sender: Sender<FsmTypes<N, C>>,
    low_sender: Sender<FsmTypes<N, C>>,
    /// How many shutdown sentinels to post per channel: enough to wake
    /// every worker of the larger pool, with slack.
    sentinels: usize,
}

impl<N: Fsm, C: Fsm> FsmScheduler for ControlScheduler<N, C> {
    type Fsm = C;

    fn schedule(&self, fsm: Box<Self::Fsm>, _addr: u64) {
        let prio = fsm.get_priority();
        let sender = match prio {
            Priority::Normal => &self.sender,
            Priority::Low => &self.low_sender,
        };
        let _ = sender.send(FsmTypes::Control(fsm));
    }

    fn shutdown(&self) {
        let n = self.sentinels;
        let mut i: usize = 0;
        while i < n
            invariant
                i <= n,
            decreases n - i,
        {
            let _ = self.sender.send(FsmTypes::Empty);
            let _ = self.low_sender.send(FsmTypes::Empty);
            i = i + 1;
        }
    }
}

/// A router wired to the two standard schedulers.
pub type BatchRouter<N, C> = Router<N, C, NormalScheduler<N, C>, ControlScheduler<N, C>>;

/// The FSMs one worker is currently driving: normal FSMs with their
/// addresses and entry timestamps, plus at most one control FSM.
pub struct Batch<N, C> {
    normals: Vec<Box<N>>,
    addrs: Vec<u64>,
    timers: Vec<std::time::Instant>,
    control: Option<Box<C>>,
}

impl<N: Fsm, C: Fsm> Batch<N, C> {
    pub closed spec fn spec_normals(&self) -> Seq<Box<N>> {
        self.normals@
    }

    pub closed spec fn spec_addrs(&self) -> Seq<u64> {
        self.addrs@
    }

    pub closed spec fn spec_control(&self) -> Option<Box<C>> {
        self.control
    }

    /// One address and one timer per normal FSM.
    pub closed spec fn wf(&self) -> bool {
        self.normals@.len() == self.addrs@.len() && self.normals@.len() == self.timers@.len()
    }

    pub fn with_capacity(cap: usize) -> (b: Batch<N, C>)
        ensures
            b.wf(),
            b.spec_normals().len() == 0,
            b.spec_control() is None,
    {
        Batch {
            normals: Vec::with_capacity(cap),
            addrs: Vec::with_capacity(cap),
            timers: Vec::with_capacity(cap),
            control: None,
        }
    }

    /// Add what a scheduler channel delivered.  A sentinel adds nothing
    /// and reports that the worker should wind down.
    pub fn push(&mut self, fsm: FsmTypes<N, C>) -> (r: bool)
        requires
            old(self).wf(),
            fsm is Control ==> old(self).spec_control() is None,
        ensures
            final(self).wf(),
            (match fsm {
                FsmTypes::Normal(n, a) => r && final(self).spec_normals() == old(self).spec_normals().push(n) && final(self).spec_addrs() == old(self).spec_addrs().push(a) && final(self).spec_control() == old(self).spec_control(),
                FsmTypes::Control(c) => r && final(self).spec_control() == Some(c) && final(self).spec_normals() == old(self).spec_normals() && final(self).spec_addrs() == old(self).spec_addrs(),
                FsmTypes::Empty => !r && *final(self) == *old(self),
            }),
    {
        match fsm {
            FsmTypes::Normal(n, a) => {
                self.normals.push(n);
                self.addrs.push(a);
                self.timers.push(instant_now());
                true
            },
            FsmTypes::Control(c) => {
                self.control = Some(c);
                true
            },
            FsmTypes::Empty => false,
        }
    }

    pub fn is_empty(&self) -> (r: bool)
        ensures
            r == (self.spec_normals().len() == 0 && self.spec_control() is None),
    {
        self.normals.len() == 0 && self.control.is_none()
    }

    pub fn has_control(&self) -> (r: bool)
        ensures
            r == (self.spec_control() is Some),
    {
        self.control.is_some()
    }

    pub fn len(&self) -> (r: usize)
        ensures
            r == self.spec_normals().len(),
    {
        self.normals.len()
    }

    /// Drop every FSM still in the batch.
    pub fn clear(&mut self)
        ensures
            final(self).wf(),
            final(self).spec_normals().len() == 0,
            final(self).spec_control() is None,
    {
        self.normals.clear();
        self.addrs.clear();
        self.timers.clear();
        self.control = None;
    }

    /// Drop the FSM at `index` on the spot: its actor was closed while
    /// it was being driven, so there is no cell to return it to.
    pub fn drop_at(&mut self, index: usize)
        requires
            old(self).wf(),
            index < old(self).spec_normals().len(),
        ensures
            final(self).wf(),
            final(self).spec_control() == old(self).spec_control(),
            final(self).spec_normals() == old(self).spec_normals().update(
                index as int,
                old(self).spec_normals().last(),
            ).drop_last(),
            final(self).spec_addrs() == old(self).spec_addrs().update(
                index as int,
                old(self).spec_addrs().last(),
            ).drop_last(),
    {
        let _fsm = self.normals.swap_remove(index);
        let _addr = self.addrs.swap_remove(index);
        self.timers.swap_remove(index);
    }

    /// Return the FSM at `index` to `mailbox`.  If messages arrived
    /// beyond the `checked_len` the handler saw, the FSM is taken right
    /// back and stays in the batch at `index`; otherwise it leaves the
    /// batch.
    pub fn release(&mut self, index: usize, checked_len: usize, mailbox: &mut BasicMailbox<N>)
        requires
            old(self).wf(),
            index < old(self).spec_normals().len(),
            old(mailbox).wf(),
            old(mailbox).spec_state().spec_data() is None,
        ensures
            final(self).wf(),
            final(mailbox).wf(),
            final(mailbox).spec_sender() == old(mailbox).spec_sender(),
            final(self).spec_control() == old(self).spec_control(),
            // either the FSM left the batch into its cell ...
            (final(self).spec_normals() == old(self).spec_normals().update(
                index as int,
                old(self).spec_normals().last(),
            ).drop_last() && final(self).spec_addrs() == old(self).spec_addrs().update(
                index as int,
                old(self).spec_addrs().last(),
            ).drop_last() && final(mailbox).spec_state() == old(mailbox).spec_state().spec_release_state(old(self).spec_normals()[index as int]))
            // ... or it was taken straight back: the cell saw a release
            // and then a take of the same FSM, which is a round trip
            // (see FsmState::lemma_release_then_take_roundtrip)
            || (final(self).spec_normals() == old(self).spec_normals() && final(self).spec_addrs()
                == old(self).spec_addrs() && final(mailbox).spec_state() == old(mailbox).spec_state().spec_release_state(
                old(self).spec_normals()[index as int],
            ).spec_take_state()),
    {
        let fsm = self.normals.swap_remove(index);
        let addr = self.addrs.swap_remove(index);
        mailbox.release(fsm);
        if mailbox.len() == checked_len {
            self.timers.swap_remove(index);
        } else {
            match mailbox.take_fsm() {
                None => {
                    self.timers.swap_remove(index);
                },
                Some(s) => {
                    let last_len = self.normals.len();
                    self.normals.push(s);
                    self.addrs.push(addr);
                    if index < last_len {
                        let moved = self.normals.swap_remove(index);
                        self.normals.push(moved);
                        let moved_addr = self.addrs.swap_remove(index);
                        self.addrs.push(moved_addr);
                    }
                    proof {
                        assert(self.spec_normals() =~= old(self).spec_normals());
                        assert(self.spec_addrs() =~= old(self).spec_addrs());
                    }
                },
            }
        }
    }

    /// Remove the stopped FSM at `index`: if its mailbox is drained it
    /// is released for the last time, otherwise it stays in the batch
    /// to drain the rest.
    pub fn remove(&mut self, index: usize, mailbox: &mut BasicMailbox<N>)
        requires
            old(self).wf(),
            index < old(self).spec_normals().len(),
            old(mailbox).wf(),
            old(mailbox).spec_state().spec_data() is None,
        ensures
            final(self).wf(),
            final(mailbox).wf(),
            final(mailbox).spec_sender() == old(mailbox).spec_sender(),
            final(self).spec_control() == old(self).spec_control(),
            // either the stopped FSM left the batch into its cell ...
            (final(self).spec_normals() == old(self).spec_normals().update(
                index as int,
                old(self).spec_normals().last(),
            ).drop_last() && final(self).spec_addrs() == old(self).spec_addrs().update(
                index as int,
                old(self).spec_addrs().last(),
            ).drop_last() && final(mailbox).spec_state() == old(mailbox).spec_state().spec_release_state(old(self).spec_normals()[index as int]))
            // ... or its queue was not drained and nothing moved
            || (final(self).spec_normals() == old(self).spec_normals() && final(self).spec_addrs()
                == old(self).spec_addrs() && *final(mailbox) == *old(mailbox)),
    {
        if mailbox.is_empty() {
            let fsm = self.normals.swap_remove(index);
            let _addr = self.addrs.swap_remove(index);
            self.timers.swap_remove(index);
            mailbox.release(fsm);
        }
    }

    /// Hand the FSM at `index` back to the normal scheduler for a later
    /// round.
    pub fn reschedule(&mut self, router: &BatchRouter<N, C>, index: usize)
        requires
            old(self).wf(),
            index < old(self).spec_normals().len(),
        ensures
            final(self).wf(),
            final(self).spec_control() == old(self).spec_control(),
            final(self).spec_normals() == old(self).spec_normals().update(
                index as int,
                old(self).spec_normals().last(),
            ).drop_last(),
            final(self).spec_addrs() == old(self).spec_addrs().update(
                index as int,
                old(self).spec_addrs().last(),
            ).drop_last(),
    {
        let fsm = self.normals.swap_remove(index);
        let addr = self.addrs.swap_remove(index);
        self.timers.swap_remove(index);
        router.schedule_fsm(fsm, addr);
    }

    /// Return the control FSM to its mailbox; if messages arrived
    /// beyond the `checked_len` the handler saw, take it right back.
    /// True means the batch no longer holds the control FSM.
    pub fn release_control(&mut self, control_box: &mut BasicMailbox<C>, checked_len: usize) -> (r:
        bool)
        requires
            old(self).wf(),
            old(self).spec_control() is Some,
            old(control_box).wf(),
            old(control_box).spec_state().spec_data() is None,
        ensures
            final(self).wf(),
            final(control_box).wf(),
            final(control_box).spec_sender() == old(control_box).spec_sender(),
            final(self).spec_normals() == old(self).spec_normals(),
            final(self).spec_addrs() == old(self).spec_addrs(),
            r <==> final(self).spec_control() is None,
            // the control FSM reached its cell ...
            r ==> final(control_box).spec_state() == old(control_box).spec_state().spec_release_state(old(self).spec_control().unwrap()),
            // ... or it was taken straight back, a cell round trip
            !r ==> final(self).spec_control() == old(self).spec_control() && final(control_box).spec_state() == old(control_box).spec_state().spec_release_state(
                old(self).spec_control().unwrap(),
            ).spec_take_state() && final(control_box).spec_state().spec_data() is None,
    {
        let s = self.control.take().unwrap();
        control_box.release(s);
        if control_box.len() == checked_len {
            true
        } else {
            match control_box.take_fsm() {
                None => true,
                Some(s) => {
                    self.control = Some(s);
                    false
                },
            }
        }
    }

    /// Drop the stopped control FSM back into its mailbox if the
    /// mailbox is drained; otherwise keep it to drain the rest.
    pub fn remove_control(&mut self, control_box: &mut BasicMailbox<C>)
        requires
            old(self).wf(),
            old(self).spec_control() is Some,
            old(control_box).wf(),
            old(control_box).spec_state().spec_data() is None,
        ensures
            final(self).wf(),
            final(control_box).wf(),
            final(control_box).spec_sender() == old(control_box).spec_sender(),
            final(self).spec_normals() == old(self).spec_normals(),
            final(self).spec_addrs() == old(self).spec_addrs(),
            // either the control FSM left the batch into its cell ...
            (final(self).spec_control() is None && final(control_box).spec_state() == old(control_box).spec_state().spec_release_state(old(self).spec_control().unwrap()))
            // ... or its queue was not drained and nothing moved
            || (final(self).spec_control() == old(self).spec_control() && *final(control_box)
                == *old(control_box)),
    {
        if control_box.is_empty() {
            let s = self.control.take().unwrap();
            control_box.release(s);
        }
    }
}

/// Drives one batch of FSMs per round, observing each FSM's readiness.
/// The `Option<usize>` the handlers return is a length hint: the
/// mailbox length observed after draining, used to decide whether new
/// messages arrived behind the handler's back.
pub trait PollHandler<N, C>: Sized {
    /// Called at the start of every round with the batch cap.
    fn begin(&mut self, batch_size: usize);

    /// Handle readiness of the control FSM.
    fn handle_control(&mut self, control: &mut C) -> Option<usize>;

    /// Handle readiness of one normal FSM.
    fn handle_normal(&mut self, normal: &mut N) -> Option<usize>;

    /// Called at the end of every round with the surviving normals.
    /// The handler may rework the FSMs but hands back as many as it
    /// was given.
    fn end(&mut self, batch: &mut [Box<N>])
        ensures
            final(batch)@.len() == old(batch)@.len(),
    ;

    /// Called before the worker blocks on an empty queue.
    fn pause(&mut self);

    /// Which priority tier this handler serves.
    fn get_priority(&self) -> Priority;
}

/// Builds one handler per worker.
pub trait HandlerBuilder<N, C>: Sized {
    type Handler: PollHandler<N, C>;

    fn build(&mut self, priority: Priority) -> Self::Handler;
}

/// The verdict recorded for one driven FSM.
pub enum ReschedulePolicy {
    /// Return it to its mailbox, which the handler saw at this length.
    Release(usize),
    /// It stopped: drop it once its mailbox is drained.
    Remove,
    /// Cycle it back through the scheduler queue.
    Schedule,
}

/// The verdict for one normal FSM after a handling round: a stopped FSM
/// is removed; one on the wrong tier is rescheduled; a hot FSM — one
/// that sat in the batch longer than the reschedule threshold — is
/// rescheduled on every second occurrence, so a single hungry actor
/// cannot monopolise its worker; otherwise the handler's length hint,
/// if any, asks for a release.
pub fn decide_normal(
    stopped: bool,
    priority_mismatch: bool,
    is_hot: bool,
    hot_even: bool,
    len_hint: Option<usize>,
) -> (r: Option<ReschedulePolicy>)
    ensures
        stopped ==> r == Some(ReschedulePolicy::Remove),
        !stopped && priority_mismatch ==> r == Some(ReschedulePolicy::Schedule),
        !stopped && !priority_mismatch && is_hot && hot_even ==> r == Some(
            ReschedulePolicy::Schedule,
        ),
        !stopped && !priority_mismatch && !(is_hot && hot_even) ==> r == (match len_hint {
            Some(l) => Some(ReschedulePolicy::Release(l)),
            None => None,
        }),
{
    if stopped {
        Some(ReschedulePolicy::Remove)
    } else if priority_mismatch {
        Some(ReschedulePolicy::Schedule)
    } else if is_hot && hot_even {
        Some(ReschedulePolicy::Schedule)
    } else {
        match len_hint {
            Some(l) => Some(ReschedulePolicy::Release(l)),
            None => None,
        }
    }
}

/// One worker's state: its tier's channel, its handler, and the pacing
/// knobs.
#[verifier::reject_recursive_types(N)]
#[verifier::reject_recursive_types(C)]
pub struct Poller<N: Fsm, C: Fsm, Handler> {
    pub fsm_receiver: Receiver<FsmTypes<N, C>>,
    pub handler: Handler,
    pub max_batch_size: usize,
    /// Milliseconds an FSM may sit in one batch before counting as hot.
    pub reschedule_duration: u64,
}

impl<N: Fsm, C: Fsm, H: PollHandler<N, C>> Poller<N, C, H> {
    /// Fill `batch` with at least one ready FSM, blocking on an empty
    /// queue.  False reports a shutdown sentinel or a dead channel with
    /// nothing batched.
    pub fn fetch_fsm(&mut self, batch: &mut Batch<N, C>) -> (r: bool)
        requires
            old(batch).wf(),
        ensures
            final(batch).wf(),
            old(batch).spec_control() is Some ==> r && *final(batch) == *old(batch),
            r ==> final(batch).spec_normals().len() > 0 || final(batch).spec_control() is Some,
    {
        if batch.has_control() {
            return true;
        }
        match self.fsm_receiver.try_recv() {
            Ok(fsm) => {
                return batch.push(fsm);
            },
            Err(_) => {},
        }
        if batch.is_empty() {
            self.handler.pause();
            match self.fsm_receiver.recv() {
                Ok(fsm) => {
                    return batch.push(fsm);
                },
                Err(_) => {},
            }
        }
        !batch.is_empty()
    }

    /// One round of the poll loop: gather a batch, drive the handler
    /// across it, then apply each FSM's verdict in reverse index order
    /// so earlier removals cannot shift later indices.  False means the
    /// worker should wind down; the caller loops while this is true.
    /// A round releases, drops and reschedules FSMs, but registers,
    /// closes and shuts down nothing: the address book, the alive
    /// counter, the shutdown flag and the control mailbox's
    /// connectivity come out as they went in.
    pub fn poll_round(&mut self, router: &mut BatchRouter<N, C>, batch: &mut Batch<N, C>) -> (run:
        bool)
        requires
            old(batch).wf(),
            old(router).wf(),
        ensures
            final(batch).wf(),
            final(router).wf(),
            forall|a: u64|
                #[trigger] final(router).spec_has_mailbox(a) == old(router).spec_has_mailbox(a),
            final(router).spec_alive_cnt() == old(router).spec_alive_cnt(),
            final(router).spec_shutdown() == old(router).spec_shutdown(),
            final(router).spec_control().spec_connected() == old(
                router,
            ).spec_control().spec_connected(),
    {
        if !self.fetch_fsm(batch) {
            batch.clear();
            return false;
        }
        let batch_len = batch.len();
        let max_batch_size = if self.max_batch_size > batch_len {
            self.max_batch_size
        } else {
            batch_len
        };
        self.handler.begin(max_batch_size);

        if batch.control.is_some() {
            let len = self.handler.handle_control(batch.control.as_mut().unwrap());
            let stopped = batch.control.as_ref().unwrap().is_stopped();
            let cb = router.control_mailbox();
            if !cb.has_fsm() {
                if stopped {
                    batch.remove_control(cb);
                } else {
                    match len {
                        Some(l) => {
                            let _ = batch.release_control(cb, l);
                        },
                        None => {},
                    }
                }
            }
        }

        let mut reschedule_fsms: Vec<(usize, ReschedulePolicy)> = Vec::new();
        let mut hot_fsm_count: usize = 0;
        let handler_priority = self.handler.get_priority();
        let n0 = batch.normals.len();
        let mut i: usize = 0;
        while i < n0
            invariant
                batch.wf(),
                n0 == batch.spec_normals().len(),
                i <= n0,
            decreases n0 - i,
        {
            let len = self.handler.handle_normal(&mut batch.normals[i]);
            let stopped = batch.normals[i].is_stopped();
            let fsm_priority = batch.normals[i].get_priority();
            let priority_mismatch = match (fsm_priority, handler_priority) {
                (Priority::Normal, Priority::Normal) => false,
                (Priority::Low, Priority::Low) => false,
                _ => true,
            };
            let is_hot = elapsed_millis(&batch.timers[i]) >= self.reschedule_duration;
            let hot_even = if !stopped && !priority_mismatch && is_hot {
                hot_fsm_count = hot_fsm_count.wrapping_add(1);
                hot_fsm_count % 2 == 0
            } else {
                false
            };
            match decide_normal(stopped, priority_mismatch, is_hot, hot_even, len) {
                Some(p) => {
                    reschedule_fsms.push((i, p));
                },
                None => {},
            }
            i = i + 1;
        }

        // opportunistically top the batch up and handle the newcomers in
        // the same round
        let mut run = true;
        let mut fsm_cnt = batch.normals.len();
        while run && batch.normals.len() < max_batch_size
            invariant
                batch.wf(),
                fsm_cnt <= batch.spec_normals().len(),
            decreases max_batch_size - fsm_cnt,
        {
            match self.fsm_receiver.try_recv() {
                Ok(FsmTypes::Normal(n, a)) => {
                    let _ = batch.push(FsmTypes::Normal(n, a));
                },
                Ok(FsmTypes::Control(c)) => {
                    // while the control FSM is batched its cell is not
                    // idle, so no second control box can be in flight;
                    // the guard only keeps an impossible state from
                    // overwriting the batched one
                    if !batch.has_control() {
                        let _ = batch.push(FsmTypes::Control(c));
                    }
                },
                Ok(FsmTypes::Empty) => {
                    run = false;
                },
                Err(_) => {},
            }
            if !run || fsm_cnt >= batch.normals.len() {
                break;
            }
            let len = self.handler.handle_normal(&mut batch.normals[fsm_cnt]);
            let stopped = batch.normals[fsm_cnt].is_stopped();
            match decide_normal(stopped, false, false, false, len) {
                Some(p) => {
                    reschedule_fsms.push((fsm_cnt, p));
                },
                None => {},
            }
            fsm_cnt = fsm_cnt + 1;
        }

        self.handler.end(batch.normals.as_mut_slice());

        // apply the verdicts from the highest index down, so that a
        // removal at one index cannot shift a later one
        let mut j = reschedule_fsms.len();
        while j > 0
            invariant
                batch.wf(),
                router.wf(),
                j <= reschedule_fsms@.len(),
                forall|a: u64|
                    #[trigger] router.spec_has_mailbox(a) == old(router).spec_has_mailbox(a),
                router.spec_alive_cnt() == old(router).spec_alive_cnt(),
                router.spec_shutdown() == old(router).spec_shutdown(),
                router.spec_control().spec_connected() == old(
                    router,
                ).spec_control().spec_connected(),
            decreases j,
        {
            j = j - 1;
            let (index, policy) = (reschedule_fsms[j].0, match &reschedule_fsms[j].1 {
                ReschedulePolicy::Release(l) => ReschedulePolicy::Release(*l),
                ReschedulePolicy::Remove => ReschedulePolicy::Remove,
                ReschedulePolicy::Schedule => ReschedulePolicy::Schedule,
            });
            if index < batch.len() {
                match policy {
                    ReschedulePolicy::Release(l) => {
                        let addr = batch.addrs[index];
                        self.apply_release(router, batch, index, l, addr);
                    },
                    ReschedulePolicy::Remove => {
                        let addr = batch.addrs[index];
                        self.apply_remove(router, batch, index, addr);
                    },
                    ReschedulePolicy::Schedule => {
                        batch.reschedule(router, index);
                    },
                }
            }
        }
        run
    }

    /// Release the FSM at `index` to the mailbox under `addr`.  If the
    /// address is gone, or a fresh mailbox owning its own FSM has
    /// replaced it, the batched FSM's actor was closed, and it is
    /// dropped.  Release goes by address, not identity: in the narrow
    /// race where the address was closed and re-registered while both
    /// the old and the new FSM are out being driven, the old FSM is
    /// released into the replacement's cell rather than its own
    /// terminal one — the queue the handler drains is the
    /// replacement's either way.
    fn apply_release(
        &mut self,
        router: &mut BatchRouter<N, C>,
        batch: &mut Batch<N, C>,
        index: usize,
        checked_len: usize,
        addr: u64,
    )
        requires
            old(batch).wf(),
            old(router).wf(),
            index < old(batch).spec_normals().len(),
        ensures
            final(batch).wf(),
            final(router).wf(),
            final(batch).spec_normals().len() == old(batch).spec_normals().len() || final(batch).spec_normals().len() + 1 == old(batch).spec_normals().len(),
            forall|a: u64|
                #[trigger] final(router).spec_has_mailbox(a) == old(router).spec_has_mailbox(a),
            final(router).spec_alive_cnt() == old(router).spec_alive_cnt(),
            final(router).spec_shutdown() == old(router).spec_shutdown(),
            final(router).spec_control() == old(router).spec_control(),
    {
        let ghost pre = *router;
        let found = router.find_mailbox_mut(addr);
        match found {
            Some(mb) => {
                if !mb.has_fsm() {
                    batch.release(index, checked_len, mb);
                } else {
                    batch.drop_at(index);
                }
            },
            None => {
                batch.drop_at(index);
            },
        }
        proof {
            router.lemma_same_keys_same_has(pre);
        }
    }

    /// Drop or release the stopped FSM at `index`.
    fn apply_remove(
        &mut self,
        router: &mut BatchRouter<N, C>,
        batch: &mut Batch<N, C>,
        index: usize,
        addr: u64,
    )
        requires
            old(batch).wf(),
            old(router).wf(),
            index < old(batch).spec_normals().len(),
        ensures
            final(batch).wf(),
            final(router).wf(),
            final(batch).spec_normals().len() == old(batch).spec_normals().len() || final(batch).spec_normals().len() + 1 == old(batch).spec_normals().len(),
            forall|a: u64|
                #[trigger] final(router).spec_has_mailbox(a) == old(router).spec_has_mailbox(a),
            final(router).spec_alive_cnt() == old(router).spec_alive_cnt(),
            final(router).spec_shutdown() == old(router).spec_shutdown(),
            final(router).spec_control() == old(router).spec_control(),
    {
        let ghost pre = *router;
        let found = router.find_mailbox_mut(addr);
        match found {
            Some(mb) => {
                if !mb.has_fsm() {
                    batch.remove(index, mb);
                } else {
                    batch.drop_at(index);
                }
            },
            None => {
                batch.drop_at(index);
            },
        }
        proof {
            router.lemma_same_keys_same_has(pre);
        }
    }
}

/// An unstarted batch system: the two priority channels' receiving
/// ends and the pacing configuration.  Spawning worker threads and
/// joining them on shutdown is the embedding program's part; it builds
/// one `Poller` per worker from these parts and loops `poll_round`.
#[verifier::reject_recursive_types(N)]
#[verifier::reject_recursive_types(C)]
pub struct BatchSystem<N: Fsm, C: Fsm> {
    pub name_prefix: Option<String>,
    pub receiver: Receiver<FsmTypes<N, C>>,
    pub low_receiver: Receiver<FsmTypes<N, C>>,
    pub pool_size: usize,
    pub max_batch_size: usize,
    /// Milliseconds an FSM may sit in one batch before counting as hot.
    pub reschedule_duration: u64,
    pub low_priority_pool_size: usize,
}

impl<N: Fsm, C: Fsm> BatchSystem<N, C> {
    /// The worker state for one poller of the given tier.
    pub fn make_poller<H: PollHandler<N, C>>(&self, handler: H, priority: Priority) -> (p: Poller<
        N,
        C,
        H,
    >)
        ensures
            p.max_batch_size == self.max_batch_size,
            p.reschedule_duration == self.reschedule_duration,
    {
        let receiver = match priority {
            Priority::Normal => self.receiver.clone_receiver(),
            Priority::Low => self.low_receiver.clone_receiver(),
        };
        Poller {
            fsm_receiver: receiver,
            handler,
            max_batch_size: self.max_batch_size,
            reschedule_duration: self.reschedule_duration,
        }
    }
}

/// Wire a complete batch system: the two priority channels, both
/// schedulers, the control mailbox around the supplied sender and
/// control FSM, and the router over all of them.
pub fn create_system<N: Fsm, C: Fsm>(
    cfg: &Config,
    sender: LooseBoundedSender<C::Message>,
    controller: Box<C>,
) -> (r: (BatchRouter<N, C>, BatchSystem<N, C>))
    ensures
        r.0.wf(),
        r.0.map_seq().len() == 0,
        !r.0.spec_shutdown(),
        r.0.spec_control().spec_connected() == sender.spec_connected(),
        r.0.spec_control().spec_status() == FsmStatus::Idle,
        r.0.spec_control().spec_state().spec_data() == Some(controller),
        r.0.spec_control().spec_sender() == sender,
        r.1.pool_size == cfg.pool_size,
        r.1.max_batch_size == (match cfg.max_batch_size {
            Some(n) => n,
            None => 256usize,
        }),
        r.1.reschedule_duration == cfg.reschedule_duration,
        r.1.low_priority_pool_size == cfg.low_priority_pool_size,
{
    let state_cnt = counter_new();
    let control_box = BasicMailbox::new(sender, controller, counter_clone(&state_cnt));
    let (tx, rx) = unbounded();
    let (tx2, rx2) = unbounded();
    // enough shutdown sentinels to wake every worker of either pool
    let larger_pool = if cfg.pool_size > cfg.low_priority_pool_size {
        cfg.pool_size
    } else {
        cfg.low_priority_pool_size
    };
    let sentinels = larger_pool.saturating_add(100);
    let normal_scheduler = NormalScheduler {
        sender: tx.clone_sender(),
        low_sender: tx2.clone_sender(),
        sentinels,
    };
    let control_scheduler = ControlScheduler { sender: tx, low_sender: tx2, sentinels };
    let router = Router::new(control_box, normal_scheduler, control_scheduler, state_cnt);
    let system = BatchSystem {
        name_prefix: None,
        receiver: rx,
        low_receiver: rx2,
        pool_size: cfg.pool_size,
        max_batch_size: cfg.max_batch_size(),
        reschedule_duration: cfg.reschedule_duration,
        low_priority_pool_size: cfg.low_priority_pool_size,
    };
    (router, system)
}

} // verus!
