//! Channel endpoints for mailboxes and schedulers.
//!
//! The queues themselves come from crossbeam; this module adds a
//! sender-side close flag that is independent of the queue's own
//! disconnection, and a loose-bounded sender that enforces a soft
//! capacity by sampling the queue length on every eighth attempt.
//!
//! What the queue holds at any instant depends on every endpoint that
//! shares it, so the wrappers around crossbeam state only what holds of
//! every outcome: which message comes back inside an error, and nothing
//! about the queue's contents.
//!
//! The close flag is carried per endpoint, not shared: closing or
//! dropping one endpoint does not flip the flag of another, and a
//! receiver going away is observed through the queue's own
//! disconnection rather than through `is_sender_connected`.

use vstd::prelude::*;

verus! {

/// The queue length is consulted on every eighth attempt of a
/// loose-bounded sender.
pub const CHECK_INTERVAL: usize = 8;

/// The message could not be delivered: the channel is disconnected or
/// the sender side is closed.  Carries the message back.
#[derive(Debug, PartialEq, Eq)]
pub struct SendError<T>(pub T);

/// A non-blocking send failed; carries the message back.
#[derive(Debug, PartialEq, Eq)]
pub enum TrySendError<T> {
    /// The soft capacity was reached.
    Full(T),
    /// The channel is disconnected or the sender side is closed.
    Disconnected(T),
}

/// A blocking receive failed: every sender is gone.
#[derive(Debug, PartialEq, Eq)]
pub struct RecvError;

/// A non-blocking receive yielded nothing.
#[derive(Debug, PartialEq, Eq)]
pub enum TryRecvError {
    /// The queue was observed empty.
    Empty,
    /// Every sender is gone and the queue is drained.
    Disconnected,
}

/// A receive with a deadline yielded nothing.
#[derive(Debug, PartialEq, Eq)]
pub enum RecvTimeoutError {
    /// The deadline passed with the queue still empty.
    Timeout,
    /// Every sender is gone and the queue is drained.
    Disconnected,
}

/// One sending endpoint of a crossbeam channel, opaque to the
/// verifier.
#[verifier::external_body]
#[verifier::reject_recursive_types(T)]
struct RawSender<T> {
    inner: crossbeam::channel::Sender<T>,
}

/// One receiving endpoint of a crossbeam channel, opaque to the
/// verifier.
#[verifier::external_body]
#[verifier::reject_recursive_types(T)]
struct RawReceiver<T> {
    inner: crossbeam::channel::Receiver<T>,
}

/// Relies on crossbeam::channel::unbounded: a fresh channel of
/// unlimited capacity.
#[verifier::external_body]
fn raw_unbounded<T>() -> (RawSender<T>, RawReceiver<T>) {
    let (s, r) = crossbeam::channel::unbounded();
    (RawSender { inner: s }, RawReceiver { inner: r })
}

/// Relies on crossbeam::channel::bounded: a fresh channel of capacity
/// `cap`.
#[verifier::external_body]
fn raw_bounded<T>(cap: usize) -> (RawSender<T>, RawReceiver<T>) {
    let (s, r) = crossbeam::channel::bounded(cap);
    (RawSender { inner: s }, RawReceiver { inner: r })
}

/// Relies on crossbeam::channel::Sender::send: appends to the queue,
/// or hands the message back once every receiver is gone.
#[verifier::external_body]
fn raw_send<T>(sender: &RawSender<T>, t: T) -> (r: Result<(), SendError<T>>)
    ensures
        r matches Err(e) ==> e.0 == t,
{
    match sender.inner.send(t) {
        Ok(()) => Ok(()),
        Err(crossbeam::channel::SendError(x)) => Err(SendError(x)),
    }
}

/// Relies on crossbeam::channel::Sender::try_send: appends without
/// blocking, or hands the message back when the queue is at capacity or
/// every receiver is gone.
#[verifier::external_body]
fn raw_try_send<T>(sender: &RawSender<T>, t: T) -> (r: Result<
    (),
    TrySendError<T>,
>)
    ensures
        r matches Err(TrySendError::Full(m)) ==> m == t,
        r matches Err(TrySendError::Disconnected(m)) ==> m == t,
{
    match sender.inner.try_send(t) {
        Ok(()) => Ok(()),
        Err(crossbeam::channel::TrySendError::Full(x)) => Err(TrySendError::Full(x)),
        Err(crossbeam::channel::TrySendError::Disconnected(x)) => Err(TrySendError::Disconnected(x)),
    }
}

/// Relies on crossbeam::channel::Receiver::recv: blocks for the next
/// message, failing once every sender is gone and the queue is drained.
#[verifier::external_body]
fn raw_recv<T>(receiver: &RawReceiver<T>) -> Result<T, RecvError> {
    match receiver.inner.recv() {
        Ok(t) => Ok(t),
        Err(crossbeam::channel::RecvError) => Err(RecvError),
    }
}

/// Relies on crossbeam::channel::Receiver::try_recv: takes the next
/// message if one is queued, without blocking.
#[verifier::external_body]
fn raw_try_recv<T>(receiver: &RawReceiver<T>) -> Result<T, TryRecvError> {
    match receiver.inner.try_recv() {
        Ok(t) => Ok(t),
        Err(crossbeam::channel::TryRecvError::Empty) => Err(TryRecvError::Empty),
        Err(crossbeam::channel::TryRecvError::Disconnected) => Err(TryRecvError::Disconnected),
    }
}

/// Relies on crossbeam::channel::Receiver::recv_timeout: blocks for the
/// next message at most `ms` milliseconds.
#[verifier::external_body]
fn raw_recv_timeout<T>(receiver: &RawReceiver<T>, ms: u64) -> Result<
    T,
    RecvTimeoutError,
> {
    match receiver.inner.recv_timeout(std::time::Duration::from_millis(ms)) {
        Ok(t) => Ok(t),
        Err(crossbeam::channel::RecvTimeoutError::Timeout) => Err(RecvTimeoutError::Timeout),
        Err(crossbeam::channel::RecvTimeoutError::Disconnected) => Err(
            RecvTimeoutError::Disconnected,
        ),
    }
}

/// Relies on crossbeam::channel::Sender::len: the number of messages
/// queued at the instant of the call.
#[verifier::external_body]
fn raw_sender_len<T>(sender: &RawSender<T>) -> usize {
    sender.inner.len()
}

/// Relies on crossbeam::channel::Receiver::len: the number of messages
/// queued at the instant of the call.
#[verifier::external_body]
fn raw_receiver_len<T>(receiver: &RawReceiver<T>) -> usize {
    receiver.inner.len()
}

/// Relies on crossbeam's Clone for Sender: a second endpoint of the
/// same queue.
#[verifier::external_body]
fn raw_clone_sender<T>(sender: &RawSender<T>) -> RawSender<T> {
    RawSender { inner: sender.inner.clone() }
}

/// Relies on crossbeam's Clone for Receiver: a second endpoint of the
/// same queue.
#[verifier::external_body]
fn raw_clone_receiver<T>(receiver: &RawReceiver<T>) -> RawReceiver<T> {
    RawReceiver { inner: receiver.inner.clone() }
}

/// Sender-side bookkeeping: whether this endpoint's sender side is
/// still open.
pub struct State {
    connected: bool,
}

impl State {
    pub closed spec fn spec_connected(&self) -> bool {
        self.connected
    }

    fn new() -> (s: State)
        ensures
            s.spec_connected(),
    {
        State { connected: true }
    }

    fn is_sender_connected(&self) -> (r: bool)
        ensures
            r == self.spec_connected(),
    {
        self.connected
    }
}

/// A sending endpoint with a close flag independent of the queue's own
/// disconnection.
#[verifier::reject_recursive_types(T)]
pub struct Sender<T> {
    sender: RawSender<T>,
    state: State,
}

impl<T> Sender<T> {
    pub closed spec fn spec_connected(&self) -> bool {
        self.state.spec_connected()
    }

    /// How many messages the queue held at the instant of the call.
    pub fn len(&self) -> usize {
        raw_sender_len(&self.sender)
    }

    pub fn is_empty(&self) -> bool {
        self.len() == 0
    }

    /// Deliver `t`, blocking if the queue is at capacity.  Fails with
    /// the message back when this sender is closed or every receiver is
    /// gone.
    pub fn send(&self, t: T) -> (r: Result<(), SendError<T>>)
        ensures
            !self.spec_connected() ==> r is Err,
            r is Ok ==> self.spec_connected(),
            r matches Err(e) ==> e.0 == t,
    {
        if self.state.is_sender_connected() {
            raw_send(&self.sender, t)
        } else {
            Err(SendError(t))
        }
    }

    /// Deliver `t` without blocking.  Fails with the message back when
    /// the queue is at capacity, this sender is closed, or every
    /// receiver is gone.
    pub fn try_send(&self, t: T) -> (r: Result<(), TrySendError<T>>)
        ensures
            !self.spec_connected() ==> (r matches Err(TrySendError::Disconnected(m)) && m == t),
            r is Ok ==> self.spec_connected(),
            r matches Err(TrySendError::Full(m)) ==> m == t,
            r matches Err(TrySendError::Disconnected(m)) ==> m == t,
    {
        if self.state.is_sender_connected() {
            raw_try_send(&self.sender, t)
        } else {
            Err(TrySendError::Disconnected(t))
        }
    }

    /// Close the sender side: every later send through this endpoint
    /// fails, whatever the queue's own state.
    pub fn close_sender(&mut self)
        ensures
            !final(self).spec_connected(),
    {
        self.state.connected = false;
    }

    pub fn is_sender_connected(&self) -> (r: bool)
        ensures
            r == self.spec_connected(),
    {
        self.state.is_sender_connected()
    }

    /// A second endpoint of the same queue, with its own copy of the
    /// close flag.
    pub fn clone_sender(&self) -> (r: Sender<T>)
        ensures
            r.spec_connected() == self.spec_connected(),
    {
        Sender {
            sender: raw_clone_sender(&self.sender),
            state: State { connected: self.state.connected },
        }
    }
}

/// A receiving endpoint.
#[verifier::reject_recursive_types(T)]
pub struct Receiver<T> {
    receiver: RawReceiver<T>,
}

impl<T> Receiver<T> {
    /// How many messages the queue held at the instant of the call.
    pub fn len(&self) -> usize {
        raw_receiver_len(&self.receiver)
    }

    pub fn is_empty(&self) -> bool {
        self.len() == 0
    }

    /// Block for the next message; fails once every sender is gone and
    /// the queue is drained.
    pub fn recv(&self) -> Result<T, RecvError> {
        raw_recv(&self.receiver)
    }

    /// Take the next message if one is queued, without blocking.
    pub fn try_recv(&self) -> Result<T, TryRecvError> {
        raw_try_recv(&self.receiver)
    }

    /// Block for the next message at most `ms` milliseconds.
    pub fn recv_timeout(&self, ms: u64) -> Result<T, RecvTimeoutError> {
        raw_recv_timeout(&self.receiver, ms)
    }

    /// A second endpoint of the same queue.
    pub fn clone_receiver(&self) -> Receiver<T> {
        Receiver { receiver: raw_clone_receiver(&self.receiver) }
    }
}

/// A channel of unlimited capacity.
pub fn unbounded<T>() -> (r: (Sender<T>, Receiver<T>))
    ensures
        r.0.spec_connected(),
{
    let (sender, receiver) = raw_unbounded();
    (Sender { sender, state: State::new() }, Receiver { receiver })
}

/// A channel whose queue holds at most `cap` messages.
pub fn bounded<T>(cap: usize) -> (r: (Sender<T>, Receiver<T>))
    ensures
        r.0.spec_connected(),
{
    let (sender, receiver) = raw_bounded(cap);
    (Sender { sender, state: State::new() }, Receiver { receiver })
}

/// A sending endpoint over an unlimited queue that enforces `limit` as
/// a soft capacity: the queue length is consulted only on every eighth
/// attempt, so up to seven sends in a row pass unchecked.
#[verifier::reject_recursive_types(T)]
pub struct LooseBoundedSender<T> {
    sender: Sender<T>,
    tried_cnt: usize,
    limit: usize,
}

impl<T> LooseBoundedSender<T> {
    pub closed spec fn spec_connected(&self) -> bool {
        self.sender.spec_connected()
    }

    pub closed spec fn spec_tried_cnt(&self) -> usize {
        self.tried_cnt
    }

    pub closed spec fn spec_limit(&self) -> usize {
        self.limit
    }

    /// How many messages the queue held at the instant of the call.
    pub fn len(&self) -> usize {
        self.sender.len()
    }

    pub fn is_empty(&self) -> bool {
        self.len() == 0
    }

    /// Deliver `t` whatever the queue length.  Fails with the message
    /// back only when the sender is closed or every receiver is gone.
    pub fn force_send(&mut self, t: T) -> (r: Result<(), SendError<T>>)
        ensures
            final(self).spec_tried_cnt() == (if old(self).spec_tried_cnt() < usize::MAX {
                (old(self).spec_tried_cnt() + 1) as usize
            } else {
                0usize
            }),
            final(self).spec_limit() == old(self).spec_limit(),
            final(self).spec_connected() == old(self).spec_connected(),
            !old(self).spec_connected() ==> r is Err,
            r is Ok ==> old(self).spec_connected(),
            r matches Err(e) ==> e.0 == t,
    {
        let cnt = self.tried_cnt;
        self.tried_cnt = cnt.wrapping_add(1);
        self.sender.send(t)
    }

    /// Deliver `t` under the soft capacity.  The first seven attempts
    /// after a length check pass without consulting the queue; the
    /// eighth consults it and fails with `Full` while `limit` or more
    /// messages are queued.
    pub fn try_send(&mut self, t: T) -> (r: Result<(), TrySendError<T>>)
        ensures
            final(self).spec_limit() == old(self).spec_limit(),
            final(self).spec_connected() == old(self).spec_connected(),
            r matches Err(TrySendError::Full(m)) ==> m == t && old(self).spec_tried_cnt()
                >= CHECK_INTERVAL && *final(self) == *old(self),
            old(self).spec_tried_cnt() < CHECK_INTERVAL ==> !(r matches Err(TrySendError::Full(_)))
                && final(self).spec_tried_cnt() == old(self).spec_tried_cnt() + 1,
            old(self).spec_tried_cnt() >= CHECK_INTERVAL && !(r matches Err(TrySendError::Full(_)))
                ==> final(self).spec_tried_cnt() == 1,
            !old(self).spec_connected() ==> !(r is Ok),
            !old(self).spec_connected() && !(r matches Err(TrySendError::Full(_))) ==> (r matches
                Err(TrySendError::Disconnected(m)) && m == t),
            r is Ok ==> old(self).spec_connected(),
            r matches Err(TrySendError::Disconnected(m)) ==> m == t,
    {
        let cnt = self.tried_cnt;
        if cnt < CHECK_INTERVAL {
            self.tried_cnt = cnt + 1;
        } else if self.sender.len() < self.limit {
            self.tried_cnt = 1;
        } else {
            return Err(TrySendError::Full(t));
        }

        match self.sender.send(t) {
            Ok(()) => Ok(()),
            Err(SendError(x)) => Err(TrySendError::Disconnected(x)),
        }
    }

    /// Close the sender side: every later send through this endpoint
    /// fails.
    pub fn close_sender(&mut self)
        ensures
            !final(self).spec_connected(),
            final(self).spec_tried_cnt() == old(self).spec_tried_cnt(),
            final(self).spec_limit() == old(self).spec_limit(),
    {
        self.sender.close_sender();
    }

    pub fn is_sender_connected(&self) -> (r: bool)
        ensures
            r == self.spec_connected(),
    {
        self.sender.is_sender_connected()
    }
}

/// A loose-bounded channel: an unlimited queue whose sender enforces
/// `cap` as a soft capacity.
pub fn loose_bounded<T>(cap: usize) -> (r: (LooseBoundedSender<T>, Receiver<T>))
    ensures
        r.0.spec_connected(),
        r.0.spec_tried_cnt() == 0,
        r.0.spec_limit() == cap,
{
    let (sender, receiver) = unbounded();
    (LooseBoundedSender { sender, tried_cnt: 0, limit: cap }, receiver)
}

} // verus!
