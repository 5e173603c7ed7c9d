//! Tests of the ownership cell and the mailbox fusion of queue and
//! cell.

use std::sync::Arc;
use std::sync::atomic::AtomicUsize;
use std::sync::atomic::Ordering;
use batch_system::fsm::Fsm;
use batch_system::fsm::FsmScheduler;
use batch_system::fsm::FsmState;
use batch_system::mailbox::BasicMailbox;
use batch_system::mpsc::SendError;
use batch_system::mpsc::TrySendError;
use batch_system::mpsc::loose_bounded;
use batch_system::fsm::Priority;

struct Probe {
    tag: u32,
}

impl Fsm for Probe {
    type Message = u32;

    fn is_stopped(&self) -> bool {
        false
    }

    fn get_priority(&self) -> Priority {
        Priority::Normal
    }
}

/// A scheduler that only counts how often it was handed an FSM.
struct CountingScheduler {
    scheduled: Arc<AtomicUsize>,
}

impl FsmScheduler for CountingScheduler {
    type Fsm = Probe;

    fn schedule(&self, _fsm: Box<Probe>, _addr: u64) {
        self.scheduled.fetch_add(1, Ordering::SeqCst);
    }

    fn shutdown(&self) {}
}

fn fresh_counter() -> Arc<AtomicUsize> {
    Arc::new(AtomicUsize::new(0))
}

#[test]
fn take_fsm_yields_exactly_once() {
    // two takes in a row observe exactly one Some and one None
    let mut cell = FsmState::new(Box::new(Probe { tag: 5 }), fresh_counter());
    let first = cell.take_fsm();
    let second = cell.take_fsm();
    assert!(first.is_some());
    assert!(second.is_none());
    assert_eq!(first.unwrap().tag, 5);
}

#[test]
fn release_makes_the_cell_idle_again() {
    let mut cell = FsmState::new(Box::new(Probe { tag: 1 }), fresh_counter());
    let fsm = cell.take_fsm().unwrap();
    cell.release(fsm);
    let again = cell.take_fsm();
    assert!(again.is_some());
    assert_eq!(again.unwrap().tag, 1);
}

#[test]
fn clear_is_terminal() {
    let mut cell = FsmState::new(Box::new(Probe { tag: 2 }), fresh_counter());
    cell.clear();
    assert!(cell.take_fsm().is_none());
    // a release into a cleared cell drops the FSM instead of storing it
    let mut cell2 = FsmState::new(Box::new(Probe { tag: 3 }), fresh_counter());
    let fsm = cell2.take_fsm().unwrap();
    cell2.clear();
    cell2.release(fsm);
    assert!(cell2.take_fsm().is_none());
}

#[test]
fn state_counter_counts_creations() {
    let counter = fresh_counter();
    let _a = FsmState::new(Box::new(Probe { tag: 1 }), counter.clone());
    let _b = FsmState::new(Box::new(Probe { tag: 2 }), counter.clone());
    assert_eq!(counter.load(Ordering::SeqCst), 2);
}

#[test]
fn mailbox_try_send_enqueues_then_wakes_once() {
    let scheduled = fresh_counter();
    let scheduler = CountingScheduler { scheduled: scheduled.clone() };
    let (tx, _rx) = loose_bounded(16);
    let mut mb = BasicMailbox::new(tx, Box::new(Probe { tag: 9 }), fresh_counter());

    assert_eq!(mb.try_send(1, &scheduler), Ok(()));
    // the idle FSM was handed to the scheduler
    assert_eq!(scheduled.load(Ordering::SeqCst), 1);
    assert_eq!(mb.try_send(2, &scheduler), Ok(()));
    // somebody is already driving the FSM: enqueue without a wake
    assert_eq!(scheduled.load(Ordering::SeqCst), 1);
    assert_eq!(mb.len(), 2);
}

#[test]
fn mailbox_close_disconnects_sends() {
    let scheduler = CountingScheduler { scheduled: fresh_counter() };
    let (tx, _rx) = loose_bounded(16);
    let mut mb = BasicMailbox::new(tx, Box::new(Probe { tag: 4 }), fresh_counter());
    assert!(mb.is_connected());
    mb.close();
    assert!(!mb.is_connected());
    assert_eq!(mb.try_send(7, &scheduler), Err(TrySendError::Disconnected(7)));
    assert_eq!(mb.force_send(8, &scheduler), Err(SendError(8)));
}

#[test]
fn mailbox_force_send_ignores_the_soft_cap() {
    let scheduler = CountingScheduler { scheduled: fresh_counter() };
    let (tx, _rx) = loose_bounded(1);
    let mut mb = BasicMailbox::new(tx, Box::new(Probe { tag: 4 }), fresh_counter());
    for i in 0..8u32 {
        assert_eq!(mb.try_send(i, &scheduler), Ok(()));
    }
    assert_eq!(mb.try_send(8, &scheduler), Err(TrySendError::Full(8)));
    assert_eq!(mb.force_send(9, &scheduler), Ok(()));
}
