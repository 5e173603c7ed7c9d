//! End-to-end rounds of the batch system, driven one poll round at a
//! time on the calling thread.

use std::sync::Arc;
use std::sync::atomic::AtomicUsize;
use batch_system::batch::Batch;
use batch_system::batch::BatchRouter;
use batch_system::batch::HandlerBuilder;
use batch_system::batch::PollHandler;
use batch_system::batch::Poller;
use batch_system::batch::create_system;
use batch_system::config::Config;
use batch_system::fsm::Fsm;
use batch_system::fsm::Priority;
use batch_system::mailbox::BasicMailbox;
use batch_system::mpsc::LooseBoundedSender;
use batch_system::mpsc::Receiver;
use batch_system::mpsc::Sender;
use batch_system::mpsc::TryRecvError;
use batch_system::mpsc::TrySendError;
use batch_system::mpsc::loose_bounded;
use batch_system::mpsc::unbounded;
use batch_system::runner::Builder;
use batch_system::runner::Message;
use batch_system::runner::Runner;

fn fresh_counter() -> Arc<AtomicUsize> {
    Arc::new(AtomicUsize::new(0))
}

/// Run poll rounds while there is work batched or queued.
fn crank<N: Fsm, C: Fsm, H: PollHandler<N, C>>(
    poller: &mut Poller<N, C, H>,
    router: &mut BatchRouter<N, C>,
    batch: &mut Batch<N, C>,
) {
    let mut rounds = 0;
    while batch.len() > 0 || batch.has_control() || poller.fsm_receiver.len() > 0 {
        if !poller.poll_round(router, batch) {
            break;
        }
        rounds += 1;
        assert!(rounds < 1000, "the system did not quiesce");
    }
}

#[test]
fn runner_handles_sent_messages() {
    let (ctrl_tx, ctrl_fsm) = Runner::new(10);
    let (mut router, system) = create_system::<Runner, Runner>(&Config::default(), ctrl_tx, ctrl_fsm);
    let mut builder = Builder::new();
    let mut poller = system.make_poller(builder.build(Priority::Normal), Priority::Normal);
    let mut batch = Batch::with_capacity(system.max_batch_size);

    let (tx, runner) = Runner::new(10);
    router.register(1, BasicMailbox::new(tx, runner, fresh_counter()));

    assert!(router.send(1, Message::Loop(3)).is_ok());
    assert!(router.send(1, Message::Loop(4)).is_ok());
    crank(&mut poller, &mut router, &mut batch);

    let m = poller.handler.metrics();
    assert!(m.begin >= 1);
    assert!(m.normal >= 1);
    // the runner went back to its mailbox: another send still works
    assert!(router.send(1, Message::Loop(1)).is_ok());
}

#[test]
fn control_messages_are_handled_as_control() {
    let (ctrl_tx, ctrl_fsm) = Runner::new(10);
    let (mut router, system) = create_system::<Runner, Runner>(&Config::default(), ctrl_tx, ctrl_fsm);
    let mut builder = Builder::new();
    let mut poller = system.make_poller(builder.build(Priority::Normal), Priority::Normal);
    let mut batch = Batch::with_capacity(system.max_batch_size);

    assert!(router.send_control(Message::Loop(2)).is_ok());
    crank(&mut poller, &mut router, &mut batch);

    let m = poller.handler.metrics();
    assert_eq!(m.control, 1);
    assert_eq!(m.normal, 0);

    // the control FSM is back in its mailbox, so a later registration
    // and sends keep working
    let (tx, runner) = Runner::new(10);
    router.register(1, BasicMailbox::new(tx, runner, fresh_counter()));
    assert!(router.force_send(1, Message::Loop(1)).is_ok());
    assert!(router.send(1, Message::Loop(1)).is_ok());
    crank(&mut poller, &mut router, &mut batch);
}

#[test]
fn stopped_runner_is_removed() {
    let (ctrl_tx, ctrl_fsm) = Runner::new(10);
    let (mut router, system) = create_system::<Runner, Runner>(&Config::default(), ctrl_tx, ctrl_fsm);
    let mut builder = Builder::new();
    let mut poller = system.make_poller(builder.build(Priority::Normal), Priority::Normal);
    let mut batch = Batch::with_capacity(system.max_batch_size);

    let (tx, runner) = Runner::new(10);
    router.register(1, BasicMailbox::new(tx, runner, fresh_counter()));
    assert!(router.send(1, Message::Stop).is_ok());
    crank(&mut poller, &mut router, &mut batch);
    assert_eq!(batch.len(), 0);
}

/// An FSM that forwards everything it receives to an outside channel,
/// so a test can observe delivery order and counts.
struct Forwarder {
    recv: Receiver<u32>,
    out: Sender<u32>,
}

impl Fsm for Forwarder {
    type Message = u32;

    fn is_stopped(&self) -> bool {
        false
    }

    fn get_priority(&self) -> Priority {
        Priority::Normal
    }
}

struct ForwardHandler;

impl PollHandler<Forwarder, Forwarder> for ForwardHandler {
    fn begin(&mut self, _batch_size: usize) {}

    fn handle_control(&mut self, control: &mut Forwarder) -> Option<usize> {
        self.handle_normal(control)
    }

    fn handle_normal(&mut self, normal: &mut Forwarder) -> Option<usize> {
        while let Ok(v) = normal.recv.try_recv() {
            let _ = normal.out.send(v);
        }
        Some(0)
    }

    fn end(&mut self, _batch: &mut [Box<Forwarder>]) {}

    fn pause(&mut self) {}

    fn get_priority(&self) -> Priority {
        Priority::Normal
    }
}

fn forwarder(cap: usize, out: Sender<u32>) -> (LooseBoundedSender<u32>, Box<Forwarder>) {
    let (tx, rx) = loose_bounded(cap);
    (tx, Box::new(Forwarder { recv: rx, out }))
}

#[test]
fn messages_arrive_in_send_order() {
    let (out_tx, out_rx) = unbounded();
    let (ctrl_tx, ctrl_fsm) = forwarder(10, out_tx.clone_sender());
    let (mut router, system) = create_system::<Forwarder, Forwarder>(&Config::default(), ctrl_tx, ctrl_fsm);
    let mut poller = system.make_poller(ForwardHandler, Priority::Normal);
    let mut batch = Batch::with_capacity(system.max_batch_size);

    let (tx, fsm) = forwarder(100, out_tx);
    router.register(1, BasicMailbox::new(tx, fsm, fresh_counter()));
    for i in 0..20u32 {
        assert!(router.send(1, i).is_ok());
    }
    crank(&mut poller, &mut router, &mut batch);

    for i in 0..20u32 {
        assert_eq!(out_rx.try_recv(), Ok(i));
    }
    assert_eq!(out_rx.try_recv(), Err(TryRecvError::Empty));
}

#[test]
fn soft_cap_count_is_exact_after_drain() {
    // fill the mailbox until the soft cap reports Full, force one more
    // message past it, then drain: exactly the accepted messages arrive
    let (out_tx, out_rx) = unbounded();
    let (ctrl_tx, ctrl_fsm) = forwarder(10, out_tx.clone_sender());
    let (mut router, system) = create_system::<Forwarder, Forwarder>(&Config::default(), ctrl_tx, ctrl_fsm);
    let mut poller = system.make_poller(ForwardHandler, Priority::Normal);
    let mut batch = Batch::with_capacity(system.max_batch_size);

    let (tx, fsm) = forwarder(1, out_tx);
    router.register(1, BasicMailbox::new(tx, fsm, fresh_counter()));

    let mut accepted: u32 = 0;
    loop {
        match router.send(1, accepted) {
            Ok(()) => accepted += 1,
            Err(TrySendError::Full(_)) => break,
            Err(TrySendError::Disconnected(_)) => panic!("mailbox should still be connected."),
        }
        assert!(accepted < 100);
    }
    assert!(matches!(router.send(1, accepted), Err(TrySendError::Full(_))));
    assert!(router.force_send(1, accepted).is_ok());

    crank(&mut poller, &mut router, &mut batch);

    let mut delivered: u32 = 0;
    while let Ok(v) = out_rx.try_recv() {
        assert_eq!(v, delivered);
        delivered += 1;
    }
    assert_eq!(delivered, accepted + 1);
}

#[test]
fn close_releases_the_runner_and_its_sentinel() {
    // a sentinel channel inside the runner disconnects once the runner
    // is dropped by `close`
    let (ctrl_tx, ctrl_fsm) = Runner::new(10);
    let (mut router, _system) = create_system::<Runner, Runner>(&Config::default(), ctrl_tx, ctrl_fsm);

    let (tx, mut runner) = Runner::new(10);
    let (sentinel_tx, sentinel_rx) = unbounded::<()>();
    runner.sender = Some(sentinel_tx);
    router.register(1, BasicMailbox::new(tx, runner, fresh_counter()));

    assert_eq!(sentinel_rx.try_recv(), Err(TryRecvError::Empty));
    router.close(1);
    assert_eq!(sentinel_rx.try_recv(), Err(TryRecvError::Disconnected));
}

#[test]
fn shutdown_releases_the_control_fsm() {
    // after a broadcast shutdown the control FSM is dropped, observed
    // through its sentinel, and the router reports shutdown
    let (ctrl_tx, mut ctrl_fsm) = Runner::new(10);
    let (sentinel_tx, sentinel_rx) = unbounded::<()>();
    ctrl_fsm.sender = Some(sentinel_tx);
    let (mut router, _system) = create_system::<Runner, Runner>(&Config::default(), ctrl_tx, ctrl_fsm);

    assert_eq!(sentinel_rx.try_recv(), Err(TryRecvError::Empty));
    router.broadcast_shutdown();
    assert_eq!(sentinel_rx.try_recv(), Err(TryRecvError::Disconnected));
    assert!(router.is_shutdown());
}

#[test]
fn poll_round_stops_on_the_shutdown_sentinel() {
    let (ctrl_tx, ctrl_fsm) = Runner::new(10);
    let (mut router, system) = create_system::<Runner, Runner>(&Config::default(), ctrl_tx, ctrl_fsm);
    let mut builder = Builder::new();
    let mut poller = system.make_poller(builder.build(Priority::Normal), Priority::Normal);
    let mut batch = Batch::with_capacity(system.max_batch_size);

    router.broadcast_shutdown();
    // the queue now holds sentinels; a round reports that the worker
    // should wind down
    assert!(!poller.poll_round(&mut router, &mut batch));
}
