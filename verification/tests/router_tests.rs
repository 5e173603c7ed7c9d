//! Tests of the router: registration, lookup, send policies, close and
//! shutdown.

use std::sync::Arc;
use std::sync::atomic::AtomicUsize;
use batch_system::batch::create_system;
use batch_system::config::Config;
use batch_system::mailbox::BasicMailbox;
use batch_system::mpsc::TrySendError;
use batch_system::runner::Message;
use batch_system::runner::Runner;
use batch_system::util::Either;

fn fresh_counter() -> Arc<AtomicUsize> {
    Arc::new(AtomicUsize::new(0))
}

#[test]
fn missing_mailbox_reports_errors() {
    // force_send on an unknown address fails; send reports disconnected
    let (ctrl_tx, ctrl_fsm) = Runner::new(10);
    let (mut router, _system) = create_system::<Runner, Runner>(&Config::default(), ctrl_tx, ctrl_fsm);

    assert!(router.force_send(1, Message::Loop(1)).is_err());
    match router.send(1, Message::Loop(1)) {
        Err(TrySendError::Disconnected(_)) => {}
        Ok(_) => panic!("send should fail"),
        Err(TrySendError::Full(_)) => panic!("expect disconnected."),
    }
    match router.try_send(1, Message::Loop(1)) {
        Either::Right(_) => {}
        Either::Left(_) => panic!("expected the message back"),
    }
}

#[test]
fn register_makes_an_address_reachable() {
    let (ctrl_tx, ctrl_fsm) = Runner::new(10);
    let (mut router, _system) = create_system::<Runner, Runner>(&Config::default(), ctrl_tx, ctrl_fsm);

    let (tx, runner) = Runner::new(10);
    router.register(1, BasicMailbox::new(tx, runner, fresh_counter()));

    assert!(router.mailbox(1).is_some());
    assert!(router.mailbox(2).is_none());
    assert!(router.send(1, Message::Loop(1)).is_ok());
    assert!(router.force_send(1, Message::Loop(1)).is_ok());
}

#[test]
fn alive_cnt_mirrors_registrations() {
    let (ctrl_tx, ctrl_fsm) = Runner::new(10);
    let (mut router, _system) = create_system::<Runner, Runner>(&Config::default(), ctrl_tx, ctrl_fsm);

    assert_eq!(router.alive_cnt(), 0);
    for addr in 1..=4u64 {
        let (tx, runner) = Runner::new(4);
        router.register(addr, BasicMailbox::new(tx, runner, fresh_counter()));
        assert_eq!(router.alive_cnt(), addr as usize);
    }
    // re-registering an address does not grow the map
    let (tx, runner) = Runner::new(4);
    router.register(2, BasicMailbox::new(tx, runner, fresh_counter()));
    assert_eq!(router.alive_cnt(), 4);
    router.close(3);
    assert_eq!(router.alive_cnt(), 3);
    router.close(3);
    assert_eq!(router.alive_cnt(), 3);
}

#[test]
fn close_severs_an_address() {
    let (ctrl_tx, ctrl_fsm) = Runner::new(10);
    let (mut router, _system) = create_system::<Runner, Runner>(&Config::default(), ctrl_tx, ctrl_fsm);

    let (tx, runner) = Runner::new(10);
    router.register(1, BasicMailbox::new(tx, runner, fresh_counter()));
    assert!(router.send(1, Message::Loop(1)).is_ok());

    router.close(1);
    match router.send(1, Message::Loop(1)) {
        Err(TrySendError::Disconnected(_)) => {}
        Ok(_) => panic!("send should fail."),
        Err(TrySendError::Full(_)) => panic!("sender should be closed."),
    }
    assert!(router.force_send(1, Message::Loop(1)).is_err());
    assert!(router.mailbox(1).is_none());
}

#[test]
fn reregister_after_close_reconnects() {
    // register, close, register again: the address answers with the
    // fresh mailbox
    let (ctrl_tx, ctrl_fsm) = Runner::new(10);
    let (mut router, _system) = create_system::<Runner, Runner>(&Config::default(), ctrl_tx, ctrl_fsm);

    let (tx1, r1) = Runner::new(10);
    router.register(1, BasicMailbox::new(tx1, r1, fresh_counter()));
    router.close(1);
    assert!(router.mailbox(1).is_none());

    let (tx2, r2) = Runner::new(10);
    router.register(1, BasicMailbox::new(tx2, r2, fresh_counter()));
    let mb = router.mailbox(1);
    assert!(mb.is_some());
    assert!(mb.unwrap().is_connected());
    assert!(router.send(1, Message::Loop(1)).is_ok());
}

#[test]
fn register_all_installs_every_mailbox() {
    let (ctrl_tx, ctrl_fsm) = Runner::new(10);
    let (mut router, _system) = create_system::<Runner, Runner>(&Config::default(), ctrl_tx, ctrl_fsm);

    let mut boxes = Vec::new();
    for addr in 10..13u64 {
        let (tx, runner) = Runner::new(4);
        boxes.push((addr, BasicMailbox::new(tx, runner, fresh_counter())));
    }
    router.register_all(boxes);
    assert_eq!(router.alive_cnt(), 3);
    for addr in 10..13u64 {
        assert!(router.mailbox(addr).is_some());
    }
}

#[test]
fn send_control_reaches_the_control_mailbox() {
    let (ctrl_tx, ctrl_fsm) = Runner::new(10);
    let (mut router, _system) = create_system::<Runner, Runner>(&Config::default(), ctrl_tx, ctrl_fsm);
    assert!(router.send_control(Message::Loop(1)).is_ok());
}

#[test]
fn broadcast_shutdown_is_idempotent() {
    let (ctrl_tx, ctrl_fsm) = Runner::new(10);
    let (mut router, _system) = create_system::<Runner, Runner>(&Config::default(), ctrl_tx, ctrl_fsm);

    let (tx, runner) = Runner::new(10);
    router.register(1, BasicMailbox::new(tx, runner, fresh_counter()));
    assert!(!router.is_shutdown());

    router.broadcast_shutdown();
    assert!(router.is_shutdown());
    assert_eq!(router.alive_cnt(), 0);
    assert!(router.mailbox(1).is_none());
    // a force_send racing the shutdown is swallowed
    assert!(router.force_send(1, Message::Loop(1)).is_ok());

    // a second shutdown leaves the same state
    router.broadcast_shutdown();
    assert!(router.is_shutdown());
    assert_eq!(router.alive_cnt(), 0);
    assert!(router.mailbox(1).is_none());
    assert!(router.force_send(1, Message::Loop(1)).is_ok());
}

#[test]
fn soft_cap_applies_until_forced() {
    // with a queue limit of 1 and no worker draining, the ninth send
    // hits the soft cap; force_send still goes through
    let (ctrl_tx, ctrl_fsm) = Runner::new(10);
    let (mut router, _system) = create_system::<Runner, Runner>(&Config::default(), ctrl_tx, ctrl_fsm);

    let (tx, runner) = Runner::new(1);
    router.register(1, BasicMailbox::new(tx, runner, fresh_counter()));

    let mut ok_sends: usize = 0;
    loop {
        match router.send(1, Message::Loop(1)) {
            Ok(()) => ok_sends += 1,
            Err(TrySendError::Full(_)) => break,
            Err(TrySendError::Disconnected(_)) => panic!("mailbox should still be connected."),
        }
        assert!(ok_sends < 100, "the soft cap never engaged");
    }
    assert_eq!(ok_sends, 8);
    assert!(matches!(router.send(1, Message::Loop(1)), Err(TrySendError::Full(_))));
    assert!(router.force_send(1, Message::Loop(1)).is_ok());
}

#[test]
fn trace_reports_no_leak_for_a_fresh_system() {
    let (ctrl_tx, ctrl_fsm) = Runner::new(10);
    let (mut router, _system) = create_system::<Runner, Runner>(&Config::default(), ctrl_tx, ctrl_fsm);
    let t = router.trace();
    // one cell exists (the control FSM); nothing is registered
    assert_eq!(t.alive, 0);
    assert_eq!(t.leak, 0);
    let (tx, runner) = Runner::new(4);
    router.register(1, BasicMailbox::new(tx, runner, fresh_counter()));
    let t2 = router.trace();
    assert!(t2.alive > 0);
}

#[test]
fn clear_cache_keeps_the_map() {
    let (ctrl_tx, ctrl_fsm) = Runner::new(10);
    let (mut router, _system) = create_system::<Runner, Runner>(&Config::default(), ctrl_tx, ctrl_fsm);
    let (tx, runner) = Runner::new(4);
    router.register(1, BasicMailbox::new(tx, runner, fresh_counter()));
    assert!(router.send(1, Message::Loop(1)).is_ok());
    router.clear_cache();
    assert!(router.send(1, Message::Loop(1)).is_ok());
    assert_eq!(router.alive_cnt(), 1);
}
