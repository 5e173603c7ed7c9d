//! Tests of the channel layer: the sender-side close flag and the
//! loose bound's sampled capacity check.

use batch_system::mpsc::RecvTimeoutError;
use batch_system::mpsc::SendError;
use batch_system::mpsc::TryRecvError;
use batch_system::mpsc::TrySendError;
use batch_system::mpsc::bounded;
use batch_system::mpsc::loose_bounded;
use batch_system::mpsc::unbounded;

#[test]
fn unbounded_roundtrip_in_order() {
    let (tx, rx) = unbounded();
    for i in 0..5u32 {
        assert_eq!(tx.send(i), Ok(()));
    }
    assert_eq!(tx.len(), 5);
    for i in 0..5u32 {
        assert_eq!(rx.recv(), Ok(i));
    }
    assert_eq!(rx.try_recv(), Err(TryRecvError::Empty));
}

#[test]
fn close_sender_fails_later_sends() {
    let (mut tx, rx) = unbounded();
    assert!(tx.is_sender_connected());
    assert_eq!(tx.send(1u32), Ok(()));
    tx.close_sender();
    assert!(!tx.is_sender_connected());
    assert_eq!(tx.send(2u32), Err(SendError(2)));
    assert_eq!(tx.try_send(3u32), Err(TrySendError::Disconnected(3)));
    // what was queued before the close still arrives
    assert_eq!(rx.recv(), Ok(1));
}

#[test]
fn bounded_try_send_reports_full() {
    let (tx, rx) = bounded(2);
    assert_eq!(tx.try_send(1u32), Ok(()));
    assert_eq!(tx.try_send(2u32), Ok(()));
    assert_eq!(tx.try_send(3u32), Err(TrySendError::Full(3)));
    assert_eq!(rx.recv(), Ok(1));
    assert_eq!(tx.try_send(3u32), Ok(()));
}

#[test]
fn loose_bounded_limit_one_fills_after_eight() {
    // the soft cap is consulted only on every eighth attempt: with
    // limit 1 and nobody draining, eight sends pass, the ninth and
    // tenth report Full, and a force send always passes
    let (mut tx, rx) = loose_bounded(1);
    for i in 0..8u32 {
        assert_eq!(tx.try_send(i), Ok(()));
    }
    assert_eq!(tx.try_send(8u32), Err(TrySendError::Full(8)));
    assert_eq!(tx.try_send(9u32), Err(TrySendError::Full(9)));
    assert_eq!(tx.force_send(10u32), Ok(()));
    assert_eq!(rx.len(), 9);
    // draining below the limit lets the next checked attempt through
    for _ in 0..9 {
        assert!(rx.try_recv().is_ok());
    }
    assert_eq!(tx.try_send(11u32), Ok(()));
}

#[test]
fn loose_bounded_close_disconnects() {
    let (mut tx, _rx) = loose_bounded(4);
    assert!(tx.is_sender_connected());
    tx.close_sender();
    assert!(!tx.is_sender_connected());
    assert_eq!(tx.try_send(1u32), Err(TrySendError::Disconnected(1)));
    assert_eq!(tx.force_send(2u32), Err(SendError(2)));
}

#[test]
fn receiver_sees_disconnect_when_sender_drops() {
    let (tx, rx) = unbounded::<u32>();
    drop(tx);
    assert_eq!(rx.try_recv(), Err(TryRecvError::Disconnected));
    assert_eq!(rx.recv_timeout(50), Err(RecvTimeoutError::Disconnected));
}

#[test]
fn recv_timeout_times_out_while_connected() {
    let (tx, rx) = unbounded::<u32>();
    assert_eq!(rx.recv_timeout(10), Err(RecvTimeoutError::Timeout));
    assert_eq!(tx.send(7), Ok(()));
    assert_eq!(rx.recv_timeout(10), Ok(7));
}
