use webserver::acceptor::{wakeup_address_bytes, AcceptAction, AcceptEvent, Acceptor};
use webserver::shutdown::ShutdownSignal;

#[test]
fn connections_are_submitted_while_the_signal_is_down() {
    let mut acceptor = Acceptor::new();
    let mut signal = ShutdownSignal::new();
    assert!(!signal.is_raised());
    let action = acceptor.on_accept(signal.is_raised(), AcceptEvent::Connection);
    assert_eq!(action, AcceptAction::Submit);
    assert!(acceptor.is_accepting());
    signal.raise();
    let action = acceptor.on_accept(signal.is_raised(), AcceptEvent::Connection);
    assert_eq!(action, AcceptAction::Exit);
}

#[test]
fn accept_errors_are_never_fatal() {
    let mut acceptor = Acceptor::new();
    for _ in 0..3 {
        let action = acceptor.on_accept(false, AcceptEvent::AcceptFailed);
        assert_eq!(action, AcceptAction::Retry);
        assert!(acceptor.is_accepting());
    }
}

#[test]
fn a_raised_signal_ends_the_loop_at_the_next_accept() {
    // The raiser's wake-up connection unblocks the accept call; whatever
    // that call comes back with, the loop exits and submits nothing.
    let mut blocked_on_connection = Acceptor::new();
    let action = blocked_on_connection.on_accept(true, AcceptEvent::Connection);
    assert_eq!(action, AcceptAction::Exit);
    assert_ne!(action, AcceptAction::Submit);
    assert!(!blocked_on_connection.is_accepting());

    let mut blocked_on_error = Acceptor::new();
    let action = blocked_on_error.on_accept(true, AcceptEvent::AcceptFailed);
    assert_eq!(action, AcceptAction::Exit);
    assert!(!blocked_on_error.is_accepting());
}

#[test]
fn raising_the_signal_is_idempotent() {
    let mut signal = ShutdownSignal::new();
    assert!(!signal.is_raised());
    signal.raise();
    assert!(signal.is_raised());
    signal.raise();
    assert!(signal.is_raised());
}

#[test]
fn the_wakeup_address_is_the_matching_loopback_and_port() {
    assert_eq!(wakeup_address_bytes(false, 7878).as_slice(), b"127.0.0.1:7878");
    assert_eq!(wakeup_address_bytes(true, 7878).as_slice(), b"[::1]:7878");
    assert_eq!(wakeup_address_bytes(false, 80).as_slice(), b"127.0.0.1:80");
}
