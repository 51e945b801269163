//! The accept loop's decisions, and the wake-up address.
//!
//! The socket blocks outside the library; each time its accept call comes
//! back, the loop hands what happened to [`Acceptor::on_accept`] together
//! with the current value of the shutdown signal, and does what the answer
//! says: submit the connection to the pool, log a transient error and go
//! on, or discard whatever arrived and exit. A blocked accept cannot see
//! the signal, so whoever raises it also opens and drops a throwaway
//! connection to the listening address — the wake-up — which makes the
//! accept return; the very next decision then exits, and the wake-up is
//! never submitted as work.

use vstd::prelude::*;
use crate::text::decimal_digits;
use crate::text::push_decimal;

verus! {

/// What one accept call came back with.
#[derive(Clone, Copy, Debug, PartialEq, Eq, Structural)]
pub enum AcceptEvent {
    /// A connection arrived.
    Connection,
    /// The accept call failed with a transient error.
    AcceptFailed,
}

/// What the loop must do with it.
#[derive(Clone, Copy, Debug, PartialEq, Eq, Structural)]
pub enum AcceptAction {
    /// Package the connection as a job and hand it to the pool.
    Submit,
    /// Log the error, keep accepting; an accept error is never fatal.
    Retry,
    /// Discard whatever arrived, stop accepting, and shut the pool down.
    Exit,
}

/// The decision: a raised signal ends the loop whatever arrived; otherwise
/// a connection is submitted and an error only logged.
pub open spec fn action_tr(signal_raised: bool, event: AcceptEvent) -> AcceptAction {
    if signal_raised {
        AcceptAction::Exit
    } else if event is Connection {
        AcceptAction::Submit
    } else {
        AcceptAction::Retry
    }
}

/// Whether the loop keeps running afterwards.
pub open spec fn accepting_tr(accepting: bool, signal_raised: bool) -> bool {
    accepting && !signal_raised
}

/// The accept loop: accepting until it observes the shutdown signal.
pub struct Acceptor {
    accepting: bool,
}

impl View for Acceptor {
    type V = bool;

    closed spec fn view(&self) -> bool {
        self.accepting
    }
}

impl Acceptor {
    /// A fresh accept loop, accepting.
    pub fn new() -> (a: Acceptor)
        ensures
            a@,
    {
        Acceptor { accepting: true }
    }

    /// One turn of the loop: the accept call has returned `event`, and the
    /// shutdown signal reads `signal_raised`.
    pub fn on_accept(&mut self, signal_raised: bool, event: AcceptEvent) -> (a: AcceptAction)
        requires
            old(self)@,
        ensures
            a == action_tr(signal_raised, event),
            final(self)@ == accepting_tr(old(self)@, signal_raised),
            signal_raised ==> a is Exit && !final(self)@,
            !signal_raised ==> final(self)@,
    {
        if signal_raised {
            self.accepting = false;
            AcceptAction::Exit
        } else if let AcceptEvent::Connection = event {
            AcceptAction::Submit
        } else {
            AcceptAction::Retry
        }
    }

    /// Whether the loop is still accepting.
    pub fn is_accepting(&self) -> (b: bool)
        ensures
            b == self@,
    {
        self.accepting
    }
}

/// Once the shutdown signal is raised, whatever the blocked accept call
/// comes back with — the wake-up connection, a real client, or an error —
/// the next decision exits the loop and submits nothing: the acceptor
/// observes the signal after a single accept, and the raiser's wake-up
/// connection guarantees that accept returns.
pub proof fn lemma_signal_stops_acceptor(accepting: bool, event: AcceptEvent)
    ensures
        action_tr(true, event) == AcceptAction::Exit,
        action_tr(true, event) != AcceptAction::Submit,
        !accepting_tr(accepting, true),
{
}

/// The bytes of `127.0.0.1:`, the IPv4 loopback with a port to follow.
pub open spec fn ipv4_loopback_label() -> Seq<u8> {
    seq![49u8, 50u8, 55u8, 46u8, 48u8, 46u8, 48u8, 46u8, 49u8, 58u8]
}

/// The bytes of `[::1]:`, the IPv6 loopback with a port to follow.
pub open spec fn ipv6_loopback_label() -> Seq<u8> {
    seq![91u8, 58u8, 58u8, 49u8, 93u8, 58u8]
}

/// The address the raiser of the signal connects to in order to unblock
/// the accept call: the loopback that matches the listener's family, then
/// the listener's port in decimal.
pub open spec fn wakeup_address(is_ipv6: bool, port: u16) -> Seq<u8> {
    (if is_ipv6 {
        ipv6_loopback_label()
    } else {
        ipv4_loopback_label()
    }) + decimal_digits(port as nat)
}

/// Builds the wake-up address for a listener bound to `port`.
pub fn wakeup_address_bytes(is_ipv6: bool, port: u16) -> (r: Vec<u8>)
    ensures
        r@ == wakeup_address(is_ipv6, port),
{
    let mut r: Vec<u8> = if is_ipv6 {
        vec![91, 58, 58, 49, 93, 58]
    } else {
        vec![49, 50, 55, 46, 48, 46, 48, 46, 49, 58]
    };
    proof {
        if is_ipv6 {
            assert(r@ =~= ipv6_loopback_label());
        } else {
            assert(r@ =~= ipv4_loopback_label());
        }
    }
    push_decimal(port as u64, &mut r);
    proof {
        assert(r@ =~= wakeup_address(is_ipv6, port));
    }
    r
}

} // verus!
