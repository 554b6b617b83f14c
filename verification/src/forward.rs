//! The server's forwarder: what it does with a stream or a datagram that
//! the multiplexor hands it.
//!
//! The forwarder's sockets are the caller's. What is here decides, after
//! each thing that happens on them, what happens next.

use vstd::prelude::*;
use vstd::slice::{slice_subrange, slice_to_vec};
use vstd::utf8::valid_utf8;
use crate::mux::{Datagram, MuxStream};
use crate::text::is_utf8;

verus! {

/// Why the forwarder gave up.
#[derive(Clone, Copy, Debug, PartialEq, Eq, Structural)]
pub enum ForwardError {
    /// The host is not UTF-8.
    Host,
    /// The host resolved to no address.
    Unresolved,
    /// The attempt with this number failed, and no other is left.
    Io(usize),
}

/// The family of a resolved address.
#[derive(Clone, Copy, Debug, PartialEq, Eq, Structural)]
pub enum Family {
    V4,
    V6,
}

/// How one attempt to reach a resolved address ended.
#[derive(Clone, Copy, Debug, PartialEq, Eq, Structural)]
pub enum Attempt {
    /// No socket of the address's family could be bound.
    BindFailed,
    /// The socket could not be connected to the address.
    ConnectFailed,
    /// The socket was connected, and sending failed.
    SendFailed,
    /// The datagram was sent.
    Sent,
}

/// What comes after an attempt.
#[derive(Clone, Copy, Debug, PartialEq, Eq, Structural)]
pub enum NextAttempt {
    /// Try the address with this number, from a socket bound to the
    /// unspecified address of this family.
    Try { index: usize, bind: Family },
    /// The datagram went out from the socket of the attempt with this
    /// number: keep the socket.
    Connected { index: usize },
    /// Give up.
    Failed(ForwardError),
}

/// What comes after the attempts so far. `outcomes` holds how the attempts
/// on the first addresses ended, in order.
///
/// The addresses are tried in order until a datagram is sent. An address
/// that cannot be bound from or connected to is passed over; a failure to
/// send ends everything. When no address is left, the failure of the last
/// attempt is the forwarder's; with no address at all there is nothing to
/// blame but the host.
pub open spec fn next_attempt(families: Seq<Family>, outcomes: Seq<Attempt>) -> NextAttempt {
    if outcomes.len() > 0 && outcomes.last() == Attempt::Sent {
        NextAttempt::Connected { index: (outcomes.len() - 1) as usize }
    } else if outcomes.len() > 0 && outcomes.last() == Attempt::SendFailed {
        NextAttempt::Failed(ForwardError::Io((outcomes.len() - 1) as usize))
    } else if outcomes.len() < families.len() {
        NextAttempt::Try { index: outcomes.len() as usize, bind: families[outcomes.len() as int] }
    } else if outcomes.len() > 0 {
        NextAttempt::Failed(ForwardError::Io((outcomes.len() - 1) as usize))
    } else {
        NextAttempt::Failed(ForwardError::Unresolved)
    }
}

/// Decides what comes after the attempts so far: see [`next_attempt`].
pub fn bind_and_send(families: &[Family], outcomes: &[Attempt]) -> (next: NextAttempt)
    ensures
        next == next_attempt(families@, outcomes@),
{
    let done = outcomes.len();
    if done > 0 {
        match outcomes[done - 1] {
            Attempt::Sent => {
                return NextAttempt::Connected { index: done - 1 };
            },
            Attempt::SendFailed => {
                return NextAttempt::Failed(ForwardError::Io(done - 1));
            },
            _ => {},
        }
    }
    if done < families.len() {
        NextAttempt::Try { index: done, bind: families[done] }
    } else if done > 0 {
        NextAttempt::Failed(ForwardError::Io(done - 1))
    } else {
        NextAttempt::Failed(ForwardError::Unresolved)
    }
}

/// What happened while the forwarder waited for an answer to a datagram.
#[derive(Clone, Copy, Debug, PartialEq, Eq, Structural)]
pub enum ForwardEvent {
    /// So many bytes arrived in the buffer.
    Received(usize),
    /// Receiving failed.
    ReceiveFailed,
    /// Nothing arrived before the prune timeout ran out.
    TimedOut,
}

/// What the forwarder does next.
#[derive(Clone, Debug, PartialEq, Eq)]
pub enum ForwardAction {
    /// Send this datagram back through the multiplexor, then wait again,
    /// unless the multiplexor is gone.
    Reply(Datagram),
    /// Give the socket up: nothing is to come.
    Finish,
    /// Give up with a failure.
    Fail,
}

/// Checks that the host of a datagram is text, before anything is sent to
/// it.
pub fn datagram_target(request: &Datagram) -> (r: Result<(), ForwardError>)
    ensures
        r == if valid_utf8(request.target_host@) {
            Ok::<(), ForwardError>(())
        } else {
            Err(ForwardError::Host)
        },
{
    if is_utf8(request.target_host.as_slice()) {
        Ok(())
    } else {
        Err(ForwardError::Host)
    }
}

/// Decides what the forwarder does after `event`. What arrived goes back
/// under the session id, host and port of the request; a timeout ends the
/// forwarding in peace; a failure to receive ends it with a failure.
pub fn udp_forward_to(request: &Datagram, buf: &[u8], event: ForwardEvent) -> (action:
    ForwardAction)
    ensures
        match event {
            ForwardEvent::Received(len) => action matches ForwardAction::Reply(reply) && reply@
                == (crate::model::DatagramModel {
                data: buf@.take(
                    if len <= buf@.len() {
                        len as int
                    } else {
                        buf@.len() as int
                    },
                ),
                ..request@
            }),
            ForwardEvent::ReceiveFailed => action is Fail,
            ForwardEvent::TimedOut => action is Finish,
        },
{
    match event {
        ForwardEvent::Received(len) => {
            let n = if len <= buf.len() {
                len
            } else {
                buf.len()
            };
            let data = slice_to_vec(slice_subrange(buf, 0, n));
            ForwardAction::Reply(
                Datagram {
                    flow_id: request.flow_id,
                    target_host: slice_to_vec(request.target_host.as_slice()),
                    target_port: request.target_port,
                    data,
                },
            )
        },
        ForwardEvent::ReceiveFailed => ForwardAction::Fail,
        ForwardEvent::TimedOut => ForwardAction::Finish,
    }
}

/// Checks that the host which a stream's peer asked for is text, before
/// the forwarder connects to it.
pub fn tcp_forwarder_on_channel(channel: &MuxStream) -> (r: Result<(), ForwardError>)
    ensures
        r == if valid_utf8(channel@.dest_host) {
            Ok::<(), ForwardError>(())
        } else {
            Err(ForwardError::Host)
        },
{
    if is_utf8(channel.dest_host()) {
        Ok(())
    } else {
        Err(ForwardError::Host)
    }
}

} // verus!
