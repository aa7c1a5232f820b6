use crate::pid::{pid_less, Pid};
use vstd::prelude::*;

verus! {

/// The state of the connection to one remote process.
#[derive(Clone, Copy, Debug, PartialEq, Eq, Structural)]
pub enum PeerState {
    Unconnected,
    Connecting,
    Connected,
    /// One side has sent its end marker, or a local close was asked for.
    Draining,
    Closed,
}

/// What happens to a connection.
#[derive(Clone, Copy, Debug, PartialEq, Eq, Structural)]
pub enum PeerEvent {
    /// A local endpoint needs to send or receive.
    Needed,
    /// The outbound connection succeeded.
    ConnectSucceeded,
    /// The outbound connection failed.
    ConnectFailed,
    /// The remote connected to this process.
    Accepted,
    /// The remote sent its end marker.
    RemoteEnded,
    /// A local endpoint was dropped.
    LocalClosed,
    /// Both queues of a draining connection are empty.
    Drained,
}

/// What the reactor does on a transition.
#[derive(Clone, Copy, Debug, PartialEq, Eq, Structural)]
pub enum PeerAction {
    Nothing,
    /// Open a connection to the remote.
    Connect,
    /// Try the connection again after a pause.
    RetryLater,
    /// Keep the outbound connection and close the one just accepted.
    DropAccepted,
    /// Keep the connection just accepted and abandon the outbound one.
    DropOutbound,
    /// Close the socket.
    Shutdown,
}

/// The connection's transitions. Where both sides connect at once, the
/// connection that the smaller pid opened is kept.
pub open spec fn transition(state: PeerState, event: PeerEvent, local_smaller: bool) -> (
    PeerState,
    PeerAction,
) {
    match (state, event) {
        (PeerState::Unconnected, PeerEvent::Needed) => (PeerState::Connecting, PeerAction::Connect),
        (PeerState::Unconnected, PeerEvent::Accepted) => (PeerState::Connected, PeerAction::Nothing),
        (PeerState::Connecting, PeerEvent::ConnectSucceeded) => (
            PeerState::Connected,
            PeerAction::Nothing,
        ),
        (PeerState::Connecting, PeerEvent::ConnectFailed) => (
            PeerState::Unconnected,
            PeerAction::RetryLater,
        ),
        (PeerState::Connecting, PeerEvent::Accepted) => if local_smaller {
            (PeerState::Connecting, PeerAction::DropAccepted)
        } else {
            (PeerState::Connected, PeerAction::DropOutbound)
        },
        (PeerState::Connected, PeerEvent::RemoteEnded) => (PeerState::Draining, PeerAction::Nothing),
        (PeerState::Connected, PeerEvent::LocalClosed) => (PeerState::Draining, PeerAction::Nothing),
        (PeerState::Draining, PeerEvent::Drained) => (PeerState::Closed, PeerAction::Shutdown),
        _ => (state, PeerAction::Nothing),
    }
}

/// The next state of the connection between `local` and `remote`, and what
/// to do.
pub fn peer_step(local: Pid, remote: Pid, state: PeerState, event: PeerEvent) -> (r: (
    PeerState,
    PeerAction,
))
    ensures
        r == transition(state, event, pid_less(local, remote)),
{
    match (state, event) {
        (PeerState::Unconnected, PeerEvent::Needed) => (PeerState::Connecting, PeerAction::Connect),
        (PeerState::Unconnected, PeerEvent::Accepted) => (PeerState::Connected, PeerAction::Nothing),
        (PeerState::Connecting, PeerEvent::ConnectSucceeded) => (
            PeerState::Connected,
            PeerAction::Nothing,
        ),
        (PeerState::Connecting, PeerEvent::ConnectFailed) => (
            PeerState::Unconnected,
            PeerAction::RetryLater,
        ),
        (PeerState::Connecting, PeerEvent::Accepted) => if local.less_than(&remote) {
            (PeerState::Connecting, PeerAction::DropAccepted)
        } else {
            (PeerState::Connected, PeerAction::DropOutbound)
        },
        (PeerState::Connected, PeerEvent::RemoteEnded) => (PeerState::Draining, PeerAction::Nothing),
        (PeerState::Connected, PeerEvent::LocalClosed) => (PeerState::Draining, PeerAction::Nothing),
        (PeerState::Draining, PeerEvent::Drained) => (PeerState::Closed, PeerAction::Shutdown),
        _ => (state, PeerAction::Nothing),
    }
}

/// Whether `local` keeps a connection between it and `remote`, where both
/// opened one: it keeps the one that the smaller pid opened.
pub open spec fn keeps(local: Pid, remote: Pid, opened_locally: bool) -> bool {
    opened_locally == pid_less(local, remote)
}

pub fn keeps_connection(local: Pid, remote: Pid, opened_locally: bool) -> (r: bool)
    ensures
        r == keeps(local, remote, opened_locally),
{
    opened_locally == local.less_than(&remote)
}

/// Where two processes race to connect, both keep the same connection:
/// each connection is kept by the side that opened it exactly when the side
/// that accepted it keeps it too.
pub proof fn lemma_race_agreement(a: Pid, b: Pid)
    requires
        a != b,
    ensures
        keeps(a, b, true) == keeps(b, a, false),
        keeps(a, b, false) == keeps(b, a, true),
{
}

/// Once closed, a connection stays closed.
pub proof fn lemma_closed_is_final(event: PeerEvent, local_smaller: bool)
    ensures
        transition(PeerState::Closed, event, local_smaller) == (
            PeerState::Closed,
            PeerAction::Nothing,
        ),
{
}

/// The longest pause between connection attempts, in milliseconds.
pub const MAX_RETRY_DELAY_MS: u64 = 30000;

/// The pause before connection attempt `attempt` (from zero): 100 ms,
/// doubled on each failure, and at most `MAX_RETRY_DELAY_MS`.
pub open spec fn retry_delay(attempt: nat) -> nat
    decreases attempt,
{
    if attempt == 0 {
        100
    } else {
        let d = 2 * retry_delay((attempt - 1) as nat);
        if d > MAX_RETRY_DELAY_MS {
            MAX_RETRY_DELAY_MS as nat
        } else {
            d
        }
    }
}

pub fn retry_delay_ms(attempt: u32) -> (r: u64)
    ensures
        r == retry_delay(attempt as nat),
        r <= MAX_RETRY_DELAY_MS,
{
    let mut d: u64 = 100;
    let mut i: u32 = 0;
    while i < attempt
        invariant
            i <= attempt,
            d == retry_delay(i as nat),
            d <= MAX_RETRY_DELAY_MS,
        decreases attempt - i,
    {
        d = if 2 * d > MAX_RETRY_DELAY_MS {
            MAX_RETRY_DELAY_MS
        } else {
            2 * d
        };
        i = i + 1;
    }
    d
}

} // verus!
