use crate::bridge::{ProcessInputEvent, ProcessOutputEvent};
use crate::exit::{ExitStatus, ExitStatusError};
use crate::pid::Pid;
use vstd::prelude::*;

verus! {

/// The descriptor of standard input.
pub const STDIN_FD: i32 = 0;

/// How a reaped child ended.
#[derive(Clone, Copy, Debug, PartialEq, Eq, Structural)]
pub enum WaitOutcome {
    /// It exited with this code.
    Exited(i32),
    /// This signal terminated it.
    Signaled(i32),
}

/// The exit status of a child that ended so.
pub open spec fn exit_status_of_spec(outcome: WaitOutcome) -> ExitStatus {
    match outcome {
        WaitOutcome::Exited(code) => if code == 0 {
            ExitStatus::Success
        } else {
            ExitStatus::Error(ExitStatusError::Status(code as u8))
        },
        WaitOutcome::Signaled(signal) => ExitStatus::Error(ExitStatusError::Signal(signal)),
    }
}

/// The exit status that a reaped child reports to the bridge.
pub fn exit_status_of(outcome: WaitOutcome) -> (r: ExitStatus)
    requires
        outcome matches WaitOutcome::Exited(code) ==> 0 <= code <= 255,
    ensures
        r == exit_status_of_spec(outcome),
{
    match outcome {
        WaitOutcome::Exited(code) => ExitStatus::from_unix_status(code as u8),
        WaitOutcome::Signaled(signal) => ExitStatus::from_unix_signal(signal),
    }
}

/// What a monitor does with an event from the bridge.
#[derive(Clone, Debug, PartialEq, Eq)]
pub enum MonitorAction {
    /// Write these bytes to the child's standard input.
    WriteStdin(Vec<u8>),
    /// Close the child's standard input.
    CloseStdin,
    /// Kill the child, and stop reading events.
    Kill,
    /// Input for a descriptor other than standard input, which is not
    /// forwarded.
    Unsupported(i32),
}

pub fn input_action(event: ProcessInputEvent) -> (r: MonitorAction)
    ensures
        match event {
            ProcessInputEvent::Input(fd, bytes) => if fd != STDIN_FD {
                r == MonitorAction::Unsupported(fd)
            } else if bytes@.len() == 0 {
                r == MonitorAction::CloseStdin
            } else {
                r == MonitorAction::WriteStdin(bytes)
            },
            ProcessInputEvent::Kill => r == MonitorAction::Kill,
        },
{
    match event {
        ProcessInputEvent::Input(fd, bytes) => {
            if fd != STDIN_FD {
                MonitorAction::Unsupported(fd)
            } else if bytes.len() == 0 {
                MonitorAction::CloseStdin
            } else {
                MonitorAction::WriteStdin(bytes)
            }
        },
        ProcessInputEvent::Kill => MonitorAction::Kill,
    }
}

/// The event that reports bytes read from the child's descriptor `fd`,
/// and whether to go on reading: no bytes mean that the child closed it.
pub fn output_event(fd: i32, bytes: Vec<u8>) -> (r: (ProcessOutputEvent, bool))
    ensures
        r.1 == (bytes@.len() > 0),
        r.0 == ProcessOutputEvent::Output(fd, bytes),
{
    let more = bytes.len() > 0;
    (ProcessOutputEvent::Output(fd, bytes), more)
}

/// Whether a monitor hands an inbound connection on to its child: all but
/// those from the bridge are, and those whose peer is unknown are kept.
pub fn forwards_connection(peer: Option<Pid>, bridge: Pid) -> (r: bool)
    ensures
        r == (peer is Some && peer != Some(bridge)),
{
    match peer {
        Some(p) => p != bridge,
        None => false,
    }
}

/// Where a monitored child stands.
#[derive(Clone, Copy, Debug, PartialEq, Eq, Structural)]
pub enum ChildState {
    /// Forked; waiting for the monitor to set up its descriptors.
    Uninitialized,
    /// The monitor has placed the forwarded descriptors and released it.
    DescriptorsPositioned,
    /// Running the user's code.
    Running,
    /// Reaped, with this status.
    Exited(ExitStatus),
}

/// What happens to a monitored child.
#[derive(Clone, Copy, Debug, PartialEq, Eq, Structural)]
pub enum ChildEvent {
    /// The monitor closed the readiness pipe.
    Released,
    /// The child returned from `init` into its code.
    Started,
    /// The monitor reaped the child.
    Reaped(WaitOutcome),
}

/// The child's next state; `None` where the event cannot happen in its
/// state. A child may be reaped in any state but the last, as it may die
/// at any time.
pub fn child_step(state: ChildState, event: ChildEvent) -> (r: Option<ChildState>)
    requires
        event matches ChildEvent::Reaped(WaitOutcome::Exited(code)) ==> 0 <= code <= 255,
    ensures
        match (state, event) {
            (ChildState::Uninitialized, ChildEvent::Released) => r == Some(
                ChildState::DescriptorsPositioned,
            ),
            (ChildState::DescriptorsPositioned, ChildEvent::Started) => r == Some(
                ChildState::Running,
            ),
            (ChildState::Exited(_), _) => r is None,
            (_, ChildEvent::Reaped(outcome)) => match r {
                Some(ChildState::Exited(status)) => status == exit_status_of_spec(outcome),
                _ => false,
            },
            _ => r is None,
        },
{
    match (state, event) {
        (ChildState::Uninitialized, ChildEvent::Released) => Some(ChildState::DescriptorsPositioned),
        (ChildState::DescriptorsPositioned, ChildEvent::Started) => Some(ChildState::Running),
        (ChildState::Exited(_), _) => None,
        (_, ChildEvent::Reaped(outcome)) => Some(ChildState::Exited(exit_status_of(outcome))),
        _ => None,
    }
}

} // verus!
