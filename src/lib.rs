//! A runtime for distributed programs: a tree of processes that exchange
//! typed messages over point-to-point channels.
//!
//! This crate holds the runtime's logic: the wire framing of channel
//! messages and how a receiver reads it, the registry that keeps channel
//! endpoints unique, `select` over pending channel operations, the bridge
//! that folds every process's events into one log and one exit status, the
//! decisions of a process's monitor and of `init`, and parsing of sizes.
use vstd::prelude::*;

pub mod bridge;
pub mod endpoint;
pub mod exit;
pub mod frame;
pub mod hex;
pub mod init;
pub mod monitor;
pub mod peer;
pub mod pid;
pub mod rand_stream;
pub mod runtime;
pub mod select;
pub mod size;

pub use bridge::{Bridge, DeployOutputEvent, ProcessInputEvent, ProcessOutputEvent};
pub use endpoint::{Direction, EndpointError, Endpoints};
pub use exit::{ExitStatus, ExitStatusError};
pub use frame::{decode_frame, encode_bytes, encode_end, encode_frame, next_message, ChannelError, Decoded, Inbox};
pub use hex::{Hex, ToHex};
pub use pid::{IpAddress, Pid};
pub use rand_stream::Rand;
pub use runtime::{resources, Resources, Runtime};
pub use select::{choose_ready, run, select, select_ready, Selectable};
pub use size::parse_binary_size;

verus! {

} // verus!
