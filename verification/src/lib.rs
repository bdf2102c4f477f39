//! A bridge between a virtual IP stack and a peer-to-peer transport.
//!
//! Packets that the stack emits are forwarded to the peer that their destination
//! address names; payloads that peers send are injected into the stack.
//!
//! The two directions share nothing. Each is a state machine that decides and
//! never waits: its owner performs the action that a step returns, on the stack
//! or on the transport, and reports the outcome as the next event.
//!
//! - [`resolver`]: the peer that an IP packet is for.
//! - [`buffers`]: the buffer set that a batch of packets is received into.
//! - [`egress`]: from the stack to the peers.
//! - [`ingress`]: from the peers to the stack, one receiver per line.
//! - [`supervisor`]: what the bridge needs before it starts.
//! - [`config`]: the options of a transport.
pub mod buffers;
pub mod config;
pub mod egress;
pub mod ingress;
pub mod resolver;
pub mod supervisor;

pub use crate::buffers::BufferSet;
pub use crate::config::TransportBuilder;
pub use crate::config::TransportSettings;
pub use crate::egress::EgressForwarder;
pub use crate::ingress::IngressDispatcher;
pub use crate::ingress::LineReceiver;
pub use crate::resolver::resolve_destination;
pub use crate::resolver::DestinationKey;
pub use rustp2p;
