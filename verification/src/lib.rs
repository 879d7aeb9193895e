//! Relays the video capture sources of a PipeWire bus to host textures.
//!
//! The crate holds the decisions of the bridge as plain state machines: the
//! session that owns the streams, the per-source format negotiation and
//! frame relay, and the consumer-side directory that ties textures to
//! sources. The threads, the bus connection and the host objects live with
//! the caller, which feeds events in and carries the resulting actions out.

pub mod bridge;
pub mod channels;
pub mod client;
pub mod registry;
pub mod resource;
pub mod stream;
