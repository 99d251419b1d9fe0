//! Peer-to-peer message delivery: a router that maps peers to connections and
//! queues and dispatches messages, a per-connection handler that correlates
//! substream requests with queued messages, and length-prefixed wire codecs.

pub mod behaviour;
pub mod codec;
pub mod codecs;
pub mod config;
pub mod connection;
pub mod error;
pub mod event;
pub mod framing;
pub mod handler;
pub mod laws;
pub mod model;
pub mod peer;
pub mod peer_map;
pub mod queue;
pub mod swarm;

pub use behaviour::Behaviour;
pub use codecs::bincode::BincodeCodec;
pub use codecs::prost::ProstCodec;
pub use config::Config;
pub use error::{CodecError, Error};
pub use event::Event;
pub use handler::{Handler, Protocol};
pub use peer::{ConnectionId, MessageId, OutboundMessage, PeerId};
pub use queue::EMPTY_QUEUE_SHRINK_THRESHOLD;
