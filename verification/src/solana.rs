//! Handshake protocol for gossip nodes: message shapes, wire
//! encoding, response validation, the client retry state machine, the
//! listener packet dispatcher and the peer registry.

pub mod network;

pub mod domain;

pub mod wire;

pub mod gossip_node;

pub mod handshake_client;

pub use domain::{default_capabilities, GossipNodeInfo, DEFAULT_PROTOCOL_VERSION};
pub use domain::{HandshakeRequest, HandshakeResponse, SolanaNodeError};
pub use gossip_node::GossipNode;
pub use handshake_client::{HandshakeClient, HandshakeResult};
