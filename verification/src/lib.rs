//! Peer-authentication handshakes for a gossip-style P2P network.
//!
//! The crate covers the wire encoding of the two handshake message shapes,
//! validation of handshake responses, the client-side retry/backoff state
//! machine, the listener-side packet dispatcher, and the peer registry that
//! both sides update on successful exchanges.  All network and clock I/O is
//! left to the embedding application, which drives the state machines with
//! plain values.

pub mod arguments_parser;

pub mod strutil;

pub mod telemetry;

pub mod solana;

pub use arguments_parser::Args;
pub use solana::domain::{HandshakeRequest, HandshakeResponse, SolanaNodeError};
pub use solana::gossip_node::GossipNode;
pub use solana::handshake_client::HandshakeClient;
pub use telemetry::TelemetryConfig;

