//! Peer-session layer of a peer-to-peer content distribution engine.
//!
//! The crate holds the decisions of the session layer as verified, synchronous
//! code: the handshake state machine, admission control over bounded session
//! queues, the expiring membership set and the discovery cycle built on it, and
//! the addressing model shared with the storage layer. Transport, signing,
//! randomness and time are supplied by the caller as plain values.

pub mod accepter;
pub mod handshake;
pub mod handshake_laws;
pub mod message;
pub mod merkle;
pub mod model;
pub mod node_finder;
pub mod published_file;
pub mod queue;
pub mod version;
pub mod volatile;
