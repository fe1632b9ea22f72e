//! Peer-to-peer networking: wire messages, the peer book, peer exchange,
//! heartbeats, pending requests and network recovery.

pub mod messages;
pub mod node;
pub mod peer_exchange;
pub mod peer_store;
pub mod heartbeat;
pub mod service;
pub mod recovery;
