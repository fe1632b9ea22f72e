//! rxiu - file zones, RS block sharing and LAN peer-to-peer synchronisation.
//!
//! This crate holds the verified core of rxiu: the block store and its
//! ownership rules, wire framing, network recovery, version handling, the
//! peer book and the zone registry. Everything that touches the disk, the
//! terminal or the network lives in the application around it.

pub mod cli;
pub mod text;
pub mod digest;
pub mod seqs;
pub mod error;
pub mod rs;
pub mod p2p;
pub mod daemon;
pub mod config;
pub mod renew;
pub mod storage;
pub mod tui;
pub mod ui;
