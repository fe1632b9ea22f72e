//! The terminal UI's logic: output lines, command parsing and dispatch,
//! the RS settings command, remote browsing state and transfer rules.

pub mod output;
pub mod command;
pub mod remote;
pub mod transfer;
pub mod block_client;
pub mod views;
pub mod dispatch;
