//! Daemon-side logic: the IPC message framing, the block server's binary
//! wire format and the RS synchronisation planner.

pub mod protocol;
pub mod block_server;
pub mod rs_sync;
pub mod renew;
