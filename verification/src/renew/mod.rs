//! Automatic updates from peers: version information, the staging of a
//! downloaded binary and the update protocol.

pub mod protocol;
pub mod updater;
pub mod version;
