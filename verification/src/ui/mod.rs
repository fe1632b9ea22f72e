//! Interactive file selection.

pub mod browser;
