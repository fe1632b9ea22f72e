//! The line-oriented command interface.

pub mod commands;
