//! Storage of file zones: file metadata, the on-disk layout of a zone and
//! the registry of zones with the active one.

pub mod metadata;
pub mod local;
pub mod manager;
