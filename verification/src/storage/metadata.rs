//! File metadata representation.

use vstd::prelude::*;

verus! {

/// A point in time: seconds and nanoseconds since the Unix epoch (UTC).
#[derive(Debug, Clone, Copy, PartialEq, Eq)]
pub struct Timestamp {
    pub secs: i64,
    pub nanos: u32,
}

/// Metadata for a file stored in a zone. `content_hash` is the SHA-256 of
/// the content, lowercase hex.
#[derive(Debug, Clone, PartialEq, Eq)]
pub struct FileMetadata {
    /// Original filename.
    pub name: String,
    /// File size in bytes.
    pub size: u64,
    /// SHA-256 hash of the content (hex-encoded).
    pub content_hash: String,
    /// When the original file was created (if known).
    pub created_at: Option<Timestamp>,
    /// When the file was imported into the zone.
    pub imported_at: Timestamp,
}

/// The mathematical value of a metadata record.
pub struct MetaModel {
    pub name: Seq<char>,
    pub size: u64,
    pub content_hash: Seq<char>,
    pub created_at: Option<Timestamp>,
    pub imported_at: Timestamp,
}

impl View for FileMetadata {
    type V = MetaModel;

    open spec fn view(&self) -> MetaModel {
        MetaModel {
            name: self.name@,
            size: self.size,
            content_hash: self.content_hash@,
            created_at: self.created_at,
            imported_at: self.imported_at,
        }
    }
}

/// The views of a list of metadata records.
pub open spec fn metas_view(v: Seq<FileMetadata>) -> Seq<MetaModel> {
    v.map_values(|m: FileMetadata| m@)
}

impl FileMetadata {
    /// A copy of this record.
    pub fn duplicate(&self) -> (r: Self)
        ensures
            r@ == self@,
    {
        FileMetadata {
            name: self.name.clone(),
            size: self.size,
            content_hash: self.content_hash.clone(),
            created_at: self.created_at,
            imported_at: self.imported_at,
        }
    }
}

} // verus!
