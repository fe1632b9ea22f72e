//! The on-disk layout of a zone and the rules of its metadata.
//!
//! A zone named `z` lives under `~/.rxiu/zones/z`: the files in `files`,
//! their metadata as a JSON list in `metadata.json`. The application reads
//! and writes those; this module computes the paths, the metadata changes
//! and the byte ranges.

use vstd::prelude::*;
use crate::digest::{sha256_hex, sha256_hex_spec};
use crate::error::AppError;
use crate::seqs::remove_where;
use crate::storage::metadata::{FileMetadata, MetaModel, Timestamp, metas_view};
use crate::text::{path_join, path_join_spec};

verus! {

/// Local filesystem layout of one zone.
#[derive(Debug)]
pub struct LocalBackend {
    base_path: String,
    files_path: String,
    metadata_path: String,
}

/// `~/.rxiu/zones/<zone>` under the given home directory.
pub open spec fn zone_base_spec(home: Seq<char>, zone: Seq<char>) -> Seq<char> {
    path_join_spec(path_join_spec(path_join_spec(home, ".rxiu"@), "zones"@), zone)
}

/// The metadata recorded for content stored under `name` at time `now`.
pub open spec fn stored_meta(name: Seq<char>, content: Seq<u8>, now: Timestamp) -> MetaModel {
    MetaModel {
        name,
        size: content.len() as u64,
        content_hash: sha256_hex_spec(content),
        created_at: None,
        imported_at: now,
    }
}

/// The record is for the file `name`.
pub open spec fn meta_named(name: Seq<char>) -> spec_fn(MetaModel) -> bool {
    |m: MetaModel| m.name == name
}

/// The range `[start, end)` of a file of `file_size` bytes that a chunk
/// request for `size` bytes at `offset` reads; `None` when the offset is
/// past the end.
pub open spec fn chunk_range(file_size: nat, offset: nat, size: nat) -> Option<(nat, nat)> {
    if offset >= file_size {
        None
    } else if offset + size < file_size {
        Some((offset, offset + size))
    } else {
        Some((offset, file_size))
    }
}

impl LocalBackend {
    pub closed spec fn spec_base_path(&self) -> Seq<char> {
        self.base_path@
    }

    pub closed spec fn spec_files_path(&self) -> Seq<char> {
        self.files_path@
    }

    pub closed spec fn spec_metadata_path(&self) -> Seq<char> {
        self.metadata_path@
    }

    /// The layout of zone `zone_name` under the given home directory.
    pub fn new(home: &str, zone_name: &str) -> (b: Self)
        ensures
            b.spec_base_path() == zone_base_spec(home@, zone_name@),
            b.spec_files_path() == path_join_spec(zone_base_spec(home@, zone_name@), "files"@),
            b.spec_metadata_path() == path_join_spec(zone_base_spec(home@, zone_name@), "metadata.json"@),
    {
        let rxiu = path_join(home, ".rxiu");
        let zones = path_join(rxiu.as_str(), "zones");
        let base_path = path_join(zones.as_str(), zone_name);
        let files_path = path_join(base_path.as_str(), "files");
        let metadata_path = path_join(base_path.as_str(), "metadata.json");
        LocalBackend { base_path, files_path, metadata_path }
    }

    /// The zone's root directory.
    pub fn base_path(&self) -> (r: &str)
        ensures
            r@ == self.spec_base_path(),
    {
        self.base_path.as_str()
    }

    /// The directory holding the zone's files.
    pub fn files_path(&self) -> (r: &str)
        ensures
            r@ == self.spec_files_path(),
    {
        self.files_path.as_str()
    }

    /// The zone's metadata file.
    pub fn metadata_path(&self) -> (r: &str)
        ensures
            r@ == self.spec_metadata_path(),
    {
        self.metadata_path.as_str()
    }

    /// Where the file `name` of the zone is kept.
    pub fn file_path(&self, name: &str) -> (r: String)
        ensures
            r@ == path_join_spec(self.spec_files_path(), name@),
    {
        path_join(self.files_path.as_str(), name)
    }

    /// The SHA-256 of content, lowercase hex.
    pub fn compute_hash(content: &[u8]) -> (r: String)
        ensures
            r@ == sha256_hex_spec(content@),
    {
        sha256_hex(content)
    }

    /// Stores content under `name` at time `now`: returns the new record and
    /// the metadata list with it appended.
    pub fn record_store(metadata: Vec<FileMetadata>, name: &str, content: &[u8], now: Timestamp) -> (r: (
        FileMetadata,
        Vec<FileMetadata>,
    ))
        requires
            content@.len() <= u64::MAX,
        ensures
            r.0@ == stored_meta(name@, content@, now),
            metas_view(r.1@) == metas_view(metadata@).push(stored_meta(name@, content@, now)),
    {
        let meta = FileMetadata {
            name: String::from_str(name),
            size: content.len() as u64,
            content_hash: Self::compute_hash(content),
            created_at: None,
            imported_at: now,
        };
        let mut all = metadata;
        let ghost prev = all@;
        all.push(meta.duplicate());
        assert(metas_view(all@) =~= metas_view(prev).push(meta@));
        (meta, all)
    }

    /// The metadata list after deleting the file `name`: every record of
    /// that name is dropped.
    pub fn record_delete(metadata: &Vec<FileMetadata>, name: &str) -> (r: Vec<FileMetadata>)
        ensures
            metas_view(r@) == remove_where(metas_view(metadata@), meta_named(name@)),
    {
        let ghost mv = metas_view(metadata@);
        let mut r: Vec<FileMetadata> = Vec::new();
        let mut i: usize = 0;
        while i < metadata.len()
            invariant
                mv == metas_view(metadata@),
                i <= metadata@.len(),
                metas_view(r@) == remove_where(mv.take(i as int), meta_named(name@)),
            decreases metadata@.len() - i,
        {
            proof {
                reveal(Seq::filter);
                assert(mv.take(i + 1).drop_last() =~= mv.take(i as int));
            }
            let ghost prev = r@;
            if !crate::text::str_eq(metadata[i].name.as_str(), name) {
                r.push(metadata[i].duplicate());
                assert(metas_view(r@) =~= metas_view(prev).push(mv[i as int]));
            }
            i = i + 1;
        }
        assert(mv.take(mv.len() as int) =~= mv);
        r
    }

    /// The byte range a chunk request reads from a file of `file_size`
    /// bytes: an I/O error when the offset is at or past the end.
    pub fn chunk_span(file_size: u64, offset: u64, size: u64) -> (r: Result<(u64, u64), AppError>)
        ensures
            match chunk_range(file_size as nat, offset as nat, size as nat) {
                Some((s, e)) => r matches Ok((a, b)) && a == s && b == e,
                None => r matches Err(AppError::Io(m)) && m@ == "Chunk offset out of range"@,
            },
    {
        if offset >= file_size {
            return Err(AppError::Io(String::from_str("Chunk offset out of range")));
        }
        let rest = file_size - offset;
        let n = if size < rest {
            size
        } else {
            rest
        };
        Ok((offset, offset + n))
    }

    /// The chunk of in-memory content that a chunk request reads.
    pub fn chunk_of(content: &[u8], offset: u64, size: u64) -> (r: Result<Vec<u8>, AppError>)
        ensures
            match chunk_range(content@.len(), offset as nat, size as nat) {
                Some((s, e)) => r matches Ok(d) && d@ == content@.subrange(s as int, e as int),
                None => r matches Err(AppError::Io(m)) && m@ == "Chunk offset out of range"@,
            },
    {
        if offset as u128 >= content.len() as u128 {
            return Err(AppError::Io(String::from_str("Chunk offset out of range")));
        }
        let start = offset as usize;
        let end: usize = if (offset as u128 + size as u128) < content.len() as u128 {
            (offset + size) as usize
        } else {
            content.len()
        };
        let part = vstd::slice::slice_subrange(content, start, end);
        Ok(vstd::slice::slice_to_vec(part))
    }
}

} // verus!
