//! Messages of the peer-to-peer file protocol.

use vstd::prelude::*;
use crate::renew::version::VersionInfo;
use crate::rs::RsFileEntry;
use crate::storage::metadata::{FileMetadata, MetaModel, metas_view};
use crate::p2p::peer_exchange::PeerEntry;
use crate::seqs::{first_index, any_match, is_first, lemma_first_unique};

verus! {

/// Size of one chunk of a chunked download (4 MiB).
pub const FILE_CHUNK_SIZE: u64 = 4194304;

/// Metadata for a chunked download.
#[derive(Debug, Clone, PartialEq, Eq)]
pub struct FileMeta {
    pub zone: String,
    pub name: String,
    pub size: u64,
    pub hash: String,
    pub chunk_size: u64,
    pub chunks: u64,
}

/// One chunk of a file with the SHA-256 of its data.
#[derive(Debug, Clone, PartialEq, Eq)]
pub struct FileChunk {
    pub zone: String,
    pub name: String,
    pub offset: u64,
    pub data: Vec<u8>,
    pub hash: String,
}

/// A block of a shared file.
#[derive(Debug, Clone, PartialEq, Eq)]
pub struct RsBlock {
    pub hash: String,
    pub data: Vec<u8>,
}

/// The blocks a node holds of a shared file.
#[derive(Debug, Clone, PartialEq, Eq)]
pub struct RsHave {
    pub name: String,
    pub hashes: Vec<String>,
}

/// Request types of the file protocol.
#[derive(Debug, Clone)]
pub enum FileRequest {
    /// Heartbeat ping.
    Ping,
    /// List all zones on the remote node.
    ListZones,
    /// List files in a specific zone.
    ListFiles { zone: String },
    /// Request a file's content.
    GetFile { zone: String, name: String },
    /// Request file metadata for chunked download.
    GetFileMeta { zone: String, name: String },
    /// Request a file chunk.
    GetFileChunk { zone: String, name: String, offset: u64, size: u64 },
    /// RS: list shared files.
    RsList,
    /// RS: announce file metadata.
    RsAnnounce { file: RsFileEntry },
    /// RS: fetch file metadata.
    RsGetMeta { name: String },
    /// RS: fetch a block by hash.
    RsGetBlock { hash: String },
    /// RS: fetch multiple blocks by hash.
    RsGetBlocks { hashes: Vec<String> },
    /// RS: delete a file by name.
    RsDelete { name: String },
    /// RS: ask which blocks a peer has for a file.
    RsHave { name: String },
    /// Get known peers from this node.
    GetPeers,
    /// Renew: get version information.
    RenewGetVersion,
    /// Renew: get a chunk of the binary.
    RenewGetBinaryChunk { offset: u64, length: u32 },
}

/// Response types of the file protocol.
#[derive(Debug, Clone)]
pub enum FileResponse {
    /// Heartbeat pong.
    Pong,
    /// List of zone names.
    Zones(Vec<String>),
    /// List of files in a zone.
    Files { zone: String, files: Vec<FileMetadata> },
    /// File content.
    FileData { name: String, content: Vec<u8>, hash: String },
    /// File metadata for chunked download.
    FileMeta(FileMeta),
    /// File chunk for chunked download.
    FileChunk(FileChunk),
    /// RS: list shared files.
    RsFiles(Vec<RsFileEntry>),
    /// RS: file metadata.
    RsMeta(RsFileEntry),
    /// RS: block data.
    RsBlock(RsBlock),
    /// RS: multiple block data.
    RsBlocks(Vec<RsBlock>),
    /// RS: block availability.
    RsHave(RsHave),
    /// RS: ack.
    RsOk,
    /// List of known peers.
    Peers(Vec<PeerEntry>),
    /// Error response.
    Error(String),
    /// Renew: version information.
    RenewVersion(VersionInfo),
    /// Renew: binary chunk.
    RenewBinaryChunk { offset: u64, data: Vec<u8>, is_last: bool },
}

/// The number of chunks of a file of `size` bytes: the size divided by
/// the chunk size, rounded up.
pub open spec fn chunk_count(size: nat, chunk: nat) -> nat {
    if size == 0 {
        0
    } else {
        ((size + chunk - 1) / (chunk as int)) as nat
    }
}

/// The number of `FILE_CHUNK_SIZE` chunks of a file of `size` bytes.
pub fn chunks_for(size: u64) -> (r: u64)
    ensures
        r as nat == chunk_count(size as nat, FILE_CHUNK_SIZE as nat),
{
    if size == 0 {
        0
    } else {
        ((size as u128 + FILE_CHUNK_SIZE as u128 - 1) / FILE_CHUNK_SIZE as u128) as u64
    }
}

/// The record is for the file `name`.
pub open spec fn meta_is(name: Seq<char>) -> spec_fn(MetaModel) -> bool {
    |m: MetaModel| m.name == name
}

/// The chunked-download metadata of the first record named `name` in a
/// zone's list, served in `FILE_CHUNK_SIZE` chunks.
pub fn file_meta_for(zone: &str, files: &Vec<FileMetadata>, name: &str) -> (r: Option<FileMeta>)
    ensures
        match r {
            Some(m) => any_match(metas_view(files@), meta_is(name@)) && ({
                let f = metas_view(files@)[first_index(metas_view(files@), meta_is(name@))];
                &&& m.zone@ == zone@
                &&& m.name@ == f.name
                &&& m.size == f.size
                &&& m.hash@ == f.content_hash
                &&& m.chunk_size == FILE_CHUNK_SIZE
                &&& m.chunks as nat == chunk_count(f.size as nat, FILE_CHUNK_SIZE as nat)
            }),
            None => !any_match(metas_view(files@), meta_is(name@)),
        },
{
    let ghost mv = metas_view(files@);
    let mut i: usize = 0;
    while i < files.len()
        invariant
            mv == metas_view(files@),
            i <= files@.len(),
            forall|j: int| 0 <= j < i ==> !meta_is(name@)(#[trigger] mv[j]),
        decreases files@.len() - i,
    {
        if crate::text::str_eq(files[i].name.as_str(), name) {
            proof {
                assert(is_first(mv, meta_is(name@), i as int));
                lemma_first_unique(mv, meta_is(name@), i as int);
            }
            let f = &files[i];
            return Some(FileMeta {
                zone: String::from_str(zone),
                name: f.name.clone(),
                size: f.size,
                hash: f.content_hash.clone(),
                chunk_size: FILE_CHUNK_SIZE,
                chunks: chunks_for(f.size),
            });
        }
        i = i + 1;
    }
    proof {
        if any_match(mv, meta_is(name@)) {
            let k = choose|k: int| 0 <= k < mv.len() && meta_is(name@)(#[trigger] mv[k]);
            assert(!meta_is(name@)(mv[k]));
        }
    }
    None
}

} // verus!
