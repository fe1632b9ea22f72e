//! The daemon's IPC protocol: requests, sync status and framing.
//!
//! A message on the daemon socket is a 4-byte big-endian length followed by
//! a CBOR payload of that length.

use vstd::prelude::*;
use crate::rs::RsFileEntry;
use crate::p2p::messages::{FileMeta, FileChunk, RsBlock, RsHave};
use crate::p2p::node::PeerInfo;
use crate::p2p::peer_exchange::{peer_id_valid, peer_id_parses};
use crate::storage::metadata::FileMetadata;

verus! {

/// Default daemon port.
pub const DAEMON_PORT: u16 = 19820;

/// The largest payload the daemon accepts on its socket (100 MiB).
pub const MAX_DAEMON_MESSAGE: usize = 104857600;

/// Status of the RS synchroniser as reported to clients.
#[derive(Debug, Clone, PartialEq, Eq)]
pub struct RsSyncStatus {
    pub in_progress: bool,
    pub last_updated_files: usize,
    pub last_error: Option<String>,
    pub global_sync: bool,
    pub download_concurrency: usize,
    pub sync_concurrency: usize,
    pub block_size_mb: u64,
}

/// Daemon request types.
#[derive(Debug, Clone)]
pub enum DaemonRequest {
    /// Health check.
    Ping,
    /// Shutdown the daemon.
    Shutdown,
    /// Get local peer ID.
    GetLocalPeerId,
    /// Get discovered peers.
    GetPeers,
    /// Get peer count.
    GetPeerCount,
    /// List zones on a remote peer.
    ListRemoteZones { peer_id: String },
    /// List files in a remote zone.
    ListRemoteFiles { peer_id: String, zone: String },
    /// Fetch a file from a remote peer.
    FetchFile { peer_id: String, zone: String, name: String },
    /// Get file metadata.
    GetFileMeta { peer_id: String, zone: String, name: String },
    /// Get file chunk.
    GetFileChunk { peer_id: String, zone: String, name: String, offset: u64, size: u64 },
    /// RS: list files from a peer.
    RsList { peer_id: String },
    /// RS: announce a file.
    RsAnnounce { peer_id: String, file: RsFileEntry },
    /// RS: get file metadata.
    RsGetMeta { peer_id: String, name: String },
    /// RS: get a block.
    RsGetBlock { peer_id: String, hash: String },
    /// RS: get multiple blocks.
    RsGetBlocks { peer_id: String, hashes: Vec<String> },
    /// RS: ask which blocks a peer has for a file.
    RsHave { peer_id: String, name: String },
    /// RS: delete a file.
    RsDelete { peer_id: String, name: String },
    /// RS: trigger block sync.
    RsSync,
    /// RS: sync status.
    RsSyncStatus,
    /// Refresh LAN peers (trigger network recovery).
    RefreshPeers,
}

/// The peer a request is addressed to, for requests that go to a peer.
pub open spec fn request_target(r: DaemonRequest) -> Option<Seq<char>> {
    match r {
        DaemonRequest::ListRemoteZones { peer_id } => Some(peer_id@),
        DaemonRequest::ListRemoteFiles { peer_id, .. } => Some(peer_id@),
        DaemonRequest::FetchFile { peer_id, .. } => Some(peer_id@),
        DaemonRequest::GetFileMeta { peer_id, .. } => Some(peer_id@),
        DaemonRequest::GetFileChunk { peer_id, .. } => Some(peer_id@),
        DaemonRequest::RsList { peer_id } => Some(peer_id@),
        DaemonRequest::RsAnnounce { peer_id, .. } => Some(peer_id@),
        DaemonRequest::RsGetMeta { peer_id, .. } => Some(peer_id@),
        DaemonRequest::RsGetBlock { peer_id, .. } => Some(peer_id@),
        DaemonRequest::RsGetBlocks { peer_id, .. } => Some(peer_id@),
        DaemonRequest::RsHave { peer_id, .. } => Some(peer_id@),
        DaemonRequest::RsDelete { peer_id, .. } => Some(peer_id@),
        _ => None,
    }
}

impl DaemonRequest {
    /// The peer this request is addressed to, if it goes to a peer.
    pub fn target_peer(&self) -> (r: Option<&String>)
        ensures
            match r {
                Some(p) => request_target(*self) == Some(p@),
                None => request_target(*self) is None,
            },
    {
        match self {
            DaemonRequest::ListRemoteZones { peer_id } => Some(peer_id),
            DaemonRequest::ListRemoteFiles { peer_id, .. } => Some(peer_id),
            DaemonRequest::FetchFile { peer_id, .. } => Some(peer_id),
            DaemonRequest::GetFileMeta { peer_id, .. } => Some(peer_id),
            DaemonRequest::GetFileChunk { peer_id, .. } => Some(peer_id),
            DaemonRequest::RsList { peer_id } => Some(peer_id),
            DaemonRequest::RsAnnounce { peer_id, .. } => Some(peer_id),
            DaemonRequest::RsGetMeta { peer_id, .. } => Some(peer_id),
            DaemonRequest::RsGetBlock { peer_id, .. } => Some(peer_id),
            DaemonRequest::RsGetBlocks { peer_id, .. } => Some(peer_id),
            DaemonRequest::RsHave { peer_id, .. } => Some(peer_id),
            DaemonRequest::RsDelete { peer_id, .. } => Some(peer_id),
            _ => None,
        }
    }
}

/// Daemon response types.
#[derive(Debug, Clone)]
pub enum DaemonResponse {
    /// Pong response.
    Pong,
    /// Shutdown acknowledged.
    ShuttingDown,
    /// Local peer ID.
    LocalPeerId(String),
    /// List of peers.
    Peers(Vec<PeerInfo>),
    /// Peer count.
    PeerCount(usize),
    /// List of zones.
    Zones(Vec<String>),
    /// List of files.
    Files(Vec<FileMetadata>),
    /// File data.
    FileData { content: Vec<u8>, hash: String },
    /// File metadata.
    FileMeta(FileMeta),
    /// File chunk.
    FileChunk(FileChunk),
    /// RS files list.
    RsFiles(Vec<RsFileEntry>),
    /// RS file metadata.
    RsMeta(RsFileEntry),
    /// RS block.
    RsBlock(RsBlock),
    /// RS blocks.
    RsBlocks(Vec<RsBlock>),
    /// RS block availability.
    RsHave(RsHave),
    /// RS sync status.
    RsSyncStatus(RsSyncStatus),
    /// Success with no data.
    Success,
    /// Error response.
    Error(String),
}

impl DaemonResponse {
    /// Whether this answers a shutdown request (the daemon exits after
    /// sending it).
    pub fn is_shutdown(&self) -> (r: bool)
        ensures
            r == (*self is ShuttingDown),
    {
        match self {
            DaemonResponse::ShuttingDown => true,
            _ => false,
        }
    }
}

/// The answer the daemon gives at once, without the network: a pong, the
/// shutdown acknowledgement, or an error for a request addressed to a text
/// that is not a peer id. `None` when the request goes on to the service.
pub fn immediate_reply(req: &DaemonRequest) -> (r: Option<DaemonResponse>)
    ensures
        req is Ping ==> r matches Some(DaemonResponse::Pong),
        req is Shutdown ==> r matches Some(DaemonResponse::ShuttingDown),
        !(req is Ping) && !(req is Shutdown) ==> match request_target(*req) {
            Some(p) => if peer_id_parses(p) {
                r is None
            } else {
                r matches Some(DaemonResponse::Error(m)) && m@ == "Invalid peer ID"@
            },
            None => r is None,
        },
{
    match req {
        DaemonRequest::Ping => Some(DaemonResponse::Pong),
        DaemonRequest::Shutdown => Some(DaemonResponse::ShuttingDown),
        _ => match req.target_peer() {
            Some(p) => {
                if peer_id_valid(p.as_str()) {
                    None
                } else {
                    Some(DaemonResponse::Error(String::from_str("Invalid peer ID")))
                }
            },
            None => None,
        },
    }
}

/// The number a big-endian 4-byte prefix stands for.
pub open spec fn be32_value(b: Seq<u8>) -> nat {
    (b[0] as nat) * 16777216 + (b[1] as nat) * 65536 + (b[2] as nat) * 256 + (b[3] as nat)
}

/// The big-endian 4-byte encoding of `n` (taken modulo 2^32).
pub open spec fn be32_bytes(n: nat) -> Seq<u8> {
    seq![
        (n / 16777216 % 256) as u8,
        (n / 65536 % 256) as u8,
        (n / 256 % 256) as u8,
        (n % 256) as u8,
    ]
}

/// The framed form of a payload: its length modulo 2^32, big-endian, then
/// the payload.
pub open spec fn framed(payload: Seq<u8>) -> Seq<u8> {
    be32_bytes(payload.len() % 4294967296) + payload
}

/// Decoding the 4-byte encoding of a 32-bit number gives the number back.
pub proof fn lemma_be32_roundtrip(n: nat)
    requires
        n < 4294967296,
    ensures
        be32_bytes(n).len() == 4,
        be32_value(be32_bytes(n)) == n,
{
    let b = be32_bytes(n);
    assert(b[0] as nat == n / 16777216 % 256);
    assert(b[1] as nat == n / 65536 % 256);
    assert(b[2] as nat == n / 256 % 256);
    assert(b[3] as nat == n % 256);
    assert((n / 16777216 % 256) * 16777216 + (n / 65536 % 256) * 65536 + (n / 256 % 256) * 256 + n % 256 == n)
        by (nonlinear_arith)
        requires
            n < 4294967296,
    ;
}

/// The big-endian bytes of a 32-bit number.
pub fn u32_to_be(n: u32) -> (r: [u8; 4])
    ensures
        r@ == be32_bytes(n as nat),
{
    let b0: u8 = (n / 16777216) as u8;
    let b1: u8 = (n / 65536 % 256) as u8;
    let b2: u8 = (n / 256 % 256) as u8;
    let b3: u8 = (n % 256) as u8;
    assert((n as nat) / 16777216 < 256) by (nonlinear_arith)
        requires
            n < 4294967296,
    ;
    let r = [b0, b1, b2, b3];
    assert(r@ =~= be32_bytes(n as nat));
    r
}

/// The number stored big-endian in the first four bytes of `b`.
pub fn u32_from_be(b: &[u8]) -> (r: u32)
    requires
        b@.len() >= 4,
    ensures
        r as nat == be32_value(b@),
{
    (b[0] as u32) * 16777216 + (b[1] as u32) * 65536 + (b[2] as u32) * 256 + (b[3] as u32)
}

/// Frames a payload: a 4-byte big-endian length prefix, then the payload.
/// A payload longer than `u32::MAX` bytes gets its length modulo 2^32, as
/// the length is truncated to 32 bits.
pub fn frame_message(payload: &[u8]) -> (r: Vec<u8>)
    ensures
        r@ == framed(payload@),
{
    let len: u32 = (payload.len() as u64 % 4294967296) as u32;
    let head = u32_to_be(len);
    let mut r: Vec<u8> = Vec::new();
    r.push(head[0]);
    r.push(head[1]);
    r.push(head[2]);
    r.push(head[3]);
    let mut i: usize = 0;
    while i < payload.len()
        invariant
            i <= payload@.len(),
            r@ =~= head@ + payload@.take(i as int),
        decreases payload@.len() - i,
    {
        r.push(payload[i]);
        i = i + 1;
    }
    assert(payload@.take(payload@.len() as int) =~= payload@);
    r
}

/// Parses the length prefix at the start of a buffer: `None` when the
/// buffer holds fewer than four bytes.
pub fn parse_length(buf: &[u8]) -> (r: Option<usize>)
    ensures
        buf@.len() < 4 ==> r is None,
        buf@.len() >= 4 ==> r == Some(be32_value(buf@) as usize),
{
    if buf.len() < 4 {
        return None;
    }
    let len = u32_from_be(buf);
    Some(len as usize)
}

/// Whether the daemon accepts a message of the announced length; a longer
/// one ends the connection.
pub fn accept_length(len: usize) -> (r: bool)
    ensures
        r == (len <= MAX_DAEMON_MESSAGE),
{
    len <= MAX_DAEMON_MESSAGE
}

/// Parsing the prefix of a framed message gives back the payload's length,
/// for every payload shorter than 2^32 bytes.
pub proof fn law_frame_length_roundtrip(payload: Seq<u8>)
    requires
        payload.len() < 4294967296,
    ensures
        framed(payload).len() == payload.len() + 4,
        be32_value(framed(payload)) == payload.len(),
        framed(payload).skip(4) == payload,
{
    lemma_be32_roundtrip(payload.len());
    let f = framed(payload);
    assert(f[0] == be32_bytes(payload.len())[0]);
    assert(f[1] == be32_bytes(payload.len())[1]);
    assert(f[2] == be32_bytes(payload.len())[2]);
    assert(f[3] == be32_bytes(payload.len())[3]);
    assert(f.skip(4) =~= payload);
}

} // verus!
