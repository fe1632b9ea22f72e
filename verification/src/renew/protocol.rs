//! Messages of the update protocol.

use vstd::prelude::*;
use crate::renew::version::VersionInfo;

verus! {

/// Request messages for the update protocol.
#[derive(Debug, Clone, PartialEq, Eq)]
pub enum RenewRequest {
    /// Request version information from a peer.
    GetVersion,
    /// Request a chunk of the binary.
    GetBinaryChunk {
        /// Offset in bytes from the start of the binary.
        offset: u64,
        /// Maximum number of bytes to return.
        length: u32,
    },
}

/// Response messages for the update protocol.
#[derive(Debug, Clone, PartialEq, Eq)]
pub enum RenewResponse {
    /// Version information.
    Version(VersionInfo),
    /// A chunk of the binary.
    BinaryChunk {
        /// Offset in bytes from the start of the binary.
        offset: u64,
        /// Binary data.
        data: Vec<u8>,
        /// Whether this is the last chunk.
        is_last: bool,
    },
    /// Error response.
    Error(String),
}

/// Default chunk size for binary transfer (1 MiB).
pub const CHUNK_SIZE: u32 = 1048576;

/// The chunk of a binary of `file_size` bytes served for a request at
/// `offset`, given the bytes read there: nothing and last when the offset
/// is at or past the end, else the bytes read, last when they reach the
/// end.
pub open spec fn chunk_reply_spec(offset: u64, file_size: u64, read: Seq<u8>) -> (Seq<u8>, bool) {
    if offset >= file_size {
        (Seq::empty(), true)
    } else {
        (read, offset + read.len() >= file_size)
    }
}

/// Builds the reply to a binary-chunk request; `read` holds the bytes read
/// at `offset` (at most the requested length).
pub fn binary_chunk_reply(offset: u64, file_size: u64, read: Vec<u8>) -> (r: RenewResponse)
    ensures
        r matches RenewResponse::BinaryChunk { offset: o, data, is_last } && o == offset && (data@, is_last)
            == chunk_reply_spec(offset, file_size, read@),
{
    if offset >= file_size {
        return RenewResponse::BinaryChunk { offset, data: Vec::new(), is_last: true };
    }
    let is_last = offset as u128 + read.len() as u128 >= file_size as u128;
    RenewResponse::BinaryChunk { offset, data: read, is_last }
}

} // verus!
