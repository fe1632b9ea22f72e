//! Binary wire format of the block server.
//!
//! A request is a 4-byte big-endian hash length followed by the hash's
//! bytes; a reply is a 4-byte status, a 4-byte data length and the data.

use vstd::prelude::*;
use crate::daemon::protocol::{be32_bytes, be32_value, framed, u32_to_be, u32_from_be, frame_message,
    lemma_be32_roundtrip};
use crate::error::AppError;
use vstd::utf8::encode_utf8;
use crate::text::{decimal, push_decimal};

verus! {

/// Block server port (separate from the daemon's IPC port).
pub const BLOCK_SERVER_PORT: u16 = 19821;

/// Status: the block follows.
pub const STATUS_OK: u32 = 0;
/// Status: the block is not stored here.
pub const STATUS_NOT_FOUND: u32 = 1;
/// Status: the request was malformed.
pub const STATUS_ERROR: u32 = 2;

/// The longest hash the server reads.
pub const MAX_HASH_LEN: usize = 256;

/// A reply: the status, then the data framed with its length.
pub open spec fn reply_bytes(status: u32, data: Seq<u8>) -> Seq<u8> {
    be32_bytes(status as nat) + framed(data)
}

/// The request for the block with the given hash: the hash's UTF-8 bytes,
/// framed with their length.
pub fn encode_block_request(hash: &str) -> (r: Vec<u8>)
    ensures
        r@ == framed(encode_utf8(hash@)),
{
    frame_message(hash.as_bytes())
}

/// Whether the server reads a hash of the announced length; a longer one
/// is answered with `STATUS_ERROR`.
pub fn hash_len_ok(len: usize) -> (r: bool)
    ensures
        r == (len <= MAX_HASH_LEN),
{
    len <= MAX_HASH_LEN
}

/// A reply with the given status and data.
pub fn encode_block_reply(status: u32, data: &[u8]) -> (r: Vec<u8>)
    ensures
        r@ == reply_bytes(status, data@),
{
    let head = u32_to_be(status);
    let body = frame_message(data);
    let mut r: Vec<u8> = Vec::new();
    r.push(head[0]);
    r.push(head[1]);
    r.push(head[2]);
    r.push(head[3]);
    let mut i: usize = 0;
    while i < body.len()
        invariant
            i <= body@.len(),
            r@ =~= head@ + body@.take(i as int),
        decreases body@.len() - i,
    {
        r.push(body[i]);
        i = i + 1;
    }
    assert(body@.take(body@.len() as int) =~= body@);
    r
}

/// The reply to a lookup: the block's bytes when it was found, else
/// `STATUS_NOT_FOUND` with no data.
pub fn reply_for_lookup(found: Option<&[u8]>) -> (r: Vec<u8>)
    ensures
        r@ == match found {
            Some(d) => reply_bytes(STATUS_OK, d@),
            None => reply_bytes(STATUS_NOT_FOUND, Seq::empty()),
        },
{
    match found {
        Some(d) => encode_block_reply(STATUS_OK, d),
        None => {
            let empty: Vec<u8> = Vec::new();
            encode_block_reply(STATUS_NOT_FOUND, empty.as_slice())
        },
    }
}

/// The text of the error a client reports for a failed reply.
pub open spec fn reply_error_text(status: nat) -> Seq<char> {
    "Block server error: status="@ + decimal(status)
}

/// Reads a reply's 8-byte header (status, then data length) on the client:
/// the data length when the status is `STATUS_OK`, else an I/O error that
/// names the status.
pub fn check_block_reply(header: &[u8]) -> (r: Result<usize, AppError>)
    requires
        header@.len() >= 8,
    ensures
        be32_value(header@) == STATUS_OK as nat ==> r == Ok::<usize, AppError>(
            be32_value(header@.skip(4)) as usize,
        ),
        be32_value(header@) != STATUS_OK as nat ==> (r matches Err(AppError::Io(m)) && m@
            == reply_error_text(be32_value(header@))),
{
    let status = u32_from_be(header);
    let rest = vstd::slice::slice_subrange(header, 4, 8);
    assert(rest@ =~= header@.skip(4).take(4));
    let len = u32_from_be(rest);
    if status != STATUS_OK {
        let mut m = String::from_str("Block server error: status=");
        push_decimal(&mut m, status as u64);
        return Err(AppError::Io(m));
    }
    Ok(len as usize)
}

/// A client reading a reply the server built for data of fewer than 2^32
/// bytes gets the status, and on success the data's length and then the
/// data itself.
pub proof fn law_reply_roundtrip(status: u32, data: Seq<u8>)
    requires
        data.len() < 4294967296,
    ensures
        reply_bytes(status, data).len() == data.len() + 8,
        be32_value(reply_bytes(status, data)) == status as nat,
        be32_value(reply_bytes(status, data).skip(4)) == data.len(),
        reply_bytes(status, data).skip(8) == data,
{
    lemma_be32_roundtrip(status as nat);
    lemma_be32_roundtrip(data.len());
    let r = reply_bytes(status, data);
    let s = be32_bytes(status as nat);
    let d = be32_bytes(data.len());
    assert(r[0] == s[0] && r[1] == s[1] && r[2] == s[2] && r[3] == s[3]);
    let t = r.skip(4);
    assert(t[0] == d[0] && t[1] == d[1] && t[2] == d[2] && t[3] == d[3]);
    assert(r.skip(8) =~= data);
}

} // verus!
