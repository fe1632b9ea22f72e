use rxiu::daemon::block_server::{
    check_block_reply, encode_block_reply, encode_block_request, hash_len_ok, reply_for_lookup, STATUS_ERROR,
    STATUS_NOT_FOUND, STATUS_OK,
};
use rxiu::daemon::protocol::{
    accept_length, frame_message, immediate_reply, parse_length, u32_from_be, u32_to_be, DaemonRequest,
    DaemonResponse, MAX_DAEMON_MESSAGE,
};
use rxiu::digest::{encode, sha256_hex};
use rxiu::error::AppError;

const VALID_PEER: &str = "QmYyQSo1c1Ym7orWxLYvCrM2EmxFTANf8wXmmE7DWjhx5N";

#[test]
fn sha256_of_abc_is_the_standard_digest() {
    assert_eq!(
        sha256_hex(b"abc"),
        "ba7816bf8f01cfea414140de5dae2223b00361a396177a9cb410ff61f20015ad"
    );
    assert_eq!(sha256_hex(b"abc").len(), 64);
}

#[test]
fn sha256_of_empty_input() {
    assert_eq!(
        sha256_hex(b""),
        "e3b0c44298fc1c149afbf4c8996fb92427ae41e4649b934ca495991b7852b855"
    );
}

#[test]
fn hex_encoding_is_lowercase_two_digits_per_byte() {
    assert_eq!(encode(&[0x00, 0x0f, 0xab, 0xff]), "000fabff");
    assert_eq!(encode(&[]), "");
}

#[test]
fn big_endian_roundtrip() {
    assert_eq!(u32_to_be(0x01020304), [1, 2, 3, 4]);
    assert_eq!(u32_from_be(&[0xde, 0xad, 0xbe, 0xef]), 0xdeadbeef);
    assert_eq!(u32_from_be(&u32_to_be(77)), 77);
}

#[test]
fn framing_prefixes_the_length() {
    let framed = frame_message(b"hello");
    assert_eq!(framed, vec![0, 0, 0, 5, b'h', b'e', b'l', b'l', b'o']);
    assert_eq!(parse_length(&framed), Some(5));
    assert_eq!(frame_message(&[]), vec![0, 0, 0, 0]);
}

#[test]
fn short_buffer_has_no_length() {
    assert_eq!(parse_length(&[0, 0, 1]), None);
    assert_eq!(parse_length(&[0, 0, 1, 0]), Some(256));
}

#[test]
fn message_size_limit() {
    assert!(accept_length(MAX_DAEMON_MESSAGE));
    assert!(!accept_length(MAX_DAEMON_MESSAGE + 1));
    assert_eq!(MAX_DAEMON_MESSAGE, 100 * 1024 * 1024);
}

#[test]
fn ping_and_shutdown_are_answered_at_once() {
    assert!(matches!(immediate_reply(&DaemonRequest::Ping), Some(DaemonResponse::Pong)));
    assert!(matches!(immediate_reply(&DaemonRequest::Shutdown), Some(DaemonResponse::ShuttingDown)));
    assert!(immediate_reply(&DaemonRequest::GetPeers).is_none());
}

#[test]
fn request_to_invalid_peer_is_refused() {
    let req = DaemonRequest::ListRemoteZones { peer_id: "not-a-peer".to_string() };
    match immediate_reply(&req) {
        Some(DaemonResponse::Error(m)) => assert_eq!(m, "Invalid peer ID"),
        other => panic!("unexpected reply {:?}", other),
    }
    let ok = DaemonRequest::ListRemoteZones { peer_id: VALID_PEER.to_string() };
    assert!(immediate_reply(&ok).is_none());
}

#[test]
fn block_request_frames_the_hash() {
    assert_eq!(encode_block_request("ab"), vec![0, 0, 0, 2, b'a', b'b']);
    assert!(hash_len_ok(256));
    assert!(!hash_len_ok(257));
}

#[test]
fn block_reply_layout() {
    let r = encode_block_reply(STATUS_OK, &[9, 8]);
    assert_eq!(r, vec![0, 0, 0, 0, 0, 0, 0, 2, 9, 8]);
    let nf = reply_for_lookup(None);
    assert_eq!(nf, vec![0, 0, 0, STATUS_NOT_FOUND as u8, 0, 0, 0, 0]);
    let found = reply_for_lookup(Some(&[1, 2, 3]));
    assert_eq!(found, vec![0, 0, 0, 0, 0, 0, 0, 3, 1, 2, 3]);
}

#[test]
fn block_reply_header_is_checked() {
    let ok = encode_block_reply(STATUS_OK, &[5; 7]);
    assert_eq!(check_block_reply(&ok[..8]).unwrap(), 7);
    let err = encode_block_reply(STATUS_ERROR, &[]);
    match check_block_reply(&err) {
        Err(AppError::Io(m)) => assert_eq!(m, "Block server error: status=2"),
        other => panic!("unexpected {:?}", other),
    }
    let nf = reply_for_lookup(None);
    match check_block_reply(&nf) {
        Err(AppError::Io(m)) => assert_eq!(m, "Block server error: status=1"),
        other => panic!("unexpected {:?}", other),
    }
}

#[test]
fn sync_status_reports_both_concurrencies() {
    let mut config = rxiu::config::AppConfig::default();
    config.rs_concurrency = 12;
    config.rs_sync_concurrency = 4;
    let s = rxiu::daemon::rs_sync::RsSyncState::new(config).status();
    assert_eq!(s.download_concurrency, 12);
    assert_eq!(s.sync_concurrency, 4);
}
