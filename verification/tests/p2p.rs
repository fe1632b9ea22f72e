use rxiu::error::AppError;
use rxiu::p2p::heartbeat::Heartbeat;
use rxiu::p2p::messages::{chunks_for, file_meta_for, FileRequest, FileResponse, FILE_CHUNK_SIZE};
use rxiu::p2p::node::PeerTable;
use rxiu::p2p::peer_exchange::{process_received_peers, PeerEntry};
use rxiu::p2p::peer_store::{peers_file_path, PeerStore, PersistedPeer, MAX_PEER_AGE_SECS};
use rxiu::p2p::recovery::{NetworkRecovery, RecoveryConfig, RecoveryReason, NANOS_PER_SEC};
use rxiu::p2p::service::{
    chunk_key, file_key, finish_blocks, finish_chunk, finish_list_files, peer_key, peers_reply, plan_incoming,
    reconnect_targets, renew_chunk_key, str_ends_with, IncomingAction, PendingTable,
};
use rxiu::rs::RsStore;
use rxiu::storage::manager::ZoneManager;
use rxiu::storage::metadata::{FileMetadata, Timestamp};

const PEER_A: &str = "QmYyQSo1c1Ym7orWxLYvCrM2EmxFTANf8wXmmE7DWjhx5N";
const PEER_B: &str = "QmNnooDu7bfjPFoTZYxMNLWUQJyrVwtbZg5gBMjTezGAJN";
const PEER_C: &str = "QmQCU2EcMqAqQPR2i9bChDtGNJchTbq5TbXJJ16u19uLTa";

fn s(v: &str) -> String {
    v.to_string()
}

#[test]
fn recovery_stale_then_retry() {
    let sec = NANOS_PER_SEC;
    let mut r = NetworkRecovery::new(0);
    assert!(r.should_recover(0, 2).is_none());
    assert!(r.should_recover(sec, 0).is_none());
    assert!(r.should_recover(5 * sec, 0).is_none());
    assert_eq!(r.should_recover(7 * sec, 0), Some(RecoveryReason::StaleDetected));
    assert!(r.should_recover(8 * sec, 0).is_none());
    assert_eq!(r.should_recover(16 * sec, 0), Some(RecoveryReason::Retry { attempt: 2 }));
    let st = r.status(16 * sec);
    assert!(st.had_peers && st.in_recovery);
    assert_eq!(st.retry_count, 2);
    assert_eq!(st.zero_since, Some(15 * sec));
    assert!(r.should_recover(17 * sec, 1).is_none());
    assert!(!r.status(17 * sec).in_recovery);
}

#[test]
fn no_stale_recovery_without_earlier_peers() {
    let sec = NANOS_PER_SEC;
    let mut r = NetworkRecovery::new(0);
    assert!(r.should_recover(sec, 0).is_none());
    assert!(r.should_recover(20 * sec, 0).is_none());
    assert_eq!(r.should_recover(61 * sec, 0), Some(RecoveryReason::PeriodicRefresh));
}

#[test]
fn wake_from_sleep_is_detected() {
    let sec = NANOS_PER_SEC;
    let mut r = NetworkRecovery::new(0);
    assert!(r.detect_wake(10 * sec).is_none());
    let reason = r.detect_wake(41 * sec + 5).unwrap();
    assert_eq!(reason, RecoveryReason::WakeFromSleep { elapsed_secs: 31 });
    assert_eq!(reason.describe(), "wake from sleep (31s elapsed)");
    assert_eq!(RecoveryReason::Retry { attempt: 3 }.describe(), "retry #3");
    assert_eq!(RecoveryReason::StaleDetected.describe(), "stale detection");
    assert_eq!(RecoveryReason::PeriodicRefresh.describe(), "periodic refresh");
}

#[test]
fn recovery_defaults() {
    let c = RecoveryConfig::standard();
    assert_eq!(c.stale_threshold, 5 * NANOS_PER_SEC);
    assert_eq!(c.refresh_interval, 60 * NANOS_PER_SEC);
    assert_eq!(c.max_retries, 5);
}

#[test]
fn heartbeat_drops_peer_after_four_misses() {
    let mut h = Heartbeat::new();
    let peers = vec![s("p1"), s("p2")];
    for round in 0u8..4 {
        h.pinged(&peers);
        h.answered("p2");
        let dead = h.expire();
        if round < 3 {
            assert!(dead.is_empty());
            assert_eq!(h.misses("p1"), round + 1);
        } else {
            assert_eq!(dead, vec![s("p1")]);
            assert_eq!(h.misses("p1"), 0);
        }
        assert_eq!(h.misses("p2"), 0);
    }
}

#[test]
fn peer_table_names_and_removal() {
    let mut t = PeerTable::new();
    let info = t.discovered(PEER_A, "/ip4/10.0.0.2/tcp/1");
    assert_eq!(info.name, &PEER_A[..8]);
    let info = t.discovered(PEER_A, "/ip4/10.0.0.3/tcp/1");
    assert_eq!(info.addrs.len(), 2);
    let again = t.discovered(PEER_A, "/ip4/10.0.0.3/tcp/1");
    assert_eq!(again.addrs.len(), 2);
    let c = t.connected(PEER_B, "/ip4/10.0.0.9/tcp/2").unwrap();
    assert_eq!(c.name, &PEER_B[..12]);
    assert!(t.connected(PEER_B, "/ip4/10.0.0.9/tcp/2").is_none());
    assert_eq!(t.peer_count(), 2);
    assert_eq!(t.peer_ids(), vec![s(PEER_A), s(PEER_B)]);
    assert!(!t.connection_closed(PEER_B, 1));
    assert!(t.connection_closed(PEER_B, 0));
    assert!(!t.contains(PEER_B));
    assert!(t.remove_peer(PEER_A));
    assert!(!t.remove_peer(PEER_A));
    assert_eq!(t.peer_count(), 0);
}

#[test]
fn pending_table_keys() {
    assert_eq!(file_key("z", "f"), "z:f");
    assert_eq!(chunk_key("z", "f", 4096), "z:f:4096");
    assert_eq!(peer_key("p", "file"), "p:file");
    assert_eq!(renew_chunk_key("p", 7), "p:7");
    assert!(str_ends_with("abc:1", ":1"));
    assert!(!str_ends_with("1", ":1"));
    let mut t: PendingTable<u32> = PendingTable::new();
    assert_eq!(t.insert(s("a:1"), 1), None);
    assert_eq!(t.insert(s("b:2"), 2), None);
    assert_eq!(t.insert(s("a:1"), 3), Some(1));
    assert_eq!(t.len(), 2);
    assert_eq!(t.take_suffix(":2"), Some((s("b:2"), 2)));
    assert_eq!(t.take("a:1"), Some(3));
    assert_eq!(t.take("a:1"), None);
    t.insert(s("x"), 5);
    t.insert(s("y"), 6);
    assert_eq!(t.drain(), vec![5, 6]);
    assert_eq!(t.len(), 0);
}

#[test]
fn peer_store_prunes_old_records() {
    let mut store = PeerStore::new();
    let now = 10_000_000u64;
    store.save_peer("old", &vec![s("/ip4/1.2.3.4/tcp/1")], now - MAX_PEER_AGE_SECS);
    store.save_peer("new", &vec![s("/ip4/1.2.3.5/tcp/1")], now - 10);
    store.save_peer("new", &vec![s("/ip4/1.2.3.6/tcp/1")], now - 5);
    let loaded = store.load_peers(now);
    assert_eq!(loaded.len(), 1);
    assert_eq!(loaded[0].peer_id, "new");
    assert_eq!(loaded[0].addrs, vec![s("/ip4/1.2.3.6/tcp/1")]);
    assert_eq!(store.records().len(), 2);
    assert_eq!(peers_file_path("/home/u"), "/home/u/.rxiu/peers/known_peers.json");
}

#[test]
fn received_peers_become_dials() {
    let entries = vec![
        PeerEntry { peer_id: s(PEER_A), addrs: vec![s("/ip4/10.0.0.1/tcp/5")] },
        PeerEntry { peer_id: s("garbage"), addrs: vec![s("/ip4/10.0.0.2/tcp/5")] },
        PeerEntry { peer_id: s(PEER_B), addrs: vec![s("nonsense"), s("/ip4/10.0.0.3/tcp/5")] },
        PeerEntry { peer_id: s(PEER_C), addrs: vec![s("/ip4/10.0.0.4/tcp/5")] },
    ];
    let dials = process_received_peers(PEER_A, &entries, &vec![s(PEER_C)]);
    assert_eq!(dials, vec![(s(PEER_B), s("/ip4/10.0.0.3/tcp/5"))]);
    let persisted = vec![PersistedPeer { peer_id: s(PEER_B), addrs: vec![s("/ip4/10.0.0.8/tcp/1")], last_seen: 1 }];
    assert_eq!(reconnect_targets(PEER_A, &persisted, &vec![]), vec![(s(PEER_B), s("/ip4/10.0.0.8/tcp/1"))]);
    assert!(reconnect_targets(PEER_B, &persisted, &vec![]).is_empty());
}

#[test]
fn peers_reply_lists_table_then_self() {
    let mut t = PeerTable::new();
    t.discovered(PEER_B, "/ip4/10.0.0.3/tcp/1");
    match peers_reply(&t, PEER_A, &vec![s("/ip4/10.0.0.1/tcp/1")]) {
        FileResponse::Peers(entries) => {
            assert_eq!(entries.len(), 2);
            assert_eq!(entries[0].peer_id, PEER_B);
            assert_eq!(entries[1].peer_id, PEER_A);
        }
        other => panic!("unexpected {:?}", other),
    }
    match peers_reply(&t, PEER_A, &vec![]) {
        FileResponse::Peers(entries) => assert_eq!(entries.len(), 1),
        other => panic!("unexpected {:?}", other),
    }
}

fn meta(name: &str, size: u64) -> FileMetadata {
    FileMetadata {
        name: s(name),
        size,
        content_hash: s("h"),
        created_at: None,
        imported_at: Timestamp { secs: 1, nanos: 0 },
    }
}

#[test]
fn chunk_counts() {
    assert_eq!(chunks_for(0), 0);
    assert_eq!(chunks_for(1), 1);
    assert_eq!(chunks_for(FILE_CHUNK_SIZE), 1);
    assert_eq!(chunks_for(FILE_CHUNK_SIZE + 1), 2);
    let m = file_meta_for("z", &vec![meta("a", 10), meta("b", 3 * FILE_CHUNK_SIZE)], "b").unwrap();
    assert_eq!(m.chunks, 3);
    assert_eq!(m.chunk_size, FILE_CHUNK_SIZE);
    assert!(file_meta_for("z", &vec![meta("a", 10)], "c").is_none());
}

#[test]
fn incoming_requests_are_planned() {
    let zones = ZoneManager::new("/h", &vec![s("docs")]);
    let mut store = RsStore::new("/h");
    match plan_incoming(&zones, &mut store, FileRequest::Ping) {
        IncomingAction::Reply(FileResponse::Pong) => {}
        other => panic!("unexpected {:?}", other),
    }
    match plan_incoming(&zones, &mut store, FileRequest::GetPeers) {
        IncomingAction::Reply(FileResponse::Error(m)) => assert_eq!(m, "GetPeers should be handled inline"),
        other => panic!("unexpected {:?}", other),
    }
    match plan_incoming(&zones, &mut store, FileRequest::ListZones) {
        IncomingAction::Reply(FileResponse::Zones(z)) => assert_eq!(z, vec![s("docs")]),
        other => panic!("unexpected {:?}", other),
    }
    match plan_incoming(&zones, &mut store, FileRequest::ListFiles { zone: s("nope") }) {
        IncomingAction::Reply(FileResponse::Error(m)) => assert_eq!(m, "Zone 'nope' not found"),
        other => panic!("unexpected {:?}", other),
    }
    match plan_incoming(&zones, &mut store, FileRequest::ListFiles { zone: s("docs") }) {
        IncomingAction::ListFiles { zone } => assert_eq!(zone, "docs"),
        other => panic!("unexpected {:?}", other),
    }
}

#[test]
fn failed_reads_are_reported() {
    match finish_list_files(s("z"), Err(AppError::Io(s("disk")))) {
        FileResponse::Error(m) => assert_eq!(m, "Failed to list files: IO error: disk"),
        other => panic!("unexpected {:?}", other),
    }
    match finish_chunk(s("z"), s("f"), 0, Ok(vec![1, 2])) {
        FileResponse::FileChunk(c) => {
            assert_eq!(c.offset, 0);
            assert_eq!(c.hash, rxiu::digest::sha256_hex(&[1, 2]));
        }
        other => panic!("unexpected {:?}", other),
    }
    match finish_blocks(vec![s("a"), s("b")], vec![Ok(vec![1]), Err(AppError::Io(s("x")))]) {
        FileResponse::Error(m) => assert_eq!(m, "Failed to read RS block: IO error: x"),
        other => panic!("unexpected {:?}", other),
    }
    match finish_blocks(vec![s("a"), s("b")], vec![Ok(vec![1]), Ok(vec![2, 3])]) {
        FileResponse::RsBlocks(blocks) => {
            assert_eq!(blocks.len(), 2);
            assert_eq!(blocks[1].hash, "b");
            assert_eq!(blocks[1].data, vec![2, 3]);
        }
        other => panic!("unexpected {:?}", other),
    }
}

#[test]
fn peer_entries_from_table() {
    let mut t = PeerTable::new();
    t.discovered(PEER_A, "/ip4/10.0.0.3/tcp/1");
    t.discovered(PEER_B, "/ip4/10.0.0.4/tcp/1");
    let entries = PeerEntry::from_peer_list(&t.get_peers());
    assert_eq!(entries.len(), 2);
    assert_eq!(entries[1].peer_id, PEER_B);
    assert_eq!(entries[1].addrs, vec![s("/ip4/10.0.0.4/tcp/1")]);
    assert_eq!(PeerEntry::from_peer_info(&t.get_peers()[0]).peer_id, PEER_A);
}

#[test]
fn rediscovery_resets_misses_only() {
    let mut h = Heartbeat::new();
    let peers = vec![s("p1")];
    h.pinged(&peers);
    assert!(h.expire().is_empty());
    assert_eq!(h.misses("p1"), 1);
    h.pinged(&peers);
    h.rediscovered("p1");
    assert_eq!(h.misses("p1"), 0);
    assert!(h.expire().is_empty());
    assert_eq!(h.misses("p1"), 1);
}

#[test]
fn silent_peer_is_dropped_on_the_fifth_tick() {
    let mut h = Heartbeat::new();
    let listed = vec!["peer-a".to_string(), "peer-b".to_string()];
    assert!(h.tick(&listed).is_empty());
    for _ in 0..3 {
        h.answered("peer-b");
        assert!(h.tick(&listed).is_empty());
    }
    h.answered("peer-b");
    assert_eq!(h.tick(&listed), vec!["peer-a".to_string()]);
    assert_eq!(h.misses("peer-a"), 0);
    assert_eq!(h.misses("peer-b"), 0);
}

#[test]
fn stale_is_reported_once_until_peers_return() {
    let s = 1_000_000_000u64;
    let mut r = NetworkRecovery::new(0);
    assert!(r.should_recover(s, 1).is_none());
    assert!(r.should_recover(2 * s, 0).is_none());
    assert_eq!(r.should_recover(8 * s, 0), Some(RecoveryReason::StaleDetected));
    for t in 9..60u64 {
        assert_ne!(r.should_recover(t * s, 0), Some(RecoveryReason::StaleDetected));
    }
    assert!(r.should_recover(61 * s, 0).is_some());
    assert!(r.should_recover(62 * s, 2).is_none());
    assert!(r.should_recover(63 * s, 0).is_none());
    assert_eq!(r.should_recover(70 * s, 0), Some(RecoveryReason::StaleDetected));
    assert!(r.detect_wake(70 * s).is_some());
    assert!(r.detect_wake(70 * s).is_none());
    assert!(r.detect_wake(90 * s).is_none());
    assert!(r.detect_wake(121 * s).is_some());
}
