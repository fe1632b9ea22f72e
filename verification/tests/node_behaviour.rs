use rxiu::p2p::peer_exchange::PeerEntry;
use rxiu::p2p::peer_store::PeerStore;
use rxiu::p2p::recovery::{NetworkRecovery, RecoveryConfig, RecoveryReason};
use rxiu::renew::updater::Updater;
use rxiu::renew::version::VersionInfo;

fn version(v: &str, hash: &str, os: &str) -> VersionInfo {
    VersionInfo {
        version: v.to_string(),
        hash: hash.to_string(),
        size: 100,
        target_os: os.to_string(),
        target_arch: "x86_64".to_string(),
    }
}

#[test]
fn test_no_recovery_needed_with_peers() {
    let mut recovery = NetworkRecovery::new(0);
    assert!(recovery.should_recover(0, 3).is_none());
}

#[test]
fn test_periodic_refresh_triggers() {
    let mut config = RecoveryConfig::standard();
    config.refresh_interval = 50_000_000;
    let mut recovery = NetworkRecovery::with_config(0, config);

    // First check - no trigger (just started)
    assert!(recovery.should_recover(0, 0).is_none());

    // After the refresh interval has passed
    assert!(matches!(recovery.should_recover(60_000_000, 0), Some(RecoveryReason::PeriodicRefresh)));
}

#[test]
fn test_updater_default() {
    let updater = Updater::new("/home/user");
    assert!(updater.enabled);
    assert_eq!(updater.check_interval, 300);
}

#[test]
fn test_version_comparison() {
    let v1 = version("0.3.0", "abc", "macos");
    let v2 = version("0.3.1", "def", "macos");
    assert!(v2.is_newer_than(&v1));
    assert!(!v1.is_newer_than(&v2));
}

#[test]
fn test_platform_compatibility() {
    let mac = version("0.3.0", "abc", "macos");
    let win = version("0.3.0", "abc", "windows");
    assert!(mac.is_compatible_with(&mac));
    assert!(!mac.is_compatible_with(&win));
}

#[test]
fn test_peer_store_roundtrip() {
    let peer_id = "test_peer_12345";
    let addrs = vec!["/ip4/192.168.1.1/tcp/1234".to_string()];
    let mut store = PeerStore::new();
    let now = 1_700_000_000u64;

    store.save_peer(peer_id, &addrs, now);
    let loaded = store.load_peers(now);

    assert!(loaded.iter().any(|p| p.peer_id == peer_id));

    store.remove_peer(peer_id);
    assert!(!store.load_peers(now).iter().any(|p| p.peer_id == peer_id));
}

#[test]
fn test_peer_entry_roundtrip() {
    let entry = PeerEntry {
        peer_id: "12D3KooWTest".to_string(),
        addrs: vec!["/ip4/127.0.0.1/tcp/1234".to_string()],
    };

    assert!(entry.parse_first_addr().is_some());
}
