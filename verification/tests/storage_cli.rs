use rxiu::cli::commands::{classify_repl, create, help, use_zone, zone_name_ok, ReplCommand};
use rxiu::config::AppConfig;
use rxiu::daemon::renew::{accept_chunk, pick_update_source, should_update_from, verify_update, RenewState};
use rxiu::daemon::rs_sync::{fetch_peer_index, round_pause_ms, sync_members, RsSyncState};
use rxiu::error::AppError;
use rxiu::renew::protocol::{binary_chunk_reply, RenewResponse};
use rxiu::renew::updater::Updater;
use rxiu::renew::version::VersionInfo;
use rxiu::storage::local::LocalBackend;
use rxiu::storage::manager::ZoneManager;
use rxiu::storage::metadata::Timestamp;
use rxiu::text::{parse_usize, path_join, take_chars};

fn s(v: &str) -> String {
    v.to_string()
}

fn args(v: &[&str]) -> Vec<String> {
    v.iter().map(|x| x.to_string()).collect()
}

fn version(v: &str, hash: &str, os: &str) -> VersionInfo {
    VersionInfo { version: s(v), hash: s(hash), size: 1, target_os: s(os), target_arch: s("x86_64") }
}

#[test]
fn zones_are_created_and_selected() {
    let mut m = ZoneManager::new("/home/u", &args(&["docs", "docs"]));
    assert_eq!(m.list_zones(), vec!["docs"]);
    assert_eq!(m.registry_path(), "/home/u/.rxiu/zones.json");
    assert!(m.active_zone_name().is_none());
    assert_eq!(m.active_zone().unwrap_err(), AppError::NoActiveZone);
    assert_eq!(create(&mut m, &args(&["photos"])).unwrap(), "Zone 'photos' created successfully.");
    assert_eq!(create(&mut m, &args(&["photos"])), Err(AppError::ZoneAlreadyExists(s("photos"))));
    assert_eq!(
        create(&mut m, &args(&["bad name"])).unwrap(),
        "Error: Zone name can only contain letters, numbers, underscores, and hyphens"
    );
    assert!(!m.has_zone("bad name"));
    assert_eq!(create(&mut m, &args(&[])), Err(AppError::MissingArgument(s("zone_name"))));
    assert_eq!(use_zone(&mut m, &args(&["photos"])).unwrap(), "Switched to zone 'photos'.");
    assert_eq!(m.active_zone_name(), Some("photos"));
    assert_eq!(use_zone(&mut m, &args(&["nope"])), Err(AppError::ZoneNotFound(s("nope"))));
    assert_eq!(m.active_zone_name(), Some("photos"));
    let z = m.get_zone("photos").unwrap();
    assert_eq!(z.backend().base_path(), "/home/u/.rxiu/zones/photos");
    m.clear_active();
    assert!(m.active_zone_name().is_none());
}

#[test]
fn zone_names_and_repl_words() {
    assert!(zone_name_ok("my-zone_2"));
    assert!(zone_name_ok("été"));
    assert!(!zone_name_ok("a/b"));
    assert_eq!(classify_repl("LS"), ReplCommand::List);
    assert_eq!(classify_repl("q"), ReplCommand::Exit);
    assert_eq!(classify_repl("?"), ReplCommand::Help);
    assert_eq!(classify_repl("zap"), ReplCommand::Invalid);
    assert!(help().contains("rscfg gsyn <0|1>"));
    assert!(help().starts_with("\nAvailable commands:"));
}

#[test]
fn error_messages() {
    assert_eq!(AppError::ZoneNotFound(s("x")).message(), "Zone 'x' not found");
    assert_eq!(AppError::Io(s("boom")).message(), "IO error: boom");
    assert_eq!(AppError::MissingArgument(s("n")).message(), "Missing argument: n");
    assert_eq!(AppError::NoActiveZone.message(), "No active zone. Use 'use <zone_name>' to select one");
    assert_eq!(AppError::Cancelled.message(), "Operation cancelled by user");
}

#[test]
fn local_backend_layout_and_records() {
    let b = LocalBackend::new("/home/u", "docs");
    assert_eq!(b.files_path(), "/home/u/.rxiu/zones/docs/files");
    assert_eq!(b.metadata_path(), "/home/u/.rxiu/zones/docs/metadata.json");
    assert_eq!(b.file_path("a.txt"), "/home/u/.rxiu/zones/docs/files/a.txt");
    let now = Timestamp { secs: 100, nanos: 5 };
    let (meta, all) = LocalBackend::record_store(Vec::new(), "a.txt", b"abc", now);
    assert_eq!(meta.size, 3);
    assert_eq!(meta.content_hash, "ba7816bf8f01cfea414140de5dae2223b00361a396177a9cb410ff61f20015ad");
    assert_eq!(meta.imported_at, now);
    let (_, all) = LocalBackend::record_store(all, "b.txt", b"", now);
    assert_eq!(all.len(), 2);
    let left = LocalBackend::record_delete(&all, "a.txt");
    assert_eq!(left.len(), 1);
    assert_eq!(left[0].name, "b.txt");
}

#[test]
fn chunk_ranges() {
    assert_eq!(LocalBackend::chunk_span(10, 4, 4).unwrap(), (4, 8));
    assert_eq!(LocalBackend::chunk_span(10, 8, 4).unwrap(), (8, 10));
    assert_eq!(LocalBackend::chunk_span(10, 10, 4), Err(AppError::Io(s("Chunk offset out of range"))));
    assert_eq!(LocalBackend::chunk_of(b"0123456789", 7, 100).unwrap(), b"789".to_vec());
    assert!(LocalBackend::chunk_of(b"", 0, 1).is_err());
}

#[test]
fn text_helpers() {
    assert_eq!(parse_usize("42"), Some(42));
    assert_eq!(parse_usize(""), None);
    assert_eq!(parse_usize("4x"), None);
    assert_eq!(parse_usize("99999999999999999999999"), None);
    assert_eq!(path_join("/a", "b"), "/a/b");
    assert_eq!(path_join("/a/", "b"), "/a/b");
    assert_eq!(take_chars("abcdef", 3), "abc");
    assert_eq!(take_chars("ab", 3), "ab");
}

#[test]
fn updater_paths_and_checks() {
    let u = Updater::new("/home/u");
    assert_eq!(u.staging_dir(), "/home/u/.rxiu/updates");
    assert_eq!(u.staging_path("abcdef0123456789"), "/home/u/.rxiu/updates/rxiu-daemon.abcdef01");
    assert_eq!(u.staging_path("\u{e9}\u{e9}\u{e9}\u{e9}xyz"), "/home/u/.rxiu/updates/rxiu-daemon.\u{e9}\u{e9}\u{e9}\u{e9}");
    let h = rxiu::digest::sha256_hex(b"bin");
    assert!(u.verify_binary(b"bin", &h));
    assert!(!u.verify_binary(b"bin2", &h));
    match u.handle_get_version(Err(AppError::Io(s("x")))) {
        Ok(RenewResponse::Error(m)) => assert_eq!(m, "IO error: x"),
        other => panic!("unexpected {:?}", other),
    }
}

#[test]
fn version_order_falls_back_to_hash() {
    let a = version("nightly", "h1", "linux");
    let b = version("nightly", "h2", "linux");
    assert!(a.is_newer_than(&b));
    assert!(!a.is_newer_than(&a));
    let old = version("1.2.0", "h", "linux");
    let new = version("1.10.0", "h", "linux");
    assert!(new.is_newer_than(&old));
    assert!(!old.is_newer_than(&new));
    let bin = VersionInfo::of_binary("0.3.0", b"abc", "linux", "aarch64");
    assert_eq!(bin.size, 3);
    assert_eq!(bin.hash, rxiu::digest::sha256_hex(b"abc"));
}

#[test]
fn update_source_selection() {
    let local = version("0.3.0", "a", "linux");
    let answers = vec![
        None,
        Some(version("0.4.0", "b", "windows")),
        Some(version("0.2.0", "c", "linux")),
        Some(version("0.3.1", "d", "linux")),
        Some(version("0.5.0", "e", "linux")),
    ];
    assert_eq!(pick_update_source(&local, &answers), Some(3));
    assert!(!should_update_from(&local, &local));
    assert_eq!(pick_update_source(&local, &vec![None]), None);
}

#[test]
fn binary_chunks() {
    assert_eq!(accept_chunk(10, 5, false), (15, true, false));
    assert_eq!(accept_chunk(10, 0, true), (10, false, true));
    assert_eq!(accept_chunk(10, 3, true), (13, true, true));
    match binary_chunk_reply(8, 10, vec![1, 2]) {
        RenewResponse::BinaryChunk { offset, data, is_last } => {
            assert_eq!(offset, 8);
            assert_eq!(data, vec![1, 2]);
            assert!(is_last);
        }
        other => panic!("unexpected {:?}", other),
    }
    match binary_chunk_reply(12, 10, vec![9]) {
        RenewResponse::BinaryChunk { data, is_last, .. } => {
            assert!(data.is_empty());
            assert!(is_last);
        }
        other => panic!("unexpected {:?}", other),
    }
    let v = VersionInfo::of_binary("1.0.0", b"xyz", "linux", "x86_64");
    assert!(verify_update(&v, b"xyz").is_ok());
    match verify_update(&v, b"xy") {
        Err(AppError::Io(m)) => assert!(m.starts_with(&format!("Hash mismatch: expected {}, got ", v.hash))),
        other => panic!("unexpected {:?}", other),
    }
}

#[test]
fn renew_state_schedule() {
    let mut r = RenewState::new(AppConfig::default(), None, 1000);
    assert!(!r.check_due(1299));
    assert!(r.check_due(1300));
    r.start_check(1300);
    assert!(!r.check_due(1300));
    assert!(r.begin_update());
    assert!(!r.begin_update());
    r.end_update();
    assert!(r.begin_update());
}

#[test]
fn rs_sync_helpers() {
    assert_eq!(fetch_peer_index(5, 2, 3), 1);
    assert_eq!(round_pause_ms(0), 200);
    assert_eq!(round_pause_ms(2), 600);
    assert_eq!(sync_members(&args(&["b", "c"]), "a"), args(&["a", "b", "c"]));
    let mut st = RsSyncState::new(AppConfig::default());
    assert!(st.begin());
    assert!(!st.begin());
    st.finish(Err(s("boom")));
    assert_eq!(st.status().last_error, Some(s("boom")));
    assert!(st.begin());
    assert_eq!(st.status().last_error, None);
    st.finish(Ok(4));
    let status = st.status();
    assert!(!status.in_progress);
    assert_eq!(status.last_updated_files, 4);
    assert_eq!(status.block_size_mb, 16);
}

#[test]
fn help_lists_every_command_of_the_manual() {
    let text = help();
    for cmd in [
        "create", "use", "list", "list area", "list storage", "get", "put", "del", "peers", "ruse", "rarea",
        "rlist", "rget", "rs", "rslist", "rsput", "rsget", "rsdel", "rsstatus", "rsstats", "rshave", "rspeers",
        "rsprogress", "rscfg", "rxiu", "help", "exit",
    ] {
        assert!(
            text.contains(&format!("\n  {} ", cmd)) || text.contains(&format!("\n  {},", cmd)),
            "{}",
            cmd
        );
    }
    assert_eq!(help(), text);
}
