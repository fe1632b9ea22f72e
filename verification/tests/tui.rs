use rxiu::config::AppConfig;
use rxiu::error::AppError;
use rxiu::p2p::messages::FileChunk;
use rxiu::p2p::node::PeerInfo;
use rxiu::tui::block_client::{extract_ip, split_char};
use rxiu::tui::command::{classify, parse_input, rscfg, TuiCommand};
use rxiu::tui::output::LineStyle;
use rxiu::tui::remote::{pick_index, ruse, RemoteConnection};
use rxiu::tui::transfer::{
    block_failed, check_chunk, check_download, download_limit, next_chunk_len, resume_offset, Availability,
    ChunkVerdict, PendingBlock, TransferProgress,
};
use rxiu::ui::browser::{BrowserAction, BrowserKey, BrowserMode, FileBrowser, ListedItem};

fn s(v: &str) -> String {
    v.to_string()
}

fn args(v: &[&str]) -> Vec<String> {
    v.iter().map(|x| x.to_string()).collect()
}

#[test]
fn input_line_is_split_into_command_and_arguments() {
    let (c, a) = parse_input("  RsGet   file.txt  extra ").unwrap();
    assert_eq!(c, TuiCommand::RsGet);
    assert_eq!(a, args(&["file.txt", "extra"]));
    assert!(parse_input(" \t ").is_none());
    assert_eq!(classify("QUIT"), TuiCommand::Quit);
    assert_eq!(classify("rm"), TuiCommand::Delete);
    assert_eq!(classify("?"), TuiCommand::Help);
    assert_eq!(classify("bogus"), TuiCommand::Unknown);
}

#[test]
fn rscfg_sets_and_shows() {
    let c = AppConfig::default();
    let (c2, save, lines) = rscfg(&c, &args(&["concurrency", "12"]));
    assert!(save);
    assert_eq!(c2.rs_concurrency, 12);
    assert_eq!(lines[0].content, "RS download concurrency set to 12");
    assert_eq!(lines[0].style, LineStyle::Success);
    let (c3, save, lines) = rscfg(&c2, &args(&["block_size", "40"]));
    assert!(!save);
    assert_eq!(c3, c2);
    assert_eq!(lines[0].content, "Usage: rscfg block_size <4-32>");
    assert_eq!(lines[0].style, LineStyle::Error);
    let (_, _, shown) = rscfg(&c2, &args(&["show"]));
    assert_eq!(shown.len(), 8);
    assert_eq!(shown[0].content, "RS download concurrency: 12");
    assert_eq!(shown[2].content, "RS block size: 16 MB");
    assert_eq!(shown[3].content, "RS global sync: 1");
    let (c4, _, lines) = rscfg(&c2, &args(&["gsyn", "0"]));
    assert!(!c4.rs_global_sync);
    assert_eq!(lines[0].content, "RS global sync set to 0 (RS mode only).");
    let (_, save, lines) = rscfg(&c2, &args(&["what"]));
    assert!(!save);
    assert!(lines[0].content.starts_with("Usage: rscfg show"));
}

#[test]
fn config_defaults_and_path() {
    let c = AppConfig::default();
    assert_eq!(c.rs_concurrency, 8);
    assert_eq!(c.rs_sync_concurrency, 8);
    assert_eq!(c.rs_block_size_mb, 16);
    assert!(c.rs_global_sync);
    assert_eq!(c.rs_replication_factor, 2);
    assert!(c.renew_enabled);
    assert_eq!(c.renew_check_interval, 300);
    assert_eq!(AppConfig::path("/home/u"), "/home/u/.rxiu/config/config.toml");
}

#[test]
fn ip_is_taken_from_multiaddr() {
    assert_eq!(split_char("/ip4/1.2.3.4/tcp/5", '/'), args(&["", "ip4", "1.2.3.4", "tcp", "5"]));
    assert_eq!(extract_ip("/ip4/172.18.36.82/tcp/10826/p2p/12D3Koo"), Some(s("172.18.36.82")));
    assert_eq!(extract_ip("/ip4/127.0.0.1/tcp/1"), None);
    assert_eq!(extract_ip("/ip4/198.18.0.1/tcp/1"), None);
    assert_eq!(extract_ip("/ip6/::1/tcp/1"), None);
}

#[test]
fn peer_selection_by_number() {
    assert_eq!(pick_index("2", 3), Some(1));
    assert_eq!(pick_index("0", 3), None);
    assert_eq!(pick_index("4", 3), None);
    assert_eq!(pick_index("x", 3), None);
    let peers = vec![PeerInfo { peer_id: s("QmABCDEFGHIJKLMNOP"), name: s("QmABCDEF"), addrs: vec![] }];
    let mut remote = RemoteConnection::new();
    let lines = ruse(true, &peers, &mut remote, "1");
    assert_eq!(remote.peer_index, Some(0));
    assert_eq!(lines[0].content, "✓ Connected to peer [1] QmABCDEFGHIJ");
    let lines = ruse(true, &peers, &mut remote, "5");
    assert_eq!(lines[0].content, "Invalid peer number. Use 1-1");
    let lines = ruse(false, &peers, &mut remote, "1");
    assert_eq!(lines[0].content, "P2P network not started.");
}

#[test]
fn download_resume_and_chunk_lengths() {
    assert_eq!(resume_offset(true, 10, 4, 100), (8, 8));
    assert_eq!(resume_offset(true, 10, 4, 6), (6, 8));
    assert_eq!(resume_offset(false, 10, 4, 100).0, 0);
    assert_eq!(next_chunk_len(0, 10, 4), 4);
    assert_eq!(next_chunk_len(8, 10, 4), 2);
}

#[test]
fn chunks_are_verified() {
    let good = FileChunk {
        zone: s("z"),
        name: s("f"),
        offset: 4,
        data: vec![1, 2, 3],
        hash: rxiu::digest::sha256_hex(&[1, 2, 3]),
    };
    assert_eq!(check_chunk(4, &good, 1), ChunkVerdict::Accept);
    assert_eq!(check_chunk(0, &good, 1), ChunkVerdict::Fail(AppError::Io(s("Chunk offset mismatch"))));
    let bad = FileChunk { hash: s("00"), ..good.clone() };
    assert_eq!(check_chunk(4, &bad, 2), ChunkVerdict::Retry);
    assert_eq!(check_chunk(4, &bad, 3), ChunkVerdict::Fail(AppError::Io(s("Chunk hash verification failed"))));
    assert!(check_download(&[1, 2, 3], &good.hash).is_ok());
    assert_eq!(
        check_download(&[1, 2], &good.hash),
        Err(AppError::Io(s("File hash mismatch after download")))
    );
}

#[test]
fn download_concurrency_limit() {
    assert_eq!(download_limit(8, 2), 16);
    assert_eq!(download_limit(0, 3), 3);
    assert_eq!(download_limit(16, 3), 32);
    assert_eq!(download_limit(4, 0), 0);
}

#[test]
fn failed_blocks_are_requeued_then_given_up() {
    let mut q: Vec<PendingBlock> = Vec::new();
    let b = PendingBlock { hash: s("h"), size: 3, attempts: 0 };
    assert!(block_failed(&mut q, b).is_ok());
    assert_eq!(q.len(), 1);
    assert_eq!(q[0].attempts, 1);
    let last = PendingBlock { hash: s("h"), size: 3, attempts: 5 };
    assert_eq!(block_failed(&mut q, last), Err(AppError::Io(s("Failed to fetch RS block from peers"))));
    assert_eq!(q.len(), 1);
}

#[test]
fn availability_records_holders() {
    let mut a = Availability::new();
    a.add_have(0, &args(&["x", "y"]));
    a.add_have(2, &args(&["y"]));
    assert_eq!(a.holders("y"), vec![0, 2]);
    assert_eq!(a.holders("x"), vec![0]);
    assert!(a.holders("z").is_empty());
}

#[test]
fn transfer_progress_lifecycle() {
    let mut p = TransferProgress::new();
    assert!(!p.active);
    p.start_download("f.bin", 100);
    assert!(p.active);
    assert_eq!(p.transfer_type, "download");
    assert_eq!(p.bytes_total, 100);
    p.complete();
    assert_eq!(p.bytes_done, 100);
    p.reset();
    assert!(!p.active);
    p.start_upload("g", 5);
    assert_eq!(p.transfer_type, "upload");
}

fn item(name: &str, dir: bool) -> ListedItem {
    ListedItem { name: s(name), path: format!("/d/{}", name), is_dir: dir }
}

#[test]
fn browser_lists_dirs_first_sorted_without_hidden() {
    let items = vec![item("b.txt", false), item("Zeta", true), item(".hidden", false), item("alpha", true), item("A.txt", false)];
    let b = FileBrowser::new("/d", BrowserMode::SelectFile, Some(s("/")), &items);
    let (dir, entries, sel) = b.get_state();
    assert_eq!(dir, "/d");
    assert_eq!(sel, 0);
    let names: Vec<&str> = entries.iter().map(|e| e.name.as_str()).collect();
    assert_eq!(names, vec!["..", "alpha", "Zeta", "A.txt", "b.txt"]);
}

#[test]
fn browser_keys() {
    let items = vec![item("a", true), item("f.txt", false)];
    let mut b = FileBrowser::new("/d", BrowserMode::SelectFile, None, &items);
    assert_eq!(b.handle_key(BrowserKey::Up, 10), BrowserAction::Continue);
    assert_eq!(b.get_state().2, 0);
    assert_eq!(b.handle_key(BrowserKey::Open, 10), BrowserAction::List(s("/d/a")));
    assert_eq!(b.handle_key(BrowserKey::Down, 10), BrowserAction::Continue);
    assert_eq!(b.get_state().2, 1);
    assert_eq!(b.handle_key(BrowserKey::Down, 10), BrowserAction::Continue);
    assert_eq!(b.get_state().2, 1);
    assert_eq!(b.handle_key(BrowserKey::Open, 10), BrowserAction::Select(s("/d/f.txt")));
    assert_eq!(b.handle_key(BrowserKey::Cancel, 10), BrowserAction::Cancel);
}

#[test]
fn zone_table_marks_active_zone() {
    let lines = rxiu::tui::views::zone_table(&vec!["docs", "photos"], Some("photos"));
    let texts: Vec<&str> = lines.iter().map(|l| l.content.as_str()).collect();
    assert_eq!(texts[1], "ZONE NAME           ACTIVE");
    assert_eq!(texts[2], "─".repeat(40));
    assert_eq!(texts[3], "docs                ");
    assert_eq!(texts[4], "photos                ●");
    assert_eq!(texts.len(), 6);
    let empty = rxiu::tui::views::zone_table(&vec![], None);
    assert_eq!(empty[0].content, "No zones exist. Use 'create <name>' to create one.");
}

#[test]
fn peer_listings() {
    let peers = vec![
        PeerInfo { peer_id: s("12D3KooWA1BcDEFGH"), name: s("x"), addrs: vec![s("/ip4/10.0.0.2/tcp/9")] },
        PeerInfo { peer_id: s("short"), name: s("y"), addrs: vec![] },
    ];
    let lines = rxiu::tui::views::peers_listing(true, &peers);
    assert_eq!(lines[1].content, "LAN PEERS (2)");
    assert_eq!(lines[3].content, "  [1] 12D3KooWA1Bc - /ip4/10.0.0.2/tcp/9");
    assert_eq!(lines[4].content, "  [2] short - unknown");
    assert_eq!(lines.len(), 6);
    let none = rxiu::tui::views::peers_listing(true, &vec![]);
    assert_eq!(none.len(), 4);
    let off = rxiu::tui::views::peers_listing(false, &peers);
    assert_eq!(off[0].content, "P2P network not started.");
    let rs = rxiu::tui::views::rs_peers_listing(true, &peers);
    assert_eq!(rs[0].content, "Refreshing LAN peers...");
    assert_eq!(rs[2].content, "RS PEERS (2)");
}

#[test]
fn remote_status_shows_selection() {
    let peers = vec![PeerInfo { peer_id: s("12D3KooWA1BcDEFGH"), name: s("x"), addrs: vec![] }];
    let mut remote = RemoteConnection::new();
    let lines = rxiu::tui::views::remote_status(&remote, &peers);
    assert_eq!(lines[1].content, "REMOTE CONNECTION STATUS");
    assert_eq!(lines[3].content, "  Peer: (none)");
    assert_eq!(lines[4].content, "  Zone: (none)");
    assert_eq!(lines[5].content, "  Cached files: 0");
    remote.peer_index = Some(0);
    remote.zone = Some(s("documents"));
    let lines = rxiu::tui::views::remote_status(&remote, &peers);
    assert_eq!(lines[3].content, "  Peer: [1] 12D3KooWA1Bc");
    assert_eq!(lines[4].content, "  Zone: documents");
    assert_eq!(lines[7].content, "Commands: ruse <n>, rarea, rlist, rget <n>");
}

#[test]
fn remote_zone_listings() {
    let zones = args(&["documents", "photos"]);
    let lines = rxiu::tui::views::selected_zones(&zones);
    assert_eq!(lines[1].content, "REMOTE ZONES");
    assert_eq!(lines[3].content, "  📁 documents");
    assert_eq!(lines[6].content, "Use 'ruse <zone>' to select a zone.");
    let q = rxiu::tui::views::queried_zones("12D3KooWA1BcDEFGH", &zones);
    assert_eq!(q[1].content, "REMOTE ZONES from 12D3KooWA1Bc");
    assert_eq!(rxiu::tui::views::queried_zones("p", &vec![])[0].content, "Peer has no zones.");
}

#[test]
fn prompt_and_error_lines() {
    assert_eq!(rxiu::tui::views::current_zone_name(true, Some("docs")), Some("rs"));
    assert_eq!(rxiu::tui::views::current_zone_name(false, Some("docs")), Some("docs"));
    assert_eq!(rxiu::tui::views::echo_line(false, Some("docs"), "list").content, "docs> list");
    assert_eq!(rxiu::tui::views::echo_line(false, None, "help").content, "> help");
    let e = rxiu::tui::views::error_line(&AppError::ZoneNotFound(s("z")));
    assert_eq!(e.content, "Error: Zone 'z' not found");
    assert_eq!(e.style, LineStyle::Error);
}

#[test]
fn rs_listing_and_counts() {
    let mut store = rxiu::rs::RsStore::new("/h");
    let e = store.put_file(b"abcdefgh", "a.bin", args(&["n1"]), "hrw-v1", 4);
    let lines = rxiu::tui::views::rs_files_listing(&store.list_files());
    assert_eq!(lines[1].content, "RS FILES (1 files)");
    assert_eq!(lines[3].content, "  [1] 📦 a.bin (8 bytes, complete)");
    assert_eq!(rxiu::tui::views::rs_files_listing(&vec![])[0].content, "RS shared space is empty.");
    assert_eq!(rxiu::tui::views::rs_stats_counts(&store.list_files()), (1, 1, 0, 2));
    assert_eq!(rxiu::tui::views::rs_have_counts(&store, &e), (2, 8));
    store.remove_file("a.bin");
    assert_eq!(rxiu::tui::views::rs_have_counts(&store, &e), (0, 0));
}

#[test]
fn upload_members_depend_on_network() {
    let (m, algo) = rxiu::tui::transfer::upload_members(Some("b"), &args(&["c", "a"]));
    assert_eq!(m, args(&["a", "b", "c"]));
    assert_eq!(algo, "hrw-v1");
    let (m, algo) = rxiu::tui::transfer::upload_members(None, &args(&["c"]));
    assert!(m.is_empty());
    assert_eq!(algo, "legacy");
}
