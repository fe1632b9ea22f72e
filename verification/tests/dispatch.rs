use rxiu::config::AppConfig;
use rxiu::daemon::protocol::RsSyncStatus;
use rxiu::error::AppError;
use rxiu::p2p::node::PeerInfo;
use rxiu::tui::dispatch::{
    command_step, edit_line, pending_outcome, pending_target, EditKey, Insert, RemoteAnswer, UiAction, UiState,
};
use rxiu::tui::output::LineStyle;
use rxiu::tui::remote::{PendingOperation, RemoteConnection};

fn peer(id: &str) -> PeerInfo {
    PeerInfo { peer_id: id.to_string(), name: id.chars().take(8).collect(), addrs: vec![] }
}

fn typed(
    ui: &mut UiState,
    text: &str,
    active: Option<&str>,
    p2p: bool,
    peers: &Vec<PeerInfo>,
) -> (Vec<rxiu::tui::output::OutputLine>, Vec<UiAction>) {
    ui.input_buffer = text.to_string();
    ui.cursor_pos = 0;
    command_step(ui, active, p2p, peers)
}

fn texts(lines: &[rxiu::tui::output::OutputLine]) -> Vec<String> {
    lines.iter().map(|l| l.content.clone()).collect()
}

#[test]
fn quit_in_capitals_quits_and_clears_the_input() {
    let mut ui = UiState::new(AppConfig::default());
    let (lines, acts) = typed(&mut ui, "  QUIT ", None, false, &vec![]);
    assert!(ui.should_quit);
    assert_eq!(texts(&lines), vec!["> QUIT"]);
    assert!(acts.is_empty());
    assert_eq!(ui.input_buffer, "");
    assert_eq!(ui.cursor_pos, 0);
}

#[test]
fn rs_and_rxiu_switch_modes() {
    let mut ui = UiState::new(AppConfig::default());
    let (lines, acts) = typed(&mut ui, "rs", Some("docs"), true, &vec![]);
    assert!(ui.rs_mode);
    assert_eq!(texts(&lines), vec!["docs> rs", "Entered RS (Block Sharing) mode.", "Use 'rslist' to see shared files."]);
    assert_eq!(acts, vec![UiAction::StartRsSync]);
    let (lines, _) = typed(&mut ui, "rs", None, true, &vec![]);
    assert_eq!(texts(&lines), vec!["rs> rs", "Already in RS mode."]);
    let (lines, _) = typed(&mut ui, "get a.txt", None, true, &vec![]);
    assert_eq!(lines[1].content, "RS mode active. Use 'rsget <file_name>' instead.");
    ui.pending_op = Some(PendingOperation::RsList);
    let (lines, acts) = typed(&mut ui, "rxiu", None, true, &vec![]);
    assert!(!ui.rs_mode);
    assert!(ui.pending_op.is_none());
    assert_eq!(lines[1].content, "Returned to default mode.");
    assert_eq!(acts, vec![UiAction::ClearActiveZone]);
}

#[test]
fn missing_arguments_and_unknown_words() {
    let mut ui = UiState::new(AppConfig::default());
    let (lines, acts) = typed(&mut ui, "get", None, false, &vec![]);
    assert_eq!(lines[1].content, "Error: Missing argument: file_name");
    assert_eq!(lines[1].style, LineStyle::Error);
    assert!(acts.is_empty());
    let (lines, _) = typed(&mut ui, "frobnicate", None, false, &vec![]);
    assert_eq!(lines[1].content, "Error: Invalid command. Type 'help' for available commands");
    let (lines, acts) = typed(&mut ui, "", None, false, &vec![]);
    assert!(lines.is_empty() && acts.is_empty());
    let (_, acts) = typed(&mut ui, "del notes.txt", None, false, &vec![]);
    assert_eq!(acts, vec![UiAction::ConfirmDelete("notes.txt".to_string())]);
}

#[test]
fn status_and_remote_commands_queue_operations() {
    let mut ui = UiState::new(AppConfig::default());
    typed(&mut ui, "rsstatus", None, true, &vec![]);
    assert_eq!(ui.pending_op, Some(PendingOperation::RsSyncStatus { verbose: true }));
    let peers = vec![peer("12D3KooWAAAA"), peer("12D3KooWBBBB")];
    let (lines, _) = typed(&mut ui, "remote 2", None, true, &peers);
    assert_eq!(ui.pending_op, Some(PendingOperation::QueryZones { peer_index: 1 }));
    assert_eq!(lines[1].content, "Querying remote zones...");
    typed(&mut ui, "rlist docs", None, true, &peers);
    assert_eq!(ui.pending_op, Some(PendingOperation::QueryFiles { peer_index: 1, zone: "docs".to_string() }));
    assert_eq!(ui.remote.zone.as_deref(), Some("docs"));
}

#[test]
fn stale_peers_are_reported() {
    let mut remote = RemoteConnection::new();
    let none: Vec<PeerInfo> = vec![];
    let two = vec![peer("12D3KooWAAAAAAAAAAAA"), peer("12D3KooWBBBB")];
    let r = pending_target(false, &none, &mut remote, &PendingOperation::QueryZones { peer_index: 0 });
    assert_eq!(texts(&r.unwrap_err()), vec!["Peer no longer available."]);
    let r = pending_target(true, &two, &mut remote, &PendingOperation::QueryZones { peer_index: 3 });
    assert_eq!(texts(&r.unwrap_err()), vec!["Peer no longer available."]);
    remote.peer_index = Some(5);
    let r = pending_target(true, &two, &mut remote, &PendingOperation::QuerySelectedZones);
    assert_eq!(texts(&r.unwrap_err()), vec!["Selected peer no longer available."]);
    assert!(remote.peer_index.is_none());
    let (t, lines) =
        pending_target(false, &two, &mut remote, &PendingOperation::QueryZones { peer_index: 0 }).unwrap();
    assert_eq!(t, Some(0));
    assert_eq!(texts(&lines), vec!["Querying zones from 12D3KooWAAAA..."]);
    let (t, lines) = pending_target(
        true,
        &two,
        &mut remote,
        &PendingOperation::QueryFiles { peer_index: 1, zone: "docs".to_string() },
    )
    .unwrap();
    assert_eq!(t, Some(1));
    assert_eq!(texts(&lines), vec!["Querying files in zone 'docs'..."]);
    let r = pending_target(false, &two, &mut remote, &PendingOperation::RsSyncStatus { verbose: true });
    assert_eq!(texts(&r.unwrap_err()), vec!["P2P network not started."]);
    assert_eq!(pending_target(false, &none, &mut remote, &PendingOperation::RsList).unwrap().0, None);
    let download = PendingOperation::RsDownload { file_name: "f".to_string(), save_path: "/tmp".to_string() };
    assert_eq!(pending_target(false, &none, &mut remote, &download).unwrap().0, None);
}

#[test]
fn verbose_status_report() {
    let mut ui = UiState::new(AppConfig::default());
    let status = RsSyncStatus {
        in_progress: true,
        last_updated_files: 2,
        last_error: Some("boom".to_string()),
        global_sync: true,
        download_concurrency: 8,
        sync_concurrency: 4,
        block_size_mb: 16,
    };
    let (head, ins, tail) = pending_outcome(
        &mut ui,
        &PendingOperation::RsSyncStatus { verbose: true },
        "",
        RemoteAnswer::SyncStatus(Ok(status)),
    );
    assert_eq!(ins, Insert::Nothing);
    assert!(tail.is_empty());
    assert_eq!(
        texts(&head)[3..],
        [
            "  Mode: default",
            "  Sync: running",
            "  Download concurrency: 8",
            "  Sync concurrency: 4",
            "  Global sync: 1",
            "  Block size: 16 MB",
            "  Last updated: 2 file(s)",
            "  Last error: boom",
            "  Transfer: idle",
        ]
    );
    let (head, _, _) = pending_outcome(
        &mut ui,
        &PendingOperation::RsSyncStatus { verbose: false },
        "",
        RemoteAnswer::SyncStatus(Err(AppError::Io("down".to_string()))),
    );
    assert_eq!(texts(&head), vec!["Failed to fetch RS sync status: IO error: down"]);
}

#[test]
fn answered_zone_queries_fill_the_cache() {
    let mut ui = UiState::new(AppConfig::default());
    let (head, _, _) = pending_outcome(
        &mut ui,
        &PendingOperation::QuerySelectedZones,
        "peer",
        RemoteAnswer::Zones(Ok(vec!["docs".to_string()])),
    );
    assert_eq!(ui.remote.zones_cache, vec!["docs".to_string()]);
    assert!(!head.is_empty());
}

#[test]
fn line_editing_counts_characters() {
    let mut ui = UiState::new(AppConfig::default());
    for c in "héllo".chars() {
        edit_line(&mut ui, EditKey::Char(c));
    }
    assert_eq!(ui.input_buffer, "héllo");
    assert_eq!(ui.cursor_pos, 5);
    edit_line(&mut ui, EditKey::Home);
    edit_line(&mut ui, EditKey::Right);
    edit_line(&mut ui, EditKey::Delete);
    assert_eq!(ui.input_buffer, "hllo");
    edit_line(&mut ui, EditKey::Backspace);
    assert_eq!(ui.input_buffer, "llo");
    assert_eq!(ui.cursor_pos, 0);
    edit_line(&mut ui, EditKey::Backspace);
    assert_eq!(ui.input_buffer, "llo");
    edit_line(&mut ui, EditKey::End);
    edit_line(&mut ui, EditKey::Char('!'));
    assert_eq!(ui.input_buffer, "llo!");
    edit_line(&mut ui, EditKey::Clear);
    assert_eq!(ui.input_buffer, "");
    assert_eq!(ui.cursor_pos, 0);
}

#[test]
fn typed_lines_are_trimmed() {
    let mut ui = UiState::new(AppConfig::default());
    let (lines, acts) = typed(&mut ui, " \t  ", None, false, &vec![]);
    assert!(lines.is_empty() && acts.is_empty());
    let (lines, _) = typed(&mut ui, "\t rs \u{3000}", None, false, &vec![]);
    assert_eq!(lines[0].content, "> rs");
    assert!(ui.rs_mode);
}
