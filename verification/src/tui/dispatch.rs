//! The terminal UI's state and what a typed command does to it: the mode
//! switches, the queued network operations, the printed lines and the work
//! left to the application (disk, browser, confirmations).

use vstd::prelude::*;
use crate::config::AppConfig;
use crate::daemon::protocol::RsSyncStatus;
use crate::error::{AppError, error_text};
use crate::storage::metadata::FileMetadata;
use crate::p2p::node::{PeerInfo, PeerModel, peers_view};
use crate::rs::{RsFileEntry, FileModel, files_view, strings_view, copy_strings};
use crate::text::{usize_value, words, lowercase, decimal, concat_str, push_decimal, trimmed};
use crate::tui::command::{TuiCommand, tui_command, parse_input, rscfg, rscfg_spec};
use crate::tui::output::{OutputLine, LineStyle, lines_view, line};
use crate::tui::remote::{
    PendingOperation, RemoteConnection, RemoteModel, query_outcome, ruse_outcome, remote_query, ruse, rarea, rlist,
    rget, resolve_rs_arg, not_started, pick, num_line, invalid_rs_number, opt_str, short_id,
};
use crate::tui::transfer::TransferProgress;
use crate::tui::views::{echo_line, echo_text, zone_label, peers_listing, peers_listing_spec, rs_peers_listing,
    rs_peers_spec, remote_status, remote_status_spec, num_text};

verus! {

/// The state of the terminal UI that commands read and change.
#[derive(Debug)]
pub struct UiState {
    pub rs_mode: bool,
    pub should_quit: bool,
    pub input_buffer: String,
    pub cursor_pos: usize,
    pub pending_op: Option<PendingOperation>,
    pub status_message: Option<String>,
    pub rs_files_cache: Vec<RsFileEntry>,
    pub config: AppConfig,
    pub remote: RemoteConnection,
    pub transfer: TransferProgress,
}

/// The mathematical value of the UI state (the input line aside).
pub struct UiModel {
    pub rs_mode: bool,
    pub should_quit: bool,
    pub pending_op: Option<PendingOperation>,
    pub status: Option<Seq<char>>,
    pub rs_files: Seq<FileModel>,
    pub config: AppConfig,
    pub remote: RemoteModel,
    pub transfer_active: bool,
    pub transfer_type: Seq<char>,
    pub transfer_file: Seq<char>,
    pub bytes_done: u64,
    pub bytes_total: u64,
}

impl View for UiState {
    type V = UiModel;

    open spec fn view(&self) -> UiModel {
        UiModel {
            rs_mode: self.rs_mode,
            should_quit: self.should_quit,
            pending_op: self.pending_op,
            status: opt_str(self.status_message),
            rs_files: files_view(self.rs_files_cache@),
            config: self.config,
            remote: self.remote@,
            transfer_active: self.transfer.active,
            transfer_type: self.transfer.transfer_type@,
            transfer_file: self.transfer.file_name@,
            bytes_done: self.transfer.bytes_done,
            bytes_total: self.transfer.bytes_total,
        }
    }
}

impl UiState {
    /// The default mode, nothing typed, queued or listed.
    pub fn new(config: AppConfig) -> (u: Self)
        ensures
            u@ == (UiModel {
                rs_mode: false,
                should_quit: false,
                pending_op: None,
                status: None,
                rs_files: Seq::empty(),
                config,
                remote: RemoteModel { peer_index: None, zone: None, zones: Seq::empty(), files: Seq::empty() },
                transfer_active: false,
                transfer_type: Seq::empty(),
                transfer_file: Seq::empty(),
                bytes_done: 0,
                bytes_total: 0,
            }),
            u.input_buffer@.len() == 0,
            u.cursor_pos == 0,
    {
        let u = UiState {
            rs_mode: false,
            should_quit: false,
            input_buffer: String::new(),
            cursor_pos: 0,
            pending_op: None,
            status_message: None,
            rs_files_cache: Vec::new(),
            config,
            remote: RemoteConnection::new(),
            transfer: TransferProgress::new(),
        };
        assert(u@.rs_files =~= Seq::<FileModel>::empty());
        assert(u@.transfer_type =~= Seq::<char>::empty());
        assert(u@.transfer_file =~= Seq::<char>::empty());
        u
    }
}

/// Work a command leaves to the application.
#[derive(Debug, Clone, PartialEq, Eq)]
pub enum UiAction {
    /// Run `create` with these arguments on the zone registry.
    CreateZone(Vec<String>),
    /// Run `use` with these arguments on the zone registry.
    UseZone(Vec<String>),
    /// Print the table of zones.
    ListArea,
    /// Print where the zones are stored.
    ListStorage,
    /// Print the files of the active zone.
    ListZoneFiles,
    /// Export this file of the active zone: choose a directory.
    OpenGetBrowser(String),
    /// Import a file into the active zone, under this name if given.
    OpenPutBrowser(Option<String>),
    /// Ask to delete this file of the active zone.
    ConfirmDelete(String),
    /// Download this remote file: choose a directory.
    OpenRemoteGetBrowser { peer_index: usize, zone: String, file_name: String },
    /// Ask the daemon to synchronise the RS space.
    StartRsSync,
    /// Print the local RS statistics.
    RsStats,
    /// Print the local blocks of this RS file (number or name).
    RsHave(String),
    /// Ask the daemon to look for peers again.
    RefreshPeers,
    /// Share a file into the RS space, under this name if given.
    OpenRsPutBrowser(Option<String>),
    /// Download this RS file: choose a directory.
    OpenRsGetBrowser(String),
    /// Ask to delete this RS file.
    ConfirmRsDelete(String),
    /// Save the settings.
    SaveConfig,
    /// Leave the active zone.
    ClearActiveZone,
    /// Print the help text.
    ShowHelp,
}

/// The mathematical value of an action.
pub enum ActionModel {
    CreateZone(Seq<Seq<char>>),
    UseZone(Seq<Seq<char>>),
    ListArea,
    ListStorage,
    ListZoneFiles,
    OpenGetBrowser(Seq<char>),
    OpenPutBrowser(Option<Seq<char>>),
    ConfirmDelete(Seq<char>),
    OpenRemoteGetBrowser { peer_index: usize, zone: Seq<char>, file_name: Seq<char> },
    StartRsSync,
    RsStats,
    RsHave(Seq<char>),
    RefreshPeers,
    OpenRsPutBrowser(Option<Seq<char>>),
    OpenRsGetBrowser(Seq<char>),
    ConfirmRsDelete(Seq<char>),
    SaveConfig,
    ClearActiveZone,
    ShowHelp,
}

impl View for UiAction {
    type V = ActionModel;

    open spec fn view(&self) -> ActionModel {
        match self {
            UiAction::CreateZone(a) => ActionModel::CreateZone(strings_view(a@)),
            UiAction::UseZone(a) => ActionModel::UseZone(strings_view(a@)),
            UiAction::ListArea => ActionModel::ListArea,
            UiAction::ListStorage => ActionModel::ListStorage,
            UiAction::ListZoneFiles => ActionModel::ListZoneFiles,
            UiAction::OpenGetBrowser(s) => ActionModel::OpenGetBrowser(s@),
            UiAction::OpenPutBrowser(s) => ActionModel::OpenPutBrowser(opt_str(*s)),
            UiAction::ConfirmDelete(s) => ActionModel::ConfirmDelete(s@),
            UiAction::OpenRemoteGetBrowser { peer_index, zone, file_name } => ActionModel::OpenRemoteGetBrowser {
                peer_index: *peer_index,
                zone: zone@,
                file_name: file_name@,
            },
            UiAction::StartRsSync => ActionModel::StartRsSync,
            UiAction::RsStats => ActionModel::RsStats,
            UiAction::RsHave(s) => ActionModel::RsHave(s@),
            UiAction::RefreshPeers => ActionModel::RefreshPeers,
            UiAction::OpenRsPutBrowser(s) => ActionModel::OpenRsPutBrowser(opt_str(*s)),
            UiAction::OpenRsGetBrowser(s) => ActionModel::OpenRsGetBrowser(s@),
            UiAction::ConfirmRsDelete(s) => ActionModel::ConfirmRsDelete(s@),
            UiAction::SaveConfig => ActionModel::SaveConfig,
            UiAction::ClearActiveZone => ActionModel::ClearActiveZone,
            UiAction::ShowHelp => ActionModel::ShowHelp,
        }
    }
}

/// The values of a list of actions.
pub open spec fn actions_view(v: Seq<UiAction>) -> Seq<ActionModel> {
    v.map_values(|a: UiAction| a@)
}

/// The first argument, if any.
pub open spec fn first_arg(args: Seq<Seq<char>>) -> Option<Seq<char>> {
    if args.len() > 0 {
        Some(args[0])
    } else {
        None
    }
}

/// The RS file an argument names among the listed files: a number from 1
/// picks from the listing, any other word is the name itself; `None` for a
/// number out of range.
pub open spec fn rs_arg(arg: Seq<char>, files: Seq<FileModel>) -> Option<Seq<char>> {
    match usize_value(arg) {
        Some(k) => if 1 <= k && k <= files.len() {
            Some(files[k - 1].name)
        } else {
            None
        },
        None => Some(arg),
    }
}

/// The error lines of `rget <arg>` when no file can be chosen.
pub open spec fn rget_error(p2p: bool, r: RemoteModel) -> Seq<(Seq<char>, LineStyle)> {
    if !p2p {
        seq![(not_started(), LineStyle::Error)]
    } else if r.peer_index is None {
        seq![("No peer selected. Use 'ruse <n>' first."@, LineStyle::Error)]
    } else if r.zone is None {
        seq![("No zone selected. Use 'ruse <zone>' first."@, LineStyle::Error)]
    } else if r.files.len() == 0 {
        seq![("No files cached. Use 'rlist' first."@, LineStyle::Error)]
    } else {
        seq![(num_line("Invalid file number. Use 1-"@, r.files.len()), LineStyle::Error)]
    }
}

/// Nothing changes but what the lines and actions say.
pub open spec fn quiet(
    o: UiModel,
    n: UiModel,
    lines: Seq<(Seq<char>, LineStyle)>,
    acts: Seq<ActionModel>,
    want_lines: Seq<(Seq<char>, LineStyle)>,
    want_acts: Seq<ActionModel>,
) -> bool {
    n == o && lines == want_lines && acts == want_acts
}

/// The commands that work on the zones of this node.
pub open spec fn zone_outcome(
    o: UiModel,
    n: UiModel,
    cmd: TuiCommand,
    args: Seq<Seq<char>>,
    lines: Seq<(Seq<char>, LineStyle)>,
    acts: Seq<ActionModel>,
) -> bool {
    match cmd {
        TuiCommand::Create => quiet(o, n, lines, acts, seq![], seq![ActionModel::CreateZone(args)]),
        TuiCommand::Use => quiet(o, n, lines, acts, seq![], seq![ActionModel::UseZone(args)]),
        TuiCommand::List => if first_arg(args) == Some("area"@) {
            quiet(o, n, lines, acts, seq![], seq![ActionModel::ListArea])
        } else if first_arg(args) == Some("storage"@) {
            quiet(o, n, lines, acts, seq![], seq![ActionModel::ListStorage])
        } else if o.rs_mode {
            &&& n == UiModel { pending_op: Some(PendingOperation::RsList), ..o }
            &&& lines == seq![("Listing RS files..."@, LineStyle::Info)]
            &&& acts == Seq::<ActionModel>::empty()
        } else {
            quiet(o, n, lines, acts, seq![], seq![ActionModel::ListZoneFiles])
        },
        TuiCommand::Get => if o.rs_mode {
            quiet(o, n, lines, acts, seq![("RS mode active. Use 'rsget <file_name>' instead."@, LineStyle::Info)], seq![])
        } else if args.len() > 0 {
            quiet(o, n, lines, acts, seq![], seq![ActionModel::OpenGetBrowser(args[0])])
        } else {
            quiet(o, n, lines, acts, seq![("Error: Missing argument: file_name"@, LineStyle::Error)], seq![])
        },
        TuiCommand::Put => if o.rs_mode {
            quiet(o, n, lines, acts, seq![("RS mode active. Use 'rsput [name]' instead."@, LineStyle::Info)], seq![])
        } else {
            quiet(o, n, lines, acts, seq![], seq![ActionModel::OpenPutBrowser(first_arg(args))])
        },
        TuiCommand::Delete => if o.rs_mode {
            quiet(o, n, lines, acts, seq![("RS mode active. Use 'rsdel <file_name>' instead."@, LineStyle::Info)], seq![])
        } else if args.len() > 0 {
            quiet(o, n, lines, acts, seq![], seq![ActionModel::ConfirmDelete(args[0])])
        } else {
            quiet(o, n, lines, acts, seq![("Error: Missing argument: file_name"@, LineStyle::Error)], seq![])
        },
        _ => false,
    }
}

/// The commands that browse other peers.
pub open spec fn remote_outcome(
    o: UiModel,
    n: UiModel,
    cmd: TuiCommand,
    args: Seq<Seq<char>>,
    p2p: bool,
    peers: Seq<PeerModel>,
    lines: Seq<(Seq<char>, LineStyle)>,
    acts: Seq<ActionModel>,
) -> bool {
    match cmd {
        TuiCommand::Peers => quiet(o, n, lines, acts, peers_listing_spec(p2p, peers), seq![]),
        TuiCommand::Remote => if args.len() > 0 {
            &&& lines.len() == 1
            &&& query_outcome(p2p, peers.len(), o.remote, n.remote, args[0], n.pending_op, lines[0])
            &&& n == UiModel { remote: n.remote, pending_op: n.pending_op, ..o }
            &&& acts == Seq::<ActionModel>::empty()
        } else {
            quiet(
                o,
                n,
                lines,
                acts,
                peers_listing_spec(p2p, peers) + seq![
                    (""@, LineStyle::Info),
                    ("Use 'ruse <n>' to select a peer, then 'rarea' to see zones."@, LineStyle::Info),
                ],
                seq![],
            )
        },
        TuiCommand::Ruse => if args.len() > 0 {
            &&& ruse_outcome(p2p, peers, o.remote, n.remote, args[0], lines)
            &&& n == UiModel { remote: n.remote, ..o }
            &&& acts == Seq::<ActionModel>::empty()
        } else {
            quiet(o, n, lines, acts, remote_status_spec(o.remote, peers), seq![])
        },
        TuiCommand::Rarea => if !p2p {
            &&& n == UiModel { pending_op: None, ..o }
            &&& lines == seq![(not_started(), LineStyle::Error)]
            &&& acts == Seq::<ActionModel>::empty()
        } else if o.remote.peer_index is None {
            &&& n == UiModel { pending_op: None, ..o }
            &&& lines == seq![("No peer selected. Use 'ruse <n>' first."@, LineStyle::Error)] + peers_listing_spec(
                p2p,
                peers,
            )
            &&& acts == Seq::<ActionModel>::empty()
        } else {
            &&& n == UiModel { pending_op: Some(PendingOperation::QuerySelectedZones), ..o }
            &&& lines == seq![("Querying zones..."@, LineStyle::Info)]
            &&& acts == Seq::<ActionModel>::empty()
        },
        TuiCommand::Rlist => if args.len() > 0 {
            match o.remote.peer_index {
                Some(pi) => {
                    &&& n.pending_op matches Some(PendingOperation::QueryFiles { peer_index, zone }) && peer_index == pi
                        && zone@ == args[0]
                    &&& n == UiModel {
                        pending_op: n.pending_op,
                        remote: RemoteModel { zone: Some(args[0]), ..o.remote },
                        ..o
                    }
                    &&& lines == Seq::<(Seq<char>, LineStyle)>::empty()
                    &&& acts == Seq::<ActionModel>::empty()
                },
                None => quiet(o, n, lines, acts, seq![("No peer selected. Use 'ruse <n>' first."@, LineStyle::Error)], seq![]),
            }
        } else if !p2p {
            &&& n == UiModel { pending_op: None, ..o }
            &&& lines == seq![(not_started(), LineStyle::Error)]
            &&& acts == Seq::<ActionModel>::empty()
        } else if o.remote.peer_index is None {
            &&& n == UiModel { pending_op: None, ..o }
            &&& lines == seq![("No peer selected. Use 'ruse <n>' first."@, LineStyle::Error)]
            &&& acts == Seq::<ActionModel>::empty()
        } else if o.remote.zone is None {
            &&& n == UiModel { pending_op: None, ..o }
            &&& lines == seq![("No zone selected. Use 'ruse <zone>' or 'rlist <zone>'."@, LineStyle::Error)]
            &&& acts == Seq::<ActionModel>::empty()
        } else {
            &&& n == UiModel { pending_op: Some(PendingOperation::QuerySelectedFiles), ..o }
            &&& lines == seq![("Listing files..."@, LineStyle::Info)]
            &&& acts == Seq::<ActionModel>::empty()
        },
        TuiCommand::Rget => if args.len() > 0 {
            if p2p && o.remote.peer_index is Some && o.remote.zone is Some && pick(args[0], o.remote.files.len()) is Some {
                quiet(o, n, lines, acts, seq![], seq![
                    ActionModel::OpenRemoteGetBrowser {
                        peer_index: o.remote.peer_index->0,
                        zone: o.remote.zone->0,
                        file_name: o.remote.files[pick(args[0], o.remote.files.len())->0 as int].name,
                    },
                ])
            } else {
                quiet(o, n, lines, acts, rget_error(p2p, o.remote), seq![])
            }
        } else {
            quiet(
                o,
                n,
                lines,
                acts,
                seq![
                    ("Usage: rget <file_number>"@, LineStyle::Error),
                    ("First use 'rlist' to see files with numbers."@, LineStyle::Info),
                ],
                seq![],
            )
        },
        _ => false,
    }
}

/// The commands of the RS space.
pub open spec fn rs_outcome(
    o: UiModel,
    n: UiModel,
    cmd: TuiCommand,
    args: Seq<Seq<char>>,
    p2p: bool,
    peers: Seq<PeerModel>,
    lines: Seq<(Seq<char>, LineStyle)>,
    acts: Seq<ActionModel>,
) -> bool {
    match cmd {
        TuiCommand::Rs => if o.rs_mode {
            quiet(o, n, lines, acts, seq![("Already in RS mode."@, LineStyle::Info)], seq![])
        } else {
            &&& n == UiModel { rs_mode: true, ..o }
            &&& lines == seq![
                ("Entered RS (Block Sharing) mode."@, LineStyle::Success),
                ("Use 'rslist' to see shared files."@, LineStyle::Info),
            ]
            &&& acts == seq![ActionModel::StartRsSync]
        },
        TuiCommand::RsList => {
            &&& n == UiModel { pending_op: Some(PendingOperation::RsList), ..o }
            &&& lines == seq![("Listing RS files..."@, LineStyle::Info)]
            &&& acts == Seq::<ActionModel>::empty()
        },
        TuiCommand::RsStatus => {
            &&& n == UiModel { pending_op: Some(PendingOperation::RsSyncStatus { verbose: true }), ..o }
            &&& lines == seq![("Fetching RS sync status..."@, LineStyle::Info)]
            &&& acts == Seq::<ActionModel>::empty()
        },
        TuiCommand::RsProgress => {
            &&& n == UiModel { pending_op: Some(PendingOperation::RsSyncStatus { verbose: false }), ..o }
            &&& lines == seq![("Fetching RS sync status..."@, LineStyle::Info)]
            &&& acts == Seq::<ActionModel>::empty()
        },
        TuiCommand::RsStats => quiet(o, n, lines, acts, seq![], seq![ActionModel::RsStats]),
        TuiCommand::RsHave => if args.len() > 0 {
            quiet(o, n, lines, acts, seq![], seq![ActionModel::RsHave(args[0])])
        } else {
            quiet(o, n, lines, acts, seq![("Usage: rshave <number> | rshave <file_name>"@, LineStyle::Error)], seq![])
        },
        TuiCommand::RsPeers => quiet(o, n, lines, acts, rs_peers_spec(p2p, peers), seq![ActionModel::RefreshPeers]),
        TuiCommand::RsPut => quiet(o, n, lines, acts, seq![], seq![ActionModel::OpenRsPutBrowser(first_arg(args))]),
        TuiCommand::RsGet => if args.len() > 0 {
            match rs_arg(args[0], o.rs_files) {
                Some(name) => quiet(o, n, lines, acts, seq![], seq![ActionModel::OpenRsGetBrowser(name)]),
                None => quiet(o, n, lines, acts, seq![(invalid_rs_number(), LineStyle::Error)], seq![]),
            }
        } else {
            quiet(o, n, lines, acts, seq![("Usage: rsget <number> | rsget <file_name>"@, LineStyle::Error)], seq![])
        },
        TuiCommand::RsDel => if args.len() > 0 {
            match rs_arg(args[0], o.rs_files) {
                Some(name) => quiet(o, n, lines, acts, seq![], seq![ActionModel::ConfirmRsDelete(name)]),
                None => quiet(o, n, lines, acts, seq![(invalid_rs_number(), LineStyle::Error)], seq![]),
            }
        } else {
            quiet(o, n, lines, acts, seq![("Usage: rsdel <number> | rsdel <file_name>"@, LineStyle::Error)], seq![])
        },
        TuiCommand::RsCfg => {
            let (c, changed, ls) = rscfg_spec(o.config, args);
            &&& n == UiModel { config: c, ..o }
            &&& lines == ls
            &&& acts == if changed { seq![ActionModel::SaveConfig] } else { Seq::<ActionModel>::empty() }
        },
        _ => false,
    }
}

/// Leaving RS mode, help, quitting and unknown words.
pub open spec fn mode_outcome(
    o: UiModel,
    n: UiModel,
    cmd: TuiCommand,
    lines: Seq<(Seq<char>, LineStyle)>,
    acts: Seq<ActionModel>,
) -> bool {
    match cmd {
        TuiCommand::Rxiu => {
            &&& n == UiModel {
                rs_mode: false,
                pending_op: None,
                status: None,
                rs_files: Seq::empty(),
                remote: RemoteModel { peer_index: None, zone: None, zones: Seq::empty(), files: Seq::empty() },
                transfer_active: false,
                transfer_type: Seq::empty(),
                transfer_file: Seq::empty(),
                bytes_done: 0,
                bytes_total: 0,
                ..o
            }
            &&& lines == seq![("Returned to default mode."@, LineStyle::Success)]
            &&& acts == seq![ActionModel::ClearActiveZone]
        },
        TuiCommand::Help => quiet(o, n, lines, acts, seq![], seq![ActionModel::ShowHelp]),
        TuiCommand::Quit => n == UiModel { should_quit: true, ..o } && lines == Seq::<(Seq<char>, LineStyle)>::empty()
            && acts == Seq::<ActionModel>::empty(),
        TuiCommand::Unknown => quiet(
            o,
            n,
            lines,
            acts,
            seq![("Error: Invalid command. Type 'help' for available commands"@, LineStyle::Error)],
            seq![],
        ),
        _ => false,
    }
}

/// What command `cmd` with arguments `args` does: the new state, the lines
/// printed after the echo and the work left to the application.
pub open spec fn command_outcome(
    o: UiModel,
    n: UiModel,
    cmd: TuiCommand,
    args: Seq<Seq<char>>,
    p2p: bool,
    peers: Seq<PeerModel>,
    lines: Seq<(Seq<char>, LineStyle)>,
    acts: Seq<ActionModel>,
) -> bool {
    ||| zone_outcome(o, n, cmd, args, lines, acts)
    ||| remote_outcome(o, n, cmd, args, p2p, peers, lines, acts)
    ||| rs_outcome(o, n, cmd, args, p2p, peers, lines, acts)
    ||| mode_outcome(o, n, cmd, lines, acts)
}


/// Lists of at most two items are the sequences of their items.
proof fn lemma_short_views(lines: Seq<OutputLine>, acts: Seq<UiAction>)
    ensures
        lines.len() == 0 ==> lines_view(lines) =~= Seq::<(Seq<char>, LineStyle)>::empty(),
        lines.len() == 1 ==> lines_view(lines) =~= seq![crate::tui::output::line(lines[0])],
        lines.len() == 2 ==> lines_view(lines) =~= seq![
            crate::tui::output::line(lines[0]),
            crate::tui::output::line(lines[1]),
        ],
        acts.len() == 0 ==> actions_view(acts) =~= Seq::<ActionModel>::empty(),
        acts.len() == 1 ==> actions_view(acts) =~= seq![acts[0]@],
{
}

fn info(s: &str) -> (r: OutputLine)
    ensures
        r.content@ == s@,
        r.style == LineStyle::Info,
{
    OutputLine::info(String::from_str(s))
}

fn err(s: &str) -> (r: OutputLine)
    ensures
        r.content@ == s@,
        r.style == LineStyle::Error,
{
    OutputLine::error(String::from_str(s))
}

fn first_of(args: &Vec<String>) -> (r: Option<String>)
    ensures
        opt_str(r) == first_arg(strings_view(args@)),
{
    if args.len() > 0 {
        Some(args[0].clone())
    } else {
        None
    }
}

fn is_word(args: &Vec<String>, w: &str) -> (r: bool)
    ensures
        r == (first_arg(strings_view(args@)) == Some(w@)),
{
    if args.len() > 0 {
        crate::text::str_eq(args[0].as_str(), w)
    } else {
        false
    }
}

fn zone_command(ui: &mut UiState, cmd: TuiCommand, args: &Vec<String>) -> (r: (Vec<OutputLine>, Vec<UiAction>))
    requires
        cmd is Create || cmd is Use || cmd is List || cmd is Get || cmd is Put || cmd is Delete,
    ensures
        zone_outcome(old(ui)@, final(ui)@, cmd, strings_view(args@), lines_view(r.0@), actions_view(r.1@)),
{
    let mut lines: Vec<OutputLine> = Vec::new();
    let mut acts: Vec<UiAction> = Vec::new();
    match cmd {
        TuiCommand::Create => {
            acts.push(UiAction::CreateZone(copy_strings(args)));
        },
        TuiCommand::Use => {
            acts.push(UiAction::UseZone(copy_strings(args)));
        },
        TuiCommand::List => {
            if is_word(args, "area") {
                acts.push(UiAction::ListArea);
            } else if is_word(args, "storage") {
                acts.push(UiAction::ListStorage);
            } else if ui.rs_mode {
                ui.pending_op = Some(PendingOperation::RsList);
                lines.push(info("Listing RS files..."));
            } else {
                acts.push(UiAction::ListZoneFiles);
            }
        },
        TuiCommand::Get => {
            if ui.rs_mode {
                lines.push(info("RS mode active. Use 'rsget <file_name>' instead."));
            } else if args.len() > 0 {
                acts.push(UiAction::OpenGetBrowser(args[0].clone()));
            } else {
                lines.push(err("Error: Missing argument: file_name"));
            }
        },
        TuiCommand::Put => {
            if ui.rs_mode {
                lines.push(info("RS mode active. Use 'rsput [name]' instead."));
            } else {
                acts.push(UiAction::OpenPutBrowser(first_of(args)));
            }
        },
        _ => {
            if ui.rs_mode {
                lines.push(info("RS mode active. Use 'rsdel <file_name>' instead."));
            } else if args.len() > 0 {
                acts.push(UiAction::ConfirmDelete(args[0].clone()));
            } else {
                lines.push(err("Error: Missing argument: file_name"));
            }
        },
    }
    proof {
        lemma_short_views(lines@, acts@);
    }
    (lines, acts)
}


fn remote_command(
    ui: &mut UiState,
    cmd: TuiCommand,
    args: &Vec<String>,
    p2p: bool,
    peers: &Vec<PeerInfo>,
) -> (r: (Vec<OutputLine>, Vec<UiAction>))
    requires
        cmd is Peers || cmd is Remote || cmd is Ruse || cmd is Rarea || cmd is Rlist || cmd is Rget,
    ensures
        remote_outcome(
            old(ui)@,
            final(ui)@,
            cmd,
            strings_view(args@),
            p2p,
            peers_view(peers@),
            lines_view(r.0@),
            actions_view(r.1@),
        ),
{
    let mut lines: Vec<OutputLine> = Vec::new();
    let mut acts: Vec<UiAction> = Vec::new();
    match cmd {
        TuiCommand::Peers => {
            lines = peers_listing(p2p, peers);
           
        },
        TuiCommand::Remote => {
            if args.len() > 0 {
                let (op, line) = remote_query(p2p, peers.len(), &mut ui.remote, args[0].as_str());
                ui.pending_op = op;
                lines.push(line);
               
            } else {
                lines = peers_listing(p2p, peers);
                let ghost before = lines@;
                lines.push(info(""));
                lines.push(info("Use 'ruse <n>' to select a peer, then 'rarea' to see zones."));
                proof {
                    assert(lines_view(lines@) =~= lines_view(before) + seq![
                        crate::tui::output::line(lines@[before.len() as int]),
                        crate::tui::output::line(lines@[before.len() as int + 1]),
                    ]);
                }
               
            }
        },
        TuiCommand::Ruse => {
            if args.len() > 0 {
                lines = ruse(p2p, peers, &mut ui.remote, args[0].as_str());
               
            } else {
                lines = remote_status(&ui.remote, peers);
               
            }
        },
        TuiCommand::Rarea => {
            let (op, line) = rarea(p2p, &ui.remote);
            let no_peer = p2p && op.is_none();
            ui.pending_op = op;
            lines.push(line);
            if no_peer {
                let mut more = peers_listing(p2p, peers);
                let ghost first = lines@;
                let ghost rest = more@;
                lines.append(&mut more);
                proof {
                    assert(lines@ == first + rest);
                    lemma_short_views(first, acts@);
                    assert(lines_view(lines@) =~= lines_view(first) + lines_view(rest));
                }
            }
           
        },
        TuiCommand::Rlist => {
            if args.len() > 0 {
                match ui.remote.peer_index {
                    Some(pi) => {
                        ui.remote.zone = Some(args[0].clone());
                        ui.pending_op = Some(PendingOperation::QueryFiles { peer_index: pi, zone: args[0].clone() });
                       
                    },
                    None => {
                        lines.push(err("No peer selected. Use 'ruse <n>' first."));
                    },
                }
            } else {
                let (op, line) = rlist(p2p, &ui.remote);
                ui.pending_op = op;
                lines.push(line);
               
            }
        },
        _ => {
            if args.len() > 0 {
                match rget(p2p, &ui.remote, args[0].as_str()) {
                    Ok((p, z, f)) => {
                        acts.push(UiAction::OpenRemoteGetBrowser { peer_index: p, zone: z, file_name: f });
                       
                    },
                    Err(ls) => {
                        lines = ls;
                       
                    },
                }
            } else {
                lines.push(err("Usage: rget <file_number>"));
                lines.push(info("First use 'rlist' to see files with numbers."));
            }
        },
    }
    proof {
        lemma_short_views(lines@, acts@);
    }
    (lines, acts)
}


fn rs_command(
    ui: &mut UiState,
    cmd: TuiCommand,
    args: &Vec<String>,
    p2p: bool,
    peers: &Vec<PeerInfo>,
) -> (r: (Vec<OutputLine>, Vec<UiAction>))
    requires
        cmd is Rs || cmd is RsList || cmd is RsStatus || cmd is RsProgress || cmd is RsStats || cmd is RsHave
            || cmd is RsPeers || cmd is RsPut || cmd is RsGet || cmd is RsDel || cmd is RsCfg,
    ensures
        rs_outcome(
            old(ui)@,
            final(ui)@,
            cmd,
            strings_view(args@),
            p2p,
            peers_view(peers@),
            lines_view(r.0@),
            actions_view(r.1@),
        ),
{
    let mut lines: Vec<OutputLine> = Vec::new();
    let mut acts: Vec<UiAction> = Vec::new();
    match cmd {
        TuiCommand::Rs => {
            if ui.rs_mode {
                lines.push(info("Already in RS mode."));
            } else {
                ui.rs_mode = true;
                lines.push(OutputLine::success(String::from_str("Entered RS (Block Sharing) mode.")));
                lines.push(info("Use 'rslist' to see shared files."));
                acts.push(UiAction::StartRsSync);
            }
        },
        TuiCommand::RsList => {
            ui.pending_op = Some(PendingOperation::RsList);
            lines.push(info("Listing RS files..."));
        },
        TuiCommand::RsStatus => {
            ui.pending_op = Some(PendingOperation::RsSyncStatus { verbose: true });
            lines.push(info("Fetching RS sync status..."));
        },
        TuiCommand::RsProgress => {
            ui.pending_op = Some(PendingOperation::RsSyncStatus { verbose: false });
            lines.push(info("Fetching RS sync status..."));
        },
        TuiCommand::RsStats => {
            acts.push(UiAction::RsStats);
        },
        TuiCommand::RsHave => {
            if args.len() > 0 {
                acts.push(UiAction::RsHave(args[0].clone()));
            } else {
                lines.push(err("Usage: rshave <number> | rshave <file_name>"));
            }
        },
        TuiCommand::RsPeers => {
            lines = rs_peers_listing(p2p, peers);
            acts.push(UiAction::RefreshPeers);
        },
        TuiCommand::RsPut => {
            acts.push(UiAction::OpenRsPutBrowser(first_of(args)));
        },
        TuiCommand::RsGet => {
            if args.len() > 0 {
                match resolve_rs_arg(args[0].as_str(), &ui.rs_files_cache) {
                    Ok(name) => acts.push(UiAction::OpenRsGetBrowser(name)),
                    Err(l) => lines.push(l),
                }
            } else {
                lines.push(err("Usage: rsget <number> | rsget <file_name>"));
            }
        },
        TuiCommand::RsDel => {
            if args.len() > 0 {
                match resolve_rs_arg(args[0].as_str(), &ui.rs_files_cache) {
                    Ok(name) => acts.push(UiAction::ConfirmRsDelete(name)),
                    Err(l) => lines.push(l),
                }
            } else {
                lines.push(err("Usage: rsdel <number> | rsdel <file_name>"));
            }
        },
        _ => {
            let (c, changed, ls) = rscfg(&ui.config, args);
            ui.config = c;
            lines = ls;
            if changed {
                acts.push(UiAction::SaveConfig);
            }
        },
    }
    proof {
        lemma_short_views(lines@, acts@);
    }
    (lines, acts)
}

fn mode_command(ui: &mut UiState, cmd: TuiCommand) -> (r: (Vec<OutputLine>, Vec<UiAction>))
    requires
        cmd is Rxiu || cmd is Help || cmd is Quit || cmd is Unknown,
    ensures
        mode_outcome(old(ui)@, final(ui)@, cmd, lines_view(r.0@), actions_view(r.1@)),
{
    let mut lines: Vec<OutputLine> = Vec::new();
    let mut acts: Vec<UiAction> = Vec::new();
    match cmd {
        TuiCommand::Rxiu => {
            ui.rs_mode = false;
            ui.rs_files_cache = Vec::new();
            ui.remote = RemoteConnection::new();
            ui.pending_op = None;
            ui.transfer.reset();
            ui.status_message = None;
            acts.push(UiAction::ClearActiveZone);
            lines.push(OutputLine::success(String::from_str("Returned to default mode.")));
            proof {
                assert(ui@.rs_files =~= Seq::<FileModel>::empty());
                assert(ui@.transfer_type =~= Seq::<char>::empty());
                assert(ui@.transfer_file =~= Seq::<char>::empty());
            }
        },
        TuiCommand::Help => {
            acts.push(UiAction::ShowHelp);
        },
        TuiCommand::Quit => {
            ui.should_quit = true;
        },
        _ => {
            lines.push(err("Error: Invalid command. Type 'help' for available commands"));
        },
    }
    proof {
        lemma_short_views(lines@, acts@);
    }
    (lines, acts)
}


/// Runs the typed line (the input box's text without leading and trailing
/// white space): the input box is cleared, the line is echoed, and its
/// command is carried out as `command_outcome` says, its lines following
/// the echo.
pub fn command_step(
    ui: &mut UiState,
    active: Option<&str>,
    p2p: bool,
    peers: &Vec<PeerInfo>,
) -> (r: (Vec<OutputLine>, Vec<UiAction>))
    ensures
        final(ui).input_buffer@.len() == 0,
        final(ui).cursor_pos == 0,
        trimmed(old(ui).input_buffer@).len() == 0 ==> final(ui)@ == old(ui)@ && r.0@.len() == 0 && r.1@.len()
            == 0,
        trimmed(old(ui).input_buffer@).len() > 0 ==> r.0@.len() >= 1 && line(r.0@[0]) == (
            echo_text(
                zone_label(old(ui).rs_mode, match active {
                    Some(a) => Some(a@),
                    None => None,
                }),
                trimmed(old(ui).input_buffer@),
            ),
            LineStyle::Info,
        ),
        trimmed(old(ui).input_buffer@).len() > 0 && words(trimmed(old(ui).input_buffer@)).len() == 0 ==> final(ui)@
            == old(ui)@ && r.0@.len() == 1 && r.1@.len() == 0,
        trimmed(old(ui).input_buffer@).len() > 0 && words(trimmed(old(ui).input_buffer@)).len() > 0
            ==> command_outcome(
            old(ui)@,
            final(ui)@,
            tui_command(lowercase(words(trimmed(old(ui).input_buffer@))[0])),
            words(trimmed(old(ui).input_buffer@)).skip(1),
            p2p,
            peers_view(peers@),
            lines_view(r.0@).skip(1),
            actions_view(r.1@),
        ),
{
    let line = crate::text::trim_text(ui.input_buffer.as_str());
    let input = line.as_str();
    ui.input_buffer = String::new();
    ui.cursor_pos = 0;
    if input.unicode_len() == 0 {
        return (Vec::new(), Vec::new());
    }
    let mut lines: Vec<OutputLine> = Vec::new();
    lines.push(echo_line(ui.rs_mode, active, input));
    match parse_input(input) {
        None => (lines, Vec::new()),
        Some((cmd, args)) => {
            let (mut more, acts) = match cmd {
                TuiCommand::Create | TuiCommand::Use | TuiCommand::List | TuiCommand::Get | TuiCommand::Put
                | TuiCommand::Delete => zone_command(ui, cmd, &args),
                TuiCommand::Peers | TuiCommand::Remote | TuiCommand::Ruse | TuiCommand::Rarea | TuiCommand::Rlist
                | TuiCommand::Rget => remote_command(ui, cmd, &args, p2p, peers),
                TuiCommand::Rxiu | TuiCommand::Help | TuiCommand::Quit | TuiCommand::Unknown => mode_command(ui, cmd),
                _ => rs_command(ui, cmd, &args, p2p, peers),
            };
            let ghost head = lines@;
            let ghost tail = more@;
            lines.append(&mut more);
            ui.input_buffer = String::new();
            ui.cursor_pos = 0;
            proof {
                assert(lines@ == head + tail);
                assert(lines_view(lines@).skip(1) =~= lines_view(tail));
            }
            (lines, acts)
        },
    }
}


/// Lines printed for a line of text with a style.
pub type Lines = Seq<(Seq<char>, LineStyle)>;

/// What the application inserts between the head and the tail of an
/// answer's lines: nothing, the rows of the listed files, or the line of
/// the running transfer (both carry sizes and percentages).
#[derive(Debug, Clone, Copy, PartialEq, Eq, Structural)]
pub enum Insert {
    Nothing,
    FileRows,
    TransferLine,
}

/// The answer to a queued operation, as the application got it.
#[derive(Debug)]
pub enum RemoteAnswer {
    /// A peer's zones.
    Zones(Result<Vec<String>, AppError>),
    /// The files of a peer's zone.
    Files(Result<Vec<FileMetadata>, AppError>),
    /// The daemon's synchronisation status.
    SyncStatus(Result<RsSyncStatus, AppError>),
    /// The local RS files after the peers' lists were merged in.
    RsFiles(Vec<RsFileEntry>),
}

/// Whether the peer at `i` is still listed.
pub open spec fn live(i: usize, peers_len: nat) -> bool {
    i < peers_len
}

/// Which peer a queued operation asks (`Some(i)`, or `None` when it needs
/// no peer) and the lines announcing the query, or the lines printed when
/// it cannot run (`Err`), with the remote selection afterwards. A stale
/// peer position is reported whether or not the network runs; only the
/// status query needs the network to start. A query that is announced but
/// finds the network down prints nothing more.
pub open spec fn target_spec(p2p: bool, peers: Seq<PeerModel>, r: RemoteModel, op: PendingOperation) -> (
    Result<(Option<usize>, Lines), Lines>,
    RemoteModel,
) {
    let gone: Lines = seq![("Peer no longer available."@, LineStyle::Error)];
    match op {
        PendingOperation::QueryZones { peer_index } => if live(peer_index, peers.len()) {
            (
                Ok((
                    Some(peer_index),
                    seq![("Querying zones from "@ + short_id(peers[peer_index as int].peer_id) + "..."@, LineStyle::Info)],
                )),
                r,
            )
        } else {
            (Err(gone), r)
        },
        PendingOperation::QueryFiles { peer_index, zone } => if live(peer_index, peers.len()) {
            (Ok((Some(peer_index), seq![("Querying files in zone '"@ + zone@ + "'..."@, LineStyle::Info)])), r)
        } else {
            (Err(gone), r)
        },
        PendingOperation::DownloadFile { peer_index, .. } => if live(peer_index, peers.len()) {
            (Ok((Some(peer_index), Seq::empty())), r)
        } else {
            (Err(gone), r)
        },
        PendingOperation::QuerySelectedZones => match r.peer_index {
            None => (Err(Seq::empty()), r),
            Some(i) => if live(i, peers.len()) {
                (Ok((Some(i), Seq::empty())), r)
            } else {
                (
                    Err(seq![("Selected peer no longer available."@, LineStyle::Error)]),
                    RemoteModel { peer_index: None, ..r },
                )
            },
        },
        PendingOperation::QuerySelectedFiles => match (r.peer_index, r.zone) {
            (Some(i), Some(_)) => if live(i, peers.len()) {
                (Ok((Some(i), Seq::empty())), r)
            } else {
                (Err(seq![("Selected peer no longer available."@, LineStyle::Error)]), r)
            },
            _ => (Err(Seq::empty()), r),
        },
        PendingOperation::RsSyncStatus { .. } => if p2p {
            (Ok((None, Seq::empty())), r)
        } else {
            (Err(seq![(not_started(), LineStyle::Error)]), r)
        },
        _ => (Ok((None, Seq::empty())), r),
    }
}

/// Decides whom a queued operation asks and what is printed first; see
/// `target_spec`.
pub fn pending_target(
    p2p: bool,
    peers: &Vec<PeerInfo>,
    remote: &mut RemoteConnection,
    op: &PendingOperation,
) -> (r: Result<(Option<usize>, Vec<OutputLine>), Vec<OutputLine>>)
    ensures
        final(remote)@ == target_spec(p2p, peers_view(peers@), old(remote)@, *op).1,
        match r {
            Ok((t, ls)) => target_spec(p2p, peers_view(peers@), old(remote)@, *op).0 == Ok::<
                (Option<usize>, Lines),
                Lines,
            >((t, lines_view(ls@))),
            Err(ls) => target_spec(p2p, peers_view(peers@), old(remote)@, *op).0 == Err::<
                (Option<usize>, Lines),
                Lines,
            >(lines_view(ls@)),
        },
{
    let mut out: Vec<OutputLine> = Vec::new();
    let gone = match op {
        PendingOperation::QueryZones { peer_index } => {
            if *peer_index < peers.len() {
                let mut s = String::from_str("Querying zones from ");
                let short = crate::text::take_chars(peers[*peer_index].peer_id.as_str(), 12);
                s.append(short.as_str());
                s.append("...");
                out.push(OutputLine::info(s));
                proof {
                    lemma_short_views(out@, Seq::empty());
                }
                return Ok((Some(*peer_index), out));
            }
            "Peer no longer available."
        },
        PendingOperation::QueryFiles { peer_index, zone } => {
            if *peer_index < peers.len() {
                let mut s = concat_str("Querying files in zone '", zone.as_str());
                s.append("'...");
                out.push(OutputLine::info(s));
                proof {
                    lemma_short_views(out@, Seq::empty());
                }
                return Ok((Some(*peer_index), out));
            }
            "Peer no longer available."
        },
        PendingOperation::DownloadFile { peer_index, .. } => {
            if *peer_index < peers.len() {
                proof {
                    lemma_short_views(out@, Seq::empty());
                }
                return Ok((Some(*peer_index), out));
            }
            "Peer no longer available."
        },
        PendingOperation::QuerySelectedZones => match remote.peer_index {
            None => {
                proof {
                    lemma_short_views(out@, Seq::empty());
                }
                return Err(out);
            },
            Some(i) => {
                if i < peers.len() {
                    proof {
                        lemma_short_views(out@, Seq::empty());
                    }
                    return Ok((Some(i), out));
                }
                remote.peer_index = None;
                "Selected peer no longer available."
            },
        },
        PendingOperation::QuerySelectedFiles => match (remote.peer_index, &remote.zone) {
            (Some(i), Some(_)) => {
                if i < peers.len() {
                    proof {
                        lemma_short_views(out@, Seq::empty());
                    }
                    return Ok((Some(i), out));
                }
                "Selected peer no longer available."
            },
            _ => {
                proof {
                    lemma_short_views(out@, Seq::empty());
                }
                return Err(out);
            },
        },
        PendingOperation::RsSyncStatus { .. } => {
            if p2p {
                proof {
                    lemma_short_views(out@, Seq::empty());
                }
                return Ok((None, out));
            }
            "P2P network not started."
        },
        _ => {
            proof {
                lemma_short_views(out@, Seq::empty());
            }
            return Ok((None, out));
        },
    };
    out.push(err(gone));
    proof {
        lemma_short_views(out@, Seq::empty());
    }
    Err(out)
}

/// The lines of `rsstatus` (`verbose`) and `rsprogress` for a status,
/// and whether the running transfer's line follows them.
pub open spec fn status_spec(o: UiModel, s: RsSyncStatus, verbose: bool) -> (Lines, Insert) {
    if verbose {
        let base: Lines = seq![
            (""@, LineStyle::Header),
            ("RS STATUS"@, LineStyle::Header),
            (crate::tui::views::rule(40), LineStyle::Header),
            ("  Mode: "@ + (if o.rs_mode { "RS"@ } else { "default"@ }), LineStyle::Normal),
            ("  Sync: "@ + (if s.in_progress { "running"@ } else { "idle"@ }), LineStyle::Normal),
            ("  Download concurrency: "@ + decimal(s.download_concurrency as nat), LineStyle::Normal),
            ("  Sync concurrency: "@ + decimal(s.sync_concurrency as nat), LineStyle::Normal),
            ("  Global sync: "@ + (if s.global_sync { "1"@ } else { "0"@ }), LineStyle::Normal),
            ("  Block size: "@ + decimal(s.block_size_mb as nat) + " MB"@, LineStyle::Normal),
        ];
        let updated: Lines = if s.last_updated_files > 0 {
            seq![("  Last updated: "@ + decimal(s.last_updated_files as nat) + " file(s)"@, LineStyle::Normal)]
        } else {
            Seq::empty()
        };
        let error: Lines = match opt_str(s.last_error) {
            Some(e) => seq![("  Last error: "@ + e, LineStyle::Error)],
            None => Seq::empty(),
        };
        if o.transfer_active {
            (base + updated + error, Insert::TransferLine)
        } else {
            (base + updated + error + seq![("  Transfer: idle"@, LineStyle::Normal)], Insert::Nothing)
        }
    } else if o.transfer_active {
        (Seq::empty(), Insert::TransferLine)
    } else if s.in_progress {
        (seq![("RS sync running."@, LineStyle::Info)], Insert::Nothing)
    } else {
        match opt_str(s.last_error) {
            Some(e) => (seq![("RS sync error: "@ + e, LineStyle::Error)], Insert::Nothing),
            None => (seq![("No active RS transfers."@, LineStyle::Info)], Insert::Nothing),
        }
    }
}

/// A failure line: the prefix and the error's text.
pub open spec fn failed_line(prefix: Seq<char>, e: AppError) -> Lines {
    seq![(prefix + error_text(e), LineStyle::Error)]
}

/// What an answer to a queued operation does: the new state, the lines
/// before the inserted rows, what is inserted, and the lines after.
pub open spec fn outcome_spec(o: UiModel, op: PendingOperation, peer_id: Seq<char>, a: RemoteAnswer) -> (
    UiModel,
    Lines,
    Insert,
    Lines,
) {
    match (op, a) {
        (PendingOperation::QueryZones { .. }, RemoteAnswer::Zones(Ok(z))) => (
            if z@.len() > 0 {
                UiModel { remote: RemoteModel { zones: strings_view(z@), ..o.remote }, ..o }
            } else {
                o
            },
            crate::tui::views::queried_zones_spec(peer_id, strings_view(z@)),
            Insert::Nothing,
            Seq::empty(),
        ),
        (PendingOperation::QueryZones { .. }, RemoteAnswer::Zones(Err(e))) => (
            o,
            failed_line("Failed to query zones: "@, e),
            Insert::Nothing,
            Seq::empty(),
        ),
        (PendingOperation::QuerySelectedZones, RemoteAnswer::Zones(Ok(z))) => (
            UiModel { remote: RemoteModel { zones: strings_view(z@), ..o.remote }, ..o },
            crate::tui::views::selected_zones_spec(strings_view(z@)),
            Insert::Nothing,
            Seq::empty(),
        ),
        (PendingOperation::QuerySelectedZones, RemoteAnswer::Zones(Err(e))) => (
            o,
            failed_line("Failed: "@, e),
            Insert::Nothing,
            Seq::empty(),
        ),
        (PendingOperation::QueryFiles { zone, .. }, RemoteAnswer::Files(Ok(f))) => {
            let n = UiModel { remote: RemoteModel { files: f@.map_values(|m: FileMetadata| m@), ..o.remote }, ..o };
            if f@.len() == 0 {
                (n, seq![("Zone is empty."@, LineStyle::Info)], Insert::Nothing, Seq::empty())
            } else {
                (
                    n,
                    seq![
                        (""@, LineStyle::Header),
                        ("FILES in '"@ + zone@ + "' ("@ + decimal(f@.len()) + " files)"@, LineStyle::Header),
                        (crate::tui::views::rule(50), LineStyle::Header),
                    ],
                    Insert::FileRows,
                    seq![("Use 'rget <number>' to download a file."@, LineStyle::Info)],
                )
            }
        },
        (PendingOperation::QueryFiles { .. }, RemoteAnswer::Files(Err(e))) => (
            o,
            failed_line("Failed to list files: "@, e),
            Insert::Nothing,
            Seq::empty(),
        ),
        (PendingOperation::QuerySelectedFiles, RemoteAnswer::Files(Ok(f))) => {
            let n = UiModel { remote: RemoteModel { files: f@.map_values(|m: FileMetadata| m@), ..o.remote }, ..o };
            let z = match o.remote.zone {
                Some(z) => z,
                None => Seq::empty(),
            };
            if f@.len() == 0 {
                (n, seq![("Zone is empty."@, LineStyle::Info)], Insert::Nothing, Seq::empty())
            } else {
                (
                    n,
                    seq![
                        (""@, LineStyle::Header),
                        ("📁 "@ + z + " ("@ + decimal(f@.len()) + " files)"@, LineStyle::Header),
                        (crate::tui::views::rule(50), LineStyle::Header),
                    ],
                    Insert::FileRows,
                    seq![("Use 'rget <number>' to download."@, LineStyle::Info)],
                )
            }
        },
        (PendingOperation::QuerySelectedFiles, RemoteAnswer::Files(Err(e))) => (
            o,
            failed_line("Failed: "@, e),
            Insert::Nothing,
            Seq::empty(),
        ),
        (PendingOperation::RsSyncStatus { verbose }, RemoteAnswer::SyncStatus(Ok(s))) => {
            let (ls, ins) = status_spec(o, s, verbose);
            (o, ls, ins, Seq::empty())
        },
        (PendingOperation::RsSyncStatus { .. }, RemoteAnswer::SyncStatus(Err(e))) => (
            o,
            failed_line("Failed to fetch RS sync status: "@, e),
            Insert::Nothing,
            Seq::empty(),
        ),
        (PendingOperation::RsList, RemoteAnswer::RsFiles(fs)) => (
            UiModel { rs_files: files_view(fs@), ..o },
            crate::tui::views::rs_files_spec(files_view(fs@)),
            Insert::Nothing,
            Seq::empty(),
        ),
        _ => (o, Seq::empty(), Insert::Nothing, Seq::empty()),
    }
}

fn failed(prefix: &str, e: &AppError) -> (r: Vec<OutputLine>)
    ensures
        lines_view(r@) == failed_line(prefix@, *e),
{
    let mut s = String::from_str(prefix);
    let m = e.message();
    s.append(m.as_str());
    let out = vec![OutputLine::error(s)];
    proof {
        lemma_short_views(out@, Seq::empty());
    }
    out
}

fn status_lines(rs_mode: bool, active: bool, s: &RsSyncStatus, verbose: bool, Ghost(o): Ghost<UiModel>) -> (r: (
    Vec<OutputLine>,
    Insert,
))
    requires
        o.rs_mode == rs_mode,
        o.transfer_active == active,
    ensures
        (lines_view(r.0@), r.1) == status_spec(o, *s, verbose),
{
    let mut out: Vec<OutputLine> = Vec::new();
    if verbose {
        out.push(OutputLine::header(String::new()));
        out.push(OutputLine::header(String::from_str("RS STATUS")));
        out.push(OutputLine::header(crate::tui::views::rule_text(40)));
        out.push(OutputLine::normal(concat_str("  Mode: ", if rs_mode { "RS" } else { "default" })));
        out.push(OutputLine::normal(concat_str("  Sync: ", if s.in_progress { "running" } else { "idle" })));
        out.push(OutputLine::normal(num_text("  Download concurrency: ", s.download_concurrency as u64, "")));
        out.push(OutputLine::normal(num_text("  Sync concurrency: ", s.sync_concurrency as u64, "")));
        out.push(OutputLine::normal(concat_str("  Global sync: ", if s.global_sync { "1" } else { "0" })));
        out.push(OutputLine::normal(num_text("  Block size: ", s.block_size_mb, " MB")));
        let ghost base = lines_view(out@);
        proof {
            reveal_strlit("");
            let spec_base: Lines = seq![
                (""@, LineStyle::Header),
                ("RS STATUS"@, LineStyle::Header),
                (crate::tui::views::rule(40), LineStyle::Header),
                ("  Mode: "@ + (if o.rs_mode { "RS"@ } else { "default"@ }), LineStyle::Normal),
                ("  Sync: "@ + (if s.in_progress { "running"@ } else { "idle"@ }), LineStyle::Normal),
                ("  Download concurrency: "@ + decimal(s.download_concurrency as nat), LineStyle::Normal),
                ("  Sync concurrency: "@ + decimal(s.sync_concurrency as nat), LineStyle::Normal),
                ("  Global sync: "@ + (if s.global_sync { "1"@ } else { "0"@ }), LineStyle::Normal),
                ("  Block size: "@ + decimal(s.block_size_mb as nat) + " MB"@, LineStyle::Normal),
            ];
            assert(("  Download concurrency: "@ + decimal(s.download_concurrency as nat) + ""@) =~= "  Download concurrency: "@
                + decimal(s.download_concurrency as nat));
            assert(("  Sync concurrency: "@ + decimal(s.sync_concurrency as nat) + ""@) =~= "  Sync concurrency: "@
                + decimal(s.sync_concurrency as nat));
            assert(base[0] == spec_base[0]);
            assert(base[1] == spec_base[1]);
            assert(base[2] == spec_base[2]);
            assert(base[3] == spec_base[3]);
            assert(base[4] == spec_base[4]);
            assert(base[5] == spec_base[5]);
            assert(base[6] == spec_base[6]);
            assert(base[7] == spec_base[7]);
            assert(base[8] == spec_base[8]);
            assert(base =~= spec_base);
        }
        if s.last_updated_files > 0 {
            out.push(OutputLine::normal(num_text("  Last updated: ", s.last_updated_files as u64, " file(s)")));
        }
        let ghost with_updated = lines_view(out@);
        match &s.last_error {
            Some(e) => out.push(OutputLine::error(concat_str("  Last error: ", e.as_str()))),
            None => {},
        }
        let ghost with_error = lines_view(out@);
        if !active {
            out.push(OutputLine::normal(String::from_str("  Transfer: idle")));
        }
        proof {
            let updated: Lines = if s.last_updated_files > 0 {
                seq![("  Last updated: "@ + decimal(s.last_updated_files as nat) + " file(s)"@, LineStyle::Normal)]
            } else {
                Seq::empty()
            };
            let error: Lines = match opt_str(s.last_error) {
                Some(e) => seq![("  Last error: "@ + e, LineStyle::Error)],
                None => Seq::empty(),
            };
            assert(with_updated =~= base + updated);
            assert(with_error =~= base + updated + error);
            if !active {
                assert(lines_view(out@) =~= base + updated + error + seq![("  Transfer: idle"@, LineStyle::Normal)]);
            }
        }
        (out, if active { Insert::TransferLine } else { Insert::Nothing })
    } else if active {
        (out, Insert::TransferLine)
    } else if s.in_progress {
        out.push(info("RS sync running."));
        proof {
            lemma_short_views(out@, Seq::empty());
        }
        (out, Insert::Nothing)
    } else {
        match &s.last_error {
            Some(e) => out.push(OutputLine::error(concat_str("RS sync error: ", e.as_str()))),
            None => out.push(info("No active RS transfers.")),
        }
        proof {
            lemma_short_views(out@, Seq::empty());
        }
        (out, Insert::Nothing)
    }
}


/// Applies the answer to a queued operation; see `outcome_spec`. The
/// application prints the head, then what `Insert` names, then the tail.
pub fn pending_outcome(ui: &mut UiState, op: &PendingOperation, peer_id: &str, answer: RemoteAnswer) -> (r: (
    Vec<OutputLine>,
    Insert,
    Vec<OutputLine>,
))
    ensures
        (final(ui)@, lines_view(r.0@), r.1, lines_view(r.2@)) == outcome_spec(old(ui)@, *op, peer_id@, answer),
{
    let ghost o = ui@;
    let mut tail: Vec<OutputLine> = Vec::new();
    match (op, answer) {
        (PendingOperation::QueryZones { .. }, RemoteAnswer::Zones(Ok(z))) => {
            let lines = crate::tui::views::queried_zones(peer_id, &z);
            if z.len() > 0 {
                ui.remote.zones_cache = z;
            }
            (lines, Insert::Nothing, tail)
        },
        (PendingOperation::QueryZones { .. }, RemoteAnswer::Zones(Err(e))) => (
            failed("Failed to query zones: ", &e),
            Insert::Nothing,
            tail,
        ),
        (PendingOperation::QuerySelectedZones, RemoteAnswer::Zones(Ok(z))) => {
            let lines = crate::tui::views::selected_zones(&z);
            ui.remote.zones_cache = z;
            (lines, Insert::Nothing, tail)
        },
        (PendingOperation::QuerySelectedZones, RemoteAnswer::Zones(Err(e))) => (
            failed("Failed: ", &e),
            Insert::Nothing,
            tail,
        ),
        (PendingOperation::QueryFiles { zone, .. }, RemoteAnswer::Files(Ok(f))) => {
            let n = f.len();
            ui.remote.files_cache = f;
            let mut head: Vec<OutputLine> = Vec::new();
            if n == 0 {
                head.push(info("Zone is empty."));
                proof {
                    lemma_short_views(head@, Seq::empty());
                }
                (head, Insert::Nothing, tail)
            } else {
                let mut title = concat_str("FILES in '", zone.as_str());
                title.append("' (");
                push_decimal(&mut title, n as u64);
                title.append(" files)");
                head.push(OutputLine::header(String::new()));
                head.push(OutputLine::header(title));
                head.push(OutputLine::header(crate::tui::views::rule_text(50)));
                tail.push(info("Use 'rget <number>' to download a file."));
                proof {
                    reveal_strlit("");
                    lemma_short_views(tail@, Seq::empty());
                    assert(head@[0].content@ =~= ""@);
                    assert(lines_view(head@)[1] == ("FILES in '"@ + zone@ + "' ("@ + decimal(n as nat) + " files)"@, LineStyle::Header));
                    assert(lines_view(head@)[2] == (crate::tui::views::rule(50), LineStyle::Header));
                    assert(lines_view(head@) =~= seq![
                        (""@, LineStyle::Header),
                        ("FILES in '"@ + zone@ + "' ("@ + decimal(n as nat) + " files)"@, LineStyle::Header),
                        (crate::tui::views::rule(50), LineStyle::Header),
                    ]);
                }
                (head, Insert::FileRows, tail)
            }
        },
        (PendingOperation::QueryFiles { .. }, RemoteAnswer::Files(Err(e))) => (
            failed("Failed to list files: ", &e),
            Insert::Nothing,
            tail,
        ),
        (PendingOperation::QuerySelectedFiles, RemoteAnswer::Files(Ok(f))) => {
            let n = f.len();
            let zone = match &ui.remote.zone {
                Some(z) => z.clone(),
                None => String::new(),
            };
            ui.remote.files_cache = f;
            let mut head: Vec<OutputLine> = Vec::new();
            if n == 0 {
                head.push(info("Zone is empty."));
                proof {
                    lemma_short_views(head@, Seq::empty());
                }
                (head, Insert::Nothing, tail)
            } else {
                let mut title = concat_str("📁 ", zone.as_str());
                title.append(" (");
                push_decimal(&mut title, n as u64);
                title.append(" files)");
                head.push(OutputLine::header(String::new()));
                head.push(OutputLine::header(title));
                head.push(OutputLine::header(crate::tui::views::rule_text(50)));
                tail.push(info("Use 'rget <number>' to download."));
                proof {
                    reveal_strlit("");
                    lemma_short_views(tail@, Seq::empty());
                    assert(head@[0].content@ =~= ""@);
                    assert(lines_view(head@)[1] == ("📁 "@ + zone@ + " ("@ + decimal(n as nat) + " files)"@, LineStyle::Header));
                    assert(lines_view(head@)[2] == (crate::tui::views::rule(50), LineStyle::Header));
                    assert(lines_view(head@) =~= seq![
                        (""@, LineStyle::Header),
                        ("📁 "@ + zone@ + " ("@ + decimal(n as nat) + " files)"@, LineStyle::Header),
                        (crate::tui::views::rule(50), LineStyle::Header),
                    ]);
                }
                (head, Insert::FileRows, tail)
            }
        },
        (PendingOperation::QuerySelectedFiles, RemoteAnswer::Files(Err(e))) => (
            failed("Failed: ", &e),
            Insert::Nothing,
            tail,
        ),
        (PendingOperation::RsSyncStatus { verbose }, RemoteAnswer::SyncStatus(Ok(s))) => {
            let (head, ins) = status_lines(ui.rs_mode, ui.transfer.active, &s, *verbose, Ghost(o));
            (head, ins, tail)
        },
        (PendingOperation::RsSyncStatus { .. }, RemoteAnswer::SyncStatus(Err(e))) => (
            failed("Failed to fetch RS sync status: ", &e),
            Insert::Nothing,
            tail,
        ),
        (PendingOperation::RsList, RemoteAnswer::RsFiles(fs)) => {
            let lines = crate::tui::views::rs_files_listing(&fs);
            ui.rs_files_cache = fs;
            (lines, Insert::Nothing, tail)
        },
        _ => (Vec::new(), Insert::Nothing, tail),
    }
}


/// A key that edits the input line.
#[derive(Debug, Clone, Copy, PartialEq, Eq)]
pub enum EditKey {
    Char(char),
    Backspace,
    Delete,
    Left,
    Right,
    Home,
    End,
    Clear,
}

/// The input line and cursor (a position between characters) after a key.
pub open spec fn edit_spec(b: Seq<char>, c: nat, key: EditKey) -> (Seq<char>, nat) {
    match key {
        EditKey::Char(ch) => (b.take(c as int).push(ch) + b.skip(c as int), c + 1),
        EditKey::Backspace => if c > 0 {
            (b.take(c - 1) + b.skip(c as int), (c - 1) as nat)
        } else {
            (b, c)
        },
        EditKey::Delete => if c < b.len() {
            (b.take(c as int) + b.skip(c as int + 1), c)
        } else {
            (b, c)
        },
        EditKey::Left => if c > 0 {
            (b, (c - 1) as nat)
        } else {
            (b, c)
        },
        EditKey::Right => if c < b.len() {
            (b, c + 1)
        } else {
            (b, c)
        },
        EditKey::Home => (b, 0),
        EditKey::End => (b, b.len()),
        EditKey::Clear => (Seq::empty(), 0),
    }
}

/// Edits the input line: see `edit_spec`. The cursor counts characters.
pub fn edit_line(ui: &mut UiState, key: EditKey)
    requires
        old(ui).cursor_pos <= old(ui).input_buffer@.len(),
        old(ui).input_buffer@.len() < usize::MAX,
    ensures
        (final(ui).input_buffer@, final(ui).cursor_pos as nat) == edit_spec(
            old(ui).input_buffer@,
            old(ui).cursor_pos as nat,
            key,
        ),
        final(ui).cursor_pos <= final(ui).input_buffer@.len(),
        final(ui)@ == old(ui)@,
{
    let c = ui.cursor_pos;
    let len = ui.input_buffer.as_str().unicode_len();
    match key {
        EditKey::Char(ch) => {
            let mut s = String::from_str(ui.input_buffer.as_str().substring_char(0, c));
            crate::text::push_char(&mut s, ch);
            s.append(ui.input_buffer.as_str().substring_char(c, len));
            proof {
                assert(ui.input_buffer@.subrange(0, c as int) =~= ui.input_buffer@.take(c as int));
                assert(ui.input_buffer@.subrange(c as int, len as int) =~= ui.input_buffer@.skip(c as int));
            }
            ui.input_buffer = s;
            ui.cursor_pos = c + 1;
        },
        EditKey::Backspace => {
            if c > 0 {
                let mut s = String::from_str(ui.input_buffer.as_str().substring_char(0, c - 1));
                s.append(ui.input_buffer.as_str().substring_char(c, len));
                proof {
                    assert(ui.input_buffer@.subrange(0, c - 1) =~= ui.input_buffer@.take(c - 1));
                    assert(ui.input_buffer@.subrange(c as int, len as int) =~= ui.input_buffer@.skip(c as int));
                }
                ui.input_buffer = s;
                ui.cursor_pos = c - 1;
            }
        },
        EditKey::Delete => {
            if c < len {
                let mut s = String::from_str(ui.input_buffer.as_str().substring_char(0, c));
                s.append(ui.input_buffer.as_str().substring_char(c + 1, len));
                proof {
                    assert(ui.input_buffer@.subrange(0, c as int) =~= ui.input_buffer@.take(c as int));
                    assert(ui.input_buffer@.subrange(c + 1, len as int) =~= ui.input_buffer@.skip(c + 1));
                }
                ui.input_buffer = s;
            }
        },
        EditKey::Left => {
            if c > 0 {
                ui.cursor_pos = c - 1;
            }
        },
        EditKey::Right => {
            if c < len {
                ui.cursor_pos = c + 1;
            }
        },
        EditKey::Home => {
            ui.cursor_pos = 0;
        },
        EditKey::End => {
            ui.cursor_pos = len;
        },
        EditKey::Clear => {
            ui.input_buffer = String::new();
            ui.cursor_pos = 0;
        },
    }
}

} // verus!
