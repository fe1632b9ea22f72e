//! Browsing remote peers from the terminal UI: selecting a peer and a
//! zone, and choosing files by their listed number.
//!
//! Peers and files are numbered from 1 in the order last listed.

use vstd::prelude::*;
use crate::p2p::node::{PeerInfo, peers_view, PeerModel};
use crate::rs::{RsFileEntry, files_view, FileModel};
use crate::storage::metadata::{FileMetadata, MetaModel};
use crate::rs::strings_view;
use crate::text::{usize_value, parse_usize, decimal, push_decimal, concat_str, take_chars};
use crate::tui::output::{OutputLine, LineStyle, lines_view};

verus! {

/// A queued operation that the UI performs asynchronously.
#[derive(Debug, Clone, PartialEq, Eq)]
pub enum PendingOperation {
    /// Query zones from a peer.
    QueryZones { peer_index: usize },
    /// Query files from a peer's zone.
    QueryFiles { peer_index: usize, zone: String },
    /// Download a file from a peer to a local directory.
    DownloadFile { peer_index: usize, zone: String, file_name: String, save_path: String },
    /// Query zones from the selected peer.
    QuerySelectedZones,
    /// Query files from the selected peer's zone.
    QuerySelectedFiles,
    /// Refresh the RS list from peers.
    RsList,
    /// Query the RS sync status.
    RsSyncStatus { verbose: bool },
    /// Download an RS file to a local directory.
    RsDownload { file_name: String, save_path: String },
}

/// Remote connection state: the selected peer (by position) and zone, and
/// the last listings.
#[derive(Debug)]
pub struct RemoteConnection {
    pub peer_index: Option<usize>,
    pub zone: Option<String>,
    pub zones_cache: Vec<String>,
    pub files_cache: Vec<FileMetadata>,
}

/// The mathematical value of the remote connection state.
pub struct RemoteModel {
    pub peer_index: Option<usize>,
    pub zone: Option<Seq<char>>,
    pub zones: Seq<Seq<char>>,
    pub files: Seq<MetaModel>,
}

/// The view of an optional string.
pub open spec fn opt_str(s: Option<String>) -> Option<Seq<char>> {
    match s {
        Some(x) => Some(x@),
        None => None,
    }
}

impl View for RemoteConnection {
    type V = RemoteModel;

    open spec fn view(&self) -> RemoteModel {
        RemoteModel {
            peer_index: self.peer_index,
            zone: opt_str(self.zone),
            zones: strings_view(self.zones_cache@),
            files: self.files_cache@.map_values(|m: FileMetadata| m@),
        }
    }
}

impl RemoteConnection {
    /// Nothing selected, nothing listed.
    pub fn new() -> (r: Self)
        ensures
            r.peer_index is None,
            r.zone is None,
            r.zones_cache@.len() == 0,
            r.files_cache@.len() == 0,
            r@ == (RemoteModel { peer_index: None, zone: None, zones: Seq::empty(), files: Seq::empty() }),
    {
        let r = RemoteConnection { peer_index: None, zone: None, zones_cache: Vec::new(), files_cache: Vec::new() };
        assert(r@.zones =~= Seq::<Seq<char>>::empty());
        assert(r@.files =~= Seq::<MetaModel>::empty());
        r
    }
}

/// The number typed for an item of a list of `len` items, as a position:
/// `None` when it is not a number from 1 to `len`.
pub open spec fn pick(arg: Seq<char>, len: nat) -> Option<nat> {
    match usize_value(arg) {
        Some(n) => if 1 <= n && n <= len {
            Some((n - 1) as nat)
        } else {
            None
        },
        None => None,
    }
}

/// The position a typed number picks in a list of `len` items.
pub fn pick_index(arg: &str, len: usize) -> (r: Option<usize>)
    ensures
        match pick(arg@, len as nat) {
            Some(i) => r == Some(i as usize),
            None => r is None,
        },
{
    match parse_usize(arg) {
        Some(n) => {
            if 1 <= n && n <= len {
                Some(n - 1)
            } else {
                None
            }
        },
        None => None,
    }
}

/// The text `prefix` followed by a number.
pub open spec fn num_line(prefix: Seq<char>, n: nat) -> Seq<char> {
    prefix + decimal(n)
}

fn numbered(prefix: &str, n: usize) -> (r: String)
    ensures
        r@ == num_line(prefix@, n as nat),
{
    let mut s = String::from_str(prefix);
    push_decimal(&mut s, n as u64);
    s
}

/// The message for a number out of the peers' range.
pub open spec fn invalid_peer_text(len: nat) -> Seq<char> {
    num_line("Invalid peer number. Use 1-"@, len)
}

/// The short form of a peer id shown in listings: its first twelve
/// characters.
pub open spec fn short_id(id: Seq<char>) -> Seq<char> {
    if id.len() <= 12 {
        id
    } else {
        id.take(12)
    }
}

/// The message when the network is not running.
pub open spec fn not_started() -> Seq<char> {
    "P2P network not started."@
}

/// `remote <n>`: selects peer `n` (clearing the zone and the file list)
/// and queues a query of its zones.
/// What `remote <n>` does: with the network up and peer `n` listed, it
/// selects that peer (forgetting the zone and the file listing) and queues
/// a zone query; otherwise it reports why not and changes nothing.
pub open spec fn query_outcome(
    p2p: bool,
    peers_len: nat,
    o: RemoteModel,
    n: RemoteModel,
    arg: Seq<char>,
    op: Option<PendingOperation>,
    l: (Seq<char>, LineStyle),
) -> bool {
    if !p2p {
        op is None && l == (not_started(), LineStyle::Error) && n == o
    } else if peers_len == 0 {
        op is None && l == ("No peers available. Run 'peers' to see discovered peers."@, LineStyle::Error) && n == o
    } else {
        match pick(arg, peers_len) {
            Some(i) => {
                &&& op == Some(PendingOperation::QueryZones { peer_index: i as usize })
                &&& n == RemoteModel { peer_index: Some(i as usize), zone: None, files: Seq::empty(), ..o }
                &&& l == ("Querying remote zones..."@, LineStyle::Info)
            },
            None => op is None && l == (invalid_peer_text(peers_len), LineStyle::Error) && n == o,
        }
    }
}

pub fn remote_query(
    p2p: bool,
    peers_len: usize,
    remote: &mut RemoteConnection,
    arg: &str,
) -> (r: (Option<PendingOperation>, OutputLine))
    ensures
        query_outcome(p2p, peers_len as nat, old(remote)@, final(remote)@, arg@, r.0, line_of(r.1)),
{
    if !p2p {
        return (None, OutputLine::error(String::from_str("P2P network not started.")));
    }
    if peers_len == 0 {
        return (None, OutputLine::error(String::from_str("No peers available. Run 'peers' to see discovered peers.")));
    }
    match pick_index(arg, peers_len) {
        Some(i) => {
            remote.peer_index = Some(i);
            remote.zone = None;
            remote.files_cache = Vec::new();
            assert(remote@.files =~= Seq::<MetaModel>::empty());
            (Some(PendingOperation::QueryZones { peer_index: i }), OutputLine::info(
                String::from_str("Querying remote zones..."),
            ))
        },
        None => (None, OutputLine::error(numbered("Invalid peer number. Use 1-", peers_len))),
    }
}

/// The text and style of a line.
pub open spec fn line_of(l: OutputLine) -> (Seq<char>, LineStyle) {
    (l.content@, l.style)
}

/// `ruse <arg>`: a number selects that peer (clearing zone and listings);
/// anything else selects a zone of the selected peer.
/// What `ruse <arg>` does: a number selects that listed peer (forgetting
/// the zone and both listings); any other word selects that zone of the
/// selected peer (forgetting the file listing).
pub open spec fn ruse_outcome(
    p2p: bool,
    peers: Seq<PeerModel>,
    o: RemoteModel,
    n: RemoteModel,
    arg: Seq<char>,
    lines: Seq<(Seq<char>, LineStyle)>,
) -> bool {
    if !p2p {
        lines == seq![(not_started(), LineStyle::Error)] && n == o
    } else if usize_value(arg) is Some {
        match pick(arg, peers.len()) {
            Some(i) => {
                &&& n == RemoteModel { peer_index: Some(i as usize), zone: None, zones: Seq::empty(), files: Seq::empty() }
                &&& lines == seq![
                    ("✓ Connected to peer ["@ + decimal(i + 1) + "] "@ + short_id(peers[i as int].peer_id), LineStyle::Success),
                    ("Use 'rarea' to see zones."@, LineStyle::Info),
                ]
            },
            None => lines == seq![(invalid_peer_text(peers.len()), LineStyle::Error)] && n == o,
        }
    } else if o.peer_index is None {
        lines == seq![("No peer selected. Use 'ruse <n>' first to select a peer."@, LineStyle::Error)] && n == o
    } else {
        &&& n == RemoteModel { zone: Some(arg), files: Seq::empty(), ..o }
        &&& lines == seq![("✓ Selected zone: "@ + arg, LineStyle::Success), ("Use 'rlist' to see files."@, LineStyle::Info)]
    }
}

pub fn ruse(p2p: bool, peers: &Vec<PeerInfo>, remote: &mut RemoteConnection, arg: &str) -> (r: Vec<OutputLine>)
    ensures
        ruse_outcome(p2p, peers_view(peers@), old(remote)@, final(remote)@, arg@, lines_view(r@)),
{
    let mut out: Vec<OutputLine> = Vec::new();
    if !p2p {
        out.push(OutputLine::error(String::from_str("P2P network not started.")));
        assert(lines_view(out@) =~= seq![(not_started(), LineStyle::Error)]);
        return out;
    }
    match parse_usize(arg) {
        Some(n) => {
            let len = peers.len();
            if 1 <= n && n <= len {
                let i = n - 1;
                remote.peer_index = Some(i);
                remote.zone = None;
                remote.zones_cache = Vec::new();
                remote.files_cache = Vec::new();
                assert(remote@.files =~= Seq::<MetaModel>::empty());
                assert(remote@.zones =~= Seq::<Seq<char>>::empty());
                let short = take_chars(peers[i].peer_id.as_str(), 12);
                let mut m = numbered("✓ Connected to peer [", n);
                m.append("] ");
                m.append(short.as_str());
                out.push(OutputLine::success(m));
                out.push(OutputLine::info(String::from_str("Use 'rarea' to see zones.")));
                assert(lines_view(out@) =~= seq![
                    ("✓ Connected to peer ["@ + decimal((i + 1) as nat) + "] "@ + short_id(peers@[i as int].peer_id@), LineStyle::Success),
                    ("Use 'rarea' to see zones."@, LineStyle::Info),
                ]);
            } else {
                out.push(OutputLine::error(numbered("Invalid peer number. Use 1-", len)));
                assert(lines_view(out@) =~= seq![(invalid_peer_text(peers@.len()), LineStyle::Error)]);
            }
            out
        },
        None => {
            if remote.peer_index.is_none() {
                out.push(OutputLine::error(String::from_str("No peer selected. Use 'ruse <n>' first to select a peer.")));
                assert(lines_view(out@) =~= seq![
                    ("No peer selected. Use 'ruse <n>' first to select a peer."@, LineStyle::Error),
                ]);
                return out;
            }
            remote.zone = Some(String::from_str(arg));
            remote.files_cache = Vec::new();
            assert(remote@.files =~= Seq::<MetaModel>::empty());
            out.push(OutputLine::success(concat_str("✓ Selected zone: ", arg)));
            out.push(OutputLine::info(String::from_str("Use 'rlist' to see files.")));
            assert(lines_view(out@) =~= seq![
                ("✓ Selected zone: "@ + arg@, LineStyle::Success),
                ("Use 'rlist' to see files."@, LineStyle::Info),
            ]);
            out
        },
    }
}

/// `rarea`: queues a zone query of the selected peer.
pub fn rarea(p2p: bool, remote: &RemoteConnection) -> (r: (Option<PendingOperation>, OutputLine))
    ensures
        !p2p ==> r.0 is None && line_of(r.1) == (not_started(), LineStyle::Error),
        p2p && remote.peer_index is None ==> r.0 is None && line_of(r.1) == (
            "No peer selected. Use 'ruse <n>' first."@,
            LineStyle::Error,
        ),
        p2p && remote.peer_index is Some ==> r.0 == Some(PendingOperation::QuerySelectedZones) && line_of(r.1) == (
            "Querying zones..."@,
            LineStyle::Info,
        ),
{
    if !p2p {
        return (None, OutputLine::error(String::from_str("P2P network not started.")));
    }
    if remote.peer_index.is_none() {
        return (None, OutputLine::error(String::from_str("No peer selected. Use 'ruse <n>' first.")));
    }
    (Some(PendingOperation::QuerySelectedZones), OutputLine::info(String::from_str("Querying zones...")))
}

/// `rlist`: queues a file listing of the selected zone.
pub fn rlist(p2p: bool, remote: &RemoteConnection) -> (r: (Option<PendingOperation>, OutputLine))
    ensures
        !p2p ==> r.0 is None && line_of(r.1) == (not_started(), LineStyle::Error),
        p2p && remote.peer_index is None ==> r.0 is None && line_of(r.1) == (
            "No peer selected. Use 'ruse <n>' first."@,
            LineStyle::Error,
        ),
        p2p && remote.peer_index is Some && remote.zone is None ==> r.0 is None && line_of(r.1) == (
            "No zone selected. Use 'ruse <zone>' or 'rlist <zone>'."@,
            LineStyle::Error,
        ),
        p2p && remote.peer_index is Some && remote.zone is Some ==> r.0 == Some(PendingOperation::QuerySelectedFiles)
            && line_of(r.1) == ("Listing files..."@, LineStyle::Info),
{
    if !p2p {
        return (None, OutputLine::error(String::from_str("P2P network not started.")));
    }
    if remote.peer_index.is_none() {
        return (None, OutputLine::error(String::from_str("No peer selected. Use 'ruse <n>' first.")));
    }
    if remote.zone.is_none() {
        return (None, OutputLine::error(String::from_str("No zone selected. Use 'ruse <zone>' or 'rlist <zone>'.")));
    }
    (Some(PendingOperation::QuerySelectedFiles), OutputLine::info(String::from_str("Listing files...")))
}

/// `rget <n>`: the file numbered `n` of the last listing, with the peer and
/// zone it comes from (a save location is then chosen), or the error
/// lines.
pub fn rget(p2p: bool, remote: &RemoteConnection, arg: &str) -> (r: Result<(usize, String, String), Vec<OutputLine>>)
    ensures
        match r {
            Ok((p, z, f)) => {
                &&& p2p
                &&& remote.peer_index == Some(p)
                &&& remote.zone matches Some(rz) && rz@ == z@
                &&& pick(arg@, remote.files_cache@.len()) matches Some(i) && f@ == remote.files_cache@[i as int].name@
            },
            Err(lines) => lines_view(lines@) == if !p2p {
                seq![(not_started(), LineStyle::Error)]
            } else if remote.peer_index is None {
                seq![("No peer selected. Use 'ruse <n>' first."@, LineStyle::Error)]
            } else if remote.zone is None {
                seq![("No zone selected. Use 'ruse <zone>' first."@, LineStyle::Error)]
            } else if remote.files_cache@.len() == 0 {
                seq![("No files cached. Use 'rlist' first."@, LineStyle::Error)]
            } else {
                seq![(num_line("Invalid file number. Use 1-"@, remote.files_cache@.len()), LineStyle::Error)]
            },
        },
        (p2p && remote.peer_index is Some && remote.zone is Some && pick(arg@, remote.files_cache@.len()) is Some)
            ==> r is Ok,
{
    let mut out: Vec<OutputLine> = Vec::new();
    if !p2p {
        out.push(OutputLine::error(String::from_str("P2P network not started.")));
        assert(lines_view(out@) =~= seq![(not_started(), LineStyle::Error)]);
        return Err(out);
    }
    let p = match remote.peer_index {
        Some(p) => p,
        None => {
            out.push(OutputLine::error(String::from_str("No peer selected. Use 'ruse <n>' first.")));
            assert(lines_view(out@) =~= seq![("No peer selected. Use 'ruse <n>' first."@, LineStyle::Error)]);
            return Err(out);
        },
    };
    let z = match &remote.zone {
        Some(z) => z.clone(),
        None => {
            out.push(OutputLine::error(String::from_str("No zone selected. Use 'ruse <zone>' first.")));
            assert(lines_view(out@) =~= seq![("No zone selected. Use 'ruse <zone>' first."@, LineStyle::Error)]);
            return Err(out);
        },
    };
    let len = remote.files_cache.len();
    if len == 0 {
        out.push(OutputLine::error(String::from_str("No files cached. Use 'rlist' first.")));
        assert(lines_view(out@) =~= seq![("No files cached. Use 'rlist' first."@, LineStyle::Error)]);
        return Err(out);
    }
    match pick_index(arg, len) {
        Some(i) => Ok((p, z, remote.files_cache[i].name.clone())),
        None => {
            out.push(OutputLine::error(numbered("Invalid file number. Use 1-", len)));
            assert(lines_view(out@) =~= seq![(num_line("Invalid file number. Use 1-"@, remote.files_cache@.len()), LineStyle::Error)]);
            Err(out)
        },
    }
}

/// The message for an RS file number out of range.
pub open spec fn invalid_rs_number() -> Seq<char> {
    "Invalid RS file number. Use 'rslist' first."@
}

/// The RS file an argument names: a number picks from the last RS listing
/// (1-based), anything else is the file name itself.
pub fn resolve_rs_arg(arg: &str, listed: &Vec<RsFileEntry>) -> (r: Result<String, OutputLine>)
    ensures
        match usize_value(arg@) {
            Some(n) => if 1 <= n && n <= listed@.len() {
                r matches Ok(name) && name@ == listed@[n - 1].name@
            } else {
                r matches Err(l) && line_of(l) == (invalid_rs_number(), LineStyle::Error)
            },
            None => r matches Ok(name) && name@ == arg@,
        },
{
    match parse_usize(arg) {
        Some(n) => {
            if n == 0 || n > listed.len() {
                return Err(OutputLine::error(String::from_str("Invalid RS file number. Use 'rslist' first.")));
            }
            Ok(listed[n - 1].name.clone())
        },
        None => Ok(String::from_str(arg)),
    }
}

} // verus!
