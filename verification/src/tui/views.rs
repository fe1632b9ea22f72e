//! The listings the terminal UI prints: zones, peers, the remote selection,
//! remote zones and the shared files, and the counts behind the RS
//! statistics.

use vstd::prelude::*;
use crate::error::{AppError, error_text};
use crate::p2p::node::{PeerInfo, PeerModel, peers_view};
use crate::rs::{RsFileEntry, RsStore, FileModel, BlockModel, files_view};
use crate::text::{decimal, push_decimal, push_char, concat_str};
use crate::tui::output::{OutputLine, LineStyle, lines_view, line};
use crate::tui::remote::{RemoteConnection, RemoteModel, short_id};

verus! {

/// A rule of `n` box-drawing characters.
pub open spec fn rule(n: nat) -> Seq<char> {
    Seq::new(n, |i: int| '─')
}

/// `s` padded with spaces on the right to `w` characters.
pub open spec fn pad_right(s: Seq<char>, w: nat) -> Seq<char> {
    if s.len() >= w {
        s
    } else {
        s + Seq::new((w - s.len()) as nat, |i: int| ' ')
    }
}

fn push_repeated(s: &mut String, c: char, n: usize)
    ensures
        final(s)@ == old(s)@ + Seq::new(n as nat, |i: int| c),
{
    let mut k: usize = 0;
    while k < n
        invariant
            k <= n,
            s@ =~= old(s)@ + Seq::new(k as nat, |i: int| c),
        decreases n - k,
    {
        push_char(s, c);
        k = k + 1;
    }
}

pub(crate) fn rule_text(n: usize) -> (r: String)
    ensures
        r@ == rule(n as nat),
{
    let mut s = String::new();
    push_repeated(&mut s, '─', n);
    assert(s@ =~= rule(n as nat));
    s
}

fn padded(s: &str, w: usize) -> (r: String)
    ensures
        r@ == pad_right(s@, w as nat),
{
    let mut out = String::from_str(s);
    let len = s.unicode_len();
    if len < w {
        push_repeated(&mut out, ' ', w - len);
    }
    out
}

pub(crate) fn num_text(prefix: &str, n: u64, suffix: &str) -> (r: String)
    ensures
        r@ == prefix@ + decimal(n as nat) + suffix@,
{
    let mut s = String::from_str(prefix);
    push_decimal(&mut s, n);
    s.append(suffix);
    s
}

/// The label of the current zone: `rs` in RS mode, else the active zone.
pub open spec fn zone_label(rs_mode: bool, active: Option<Seq<char>>) -> Option<Seq<char>> {
    if rs_mode {
        Some("rs"@)
    } else {
        active
    }
}

/// The label shown for the current zone.
pub fn current_zone_name<'a>(rs_mode: bool, active: Option<&'a str>) -> (r: Option<&'a str>)
    ensures
        match r {
            Some(s) => zone_label(rs_mode, match active {
                Some(a) => Some(a@),
                None => None,
            }) == Some(s@),
            None => zone_label(rs_mode, match active {
                Some(a) => Some(a@),
                None => None,
            }) is None,
        },
{
    if rs_mode {
        proof {
            reveal_strlit("rs");
        }
        Some("rs")
    } else {
        active
    }
}

/// The echo of a typed command: the prompt (the zone label and `> `) and
/// the input.
pub open spec fn echo_text(label: Option<Seq<char>>, input: Seq<char>) -> Seq<char> {
    match label {
        Some(n) => n + "> "@ + input,
        None => "> "@ + input,
    }
}

/// The echo line printed before a command runs.
pub fn echo_line(rs_mode: bool, active: Option<&str>, input: &str) -> (r: OutputLine)
    ensures
        line(r) == (
            echo_text(
                zone_label(rs_mode, match active {
                    Some(a) => Some(a@),
                    None => None,
                }),
                input@,
            ),
            LineStyle::Info,
        ),
{
    let s = match current_zone_name(rs_mode, active) {
        Some(n) => {
            let p = concat_str(n, "> ");
            p.concat(input)
        },
        None => concat_str("> ", input),
    };
    OutputLine::info(s)
}

/// The line reporting a failed command: `Error: ` and the error's text.
pub fn error_line(e: &AppError) -> (r: OutputLine)
    ensures
        line(r) == ("Error: "@ + error_text(*e), LineStyle::Error),
{
    let m = e.message();
    OutputLine::error(concat_str("Error: ", m.as_str()))
}

/// The row of a zone in `list area`: the name padded to twenty characters,
/// then a dot when it is the active zone.
pub open spec fn zone_row(z: Seq<char>, active: Option<Seq<char>>) -> Seq<char> {
    pad_right(z, 20) + if active == Some(z) {
        "  ●"@
    } else {
        ""@
    }
}

/// The lines of `list area`.
pub open spec fn zone_table_spec(zones: Seq<Seq<char>>, active: Option<Seq<char>>) -> Seq<(Seq<char>, LineStyle)> {
    if zones.len() == 0 {
        seq![("No zones exist. Use 'create <name>' to create one."@, LineStyle::Info)]
    } else {
        seq![(""@, LineStyle::Header), ("ZONE NAME           ACTIVE"@, LineStyle::Header), (rule(40), LineStyle::Header)]
            + zones.map_values(|z: Seq<char>| (zone_row(z, active), LineStyle::Normal)) + seq![
            (""@, LineStyle::Normal),
        ]
    }
}

/// The views of a list of names.
pub open spec fn strs_view(v: Seq<&str>) -> Seq<Seq<char>> {
    v.map_values(|s: &str| s@)
}

/// `list area`: every zone, the active one marked.
pub fn zone_table(zones: &Vec<&str>, active: Option<&str>) -> (r: Vec<OutputLine>)
    ensures
        lines_view(r@) == zone_table_spec(strs_view(zones@), match active {
            Some(a) => Some(a@),
            None => None,
        }),
{
    let ghost act = match active {
        Some(a) => Some(a@),
        None => None::<Seq<char>>,
    };
    let ghost zv = strs_view(zones@);
    proof {
        reveal_strlit("");
    }
    let mut out: Vec<OutputLine> = Vec::new();
    if zones.len() == 0 {
        out.push(OutputLine::info(String::from_str("No zones exist. Use 'create <name>' to create one.")));
        assert(lines_view(out@) =~= zone_table_spec(zv, act));
        return out;
    }
    out.push(OutputLine::header(String::new()));
    out.push(OutputLine::header(String::from_str("ZONE NAME           ACTIVE")));
    out.push(OutputLine::header(rule_text(40)));
    let ghost head = lines_view(out@);
    assert(""@ =~= Seq::<char>::empty());
    assert(head[0] == (""@, LineStyle::Header));
    assert(head[1] == ("ZONE NAME           ACTIVE"@, LineStyle::Header));
    assert(head[2] == (rule(40), LineStyle::Header));
    assert(head =~= seq![(""@, LineStyle::Header), ("ZONE NAME           ACTIVE"@, LineStyle::Header), (rule(40), LineStyle::Header)]);
    let mut i: usize = 0;
    while i < zones.len()
        invariant
            zv == strs_view(zones@),
            i <= zones@.len(),
            lines_view(out@) == head + zv.take(i as int).map_values(|z: Seq<char>| (zone_row(z, act), LineStyle::Normal)),
            act == match active {
                Some(a) => Some(a@),
                None => None::<Seq<char>>,
            },
        decreases zones@.len() - i,
    {
        let z: &str = zones[i];
        let mut row = padded(z, 20);
        let is_active = match active {
            Some(a) => crate::text::str_eq(a, z),
            None => false,
        };
        if is_active {
            row.append("  ●");
        } else {
            proof {
                reveal_strlit("");
            }
            assert(row@ =~= pad_right(z@, 20) + ""@);
        }
        let ghost prev = out@;
        assert(row@ == zone_row(z@, act));
        out.push(OutputLine::normal(row));
        proof {
            assert(zv[i as int] == z@);
            assert(zv.take(i + 1) =~= zv.take(i as int).push(z@));
            assert(lines_view(out@) =~= lines_view(prev).push((zone_row(z@, act), LineStyle::Normal)));
        }
        i = i + 1;
    }
    out.push(OutputLine::normal(String::new()));
    assert(zv.take(zv.len() as int) =~= zv);
    assert(lines_view(out@) =~= zone_table_spec(zv, act));
    out
}

/// The address shown for a peer: its first, or `unknown`.
pub open spec fn shown_addr(p: PeerModel) -> Seq<char> {
    if p.addrs.len() > 0 {
        p.addrs[0]
    } else {
        "unknown"@
    }
}

/// The row of the `i`-th peer (from zero) in a peer listing.
pub open spec fn peer_row(i: nat, p: PeerModel) -> Seq<char> {
    "  ["@ + decimal(i + 1) + "] "@ + short_id(p.peer_id) + " - "@ + shown_addr(p)
}

/// A numbered peer listing under a title.
pub open spec fn peer_table(title: Seq<char>, peers: Seq<PeerModel>) -> Seq<(Seq<char>, LineStyle)> {
    seq![
        (""@, LineStyle::Header),
        (title + " ("@ + decimal(peers.len()) + ")"@, LineStyle::Header),
        (rule(60), LineStyle::Header),
    ] + Seq::new(peers.len(), |i: int| (peer_row(i as nat, peers[i]), LineStyle::Normal)) + seq![
        (""@, LineStyle::Normal),
    ]
}

fn peer_rows(title: &str, peers: &Vec<PeerInfo>) -> (r: Vec<OutputLine>)
    ensures
        lines_view(r@) == peer_table(title@, peers_view(peers@)),
{
    let ghost pv = peers_view(peers@);
    proof {
        reveal_strlit("");
    }
    let mut out: Vec<OutputLine> = Vec::new();
    out.push(OutputLine::header(String::new()));
    out.push(OutputLine::header(num_text(concat_str(title, " (").as_str(), peers.len() as u64, ")")));
    out.push(OutputLine::header(rule_text(60)));
    let ghost head = lines_view(out@);
    assert(""@ =~= Seq::<char>::empty());
    assert(head[0] == (""@, LineStyle::Header));
    assert(head[1] == (title@ + " ("@ + decimal(pv.len()) + ")"@, LineStyle::Header));
    assert(head[2] == (rule(60), LineStyle::Header));
    assert(head =~= seq![
        (""@, LineStyle::Header),
        (title@ + " ("@ + decimal(pv.len()) + ")"@, LineStyle::Header),
        (rule(60), LineStyle::Header),
    ]);
    let mut i: usize = 0;
    while i < peers.len()
        invariant
            pv == peers_view(peers@),
            i <= peers@.len(),
            lines_view(out@) == head + Seq::new(i as nat, |k: int| (peer_row(k as nat, pv[k]), LineStyle::Normal)),
        decreases peers@.len() - i,
    {
        let p = &peers[i];
        let mut row = num_text("  [", (i + 1) as u64, "] ");
        let short = crate::text::take_chars(p.peer_id.as_str(), 12);
        row.append(short.as_str());
        row.append(" - ");
        if p.addrs.len() > 0 {
            row.append(p.addrs[0].as_str());
        } else {
            row.append("unknown");
        }
        let ghost prev = out@;
        proof {
            assert(pv[i as int] == p@);
            assert(p@.addrs.len() > 0 ==> p@.addrs[0] == p.addrs@[0]@);
            assert(row@ == peer_row(i as nat, pv[i as int]));
        }
        out.push(OutputLine::normal(row));
        proof {
            assert(lines_view(out@) =~= lines_view(prev).push((peer_row(i as nat, pv[i as int]), LineStyle::Normal)));
            assert(lines_view(out@) =~= head + Seq::new((i + 1) as nat, |k: int| (peer_row(k as nat, pv[k]), LineStyle::Normal)));
        }
        i = i + 1;
    }
    out.push(OutputLine::normal(String::new()));
    assert(lines_view(out@) =~= peer_table(title@, pv));
    out
}

/// The text shown when the network is not running.
pub open spec fn no_network() -> Seq<char> {
    "P2P network not started."@
}

/// The lines of `peers`.
pub open spec fn peers_listing_spec(p2p: bool, peers: Seq<PeerModel>) -> Seq<(Seq<char>, LineStyle)> {
    if !p2p {
        seq![(no_network(), LineStyle::Error)]
    } else if peers.len() == 0 {
        seq![
            ("No peers discovered on LAN yet."@, LineStyle::Info),
            ("Make sure other rxiu instances are running on your network."@, LineStyle::Info),
            (""@, LineStyle::Info),
            ("Peers are discovered automatically via mDNS."@, LineStyle::Info),
        ]
    } else {
        peer_table("LAN PEERS"@, peers)
    }
}

/// `peers`: the discovered peers, numbered.
pub fn peers_listing(p2p: bool, peers: &Vec<PeerInfo>) -> (r: Vec<OutputLine>)
    ensures
        lines_view(r@) == peers_listing_spec(p2p, peers_view(peers@)),
{
    proof {
        reveal_strlit("");
    }
    if !p2p {
        let out = vec![OutputLine::error(String::from_str("P2P network not started."))];
        assert(lines_view(out@) =~= peers_listing_spec(p2p, peers_view(peers@)));
        return out;
    }
    if peers.len() == 0 {
        let out = vec![
            OutputLine::info(String::from_str("No peers discovered on LAN yet.")),
            OutputLine::info(String::from_str("Make sure other rxiu instances are running on your network.")),
            OutputLine::info(String::new()),
            OutputLine::info(String::from_str("Peers are discovered automatically via mDNS.")),
        ];
        assert(""@ =~= Seq::<char>::empty());
        assert(lines_view(out@)[2] == (""@, LineStyle::Info));
        assert(lines_view(out@) =~= peers_listing_spec(p2p, peers_view(peers@)));
        return out;
    }
    peer_rows("LAN PEERS", peers)
}

/// The lines of `rspeers` (which also asks the network to refresh).
pub open spec fn rs_peers_spec(p2p: bool, peers: Seq<PeerModel>) -> Seq<(Seq<char>, LineStyle)> {
    if !p2p {
        seq![(no_network(), LineStyle::Error)]
    } else if peers.len() == 0 {
        seq![
            ("Refreshing LAN peers..."@, LineStyle::Info),
            ("No peers discovered on LAN yet. Please wait and try again."@, LineStyle::Info),
        ]
    } else {
        seq![("Refreshing LAN peers..."@, LineStyle::Info)] + peer_table("RS PEERS"@, peers)
    }
}

/// `rspeers`: the peers known now (a refresh runs meanwhile).
pub fn rs_peers_listing(p2p: bool, peers: &Vec<PeerInfo>) -> (r: Vec<OutputLine>)
    ensures
        lines_view(r@) == rs_peers_spec(p2p, peers_view(peers@)),
{
    if !p2p {
        let out = vec![OutputLine::error(String::from_str("P2P network not started."))];
        assert(lines_view(out@) =~= rs_peers_spec(p2p, peers_view(peers@)));
        return out;
    }
    let mut out = vec![OutputLine::info(String::from_str("Refreshing LAN peers..."))];
    if peers.len() == 0 {
        out.push(OutputLine::info(String::from_str("No peers discovered on LAN yet. Please wait and try again.")));
        assert(lines_view(out@) =~= rs_peers_spec(p2p, peers_view(peers@)));
        return out;
    }
    let rows = peer_rows("RS PEERS", peers);
    let ghost first = lines_view(out@);
    let mut rows = rows;
    out.append(&mut rows);
    assert(lines_view(out@) =~= rs_peers_spec(p2p, peers_view(peers@)));
    out
}

/// The lines of `ruse` without an argument: the current selection.
pub open spec fn remote_status_spec(remote: RemoteModel, peers: Seq<PeerModel>) -> Seq<(Seq<char>, LineStyle)> {
    seq![
        (""@, LineStyle::Header),
        ("REMOTE CONNECTION STATUS"@, LineStyle::Header),
        (rule(50), LineStyle::Header),
        (match remote.peer_index {
            Some(idx) => if idx < peers.len() {
                "  Peer: ["@ + decimal((idx + 1) as nat) + "] "@ + short_id(peers[idx as int].peer_id)
            } else {
                "  Peer: (none)"@
            },
            None => "  Peer: (none)"@,
        }, LineStyle::Normal),
        (match remote.zone {
            Some(z) => "  Zone: "@ + z,
            None => "  Zone: (none)"@,
        }, LineStyle::Normal),
        ("  Cached files: "@ + decimal(remote.files.len()), LineStyle::Normal),
        (""@, LineStyle::Normal),
        ("Commands: ruse <n>, rarea, rlist, rget <n>"@, LineStyle::Info),
    ]
}

/// `ruse` without an argument: the selected peer and zone and the number
/// of listed files.
pub fn remote_status(remote: &RemoteConnection, peers: &Vec<PeerInfo>) -> (r: Vec<OutputLine>)
    ensures
        lines_view(r@) == remote_status_spec(remote@, peers_view(peers@)),
{
    proof {
        reveal_strlit("");
    }
    let peer_text = match remote.peer_index {
        Some(idx) => {
            if idx < peers.len() {
                let mut s = num_text("  Peer: [", (idx + 1) as u64, "] ");
                let short = crate::text::take_chars(peers[idx].peer_id.as_str(), 12);
                s.append(short.as_str());
                s
            } else {
                String::from_str("  Peer: (none)")
            }
        },
        None => String::from_str("  Peer: (none)"),
    };
    let zone_text = match &remote.zone {
        Some(z) => concat_str("  Zone: ", z.as_str()),
        None => String::from_str("  Zone: (none)"),
    };
    let out = vec![
        OutputLine::header(String::new()),
        OutputLine::header(String::from_str("REMOTE CONNECTION STATUS")),
        OutputLine::header(rule_text(50)),
        OutputLine::normal(peer_text),
        OutputLine::normal(zone_text),
        OutputLine::normal(num_text("  Cached files: ", remote.files_cache.len() as u64, "")),
        OutputLine::normal(String::new()),
        OutputLine::info(String::from_str("Commands: ruse <n>, rarea, rlist, rget <n>")),
    ];
    proof {
        let spec = remote_status_spec(remote@, peers_view(peers@));
        let lv = lines_view(out@);
        assert(lv[0] == spec[0]);
        assert(lv[3] == spec[3]);
        assert(lv[4] == spec[4]);
        assert(("  Cached files: "@ + decimal(remote.files_cache@.len()) + ""@) =~= "  Cached files: "@ + decimal(
            remote.files_cache@.len(),
        ));
        assert(lv[5] == spec[5]);
        assert(lv[6] == spec[6]);
        assert(lv =~= spec);
    }
    out
}

/// The row of a zone in a remote zone listing.
pub open spec fn remote_zone_row(z: Seq<char>) -> (Seq<char>, LineStyle) {
    ("  📁 "@ + z, LineStyle::Normal)
}

/// A remote zone listing under a title, ending with a hint.
pub open spec fn zone_listing(title: Seq<char>, zones: Seq<Seq<char>>, hint: Seq<char>) -> Seq<(Seq<char>, LineStyle)> {
    seq![(""@, LineStyle::Header), (title, LineStyle::Header), (rule(50), LineStyle::Header)] + zones.map_values(
        |z: Seq<char>| remote_zone_row(z),
    ) + seq![(""@, LineStyle::Normal), (hint, LineStyle::Info)]
}

fn zone_rows(title: String, zones: &Vec<String>, hint: &str) -> (r: Vec<OutputLine>)
    ensures
        lines_view(r@) == zone_listing(title@, crate::rs::strings_view(zones@), hint@),
{
    proof {
        reveal_strlit("");
    }
    let ghost zv = crate::rs::strings_view(zones@);
    let ghost tv = title@;
    let mut out: Vec<OutputLine> = Vec::new();
    out.push(OutputLine::header(String::new()));
    out.push(OutputLine::header(title));
    out.push(OutputLine::header(rule_text(50)));
    let ghost head = lines_view(out@);
    assert(head[0] == (""@, LineStyle::Header));
    assert(head =~= seq![(""@, LineStyle::Header), (tv, LineStyle::Header), (rule(50), LineStyle::Header)]);
    let mut i: usize = 0;
    while i < zones.len()
        invariant
            zv == crate::rs::strings_view(zones@),
            i <= zones@.len(),
            lines_view(out@) == head + zv.take(i as int).map_values(|z: Seq<char>| remote_zone_row(z)),
        decreases zones@.len() - i,
    {
        let ghost prev = out@;
        out.push(OutputLine::normal(concat_str("  📁 ", zones[i].as_str())));
        proof {
            assert(zv.take(i + 1) =~= zv.take(i as int).push(zv[i as int]));
            assert(lines_view(out@) =~= lines_view(prev).push(remote_zone_row(zv[i as int])));
        }
        i = i + 1;
    }
    out.push(OutputLine::normal(String::new()));
    out.push(OutputLine::info(String::from_str(hint)));
    assert(zv.take(zv.len() as int) =~= zv);
    assert(lines_view(out@) =~= zone_listing(tv, zv, hint@));
    out
}

/// The zones a peer reported after `remote <n>`, under its short id.
pub open spec fn queried_zones_spec(peer_id: Seq<char>, zones: Seq<Seq<char>>) -> Seq<(Seq<char>, LineStyle)> {
    if zones.len() == 0 {
        seq![("Peer has no zones."@, LineStyle::Info)]
    } else {
        zone_listing(
            "REMOTE ZONES from "@ + short_id(peer_id),
            zones,
            "Use 'ruse <zone>' to select a zone, then 'rlist' to see files."@,
        )
    }
}

/// The listing of the zones a queried peer reported.
pub fn queried_zones(peer_id: &str, zones: &Vec<String>) -> (r: Vec<OutputLine>)
    ensures
        lines_view(r@) == queried_zones_spec(peer_id@, crate::rs::strings_view(zones@)),
{
    if zones.len() == 0 {
        let out = vec![OutputLine::info(String::from_str("Peer has no zones."))];
        assert(lines_view(out@) =~= queried_zones_spec(peer_id@, crate::rs::strings_view(zones@)));
        return out;
    }
    let short = crate::text::take_chars(peer_id, 12);
    let title = concat_str("REMOTE ZONES from ", short.as_str());
    zone_rows(title, zones, "Use 'ruse <zone>' to select a zone, then 'rlist' to see files.")
}

/// The zones the selected peer reported after `rarea`.
pub open spec fn selected_zones_spec(zones: Seq<Seq<char>>) -> Seq<(Seq<char>, LineStyle)> {
    if zones.len() == 0 {
        seq![("Remote peer has no zones."@, LineStyle::Info)]
    } else {
        zone_listing("REMOTE ZONES"@, zones, "Use 'ruse <zone>' to select a zone."@)
    }
}

/// The listing of the zones the selected peer reported.
pub fn selected_zones(zones: &Vec<String>) -> (r: Vec<OutputLine>)
    ensures
        lines_view(r@) == selected_zones_spec(crate::rs::strings_view(zones@)),
{
    if zones.len() == 0 {
        let out = vec![OutputLine::info(String::from_str("Remote peer has no zones."))];
        assert(lines_view(out@) =~= selected_zones_spec(crate::rs::strings_view(zones@)));
        return out;
    }
    zone_rows(String::from_str("REMOTE ZONES"), zones, "Use 'ruse <zone>' to select a zone.")
}

/// The row of the `i`-th shared file (from zero) in `rslist`.
pub open spec fn rs_file_row(i: nat, f: FileModel) -> Seq<char> {
    "  ["@ + decimal(i + 1) + "] 📦 "@ + f.name + " ("@ + decimal(f.size as nat) + " bytes, "@ + (if f.complete {
        "complete"@
    } else {
        "partial"@
    }) + ")"@
}

/// The lines of `rslist`.
pub open spec fn rs_files_spec(files: Seq<FileModel>) -> Seq<(Seq<char>, LineStyle)> {
    if files.len() == 0 {
        seq![("RS shared space is empty."@, LineStyle::Info)]
    } else {
        seq![
            (""@, LineStyle::Header),
            ("RS FILES ("@ + decimal(files.len()) + " files)"@, LineStyle::Header),
            (rule(50), LineStyle::Header),
        ] + Seq::new(files.len(), |i: int| (rs_file_row(i as nat, files[i]), LineStyle::Normal)) + seq![
            (""@, LineStyle::Normal),
            ("Use 'rsget <number>' or 'rsget <file_name>' to download."@, LineStyle::Info),
        ]
    }
}

/// `rslist`: the shared files, numbered, with their size and state.
pub fn rs_files_listing(files: &Vec<RsFileEntry>) -> (r: Vec<OutputLine>)
    ensures
        lines_view(r@) == rs_files_spec(files_view(files@)),
{
    proof {
        reveal_strlit("");
    }
    let ghost fv = files_view(files@);
    if files.len() == 0 {
        let out = vec![OutputLine::info(String::from_str("RS shared space is empty."))];
        assert(lines_view(out@) =~= rs_files_spec(fv));
        return out;
    }
    let mut out: Vec<OutputLine> = Vec::new();
    out.push(OutputLine::header(String::new()));
    out.push(OutputLine::header(num_text("RS FILES (", files.len() as u64, " files)")));
    out.push(OutputLine::header(rule_text(50)));
    let ghost head = lines_view(out@);
    assert(head[0] == (""@, LineStyle::Header));
    assert(head =~= seq![
        (""@, LineStyle::Header),
        ("RS FILES ("@ + decimal(fv.len()) + " files)"@, LineStyle::Header),
        (rule(50), LineStyle::Header),
    ]);
    let mut i: usize = 0;
    while i < files.len()
        invariant
            fv == files_view(files@),
            i <= files@.len(),
            lines_view(out@) == head + Seq::new(i as nat, |k: int| (rs_file_row(k as nat, fv[k]), LineStyle::Normal)),
        decreases files@.len() - i,
    {
        let f = &files[i];
        let mut row = num_text("  [", (i + 1) as u64, "] 📦 ");
        row.append(f.name.as_str());
        let tail = num_text(" (", f.size, " bytes, ");
        row.append(tail.as_str());
        if f.complete {
            row.append("complete");
        } else {
            row.append("partial");
        }
        row.append(")");
        let ghost prev = out@;
        proof {
            assert(fv[i as int] == f@);
            assert(row@ =~= rs_file_row(i as nat, fv[i as int]));
        }
        out.push(OutputLine::normal(row));
        proof {
            assert(lines_view(out@) =~= lines_view(prev).push((rs_file_row(i as nat, fv[i as int]), LineStyle::Normal)));
            assert(lines_view(out@) =~= head + Seq::new((i + 1) as nat, |k: int| (rs_file_row(k as nat, fv[k]), LineStyle::Normal)));
        }
        i = i + 1;
    }
    out.push(OutputLine::normal(String::new()));
    out.push(OutputLine::info(String::from_str("Use 'rsget <number>' or 'rsget <file_name>' to download.")));
    assert(lines_view(out@) =~= rs_files_spec(fv));
    out
}

/// The number of complete files.
pub open spec fn complete_count(files: Seq<FileModel>) -> nat
    decreases files.len(),
{
    if files.len() == 0 {
        0
    } else {
        complete_count(files.drop_last()) + if files.last().complete {
            1nat
        } else {
            0nat
        }
    }
}

/// The number of blocks listed over all files.
pub open spec fn block_total(files: Seq<FileModel>) -> nat
    decreases files.len(),
{
    if files.len() == 0 {
        0
    } else {
        block_total(files.drop_last()) + files.last().blocks.len()
    }
}

proof fn lemma_counts_prefix(files: Seq<FileModel>, i: int)
    requires
        0 <= i <= files.len(),
    ensures
        complete_count(files.take(i)) <= i,
        block_total(files.take(i)) <= block_total(files),
    decreases files.len() - i,
{
    if i < files.len() {
        lemma_counts_prefix(files, i + 1);
        assert(files.take(i + 1).drop_last() =~= files.take(i));
    } else {
        assert(files.take(i) =~= files);
    }
    if i > 0 {
        assert(files.take(i).drop_last() =~= files.take(i - 1));
        lemma_complete_le(files.take(i));
    }
}

proof fn lemma_complete_le(files: Seq<FileModel>)
    ensures
        complete_count(files) <= files.len(),
    decreases files.len(),
{
    if files.len() > 0 {
        lemma_complete_le(files.drop_last());
    }
}

/// The counts of `rsstats`: files, complete files, partial files and
/// blocks listed in the metadata.
pub fn rs_stats_counts(files: &Vec<RsFileEntry>) -> (r: (usize, usize, usize, usize))
    requires
        block_total(files_view(files@)) <= usize::MAX,
    ensures
        r.0 == files@.len(),
        r.1 == complete_count(files_view(files@)),
        r.2 == files@.len() - complete_count(files_view(files@)),
        r.3 == block_total(files_view(files@)),
{
    let ghost fv = files_view(files@);
    let mut complete: usize = 0;
    let mut blocks: usize = 0;
    let mut i: usize = 0;
    while i < files.len()
        invariant
            fv == files_view(files@),
            i <= files@.len(),
            block_total(fv) <= usize::MAX,
            complete == complete_count(fv.take(i as int)),
            blocks == block_total(fv.take(i as int)),
        decreases files@.len() - i,
    {
        proof {
            assert(fv.take(i + 1).drop_last() =~= fv.take(i as int));
            lemma_counts_prefix(fv, i + 1);
            assert(fv.take(i + 1).last() == files@[i as int]@);
        }
        if files[i].complete {
            complete = complete + 1;
        }
        blocks = blocks + files[i].blocks.len();
        i = i + 1;
    }
    assert(fv.take(fv.len() as int) =~= fv);
    proof {
        lemma_complete_le(fv);
    }
    (files.len(), complete, files.len() - complete, blocks)
}

/// The number of an entry's blocks present locally.
pub open spec fn held_count(blocks: Seq<BlockModel>, local: Seq<Seq<char>>) -> nat
    decreases blocks.len(),
{
    if blocks.len() == 0 {
        0
    } else {
        held_count(blocks.drop_last(), local) + if local.contains(blocks.last().hash) {
            1nat
        } else {
            0nat
        }
    }
}

proof fn lemma_held_le(blocks: Seq<BlockModel>, local: Seq<Seq<char>>)
    ensures
        held_count(blocks, local) <= blocks.len(),
    decreases blocks.len(),
{
    if blocks.len() > 0 {
        lemma_held_le(blocks.drop_last(), local);
    }
}

/// The counts of `rshave`: how many of the entry's blocks are present
/// locally, and their bytes.
pub fn rs_have_counts(store: &RsStore, entry: &RsFileEntry) -> (r: (usize, u64))
    requires
        crate::rs::total_bytes(entry@.blocks) <= u64::MAX,
    ensures
        r.0 == held_count(entry@.blocks, store@.blocks),
        r.1 == crate::rs::local_bytes(entry@.blocks, store@.blocks),
{
    let ghost bv = entry@.blocks;
    let mut n: usize = 0;
    let mut k: usize = 0;
    while k < entry.blocks.len()
        invariant
            bv == entry@.blocks,
            k <= bv.len(),
            n == held_count(bv.take(k as int), store@.blocks),
        decreases bv.len() - k,
    {
        proof {
            assert(bv.take(k + 1).drop_last() =~= bv.take(k as int));
            lemma_held_le(bv.take(k as int), store@.blocks);
            assert(bv.take(k + 1).last() == bv[k as int]);
        }
        if store.has_block(entry.blocks[k].hash.as_str()) {
            n = n + 1;
        }
        k = k + 1;
    }
    assert(bv.take(bv.len() as int) =~= bv);
    let (bytes, _) = store.file_progress(entry);
    (n, bytes)
}

} // verus!
