//! Peer exchange: nodes share the peers they know so that others can dial
//! them beyond what mDNS discovers.
//!
//! Peer ids and addresses travel as text; a node dials an entry when its
//! peer id parses, it is not the node itself, it is not connected yet, and
//! one of its addresses parses.

use vstd::prelude::*;
use crate::rs::{strings_view, copy_strings};
use crate::p2p::node::{PeerInfo, PeerModel, peers_view};
use crate::seqs::{any_match, first_index, is_first, lemma_first_unique};

verus! {

/// Whether the text parses as a libp2p peer id.
pub uninterp spec fn peer_id_parses(s: Seq<char>) -> bool;

/// Whether the text parses as a multiaddress.
pub uninterp spec fn multiaddr_parses(s: Seq<char>) -> bool;

/// Whether the text is a peer id.
///
/// Trusted: `<libp2p::PeerId as FromStr>::from_str` (base58 decoding, then
/// a multihash check); the contract names whether it succeeds.
#[verifier::external_body]
pub(crate) fn peer_id_valid(s: &str) -> (r: bool)
    ensures
        r == peer_id_parses(s@),
{
    s.parse::<libp2p::PeerId>().is_ok()
}

/// Whether the text is a multiaddress.
///
/// Trusted: `<libp2p::Multiaddr as FromStr>::from_str`; the contract names
/// whether it succeeds.
#[verifier::external_body]
pub(crate) fn multiaddr_valid(s: &str) -> (r: bool)
    ensures
        r == multiaddr_parses(s@),
{
    s.parse::<libp2p::Multiaddr>().is_ok()
}

/// A peer as it travels over the wire: its id and addresses as text.
#[derive(Debug, Clone, PartialEq, Eq)]
pub struct PeerEntry {
    pub peer_id: String,
    pub addrs: Vec<String>,
}

/// The mathematical value of a peer entry.
pub struct EntryModel {
    pub peer_id: Seq<char>,
    pub addrs: Seq<Seq<char>>,
}

impl View for PeerEntry {
    type V = EntryModel;

    open spec fn view(&self) -> EntryModel {
        EntryModel { peer_id: self.peer_id@, addrs: strings_view(self.addrs@) }
    }
}

/// The views of a list of entries.
pub open spec fn entries_view(v: Seq<PeerEntry>) -> Seq<EntryModel> {
    v.map_values(|e: PeerEntry| e@)
}

/// The entry describing a known peer: its id and addresses.
pub open spec fn entry_of(p: PeerModel) -> EntryModel {
    EntryModel { peer_id: p.peer_id, addrs: p.addrs }
}

impl PeerEntry {
    /// The entry describing a known peer.
    pub fn from_peer_info(info: &PeerInfo) -> (r: Self)
        ensures
            r@ == entry_of(info@),
    {
        PeerEntry { peer_id: info.peer_id.clone(), addrs: copy_strings(&info.addrs) }
    }

    /// The entries describing a list of known peers, in order.
    pub fn from_peer_list(peers: &Vec<PeerInfo>) -> (r: Vec<Self>)
        ensures
            entries_view(r@) == peers_view(peers@).map_values(|p: PeerModel| entry_of(p)),
    {
        let ghost known = peers_view(peers@).map_values(|p: PeerModel| entry_of(p));
        let mut entries: Vec<PeerEntry> = Vec::new();
        let mut i: usize = 0;
        while i < peers.len()
            invariant
                known == peers_view(peers@).map_values(|p: PeerModel| entry_of(p)),
                i <= peers@.len(),
                entries_view(entries@) =~= known.take(i as int),
            decreases peers@.len() - i,
        {
            let ghost prev = entries@;
            entries.push(Self::from_peer_info(&peers[i]));
            assert(entries_view(entries@) =~= entries_view(prev).push(known[i as int]));
            i = i + 1;
        }
        assert(known.take(known.len() as int) =~= known);
        entries
    }
}

/// The address parses.
pub open spec fn addr_ok() -> spec_fn(Seq<char>) -> bool {
    |a: Seq<char>| multiaddr_parses(a)
}

/// The first address of the entry that parses.
pub open spec fn first_addr(e: EntryModel) -> Option<Seq<char>> {
    if any_match(e.addrs, addr_ok()) {
        Some(e.addrs[first_index(e.addrs, addr_ok())])
    } else {
        None
    }
}

/// Whom to dial for an entry, if anyone: its id and first valid address.
pub open spec fn dial_target(e: EntryModel, local: Seq<char>, known: Seq<Seq<char>>) -> Option<(Seq<char>, Seq<char>)> {
    if peer_id_parses(e.peer_id) && e.peer_id != local && !known.contains(e.peer_id) {
        match first_addr(e) {
            Some(a) => Some((e.peer_id, a)),
            None => None,
        }
    } else {
        None
    }
}

/// The dials for a list of entries, in order.
pub open spec fn dial_targets(entries: Seq<EntryModel>, local: Seq<char>, known: Seq<Seq<char>>) -> Seq<
    (Seq<char>, Seq<char>),
>
    decreases entries.len(),
{
    if entries.len() == 0 {
        Seq::empty()
    } else {
        let rest = dial_targets(entries.drop_last(), local, known);
        match dial_target(entries.last(), local, known) {
            Some(t) => rest.push(t),
            None => rest,
        }
    }
}

/// The views of a list of string pairs.
pub open spec fn pairs_view(v: Seq<(String, String)>) -> Seq<(Seq<char>, Seq<char>)> {
    v.map_values(|p: (String, String)| (p.0@, p.1@))
}

impl PeerEntry {
    /// The peer id, when it parses.
    pub fn parse_peer_id(&self) -> (r: Option<String>)
        ensures
            peer_id_parses(self.peer_id@) ==> (r matches Some(p) && p@ == self.peer_id@),
            !peer_id_parses(self.peer_id@) ==> r is None,
    {
        if peer_id_valid(self.peer_id.as_str()) {
            Some(self.peer_id.clone())
        } else {
            None
        }
    }

    /// The first address that parses.
    pub fn parse_first_addr(&self) -> (r: Option<String>)
        ensures
            match first_addr(self@) {
                Some(a) => r matches Some(s) && s@ == a,
                None => r is None,
            },
    {
        let ghost av = strings_view(self.addrs@);
        let mut i: usize = 0;
        while i < self.addrs.len()
            invariant
                av == strings_view(self.addrs@),
                i <= self.addrs@.len(),
                forall|j: int| 0 <= j < i ==> !addr_ok()(#[trigger] av[j]),
            decreases self.addrs@.len() - i,
        {
            if multiaddr_valid(self.addrs[i].as_str()) {
                proof {
                    assert(is_first(av, addr_ok(), i as int));
                    lemma_first_unique(av, addr_ok(), i as int);
                }
                return Some(self.addrs[i].clone());
            }
            i = i + 1;
        }
        proof {
            if any_match(av, addr_ok()) {
                let k = choose|k: int| 0 <= k < av.len() && addr_ok()(#[trigger] av[k]);
                assert(!addr_ok()(av[k]));
            }
        }
        None
    }
}

/// The dials to make for peers received from another node: for each entry
/// in turn, its id and first valid address when the id parses, is not
/// `local_peer_id` and is not among the `known` (connected) peers.
pub fn process_received_peers(local_peer_id: &str, peers: &Vec<PeerEntry>, known: &Vec<String>) -> (r: Vec<
    (String, String),
>)
    ensures
        pairs_view(r@) == dial_targets(entries_view(peers@), local_peer_id@, strings_view(known@)),
{
    let ghost ev = entries_view(peers@);
    let ghost kv = strings_view(known@);
    let mut r: Vec<(String, String)> = Vec::new();
    let mut i: usize = 0;
    while i < peers.len()
        invariant
            ev == entries_view(peers@),
            kv == strings_view(known@),
            i <= peers@.len(),
            pairs_view(r@) == dial_targets(ev.take(i as int), local_peer_id@, kv),
        decreases peers@.len() - i,
    {
        let e = &peers[i];
        assert(ev.take(i + 1).drop_last() =~= ev.take(i as int));
        assert(ev.take(i + 1).last() == e@);
        match e.parse_peer_id() {
            Some(id) => {
                if !crate::text::str_eq(id.as_str(), local_peer_id) && !crate::rs::contains_string(known, &id) {
                    match e.parse_first_addr() {
                        Some(a) => {
                            let ghost prev = r@;
                            r.push((id, a));
                            assert(pairs_view(r@) =~= pairs_view(prev).push((e@.peer_id, first_addr(e@)->0)));
                        },
                        None => {},
                    }
                }
            },
            None => {},
        }
        i = i + 1;
    }
    assert(ev.take(ev.len() as int) =~= ev);
    r
}

} // verus!
