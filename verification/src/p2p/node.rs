//! The table of discovered peers that the node keeps while it runs.
//!
//! Peers enter through mDNS discovery or an established connection and
//! leave when their last connection closes, mDNS expires them or the
//! heartbeat gives up on them. Each peer id appears at most once.

use vstd::prelude::*;
use crate::rs::{strings_view, copy_strings, contains_string};
use crate::text::{str_eq, take_chars, ascii_prefix};
use crate::seqs::remove_where;

use crate::p2p::heartbeat::{HeartbeatModel, tick_rel, misses_of, law_silent_peer_dropped};

verus! {

/// Information about a discovered peer: its id, a short display name and
/// the addresses it was seen at.
#[derive(Debug, Clone, PartialEq, Eq)]
pub struct PeerInfo {
    pub peer_id: String,
    pub name: String,
    pub addrs: Vec<String>,
}

/// The mathematical value of a peer's information.
pub struct PeerModel {
    pub peer_id: Seq<char>,
    pub name: Seq<char>,
    pub addrs: Seq<Seq<char>>,
}

impl View for PeerInfo {
    type V = PeerModel;

    open spec fn view(&self) -> PeerModel {
        PeerModel { peer_id: self.peer_id@, name: self.name@, addrs: strings_view(self.addrs@) }
    }
}

impl PeerInfo {
    /// A copy of this information.
    pub fn duplicate(&self) -> (r: Self)
        ensures
            r@ == self@,
    {
        PeerInfo { peer_id: self.peer_id.clone(), name: self.name.clone(), addrs: copy_strings(&self.addrs) }
    }
}

/// The views of a list of peers.
pub open spec fn peers_view(v: Seq<PeerInfo>) -> Seq<PeerModel> {
    v.map_values(|p: PeerInfo| p@)
}

/// The ids of a list of peers.
pub open spec fn peer_ids(v: Seq<PeerModel>) -> Seq<Seq<char>> {
    v.map_values(|p: PeerModel| p.peer_id)
}

/// The peer is `id`.
pub open spec fn peer_is(id: Seq<char>) -> spec_fn(PeerModel) -> bool {
    |p: PeerModel| p.peer_id == id
}

/// The table after mDNS reports `id` at `addr`: the peer's entry gains the
/// address (when new), or a new entry is added named by the id's first
/// eight characters.
pub open spec fn after_discovery(v: Seq<PeerModel>, id: Seq<char>, addr: Seq<char>) -> Seq<PeerModel> {
    if peer_ids(v).contains(id) {
        let i = peer_ids(v).index_of(id);
        let p = v[i];
        v.update(i, PeerModel { addrs: if p.addrs.contains(addr) { p.addrs } else { p.addrs.push(addr) }, ..p })
    } else {
        v.push(PeerModel { peer_id: id, name: id.take(8), addrs: seq![addr] })
    }
}

/// The peer table.
#[derive(Debug)]
pub struct PeerTable {
    peers: Vec<PeerInfo>,
}

impl View for PeerTable {
    type V = Seq<PeerModel>;

    closed spec fn view(&self) -> Seq<PeerModel> {
        peers_view(self.peers@)
    }
}

/// Removing a peer by id from a list without duplicate ids takes out one
/// entry when the id is there and none otherwise.
proof fn lemma_remove_len(v: Seq<PeerModel>, id: Seq<char>)
    requires
        peer_ids(v).no_duplicates(),
    ensures
        remove_where(v, peer_is(id)).len() == v.len() - (if peer_ids(v).contains(id) { 1int } else { 0int }),
    decreases v.len(),
{
    reveal(Seq::filter);
    if v.len() > 0 {
        let t = v.drop_last();
        let last = v.last();
        assert(peer_ids(t) =~= peer_ids(v).drop_last());
        assert(peer_ids(v) =~= peer_ids(t).push(last.peer_id));
        lemma_remove_len(t, id);
        assert(!peer_ids(t).contains(last.peer_id)) by {
            if peer_ids(t).contains(last.peer_id) {
                let k = choose|k: int| 0 <= k < peer_ids(t).len() && peer_ids(t)[k] == last.peer_id;
                assert(peer_ids(v)[k] == peer_ids(v)[v.len() - 1]);
            }
        }
        assert(peer_ids(v).contains(id) <==> (peer_ids(t).contains(id) || last.peer_id == id)) by {
            if peer_ids(v).contains(id) {
                let k = choose|k: int| 0 <= k < peer_ids(v).len() && peer_ids(v)[k] == id;
                if k < v.len() - 1 {
                    assert(peer_ids(t)[k] == id);
                }
            }
            if peer_ids(t).contains(id) {
                let k = choose|k: int| 0 <= k < peer_ids(t).len() && peer_ids(t)[k] == id;
                assert(peer_ids(v)[k] == id);
            }
            if last.peer_id == id {
                assert(peer_ids(v)[v.len() - 1] == id);
            }
        }
    } else {
        assert(peer_ids(v) =~= Seq::<Seq<char>>::empty());
    }
}

/// Removing a peer by id from a list without duplicate ids keeps it so.
proof fn lemma_remove_keeps_unique(v: Seq<PeerModel>, id: Seq<char>)
    requires
        peer_ids(v).no_duplicates(),
    ensures
        peer_ids(remove_where(v, peer_is(id))).no_duplicates(),
        !peer_ids(remove_where(v, peer_is(id))).contains(id),
        forall|x: Seq<char>| x != id ==> (peer_ids(remove_where(v, peer_is(id))).contains(x) <==> peer_ids(v).contains(x)),
    decreases v.len(),
{
    reveal(Seq::filter);
    if v.len() > 0 {
        let t = v.drop_last();
        assert(peer_ids(t) =~= peer_ids(v).drop_last());
        lemma_remove_keeps_unique(t, id);
        let rt = remove_where(t, peer_is(id));
        let last = v.last();
        assert(peer_ids(v) =~= peer_ids(t).push(last.peer_id));
        assert(!peer_ids(t).contains(last.peer_id)) by {
            if peer_ids(t).contains(last.peer_id) {
                let k = choose|k: int| 0 <= k < peer_ids(t).len() && peer_ids(t)[k] == last.peer_id;
                assert(peer_ids(v)[k] == peer_ids(v)[v.len() - 1]);
            }
        }
        if last.peer_id != id {
            assert(remove_where(v, peer_is(id)) == rt.push(last));
            assert(peer_ids(rt.push(last)) =~= peer_ids(rt).push(last.peer_id));
            assert forall|x: Seq<char>| x != id implies (peer_ids(rt.push(last)).contains(x) <==> peer_ids(v).contains(x)) by {
                let w = peer_ids(rt.push(last));
                if w.contains(x) {
                    let k = choose|k: int| 0 <= k < w.len() && w[k] == x;
                    if k < rt.len() {
                        assert(peer_ids(rt)[k] == x);
                        assert(peer_ids(rt).contains(x));
                        assert(peer_ids(t).contains(x));
                        let j = choose|j: int| 0 <= j < peer_ids(t).len() && peer_ids(t)[j] == x;
                        assert(peer_ids(v)[j] == x);
                    } else {
                        assert(peer_ids(v)[t.len() as int] == x);
                    }
                }
                if peer_ids(v).contains(x) {
                    let k = choose|k: int| 0 <= k < peer_ids(v).len() && peer_ids(v)[k] == x;
                    if k < t.len() {
                        assert(peer_ids(t)[k] == x);
                        assert(peer_ids(t).contains(x));
                        assert(peer_ids(rt).contains(x));
                        let j = choose|j: int| 0 <= j < peer_ids(rt).len() && peer_ids(rt)[j] == x;
                        assert(w[j] == x);
                    } else {
                        assert(w[rt.len() as int] == x);
                    }
                }
            }
            assert(!peer_ids(rt).contains(last.peer_id));
            assert(peer_ids(rt.push(last)).no_duplicates()) by {
                assert forall|a: int, b: int|
                    0 <= a < peer_ids(rt.push(last)).len() && 0 <= b < peer_ids(rt.push(last)).len() && a != b
                        implies peer_ids(rt.push(last))[a] != peer_ids(rt.push(last))[b] by {
                    if a < rt.len() && b < rt.len() {
                        assert(peer_ids(rt)[a] != peer_ids(rt)[b]);
                    } else if a < rt.len() {
                        assert(peer_ids(rt).contains(peer_ids(rt)[a]));
                    } else if b < rt.len() {
                        assert(peer_ids(rt).contains(peer_ids(rt)[b]));
                    }
                }
            }
        } else {
            assert(remove_where(v, peer_is(id)) == rt);
            assert forall|x: Seq<char>| x != id implies (peer_ids(rt).contains(x) <==> peer_ids(v).contains(x)) by {
                if peer_ids(v).contains(x) {
                    let k = choose|k: int| 0 <= k < peer_ids(v).len() && peer_ids(v)[k] == x;
                    assert(k < t.len());
                    assert(peer_ids(t)[k] == x);
                    assert(peer_ids(t).contains(x));
                }
                if peer_ids(rt).contains(x) {
                    assert(peer_ids(t).contains(x));
                    let j = choose|j: int| 0 <= j < peer_ids(t).len() && peer_ids(t)[j] == x;
                    assert(peer_ids(v)[j] == x);
                }
            }
        }
    } else {
        assert(remove_where(v, peer_is(id)) =~= v);
    }
}

impl PeerTable {
    /// No peer id appears twice.
    pub open spec fn wf(&self) -> bool {
        peer_ids(self@).no_duplicates()
    }

    /// An empty table.
    pub fn new() -> (t: Self)
        ensures
            t.wf(),
            t@.len() == 0,
    {
        let t = PeerTable { peers: Vec::new() };
        assert(peer_ids(t@) =~= Seq::<Seq<char>>::empty());
        t
    }

    fn position(&self, peer_id: &str) -> (r: Option<usize>)
        requires
            self.wf(),
        ensures
            match r {
                Some(i) => i < self@.len() && peer_ids(self@).index_of(peer_id@) == i && peer_ids(self@).contains(
                    peer_id@,
                ),
                None => !peer_ids(self@).contains(peer_id@),
            },
    {
        let ghost ids = peer_ids(self@);
        let mut i: usize = 0;
        while i < self.peers.len()
            invariant
                ids == peer_ids(self@),
                ids.no_duplicates(),
                i <= self.peers@.len(),
                forall|j: int| 0 <= j < i ==> ids[j] != peer_id@,
            decreases self.peers@.len() - i,
        {
            if str_eq(self.peers[i].peer_id.as_str(), peer_id) {
                proof {
                    assert(ids[i as int] == peer_id@);
                    assert(ids.contains(peer_id@));
                    let k = ids.index_of(peer_id@);
                    assert(ids[k] == peer_id@);
                }
                return Some(i);
            }
            i = i + 1;
        }
        None
    }

    /// Whether the peer is in the table.
    pub fn contains(&self, peer_id: &str) -> (r: bool)
        requires
            self.wf(),
        ensures
            r == peer_ids(self@).contains(peer_id@),
    {
        self.position(peer_id).is_some()
    }

    /// The number of peers.
    pub fn peer_count(&self) -> (r: usize)
        ensures
            r == self@.len(),
    {
        self.peers.len()
    }

    /// All peers.
    pub fn get_peers(&self) -> (r: Vec<PeerInfo>)
        ensures
            peers_view(r@) == self@,
    {
        let mut r: Vec<PeerInfo> = Vec::new();
        let mut i: usize = 0;
        while i < self.peers.len()
            invariant
                i <= self.peers@.len(),
                peers_view(r@) =~= self@.take(i as int),
            decreases self.peers@.len() - i,
        {
            let ghost prev = r@;
            r.push(self.peers[i].duplicate());
            assert(peers_view(r@) =~= peers_view(prev).push(self@[i as int]));
            i = i + 1;
        }
        assert(self@.take(self@.len() as int) =~= self@);
        r
    }

    /// The ids of all peers.
    pub fn peer_ids(&self) -> (r: Vec<String>)
        ensures
            strings_view(r@) == peer_ids(self@),
    {
        let mut r: Vec<String> = Vec::new();
        let mut i: usize = 0;
        while i < self.peers.len()
            invariant
                i <= self.peers@.len(),
                strings_view(r@) =~= peer_ids(self@).take(i as int),
            decreases self.peers@.len() - i,
        {
            let ghost prev = r@;
            r.push(self.peers[i].peer_id.clone());
            assert(strings_view(r@) =~= strings_view(prev).push(self@[i as int].peer_id));
            i = i + 1;
        }
        assert(peer_ids(self@).take(self@.len() as int) =~= peer_ids(self@));
        r
    }

    /// mDNS reported `peer_id` at `addr` (and dialing it succeeded): the
    /// peer is added or gains the address. Returns its information.
    pub fn discovered(&mut self, peer_id: &str, addr: &str) -> (r: PeerInfo)
        requires
            old(self).wf(),
            ascii_prefix(peer_id@, 8),
        ensures
            final(self).wf(),
            final(self)@ == after_discovery(old(self)@, peer_id@, addr@),
            peer_ids(final(self)@).contains(peer_id@),
            r@ == final(self)@[peer_ids(final(self)@).index_of(peer_id@)],
    {
        let ghost old_v = self@;
        let ghost old_ids = peer_ids(old_v);
        match self.position(peer_id) {
            Some(i) => {
                let mut info = self.peers[i].duplicate();
                let a = String::from_str(addr);
                if !contains_string(&info.addrs, &a) {
                    let ghost prev = info.addrs@;
                    info.addrs.push(a);
                    assert(strings_view(info.addrs@) =~= strings_view(prev).push(addr@));
                }
                let r = info.duplicate();
                let ghost p = old_v[i as int];
                assert(info@ == PeerModel {
                    addrs: if p.addrs.contains(addr@) { p.addrs } else { p.addrs.push(addr@) },
                    ..p
                });
                self.peers.set(i, info);
                proof {
                    assert(self@ =~= after_discovery(old_v, peer_id@, addr@));
                    assert(peer_ids(self@) =~= old_ids);
                }
                r
            },
            None => {
                let info = PeerInfo {
                    peer_id: String::from_str(peer_id),
                    name: take_chars(peer_id, 8),
                    addrs: vec![String::from_str(addr)],
                };
                assert(strings_view(info.addrs@) =~= seq![addr@]);
                assert(info.name@ =~= peer_id@.take(8));
                let r = info.duplicate();
                self.peers.push(info);
                proof {
                    assert(self@ =~= after_discovery(old_v, peer_id@, addr@));
                    assert(peer_ids(self@) =~= old_ids.push(peer_id@));
                    assert(peer_ids(self@)[old_ids.len() as int] == peer_id@);
                    assert(peer_ids(self@).no_duplicates()) by {
                        assert forall|a: int, b: int|
                            0 <= a < peer_ids(self@).len() && 0 <= b < peer_ids(self@).len() && a != b
                                implies peer_ids(self@)[a] != peer_ids(self@)[b] by {
                            if a < old_ids.len() && b < old_ids.len() {
                                assert(old_ids[a] != old_ids[b]);
                            } else if a < old_ids.len() {
                                assert(old_ids.contains(old_ids[a]));
                            } else if b < old_ids.len() {
                                assert(old_ids.contains(old_ids[b]));
                            }
                        }
                    }
                    assert(peer_ids(self@).index_of(peer_id@) == old_ids.len());
                }
                r
            },
        }
    }

    /// A connection to `peer_id` was established from `remote_addr`: an
    /// unknown peer is added, named by its id's first twelve characters,
    /// and returned; a known one leaves the table as it is.
    pub fn connected(&mut self, peer_id: &str, remote_addr: &str) -> (r: Option<PeerInfo>)
        requires
            old(self).wf(),
        ensures
            final(self).wf(),
            peer_ids(old(self)@).contains(peer_id@) ==> r is None && final(self)@ == old(self)@,
            !peer_ids(old(self)@).contains(peer_id@) ==> ({
                let m = PeerModel {
                    peer_id: peer_id@,
                    name: if peer_id@.len() <= 12 { peer_id@ } else { peer_id@.take(12) },
                    addrs: seq![remote_addr@],
                };
                &&& final(self)@ == old(self)@.push(m)
                &&& r matches Some(p) && p@ == m
            }),
    {
        if self.contains(peer_id) {
            return None;
        }
        let ghost old_ids = peer_ids(self@);
        let info = PeerInfo {
            peer_id: String::from_str(peer_id),
            name: take_chars(peer_id, 12),
            addrs: vec![String::from_str(remote_addr)],
        };
        assert(strings_view(info.addrs@) =~= seq![remote_addr@]);
        let r = info.duplicate();
        let ghost prev = self@;
        self.peers.push(info);
        proof {
            assert(self@ =~= prev.push(r@));
            assert(peer_ids(self@) =~= old_ids.push(peer_id@));
            assert(peer_ids(self@).no_duplicates()) by {
                assert forall|a: int, b: int|
                    0 <= a < peer_ids(self@).len() && 0 <= b < peer_ids(self@).len() && a != b
                        implies peer_ids(self@)[a] != peer_ids(self@)[b] by {
                    if a < old_ids.len() && b < old_ids.len() {
                        assert(old_ids[a] != old_ids[b]);
                    } else if a < old_ids.len() {
                        assert(old_ids.contains(old_ids[a]));
                    } else if b < old_ids.len() {
                        assert(old_ids.contains(old_ids[b]));
                    }
                }
            }
        }
        Some(r)
    }

    /// Removes the peer; returns whether it was in the table.
    pub fn remove_peer(&mut self, peer_id: &str) -> (was: bool)
        requires
            old(self).wf(),
        ensures
            final(self).wf(),
            was == peer_ids(old(self)@).contains(peer_id@),
            final(self)@ == remove_where(old(self)@, peer_is(peer_id@)),
            !peer_ids(final(self)@).contains(peer_id@),
    {
        let was = self.contains(peer_id);
        let ghost src = self@;
        let mut kept: Vec<PeerInfo> = Vec::new();
        let mut i: usize = 0;
        while i < self.peers.len()
            invariant
                src == peers_view(self.peers@),
                i <= self.peers@.len(),
                peers_view(kept@) == remove_where(src.take(i as int), peer_is(peer_id@)),
            decreases self.peers@.len() - i,
        {
            proof {
                reveal(Seq::filter);
                assert(src.take(i + 1).drop_last() =~= src.take(i as int));
            }
            if !str_eq(self.peers[i].peer_id.as_str(), peer_id) {
                let ghost prev = kept@;
                kept.push(self.peers[i].duplicate());
                assert(peers_view(kept@) =~= peers_view(prev).push(src[i as int]));
            }
            i = i + 1;
        }
        assert(src.take(src.len() as int) =~= src);
        self.peers = kept;
        proof {
            lemma_remove_keeps_unique(src, peer_id@);
        }
        was
    }

    /// The last connection to a peer closed, leaving `num_established`
    /// open: with none left the peer leaves the table. Returns whether it
    /// left (and so expired).
    pub fn connection_closed(&mut self, peer_id: &str, num_established: u32) -> (expired: bool)
        requires
            old(self).wf(),
        ensures
            final(self).wf(),
            expired == (num_established == 0 && peer_ids(old(self)@).contains(peer_id@)),
            num_established == 0 ==> final(self)@ == remove_where(old(self)@, peer_is(peer_id@)),
            num_established != 0 ==> final(self)@ == old(self)@,
            final(self)@.len() == old(self)@.len() - (if expired { 1int } else { 0int }),
    {
        proof {
            lemma_remove_len(self@, peer_id@);
        }
        if num_established == 0 {
            self.remove_peer(peer_id)
        } else {
            false
        }
    }
}

/// A peer that was discovered is in the table, and a peer that was removed
/// is not, whatever else the table holds.
pub proof fn law_discovery_then_removal(v: Seq<PeerModel>, id: Seq<char>, addr: Seq<char>)
    requires
        peer_ids(v).no_duplicates(),
    ensures
        peer_ids(after_discovery(v, id, addr)).contains(id),
        !peer_ids(remove_where(after_discovery(v, id, addr), peer_is(id))).contains(id),
{
    let w = after_discovery(v, id, addr);
    if peer_ids(v).contains(id) {
        let i = peer_ids(v).index_of(id);
        assert(peer_ids(w)[i] == id);
        assert(peer_ids(w) =~= peer_ids(v));
    } else {
        assert(peer_ids(w)[v.len() as int] == id);
        assert(peer_ids(w) =~= peer_ids(v).push(id));
        assert(peer_ids(w).no_duplicates()) by {
            assert forall|a: int, b: int|
                0 <= a < peer_ids(w).len() && 0 <= b < peer_ids(w).len() && a != b implies peer_ids(w)[a] != peer_ids(w)[b] by {
                if a < v.len() && b < v.len() {
                    assert(peer_ids(v)[a] != peer_ids(v)[b]);
                } else if a < v.len() {
                    assert(peer_ids(v).contains(peer_ids(v)[a]));
                } else if b < v.len() {
                    assert(peer_ids(v).contains(peer_ids(v)[b]));
                }
            }
        }
    }
    assert(peer_ids(w).contains(id));
    assert(peer_ids(w).no_duplicates()) by {
        if peer_ids(v).contains(id) {
            assert(peer_ids(w) =~= peer_ids(v));
        }
    }
    lemma_remove_keeps_unique(w, id);
}


/// A listed peer that answers none of four pings is dropped on the next
/// tick and then leaves the peer table: it is no longer listed and the
/// table holds one peer fewer.
pub proof fn law_silent_peer_leaves_table(
    hs: Seq<HeartbeatModel>,
    pings: Seq<Seq<Seq<char>>>,
    deads: Seq<Seq<Seq<char>>>,
    p: Seq<char>,
    table: Seq<PeerModel>,
)
    requires
        hs.len() == 5,
        pings.len() == 4,
        deads.len() == 4,
        forall|i: int| 0 <= i < 4 ==> tick_rel(#[trigger] hs[i], hs[i + 1], pings[i], deads[i]),
        forall|i: int| 0 <= i < 4 ==> #[trigger] pings[i].contains(p),
        hs[0].pending.contains(p),
        misses_of(hs[0].misses, p) == 0,
        peer_ids(table).no_duplicates(),
        peer_ids(table).contains(p),
    ensures
        deads[3].contains(p),
        !peer_ids(remove_where(table, peer_is(p))).contains(p),
        remove_where(table, peer_is(p)).len() == table.len() - 1,
{
    law_silent_peer_dropped(hs, pings, deads, p);
    lemma_remove_keeps_unique(table, p);
    lemma_remove_len(table, p);
}

} // verus!
