//! The book of known peers, kept on disk for reconnection after a restart.
//!
//! Each peer id has one record with its addresses and when it was last
//! seen (Unix seconds); records older than seven days are dropped. The
//! application reads and writes the book as JSON under
//! `~/.rxiu/peers/known_peers.json`.

use vstd::prelude::*;
use crate::rs::strings_view;
use crate::text::{path_join, path_join_spec, str_eq};
use crate::seqs::remove_where;

verus! {

/// Maximum age of a peer record, in seconds (seven days).
pub const MAX_PEER_AGE_SECS: u64 = 604800;

/// A persisted peer record.
#[derive(Debug, Clone, PartialEq, Eq)]
pub struct PersistedPeer {
    pub peer_id: String,
    pub addrs: Vec<String>,
    /// Last seen timestamp (Unix seconds).
    pub last_seen: u64,
}

/// The mathematical value of a record.
pub struct PeerRecord {
    pub peer_id: Seq<char>,
    pub addrs: Seq<Seq<char>>,
    pub last_seen: u64,
}

impl View for PersistedPeer {
    type V = PeerRecord;

    open spec fn view(&self) -> PeerRecord {
        PeerRecord { peer_id: self.peer_id@, addrs: strings_view(self.addrs@), last_seen: self.last_seen }
    }
}

/// The views of a list of records.
pub open spec fn records_view(v: Seq<PersistedPeer>) -> Seq<PeerRecord> {
    v.map_values(|p: PersistedPeer| p@)
}

/// The ids of a list of records.
pub open spec fn record_ids(v: Seq<PeerRecord>) -> Seq<Seq<char>> {
    v.map_values(|p: PeerRecord| p.peer_id)
}

/// A record seen at `last_seen` is still fresh at `now`.
pub open spec fn fresh(last_seen: u64, now: u64) -> bool {
    (if now >= last_seen { now - last_seen } else { 0 }) < MAX_PEER_AGE_SECS
}

/// The record is fresh at `now`.
pub open spec fn fresh_at(now: u64) -> spec_fn(PeerRecord) -> bool {
    |p: PeerRecord| fresh(p.last_seen, now)
}

/// The record is for `id`.
pub open spec fn record_of(id: Seq<char>) -> spec_fn(PeerRecord) -> bool {
    |p: PeerRecord| p.peer_id == id
}

/// The records with the record for `r.peer_id` replaced by `r`, or `r`
/// appended when there is none.
pub open spec fn put_record(v: Seq<PeerRecord>, r: PeerRecord) -> Seq<PeerRecord> {
    if record_ids(v).contains(r.peer_id) {
        v.update(record_ids(v).index_of(r.peer_id), r)
    } else {
        v.push(r)
    }
}

/// `~/.rxiu/peers/known_peers.json` under the given home directory.
pub open spec fn peers_file_spec(home: Seq<char>) -> Seq<char> {
    path_join_spec(path_join_spec(path_join_spec(home, ".rxiu"@), "peers"@), "known_peers.json"@)
}

/// The file holding the peer book under the given home directory.
pub fn peers_file_path(home: &str) -> (r: String)
    ensures
        r@ == peers_file_spec(home@),
{
    let rxiu = path_join(home, ".rxiu");
    let dir = path_join(rxiu.as_str(), "peers");
    path_join(dir.as_str(), "known_peers.json")
}

/// The peer book: at most one record per peer id.
#[derive(Debug)]
pub struct PeerStore {
    peers: Vec<PersistedPeer>,
}

impl View for PeerStore {
    type V = Seq<PeerRecord>;

    closed spec fn view(&self) -> Seq<PeerRecord> {
        records_view(self.peers@)
    }
}

impl PersistedPeer {
    /// A copy of this record.
    pub fn duplicate(&self) -> (r: Self)
        ensures
            r@ == self@,
    {
        PersistedPeer {
            peer_id: self.peer_id.clone(),
            addrs: crate::rs::copy_strings(&self.addrs),
            last_seen: self.last_seen,
        }
    }
}

impl PeerStore {
    /// No peer id has two records.
    pub closed spec fn wf(&self) -> bool {
        record_ids(records_view(self.peers@)).no_duplicates()
    }

    /// What well-formedness means for the book's value: no peer id has two
    /// records.
    pub proof fn lemma_wf(&self)
        requires
            self.wf(),
        ensures
            record_ids(self@).no_duplicates(),
    {
    }

    /// An empty book.
    pub fn new() -> (s: Self)
        ensures
            s.wf(),
            s@.len() == 0,
    {
        let s = PeerStore { peers: Vec::new() };
        assert(record_ids(records_view(s.peers@)) =~= Seq::<Seq<char>>::empty());
        s
    }

    fn position(&self, peer_id: &str) -> (r: Option<usize>)
        requires
            self.wf(),
        ensures
            match r {
                Some(i) => i < self@.len() && self@[i as int].peer_id == peer_id@ && record_ids(self@).index_of(
                    peer_id@,
                ) == i,
                None => !record_ids(self@).contains(peer_id@),
            },
    {
        let ghost ids = record_ids(self@);
        let mut i: usize = 0;
        while i < self.peers.len()
            invariant
                ids == record_ids(self@),
                ids.no_duplicates(),
                i <= self.peers@.len(),
                forall|j: int| 0 <= j < i ==> ids[j] != peer_id@,
            decreases self.peers@.len() - i,
        {
            if str_eq(self.peers[i].peer_id.as_str(), peer_id) {
                proof {
                    assert(ids[i as int] == peer_id@);
                    assert(ids.contains(peer_id@));
                    let k = ids.index_of(peer_id@);
                    assert(ids[k] == peer_id@);
                    if k != i {
                        assert(ids.no_duplicates());
                    }
                }
                return Some(i);
            }
            i = i + 1;
        }
        None
    }

    /// Puts a record, replacing the one with the same peer id.
    pub fn put(&mut self, peer: PersistedPeer)
        requires
            old(self).wf(),
        ensures
            final(self).wf(),
            final(self)@ == put_record(old(self)@, peer@),
    {
        let ghost old_ids = record_ids(self@);
        match self.position(peer.peer_id.as_str()) {
            Some(i) => {
                let ghost pv = peer@;
                assert(old_ids[i as int] == pv.peer_id);
                assert(old_ids.contains(pv.peer_id));
                self.peers.set(i, peer);
                assert(records_view(self.peers@) =~= put_record(old(self)@, pv));
                assert(record_ids(self@) =~= old_ids.update(i as int, peer@.peer_id));
                assert(record_ids(self@).no_duplicates()) by {
                    assert forall|a: int, b: int|
                        0 <= a < record_ids(self@).len() && 0 <= b < record_ids(self@).len() && a != b
                            implies record_ids(self@)[a] != record_ids(self@)[b] by {
                        if a != i && b != i {
                            assert(old_ids[a] != old_ids[b]);
                        }
                    }
                }
            },
            None => {
                self.peers.push(peer);
                assert(records_view(self.peers@) =~= put_record(old(self)@, peer@));
                assert(record_ids(self@) =~= old_ids.push(peer@.peer_id));
                assert(record_ids(self@).no_duplicates()) by {
                    assert forall|a: int, b: int|
                        0 <= a < record_ids(self@).len() && 0 <= b < record_ids(self@).len() && a != b
                            implies record_ids(self@)[a] != record_ids(self@)[b] by {
                        if a < old_ids.len() && b < old_ids.len() {
                            assert(old_ids[a] != old_ids[b]);
                        } else if a < old_ids.len() {
                            assert(old_ids.contains(old_ids[a]));
                        } else {
                            assert(old_ids.contains(old_ids[b]));
                        }
                    }
                }
            },
        }
    }

    /// Keeps only the records still fresh at `now`.
    fn retain_fresh(&mut self, now: u64)
        requires
            old(self).wf(),
        ensures
            final(self).wf(),
            final(self)@ == old(self)@.filter(fresh_at(now)),
    {
        let ghost keep = fresh_at(now);
        let ghost src = self@;
        let mut kept: Vec<PersistedPeer> = Vec::new();
        let mut i: usize = 0;
        while i < self.peers.len()
            invariant
                src == records_view(self.peers@),
                record_ids(src).no_duplicates(),
                keep == fresh_at(now),
                i <= self.peers@.len(),
                records_view(kept@) == src.take(i as int).filter(keep),
                forall|a: int| 0 <= a < kept@.len() ==> exists|b: int| 0 <= b < i && #[trigger] records_view(kept@)[a] == src[b],
                record_ids(records_view(kept@)).no_duplicates(),
            decreases self.peers@.len() - i,
        {
            proof {
                reveal(Seq::filter);
                assert(src.take(i + 1).drop_last() =~= src.take(i as int));
            }
            let p = &self.peers[i];
            let age: u64 = if now >= p.last_seen {
                now - p.last_seen
            } else {
                0
            };
            if age < MAX_PEER_AGE_SECS {
                let ghost prev = kept@;
                kept.push(p.duplicate());
                proof {
                    assert(records_view(kept@) =~= records_view(prev).push(src[i as int]));
                    assert(record_ids(records_view(kept@)) =~= record_ids(records_view(prev)).push(src[i as int].peer_id));
                    assert forall|a: int, b: int|
                        0 <= a < record_ids(records_view(kept@)).len() && 0 <= b < record_ids(records_view(kept@)).len()
                            && a != b implies record_ids(records_view(kept@))[a] != record_ids(records_view(kept@))[b] by {
                        let n = prev.len() as int;
                        if a < n && b < n {
                            assert(record_ids(records_view(prev))[a] != record_ids(records_view(prev))[b]);
                        } else if a < n {
                            let c = choose|c: int| 0 <= c < i && #[trigger] records_view(prev)[a] == src[c];
                            assert(record_ids(src)[c] != record_ids(src)[i as int]);
                        } else if b < n {
                            let c = choose|c: int| 0 <= c < i && #[trigger] records_view(prev)[b] == src[c];
                            assert(record_ids(src)[c] != record_ids(src)[i as int]);
                        }
                    }
                    assert forall|a: int| 0 <= a < kept@.len() implies exists|b: int| 0 <= b < i + 1 && #[trigger] records_view(kept@)[a] == src[b] by {
                        if a < prev.len() {
                            let c = choose|c: int| 0 <= c < i && #[trigger] records_view(prev)[a] == src[c];
                            assert(records_view(kept@)[a] == src[c]);
                        } else {
                            assert(records_view(kept@)[a] == src[i as int]);
                        }
                    }
                }
            }
            i = i + 1;
        }
        assert(src.take(src.len() as int) =~= src);
        self.peers = kept;
    }

    /// Records that a peer was seen at `now` with these addresses, then
    /// drops every record that is no longer fresh.
    pub fn save_peer(&mut self, peer_id: &str, addrs: &Vec<String>, now: u64)
        requires
            old(self).wf(),
        ensures
            final(self).wf(),
            final(self)@ == put_record(
                old(self)@,
                PeerRecord { peer_id: peer_id@, addrs: strings_view(addrs@), last_seen: now },
            ).filter(fresh_at(now)),
    {
        let rec = PersistedPeer { peer_id: String::from_str(peer_id), addrs: crate::rs::copy_strings(addrs), last_seen: now };
        self.put(rec);
        self.retain_fresh(now);
    }

    /// Removes the record of a peer (a no-op when there is none); stale
    /// records stay as they were.
    pub fn remove_peer(&mut self, peer_id: &str)
        requires
            old(self).wf(),
        ensures
            final(self).wf(),
            final(self)@ == remove_where(old(self)@, record_of(peer_id@)),
    {
        let ghost src = self@;
        let mut kept: Vec<PersistedPeer> = Vec::new();
        let mut i: usize = 0;
        while i < self.peers.len()
            invariant
                src == records_view(self.peers@),
                record_ids(src).no_duplicates(),
                i <= self.peers@.len(),
                records_view(kept@) == remove_where(src.take(i as int), record_of(peer_id@)),
                forall|a: int| 0 <= a < kept@.len() ==> exists|b: int| 0 <= b < i && #[trigger] records_view(kept@)[a] == src[b],
                record_ids(records_view(kept@)).no_duplicates(),
            decreases self.peers@.len() - i,
        {
            proof {
                reveal(Seq::filter);
                assert(src.take(i + 1).drop_last() =~= src.take(i as int));
            }
            if !str_eq(self.peers[i].peer_id.as_str(), peer_id) {
                let ghost prev = kept@;
                kept.push(self.peers[i].duplicate());
                proof {
                    assert(records_view(kept@) =~= records_view(prev).push(src[i as int]));
                    assert(record_ids(records_view(kept@)) =~= record_ids(records_view(prev)).push(src[i as int].peer_id));
                    assert forall|a: int, b: int|
                        0 <= a < record_ids(records_view(kept@)).len() && 0 <= b < record_ids(records_view(kept@)).len()
                            && a != b implies record_ids(records_view(kept@))[a] != record_ids(records_view(kept@))[b] by {
                        let n = prev.len() as int;
                        if a < n && b < n {
                            assert(record_ids(records_view(prev))[a] != record_ids(records_view(prev))[b]);
                        } else if a < n {
                            let c = choose|c: int| 0 <= c < i && #[trigger] records_view(prev)[a] == src[c];
                            assert(record_ids(src)[c] != record_ids(src)[i as int]);
                        } else if b < n {
                            let c = choose|c: int| 0 <= c < i && #[trigger] records_view(prev)[b] == src[c];
                            assert(record_ids(src)[c] != record_ids(src)[i as int]);
                        }
                    }
                    assert forall|a: int| 0 <= a < kept@.len() implies exists|b: int| 0 <= b < i + 1 && #[trigger] records_view(kept@)[a] == src[b] by {
                        if a < prev.len() {
                            let c = choose|c: int| 0 <= c < i && #[trigger] records_view(prev)[a] == src[c];
                            assert(records_view(kept@)[a] == src[c]);
                        } else {
                            assert(records_view(kept@)[a] == src[i as int]);
                        }
                    }
                }
            }
            i = i + 1;
        }
        assert(src.take(src.len() as int) =~= src);
        self.peers = kept;
    }

    /// The records still fresh at `now`: what loading the book gives.
    pub fn load_peers(&self, now: u64) -> (r: Vec<PersistedPeer>)
        ensures
            records_view(r@) == self@.filter(fresh_at(now)),
    {
        let ghost src = self@;
        let mut r: Vec<PersistedPeer> = Vec::new();
        let mut i: usize = 0;
        while i < self.peers.len()
            invariant
                src == records_view(self.peers@),
                i <= self.peers@.len(),
                records_view(r@) == src.take(i as int).filter(fresh_at(now)),
            decreases self.peers@.len() - i,
        {
            proof {
                reveal(Seq::filter);
                assert(src.take(i + 1).drop_last() =~= src.take(i as int));
            }
            let p = &self.peers[i];
            let age: u64 = if now >= p.last_seen {
                now - p.last_seen
            } else {
                0
            };
            if age < MAX_PEER_AGE_SECS {
                let ghost prev = r@;
                r.push(p.duplicate());
                assert(records_view(r@) =~= records_view(prev).push(src[i as int]));
            }
            i = i + 1;
        }
        assert(src.take(src.len() as int) =~= src);
        r
    }

    /// Every record, fresh or not, as the book file holds them.
    pub fn records(&self) -> (r: Vec<PersistedPeer>)
        ensures
            records_view(r@) == self@,
    {
        let mut r: Vec<PersistedPeer> = Vec::new();
        let mut i: usize = 0;
        while i < self.peers.len()
            invariant
                i <= self.peers@.len(),
                records_view(r@) =~= self@.take(i as int),
            decreases self.peers@.len() - i,
        {
            let ghost prev = r@;
            r.push(self.peers[i].duplicate());
            assert(records_view(r@) =~= records_view(prev).push(self@[i as int]));
            i = i + 1;
        }
        assert(self@.take(self@.len() as int) =~= self@);
        r
    }
}

/// A peer saved at `now` is among the peers loaded at `now` (saving keeps
/// the fresh records, loading reads the fresh ones), with the addresses it
/// was saved with.
pub proof fn law_saved_peer_loads(book: Seq<PeerRecord>, peer_id: Seq<char>, addrs: Seq<Seq<char>>, now: u64)
    ensures
        ({
            let r = PeerRecord { peer_id, addrs, last_seen: now };
            put_record(book, r).filter(fresh_at(now)).filter(fresh_at(now)).contains(r)
        }),
{
    let r = PeerRecord { peer_id, addrs, last_seen: now };
    let v = put_record(book, r);
    let i: int = if record_ids(book).contains(peer_id) { record_ids(book).index_of(peer_id) } else { book.len() as int };
    assert(v[i] == r);
    assert(fresh_at(now)(r));
    v.lemma_filter_contains(fresh_at(now), i);
    let w = v.filter(fresh_at(now));
    let j = choose|j: int| 0 <= j < w.len() && w[j] == r;
    w.lemma_filter_contains(fresh_at(now), j);
}

} // verus!
