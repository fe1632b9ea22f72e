//! Heartbeats: every tick the node pings each connected peer; a peer that
//! leaves four pings in a row unanswered is considered gone.

use vstd::prelude::*;
use crate::rs::strings_view;
use crate::text::str_eq;
use crate::seqs::{any_match, first_index, is_first, lemma_first_unique, lemma_first_index};

verus! {

/// Unanswered pings after which a peer is dropped.
pub const MAX_MISSED_PINGS: u8 = 4;

/// The entry is for peer `p`.
pub open spec fn key_is(p: Seq<char>) -> spec_fn((Seq<char>, u8)) -> bool {
    |e: (Seq<char>, u8)| e.0 == p
}

/// The number of pings in a row that `p` left unanswered.
pub open spec fn misses_of(m: Seq<(Seq<char>, u8)>, p: Seq<char>) -> nat {
    if any_match(m, key_is(p)) {
        m[first_index(m, key_is(p))].1 as nat
    } else {
        0
    }
}

/// The count after one more tick for a peer that was pinged: one more
/// miss, or back to zero when it reaches the limit (and the peer is
/// dropped).
pub open spec fn missed_once(n: nat) -> nat {
    if n + 1 >= MAX_MISSED_PINGS {
        0
    } else {
        n + 1
    }
}

/// One heartbeat tick as the node runs it: the peers pinged last tick and
/// still unanswered miss one more ping, those reaching four are `dead`,
/// and the listed peers that are not dead are pinged anew.
pub open spec fn tick_rel(
    o: HeartbeatModel,
    n: HeartbeatModel,
    peers: Seq<Seq<char>>,
    dead: Seq<Seq<char>>,
) -> bool {
    &&& dead == o.pending.filter(|q: Seq<char>| misses_of(o.misses, q) + 1 >= MAX_MISSED_PINGS)
    &&& forall|q: Seq<char>| #[trigger] misses_of(n.misses, q) == if o.pending.contains(q) {
        missed_once(misses_of(o.misses, q))
    } else {
        misses_of(o.misses, q)
    }
    &&& forall|q: Seq<char>| #[trigger] n.pending.contains(q) <==> peers.contains(q) && !dead.contains(q)
}

/// The mathematical value of the heartbeat state.
pub struct HeartbeatModel {
    pub misses: Seq<(Seq<char>, u8)>,
    pub pending: Seq<Seq<char>>,
}

/// Heartbeat state: missed-ping counts and the peers pinged last tick.
#[derive(Debug)]
pub struct Heartbeat {
    misses: Vec<(String, u8)>,
    pending: Vec<String>,
}

/// The views of the miss entries.
pub open spec fn misses_view(v: Seq<(String, u8)>) -> Seq<(Seq<char>, u8)> {
    v.map_values(|e: (String, u8)| (e.0@, e.1))
}

impl View for Heartbeat {
    type V = HeartbeatModel;

    closed spec fn view(&self) -> HeartbeatModel {
        HeartbeatModel { misses: misses_view(self.misses@), pending: strings_view(self.pending@) }
    }
}

impl Heartbeat {
    /// Every count is below the limit and no peer is pending twice.
    pub closed spec fn wf(&self) -> bool {
        &&& forall|i: int| 0 <= i < self.misses@.len() ==> (#[trigger] self.misses@[i]).1 < MAX_MISSED_PINGS
        &&& strings_view(self.pending@).no_duplicates()
    }

    /// What well-formedness means for the heartbeat's value: every count is
    /// below the limit and no peer is pending twice.
    pub proof fn lemma_wf(&self)
        requires
            self.wf(),
        ensures
            forall|i: int| 0 <= i < self@.misses.len() ==> (#[trigger] self@.misses[i]).1 < MAX_MISSED_PINGS,
            self@.pending.no_duplicates(),
    {
        assert forall|i: int| 0 <= i < self@.misses.len() implies (#[trigger] self@.misses[i]).1 < MAX_MISSED_PINGS by {
            assert(self@.misses[i].1 == self.misses@[i].1);
        }
    }

    /// No misses and nothing pending.
    pub fn new() -> (h: Self)
        ensures
            h.wf(),
            forall|p: Seq<char>| misses_of(h@.misses, p) == 0,
            h@.misses.len() == 0,
            h@.pending.len() == 0,
    {
        let h = Heartbeat { misses: Vec::new(), pending: Vec::new() };
        assert(strings_view(h.pending@) =~= Seq::<Seq<char>>::empty());
        h
    }

    fn find(&self, p: &str) -> (r: Option<usize>)
        ensures
            match r {
                Some(i) => is_first(self@.misses, key_is(p@), i as int),
                None => !any_match(self@.misses, key_is(p@)),
            },
    {
        let ghost mv = self@.misses;
        let mut i: usize = 0;
        while i < self.misses.len()
            invariant
                mv == misses_view(self.misses@),
                i <= self.misses@.len(),
                forall|j: int| 0 <= j < i ==> !key_is(p@)(#[trigger] mv[j]),
            decreases self.misses@.len() - i,
        {
            if str_eq(self.misses[i].0.as_str(), p) {
                return Some(i);
            }
            i = i + 1;
        }
        proof {
            if any_match(mv, key_is(p@)) {
                let k = choose|k: int| 0 <= k < mv.len() && key_is(p@)(#[trigger] mv[k]);
                assert(!key_is(p@)(mv[k]));
            }
        }
        None
    }

    /// The number of pings in a row the peer left unanswered.
    pub fn misses(&self, p: &str) -> (r: u8)
        ensures
            r as nat == misses_of(self@.misses, p@),
            self.wf() ==> r < MAX_MISSED_PINGS,
    {
        match self.find(p) {
            Some(i) => {
                proof {
                    lemma_first_unique(self@.misses, key_is(p@), i as int);
                    if self.wf() {
                        assert(self.misses@[i as int].1 < MAX_MISSED_PINGS);
                    }
                }
                self.misses[i].1
            },
            None => 0,
        }
    }

    /// Sets the peer's count.
    fn set_misses(&mut self, p: &str, n: u8)
        requires
            old(self).wf(),
            n < MAX_MISSED_PINGS,
        ensures
            final(self).wf(),
            final(self)@.pending == old(self)@.pending,
            misses_of(final(self)@.misses, p@) == n,
            forall|q: Seq<char>| q != p@ ==> misses_of(final(self)@.misses, q) == misses_of(old(self)@.misses, q),
    {
        let ghost old_m = self@.misses;
        match self.find(p) {
            Some(i) => {
                let key = self.misses[i].0.clone();
                self.misses.set(i, (key, n));
                proof {
                    let m = self@.misses;
                    assert(m =~= old_m.update(i as int, (p@, n)));
                    lemma_first_unique(old_m, key_is(p@), i as int);
                    assert(is_first(m, key_is(p@), i as int));
                    lemma_first_unique(m, key_is(p@), i as int);
                    assert forall|q: Seq<char>| q != p@ implies misses_of(m, q) == misses_of(old_m, q) by {
                        assert forall|j: int| 0 <= j < m.len() implies (key_is(q)(#[trigger] m[j]) <==> key_is(q)(old_m[j])) by {}
                        if any_match(old_m, key_is(q)) {
                            lemma_first_index(old_m, key_is(q));
                            let f = first_index(old_m, key_is(q));
                            assert(is_first(m, key_is(q), f));
                            lemma_first_unique(m, key_is(q), f);
                            assert(f != i);
                        } else {
                            if any_match(m, key_is(q)) {
                                let k = choose|k: int| 0 <= k < m.len() && key_is(q)(#[trigger] m[k]);
                                assert(key_is(q)(old_m[k]));
                            }
                        }
                    }
                }
            },
            None => {
                self.misses.push((String::from_str(p), n));
                proof {
                    let m = self@.misses;
                    assert(m =~= old_m.push((p@, n)));
                    assert(is_first(m, key_is(p@), old_m.len() as int));
                    lemma_first_unique(m, key_is(p@), old_m.len() as int);
                    assert forall|q: Seq<char>| q != p@ implies misses_of(m, q) == misses_of(old_m, q) by {
                        if any_match(old_m, key_is(q)) {
                            lemma_first_index(old_m, key_is(q));
                            let f = first_index(old_m, key_is(q));
                            assert(m[f] == old_m[f]);
                            assert(is_first(m, key_is(q), f));
                            lemma_first_unique(m, key_is(q), f);
                        } else {
                            if any_match(m, key_is(q)) {
                                let k = choose|k: int| 0 <= k < m.len() && key_is(q)(#[trigger] m[k]);
                                if k < old_m.len() {
                                    assert(m[k] == old_m[k]);
                                }
                            }
                        }
                    }
                }
            },
        }
    }

    /// A tick: every peer pinged last tick and still unanswered has missed
    /// one more ping; those reaching four are returned (to be dropped) and
    /// their count starts over. Nothing is pending afterwards.
    pub fn expire(&mut self) -> (dead: Vec<String>)
        requires
            old(self).wf(),
        ensures
            final(self).wf(),
            final(self)@.pending.len() == 0,
            forall|p: Seq<char>| #[trigger] misses_of(final(self)@.misses, p) == if old(self)@.pending.contains(p) {
                missed_once(misses_of(old(self)@.misses, p))
            } else {
                misses_of(old(self)@.misses, p)
            },
            strings_view(dead@) == old(self)@.pending.filter(
                |p: Seq<char>| misses_of(old(self)@.misses, p) + 1 >= MAX_MISSED_PINGS,
            ),
    {
        let ghost m0 = self@.misses;
        let ghost pend = self@.pending;
        let ghost gone = |p: Seq<char>| misses_of(m0, p) + 1 >= MAX_MISSED_PINGS;
        let mut pending: Vec<String> = Vec::new();
        std::mem::swap(&mut pending, &mut self.pending);
        assert(strings_view(self.pending@) =~= Seq::<Seq<char>>::empty());
        assert(strings_view(pending@) == pend);
        let mut dead: Vec<String> = Vec::new();
        let mut i: usize = 0;
        while i < pending.len()
            invariant
                pend == strings_view(pending@),
                pend.no_duplicates(),
                gone == (|p: Seq<char>| misses_of(m0, p) + 1 >= MAX_MISSED_PINGS),
                self.wf(),
                self@.pending.len() == 0,
                i <= pending@.len(),
                forall|p: Seq<char>| #[trigger] misses_of(self@.misses, p) == if pend.take(i as int).contains(p) {
                    missed_once(misses_of(m0, p))
                } else {
                    misses_of(m0, p)
                },
                strings_view(dead@) == pend.take(i as int).filter(gone),
            decreases pending@.len() - i,
        {
            let p = pending[i].as_str();
            proof {
                reveal(Seq::filter);
                assert(pend.take(i + 1).drop_last() =~= pend.take(i as int));
                assert(pend[i as int] == p@);
                let s0 = pend.take(i as int);
                if s0.contains(p@) {
                    let k = choose|k: int| 0 <= k < s0.len() && s0[k] == p@;
                    assert(pend[k] == pend[i as int]);
                }
                assert forall|q: Seq<char>| pend.take(i + 1).contains(q) <==> (pend.take(i as int).contains(q) || q == p@) by {
                    let s1 = pend.take(i + 1);
                    let s0 = pend.take(i as int);
                    if s1.contains(q) {
                        let k = choose|k: int| 0 <= k < s1.len() && s1[k] == q;
                        if k < i {
                            assert(s0[k] == q);
                        }
                    }
                    if s0.contains(q) {
                        let k = choose|k: int| 0 <= k < s0.len() && s0[k] == q;
                        assert(s1[k] == q);
                    }
                    if q == p@ {
                        assert(s1[i as int] == q);
                    }
                }
            }
            let n = self.misses(p);
            let ghost prev_dead = dead@;
            if n + 1 >= MAX_MISSED_PINGS {
                dead.push(pending[i].clone());
                assert(strings_view(dead@) =~= strings_view(prev_dead).push(p@));
                self.set_misses(p, 0);
            } else {
                self.set_misses(p, n + 1);
            }
            i = i + 1;
        }
        assert(pend.take(pend.len() as int) =~= pend);
        dead
    }

    /// A tick of the node's heartbeat: `expire`, then ping the listed
    /// peers that did not just die. Returns the dead peers.
    pub fn tick(&mut self, peers: &Vec<String>) -> (dead: Vec<String>)
        requires
            old(self).wf(),
        ensures
            final(self).wf(),
            tick_rel(old(self)@, final(self)@, strings_view(peers@), strings_view(dead@)),
    {
        let dead = self.expire();
        let ghost mid = self@;
        let mut live: Vec<String> = Vec::new();
        let mut i: usize = 0;
        while i < peers.len()
            invariant
                i <= peers@.len(),
                forall|q: Seq<char>| #[trigger] strings_view(live@).contains(q) <==> (strings_view(peers@).take(
                    i as int,
                ).contains(q) && !strings_view(dead@).contains(q)),
            decreases peers@.len() - i,
        {
            let ghost before = strings_view(live@);
            if !crate::rs::contains_string(&dead, &peers[i]) {
                live.push(peers[i].clone());
            }
            proof {
                let pv = strings_view(peers@);
                assert(pv.take(i + 1) =~= pv.take(i as int).push(pv[i as int]));
                assert forall|q: Seq<char>| #[trigger] strings_view(live@).contains(q) <==> (pv.take(i + 1).contains(q)
                    && !strings_view(dead@).contains(q)) by {
                    if strings_view(live@).contains(q) && !before.contains(q) {
                        assert(strings_view(live@) =~= before.push(pv[i as int]));
                        let k = choose|k: int| 0 <= k < strings_view(live@).len() && strings_view(live@)[k] == q;
                        assert(q == pv[i as int]);
                        assert(pv.take(i + 1)[i as int] == q);
                    }
                    if pv.take(i + 1).contains(q) && !strings_view(dead@).contains(q) && !pv.take(i as int).contains(q) {
                        let w = pv.take(i + 1);
                        let k = choose|k: int| 0 <= k < w.len() && w[k] == q;
                        if k < i {
                            assert(pv.take(i as int)[k] == q);
                        }
                        assert(strings_view(live@) =~= before.push(pv[i as int]));
                        assert(strings_view(live@)[before.len() as int] == q);
                    }
                    if before.contains(q) {
                        let k = choose|k: int| 0 <= k < before.len() && before[k] == q;
                        assert(strings_view(live@)[k] == q);
                    }
                    if pv.take(i as int).contains(q) {
                        let w = pv.take(i as int);
                        let k = choose|k: int| 0 <= k < w.len() && w[k] == q;
                        assert(pv.take(i + 1)[k] == q);
                    }
                }
            }
            i = i + 1;
        }
        proof {
            assert(strings_view(peers@).take(peers@.len() as int) =~= strings_view(peers@));
        }
        self.pinged(&live);
        proof {
            assert(mid.pending.len() == 0);
            assert forall|q: Seq<char>| #[trigger] self@.pending.contains(q) <==> strings_view(peers@).contains(q)
                && !strings_view(dead@).contains(q) by {
                assert(!mid.pending.contains(q));
                assert(strings_view(live@).contains(q) <==> (strings_view(peers@).contains(q) && !strings_view(
                    dead@,
                ).contains(q)));
            }
        }
        dead
    }

    /// Pings were sent to these peers this tick.
    pub fn pinged(&mut self, peers: &Vec<String>)
        requires
            old(self).wf(),
        ensures
            final(self).wf(),
            final(self)@.misses == old(self)@.misses,
            forall|p: Seq<char>| final(self)@.pending.contains(p) <==> old(self)@.pending.contains(p)
                || strings_view(peers@).contains(p),
    {
        let mut i: usize = 0;
        while i < peers.len()
            invariant
                self.wf(),
                self@.misses == old(self)@.misses,
                i <= peers@.len(),
                forall|p: Seq<char>| self@.pending.contains(p) <==> old(self)@.pending.contains(p)
                    || strings_view(peers@).take(i as int).contains(p),
            decreases peers@.len() - i,
        {
            proof {
                assert forall|q: Seq<char>| strings_view(peers@).take(i + 1).contains(q) <==> (strings_view(peers@).take(i as int).contains(q) || q == peers@[i as int]@) by {
                    let s1 = strings_view(peers@).take(i + 1);
                    let s0 = strings_view(peers@).take(i as int);
                    if s1.contains(q) {
                        let k = choose|k: int| 0 <= k < s1.len() && s1[k] == q;
                        if k < i {
                            assert(s0[k] == q);
                        }
                    }
                    if s0.contains(q) {
                        let k = choose|k: int| 0 <= k < s0.len() && s0[k] == q;
                        assert(s1[k] == q);
                    }
                    if q == peers@[i as int]@ {
                        assert(s1[i as int] == q);
                    }
                }
            }
            if !crate::rs::contains_string(&self.pending, &peers[i]) {
                let ghost prev = self@.pending;
                self.pending.push(peers[i].clone());
                proof {
                    assert(self@.pending =~= prev.push(peers@[i as int]@));
                    assert(self@.pending.no_duplicates()) by {
                        assert forall|a: int, b: int|
                            0 <= a < self@.pending.len() && 0 <= b < self@.pending.len() && a != b implies self@.pending[a]
                                != self@.pending[b] by {
                            if a < prev.len() && b < prev.len() {
                                assert(prev[a] != prev[b]);
                            } else if a < prev.len() {
                                assert(prev.contains(prev[a]));
                            } else if b < prev.len() {
                                assert(prev.contains(prev[b]));
                            }
                        }
                    }
                    broadcast use vstd::seq_lib::lemma_seq_contains_after_push;
                }
            }
            i = i + 1;
        }
        assert(strings_view(peers@).take(peers@.len() as int) =~= strings_view(peers@));
    }

    /// The peer was discovered (again): its count starts over, and whether
    /// it is pending stays as it was.
    pub fn rediscovered(&mut self, p: &str)
        requires
            old(self).wf(),
        ensures
            final(self).wf(),
            final(self)@.pending == old(self)@.pending,
            misses_of(final(self)@.misses, p@) == 0,
            forall|q: Seq<char>| q != p@ ==> misses_of(final(self)@.misses, q) == misses_of(old(self)@.misses, q),
    {
        self.set_misses(p, 0);
    }

    /// The peer answered (or left): it is no longer pending and its count
    /// starts over.
    pub fn answered(&mut self, p: &str)
        requires
            old(self).wf(),
        ensures
            final(self).wf(),
            !final(self)@.pending.contains(p@),
            forall|q: Seq<char>| q != p@ ==> (final(self)@.pending.contains(q) <==> old(self)@.pending.contains(q)),
            misses_of(final(self)@.misses, p@) == 0,
            forall|q: Seq<char>| q != p@ ==> misses_of(final(self)@.misses, q) == misses_of(old(self)@.misses, q),
    {
        let ghost src = self@.pending;
        let mut kept: Vec<String> = Vec::new();
        let mut i: usize = 0;
        while i < self.pending.len()
            invariant
                src == strings_view(self.pending@),
                src.no_duplicates(),
                i <= self.pending@.len(),
                forall|q: Seq<char>| strings_view(kept@).contains(q) <==> (src.take(i as int).contains(q) && q != p@),
                strings_view(kept@).no_duplicates(),
            decreases self.pending@.len() - i,
        {
            proof {
                assert forall|q: Seq<char>| src.take(i + 1).contains(q) <==> (src.take(i as int).contains(q) || q == src[i as int]) by {
                    let s1 = src.take(i + 1);
                    let s0 = src.take(i as int);
                    if s1.contains(q) {
                        let k = choose|k: int| 0 <= k < s1.len() && s1[k] == q;
                        if k < i {
                            assert(s0[k] == q);
                        }
                    }
                    if s0.contains(q) {
                        let k = choose|k: int| 0 <= k < s0.len() && s0[k] == q;
                        assert(s1[k] == q);
                    }
                    if q == src[i as int] {
                        assert(s1[i as int] == q);
                    }
                }
            }
            if !str_eq(self.pending[i].as_str(), p) {
                let ghost prev = strings_view(kept@);
                kept.push(self.pending[i].clone());
                proof {
                    assert(strings_view(kept@) =~= prev.push(src[i as int]));
                    broadcast use vstd::seq_lib::lemma_seq_contains_after_push;
                    assert(!prev.contains(src[i as int])) by {
                        if prev.contains(src[i as int]) {
                            assert(src.take(i as int).contains(src[i as int]));
                            let s0 = src.take(i as int);
                            let b = choose|b: int| 0 <= b < s0.len() && s0[b] == src[i as int];
                            assert(src[b] == src[i as int]);
                        }
                    }
                    assert(strings_view(kept@).no_duplicates()) by {
                        assert forall|a: int, b: int|
                            0 <= a < strings_view(kept@).len() && 0 <= b < strings_view(kept@).len() && a != b
                                implies strings_view(kept@)[a] != strings_view(kept@)[b] by {
                            if a < prev.len() && b < prev.len() {
                                assert(prev[a] != prev[b]);
                            } else if a < prev.len() {
                                assert(prev.contains(prev[a]));
                            } else if b < prev.len() {
                                assert(prev.contains(prev[b]));
                            }
                        }
                    }
                }
            }
            i = i + 1;
        }
        assert(src.take(src.len() as int) =~= src);
        self.pending = kept;
        self.set_misses(p, 0);
    }
}

/// A peer that answers no ping is kept through its first three missed
/// ticks and dropped at the fourth, its count starting over.
pub proof fn law_dropped_at_fourth_miss()
    ensures
        missed_once(0) == 1,
        missed_once(1) == 2,
        missed_once(2) == 3,
        0 + 1 < MAX_MISSED_PINGS && 1 + 1 < MAX_MISSED_PINGS && 2 + 1 < MAX_MISSED_PINGS,
        3 + 1 >= MAX_MISSED_PINGS && missed_once(3) == 0,
{
}


/// A peer that stays listed and answers none of the pings is dropped on
/// the tick after its fourth unanswered ping, and not before: starting
/// from a first ping (pending, no misses), four ticks see it missing, and
/// only the fourth reports it dead.
pub proof fn law_silent_peer_dropped(
    hs: Seq<HeartbeatModel>,
    peers: Seq<Seq<Seq<char>>>,
    deads: Seq<Seq<Seq<char>>>,
    p: Seq<char>,
)
    requires
        hs.len() == 5,
        peers.len() == 4,
        deads.len() == 4,
        forall|i: int| 0 <= i < 4 ==> tick_rel(#[trigger] hs[i], hs[i + 1], peers[i], deads[i]),
        forall|i: int| 0 <= i < 4 ==> #[trigger] peers[i].contains(p),
        hs[0].pending.contains(p),
        misses_of(hs[0].misses, p) == 0,
    ensures
        !deads[0].contains(p),
        !deads[1].contains(p),
        !deads[2].contains(p),
        deads[3].contains(p),
        misses_of(hs[4].misses, p) == 0,
{
    let f = |q: Seq<char>| misses_of(hs[0].misses, q) + 1 >= MAX_MISSED_PINGS;
    assert(tick_rel(hs[0], hs[1], peers[0], deads[0]));
    assert(tick_rel(hs[1], hs[2], peers[1], deads[1]));
    assert(tick_rel(hs[2], hs[3], peers[2], deads[2]));
    assert(tick_rel(hs[3], hs[4], peers[3], deads[3]));
    assert(peers[0].contains(p));
    assert(peers[1].contains(p));
    assert(peers[2].contains(p));
    assert(peers[3].contains(p));
    lemma_filter_contains(hs[0].pending, |q: Seq<char>| misses_of(hs[0].misses, q) + 1 >= MAX_MISSED_PINGS, p);
    assert(misses_of(hs[1].misses, p) == 1);
    assert(hs[1].pending.contains(p));
    lemma_filter_contains(hs[1].pending, |q: Seq<char>| misses_of(hs[1].misses, q) + 1 >= MAX_MISSED_PINGS, p);
    assert(misses_of(hs[2].misses, p) == 2);
    assert(hs[2].pending.contains(p));
    lemma_filter_contains(hs[2].pending, |q: Seq<char>| misses_of(hs[2].misses, q) + 1 >= MAX_MISSED_PINGS, p);
    assert(misses_of(hs[3].misses, p) == 3);
    assert(hs[3].pending.contains(p));
    lemma_filter_contains(hs[3].pending, |q: Seq<char>| misses_of(hs[3].misses, q) + 1 >= MAX_MISSED_PINGS, p);
}

/// An item is in a filtered sequence exactly when it is in the sequence and
/// passes the filter.
proof fn lemma_filter_contains(s: Seq<Seq<char>>, f: spec_fn(Seq<char>) -> bool, x: Seq<char>)
    ensures
        s.filter(f).contains(x) <==> s.contains(x) && f(x),
    decreases s.len(),
{
    reveal(Seq::filter);
    if s.len() > 0 {
        lemma_filter_contains(s.drop_last(), f, x);
        let t = s.drop_last();
        assert(s =~= t.push(s.last()));
        if s.contains(x) && !t.contains(x) {
            let k = choose|k: int| 0 <= k < s.len() && s[k] == x;
            if k < t.len() {
                assert(t[k] == x);
            }
        }
        if t.contains(x) {
            let k = choose|k: int| 0 <= k < t.len() && t[k] == x;
            assert(s[k] == x);
        }
        if f(s.last()) {
            let r = t.filter(f);
            assert(s.filter(f) =~= r.push(s.last()));
            if r.contains(x) {
                let k = choose|k: int| 0 <= k < r.len() && r[k] == x;
                assert(s.filter(f)[k] == x);
            }
            if s.filter(f).contains(x) && !r.contains(x) {
                let sf = s.filter(f);
                let k = choose|k: int| 0 <= k < sf.len() && sf[k] == x;
                if k < r.len() {
                    assert(r[k] == x);
                }
            }
            if x == s.last() {
                assert(s.filter(f)[r.len() as int] == x);
            }
        } else {
            assert(s.filter(f) =~= t.filter(f));
        }
    }
}

} // verus!
