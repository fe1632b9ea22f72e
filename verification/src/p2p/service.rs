//! The service layer's decisions: which pending request an answer
//! completes, how an incoming request is answered, and which peers to dial.
//!
//! The event loop that runs them (timers, the swarm, the command channel)
//! lives in the application; it performs each action decided here.

use vstd::prelude::*;
use crate::digest::{sha256_hex, sha256_hex_spec};
use crate::error::{AppError, error_text};
use crate::p2p::messages::{FileRequest, FileResponse, FileChunk, FileMeta, RsBlock, RsHave, file_meta_for,
    meta_is, chunk_count, FILE_CHUNK_SIZE};
use crate::p2p::node::{PeerTable, PeerInfo, peers_view};
use crate::p2p::peer_exchange::{PeerEntry, process_received_peers, dial_targets, entries_view, pairs_view, entry_of};
use crate::p2p::peer_store::{PersistedPeer, records_view};
use crate::renew::protocol::chunk_reply_spec;
use crate::renew::version::VersionInfo;
use crate::rs::{RsStore, RsFileEntry, strings_view, files_view, lookup, upsert_spec, announced, remaining_files,
    freed_hashes, block_hashes, copy_strings};
use crate::seqs::{any_match, first_index, is_first, lemma_first_unique, lemma_first_index, remove_where};
use crate::storage::manager::ZoneManager;
use crate::storage::metadata::{FileMetadata, metas_view};
use crate::text::{concat_str, push_decimal, decimal, str_eq};

verus! {

/// The key of a pending whole-file or metadata request: `zone:name`.
pub open spec fn file_key_spec(zone: Seq<char>, name: Seq<char>) -> Seq<char> {
    zone + ":"@ + name
}

/// The key of a pending chunk request: `zone:name:offset`.
pub open spec fn chunk_key_spec(zone: Seq<char>, name: Seq<char>, offset: nat) -> Seq<char> {
    zone + ":"@ + name + ":"@ + decimal(offset)
}

/// The key of a pending per-peer request: `peer:item`.
pub open spec fn peer_key_spec(peer: Seq<char>, item: Seq<char>) -> Seq<char> {
    peer + ":"@ + item
}

/// `s` ends with `suffix`.
pub open spec fn ends_with(s: Seq<char>, suffix: Seq<char>) -> bool {
    s.len() >= suffix.len() && s.skip(s.len() - suffix.len()) == suffix
}

/// The key of a pending whole-file or metadata request.
pub fn file_key(zone: &str, name: &str) -> (r: String)
    ensures
        r@ == file_key_spec(zone@, name@),
{
    let s = concat_str(zone, ":");
    s.concat(name)
}

/// The key of a pending chunk request.
pub fn chunk_key(zone: &str, name: &str, offset: u64) -> (r: String)
    ensures
        r@ == chunk_key_spec(zone@, name@, offset as nat),
{
    let s = file_key(zone, name);
    let mut s = s.concat(":");
    push_decimal(&mut s, offset);
    s
}

/// The key of a pending per-peer request (block availability, binary
/// chunks).
pub fn peer_key(peer: &str, item: &str) -> (r: String)
    ensures
        r@ == peer_key_spec(peer@, item@),
{
    let s = concat_str(peer, ":");
    s.concat(item)
}

/// The key of a pending binary-chunk request: `peer:offset`.
pub fn renew_chunk_key(peer: &str, offset: u64) -> (r: String)
    ensures
        r@ == peer_key_spec(peer@, decimal(offset as nat)),
{
    let mut s = concat_str(peer, ":");
    push_decimal(&mut s, offset);
    s
}

/// Whether `s` ends with `suffix`.
pub fn str_ends_with(s: &str, suffix: &str) -> (r: bool)
    ensures
        r == ends_with(s@, suffix@),
{
    let n = s.unicode_len();
    let m = suffix.unicode_len();
    if m > n {
        return false;
    }
    let base = n - m;
    let mut i: usize = 0;
    while i < m
        invariant
            n == s@.len(),
            m == suffix@.len(),
            base == n - m,
            i <= m,
            forall|j: int| 0 <= j < i ==> s@[base + j] == suffix@[j],
        decreases m - i,
    {
        if s.get_char(base + i) != suffix.get_char(i) {
            assert(s@.skip(base as int)[i as int] != suffix@[i as int]);
            return false;
        }
        i = i + 1;
    }
    assert(s@.skip(base as int) =~= suffix@);
    true
}

/// A whole-file answer for `name` completes the request for `zone:name`:
/// its key ends with `:name`.
pub proof fn law_file_key_matches_answer(zone: Seq<char>, name: Seq<char>)
    ensures
        ends_with(file_key_spec(zone, name), ":"@ + name),
{
    let k = file_key_spec(zone, name);
    let suf = ":"@ + name;
    assert(k =~= zone + suf);
    assert(k.skip(k.len() - suf.len()) =~= suf);
}

/// The entry's key is `k`.
pub open spec fn entry_key<T>(k: Seq<char>) -> spec_fn((Seq<char>, T)) -> bool {
    |e: (Seq<char>, T)| e.0 == k
}

/// The entry's key ends with `suffix`.
pub open spec fn entry_ends<T>(suffix: Seq<char>) -> spec_fn((Seq<char>, T)) -> bool {
    |e: (Seq<char>, T)| ends_with(e.0, suffix)
}

/// The value waiting under key `k`.
pub open spec fn pending_value<T>(s: Seq<(Seq<char>, T)>, k: Seq<char>) -> Option<T> {
    if any_match(s, entry_key::<T>(k)) {
        Some(s[first_index(s, entry_key::<T>(k))].1)
    } else {
        None
    }
}

/// The entries after putting `v` under `k`: the first entry with that key
/// replaced, or a new entry appended.
pub open spec fn pending_put<T>(s: Seq<(Seq<char>, T)>, k: Seq<char>, v: T) -> Seq<(Seq<char>, T)> {
    if any_match(s, entry_key::<T>(k)) {
        s.update(first_index(s, entry_key::<T>(k)), (k, v))
    } else {
        s.push((k, v))
    }
}

/// Requests waiting for their answer, each under a key; `T` is what
/// receives the answer.
#[derive(Debug)]
pub struct PendingTable<T> {
    entries: Vec<(String, T)>,
}

/// The views of the entries.
pub open spec fn pending_view<T>(v: Seq<(String, T)>) -> Seq<(Seq<char>, T)> {
    v.map_values(|e: (String, T)| (e.0@, e.1))
}

impl<T> View for PendingTable<T> {
    type V = Seq<(Seq<char>, T)>;

    closed spec fn view(&self) -> Seq<(Seq<char>, T)> {
        pending_view(self.entries@)
    }
}

impl<T> PendingTable<T> {
    /// No request is waiting.
    pub fn new() -> (t: Self)
        ensures
            t@.len() == 0,
    {
        let t = PendingTable { entries: Vec::new() };
        assert(t@ =~= Seq::<(Seq<char>, T)>::empty());
        t
    }

    /// The number of waiting requests.
    pub fn len(&self) -> (r: usize)
        ensures
            r == self@.len(),
    {
        self.entries.len()
    }

    fn find(&self, key: &str) -> (r: Option<usize>)
        ensures
            match r {
                Some(i) => is_first(self@, entry_key::<T>(key@), i as int),
                None => !any_match(self@, entry_key::<T>(key@)),
            },
    {
        let mut i: usize = 0;
        while i < self.entries.len()
            invariant
                i <= self.entries@.len(),
                forall|j: int| 0 <= j < i ==> !entry_key::<T>(key@)(#[trigger] self@[j]),
            decreases self.entries@.len() - i,
        {
            if str_eq(self.entries[i].0.as_str(), key) {
                return Some(i);
            }
            i = i + 1;
        }
        proof {
            if any_match(self@, entry_key::<T>(key@)) {
                let k = choose|k: int| 0 <= k < self@.len() && entry_key::<T>(key@)(#[trigger] self@[k]);
                assert(!entry_key::<T>(key@)(self@[k]));
            }
        }
        None
    }

    /// Puts a request under `key`; a request already waiting under it is
    /// replaced and returned.
    pub fn insert(&mut self, key: String, value: T) -> (old_value: Option<T>)
        ensures
            final(self)@ == pending_put(old(self)@, key@, value),
            old_value == pending_value(old(self)@, key@),
    {
        let ghost s = self@;
        let ghost kv = key@;
        match self.find(key.as_str()) {
            Some(i) => {
                proof {
                    lemma_first_unique(s, entry_key::<T>(kv), i as int);
                }
                let ghost vv = value;
                let removed = self.entries.remove(i);
                self.entries.insert(i, (key, value));
                assert(self@ =~= s.update(i as int, (kv, vv)));
                Some(removed.1)
            },
            None => {
                self.entries.push((key, value));
                assert(self@ =~= s.push((kv, value)));
                None
            },
        }
    }
}

impl<T> PendingTable<T> {
    /// Takes the request waiting under `key`: every entry with that key
    /// leaves the table, and the first one's receiver is returned.
    pub fn take(&mut self, key: &str) -> (r: Option<T>)
        ensures
            r == pending_value(old(self)@, key@),
            final(self)@ == remove_where(old(self)@, entry_key::<T>(key@)),
    {
        let ghost s = self@;
        let mut taken: Option<T> = None;
        let mut kept: Vec<(String, T)> = Vec::new();
        let mut rest: Vec<(String, T)> = Vec::new();
        std::mem::swap(&mut rest, &mut self.entries);
        assert(pending_view(rest@) == s);
        let mut i: usize = 0;
        let n = rest.len();
        let mut it = rest;
        assert(pending_view(it@) =~= s.skip(0));
        while i < n
            invariant
                n == s.len(),
                i <= n,
                pending_view(it@) =~= s.skip(i as int),
                it@.len() == n - i,
                pending_view(kept@) == remove_where(s.take(i as int), entry_key::<T>(key@)),
                taken == (if any_match(s.take(i as int), entry_key::<T>(key@)) {
                    Some(s[first_index(s.take(i as int), entry_key::<T>(key@))].1)
                } else {
                    None::<T>
                }),
                self@.len() == 0,
            decreases n - i,
        {
            let ghost before = it@;
            let e = it.remove(0);
            let ghost ev = (e.0@, e.1);
            proof {
                assert(pending_view(before)[0] == ev);
                assert(s.skip(i as int)[0] == s[i as int]);
                assert(ev == s[i as int]);
                assert(s.skip(i as int).remove(0) =~= s.skip(i + 1));
                reveal(Seq::filter);
                assert(s.take(i + 1).drop_last() =~= s.take(i as int));
                let t0 = s.take(i as int);
                let t1 = s.take(i + 1);
                if any_match(t0, entry_key::<T>(key@)) {
                    lemma_first_index(t0, entry_key::<T>(key@));
                    let f = first_index(t0, entry_key::<T>(key@));
                    assert(t1[f] == t0[f]);
                    assert forall|j: int| 0 <= j < f implies !entry_key::<T>(key@)(#[trigger] t1[j]) by {
                        assert(t1[j] == t0[j]);
                    }
                    assert(is_first(t1, entry_key::<T>(key@), f));
                    lemma_first_unique(t1, entry_key::<T>(key@), f);
                    assert(t0[f] == s[f]);
                } else if entry_key::<T>(key@)(s[i as int]) {
                    assert forall|j: int| 0 <= j < i implies !entry_key::<T>(key@)(#[trigger] t1[j]) by {
                        assert(t1[j] == t0[j]);
                        if entry_key::<T>(key@)(t0[j]) {
                            assert(any_match(t0, entry_key::<T>(key@)));
                        }
                    }
                    assert(t1[i as int] == s[i as int]);
                    assert(is_first(t1, entry_key::<T>(key@), i as int));
                    lemma_first_unique(t1, entry_key::<T>(key@), i as int);
                } else {
                    if any_match(t1, entry_key::<T>(key@)) {
                        let k = choose|k: int| 0 <= k < t1.len() && entry_key::<T>(key@)(#[trigger] t1[k]);
                        if k < i {
                            assert(t0[k] == t1[k]);
                            assert(any_match(t0, entry_key::<T>(key@)));
                        }
                    }
                }
            }
            if str_eq(e.0.as_str(), key) {
                if taken.is_none() {
                    taken = Some(e.1);
                }
            } else {
                let ghost prev = kept@;
                kept.push(e);
                assert(pending_view(kept@) =~= pending_view(prev).push(s[i as int]));
            }
            i = i + 1;
        }
        assert(s.take(n as int) =~= s);
        self.entries = kept;
        taken
    }

    /// Takes the first waiting request whose key ends with `suffix`, with
    /// its key.
    pub fn take_suffix(&mut self, suffix: &str) -> (r: Option<(String, T)>)
        ensures
            match r {
                Some(e) => any_match(old(self)@, entry_ends::<T>(suffix@)) && ({
                    let i = first_index(old(self)@, entry_ends::<T>(suffix@));
                    &&& (e.0@, e.1) == old(self)@[i]
                    &&& final(self)@ == old(self)@.remove(i)
                }),
                None => !any_match(old(self)@, entry_ends::<T>(suffix@)) && final(self)@ == old(self)@,
            },
    {
        let ghost s = self@;
        let mut i: usize = 0;
        while i < self.entries.len()
            invariant
                s == self@,
                s == old(self)@,
                i <= self.entries@.len(),
                forall|j: int| 0 <= j < i ==> !entry_ends::<T>(suffix@)(#[trigger] s[j]),
            decreases self.entries@.len() - i,
        {
            if str_ends_with(self.entries[i].0.as_str(), suffix) {
                proof {
                    assert(is_first(s, entry_ends::<T>(suffix@), i as int));
                    assert(entry_ends::<T>(suffix@)(s[i as int]));
                    assert(any_match(s, entry_ends::<T>(suffix@)));
                    lemma_first_unique(s, entry_ends::<T>(suffix@), i as int);
                }
                let ghost before = self.entries@;
                let e = self.entries.remove(i);
                assert(self@ =~= s.remove(i as int));
                assert(pending_view(before)[i as int] == (e.0@, e.1));
                return Some(e);
            }
            i = i + 1;
        }
        proof {
            if any_match(s, entry_ends::<T>(suffix@)) {
                let k = choose|k: int| 0 <= k < s.len() && entry_ends::<T>(suffix@)(#[trigger] s[k]);
                assert(!entry_ends::<T>(suffix@)(s[k]));
            }
        }
        None
    }

    /// Takes every waiting request (to fail them all), in order.
    pub fn drain(&mut self) -> (r: Vec<T>)
        ensures
            final(self)@.len() == 0,
            r@ == old(self)@.map_values(|e: (Seq<char>, T)| e.1),
    {
        let ghost s = self@;
        let mut rest: Vec<(String, T)> = Vec::new();
        std::mem::swap(&mut rest, &mut self.entries);
        assert(self@ =~= Seq::<(Seq<char>, T)>::empty());
        let n = rest.len();
        assert(pending_view(rest@) =~= s.skip(0));
        let mut out: Vec<T> = Vec::new();
        let mut i: usize = 0;
        while i < n
            invariant
                n == s.len(),
                i <= n,
                pending_view(rest@) =~= s.skip(i as int),
                rest@.len() == n - i,
                out@ =~= s.take(i as int).map_values(|e: (Seq<char>, T)| e.1),
                self@.len() == 0,
            decreases n - i,
        {
            let e = rest.remove(0);
            proof {
                assert(s.skip(i as int)[0] == s[i as int]);
                assert(s.skip(i as int).remove(0) =~= s.skip(i + 1));
            }
            out.push(e.1);
            i = i + 1;
        }
        assert(s.take(n as int) =~= s);
        out
    }
}

/// What answering an incoming request takes.
#[derive(Debug)]
pub enum IncomingAction {
    /// The answer, ready to send.
    Reply(FileResponse),
    /// Read the zone's file list, then answer with `finish_list_files`.
    ListFiles { zone: String },
    /// Read the file, then answer with `finish_get_file`.
    ReadFile { zone: String, name: String },
    /// Read the zone's file list, then answer with `finish_file_meta`.
    FileMeta { zone: String, name: String },
    /// Read the chunk, then answer with `finish_chunk`.
    ReadChunk { zone: String, name: String, offset: u64, size: u64 },
    /// Read the block, then answer with `finish_block`.
    ReadBlock { hash: String },
    /// Read the blocks, then answer with `finish_blocks`.
    ReadBlocks { hashes: Vec<String> },
    /// The announced metadata was recorded: persist it and answer `RsOk`.
    Announced,
    /// The file was deleted: delete these freed blocks, persist and answer
    /// `RsOk`.
    Deleted { freed: Vec<String> },
    /// Read this node's version, then answer with `finish_version`.
    Version,
    /// Read a chunk of this node's binary, then answer with
    /// `finish_binary_chunk`.
    BinaryChunk { offset: u64, length: u32 },
}

/// The text `prefix` followed by an error's text.
pub open spec fn failed_text(prefix: Seq<char>, e: AppError) -> Seq<char> {
    prefix + error_text(e)
}

fn failed(prefix: &str, e: &AppError) -> (r: String)
    ensures
        r@ == failed_text(prefix@, *e),
{
    let m = e.message();
    concat_str(prefix, m.as_str())
}

/// The text for a missing zone.
pub open spec fn zone_missing_text(zone: Seq<char>) -> Seq<char> {
    "Zone '"@ + zone + "' not found"@
}

fn zone_missing(zone: &String) -> (r: FileResponse)
    ensures
        r matches FileResponse::Error(m) && m@ == zone_missing_text(zone@),
{
    let m = concat_str("Zone '", zone.as_str());
    FileResponse::Error(m.concat("' not found"))
}

/// Decides how to answer an incoming request. RS requests are answered
/// from (and applied to) the store; zone requests name a zone that must
/// exist; the rest need reads that the application makes.
pub fn plan_incoming(zones: &ZoneManager, store: &mut RsStore, request: FileRequest) -> (r: IncomingAction)
    requires
        zones.wf(),
    ensures
        match request {
            FileRequest::RsAnnounce { file } => final(store)@.files == upsert_spec(
                old(store)@.files,
                announced(file@, old(store)@.blocks),
            ) && final(store)@.blocks == old(store)@.blocks,
            FileRequest::RsDelete { name } => final(store)@.files == remaining_files(old(store)@.files, name@),
            _ => final(store)@ == old(store)@,
        },
        match request {
            FileRequest::Ping => r matches IncomingAction::Reply(FileResponse::Pong),
            FileRequest::ListZones => r matches IncomingAction::Reply(FileResponse::Zones(z)) && strings_view(z@)
                == zones@.zones,
            FileRequest::ListFiles { zone } => if zones@.zones.contains(zone@) {
                r matches IncomingAction::ListFiles { zone: z } && z@ == zone@
            } else {
                r matches IncomingAction::Reply(FileResponse::Error(m)) && m@ == zone_missing_text(zone@)
            },
            FileRequest::GetFile { zone, name } => if zones@.zones.contains(zone@) {
                r matches IncomingAction::ReadFile { zone: z, name: n } && z@ == zone@ && n@ == name@
            } else {
                r matches IncomingAction::Reply(FileResponse::Error(m)) && m@ == zone_missing_text(zone@)
            },
            FileRequest::GetFileMeta { zone, name } => if zones@.zones.contains(zone@) {
                r matches IncomingAction::FileMeta { zone: z, name: n } && z@ == zone@ && n@ == name@
            } else {
                r matches IncomingAction::Reply(FileResponse::Error(m)) && m@ == zone_missing_text(zone@)
            },
            FileRequest::GetFileChunk { zone, name, offset, size } => if zones@.zones.contains(zone@) {
                r matches IncomingAction::ReadChunk { zone: z, name: n, offset: o, size: sz } && z@ == zone@ && n@
                    == name@ && o == offset && sz == size
            } else {
                r matches IncomingAction::Reply(FileResponse::Error(m)) && m@ == zone_missing_text(zone@)
            },
            FileRequest::RsList => r matches IncomingAction::Reply(FileResponse::RsFiles(f)) && files_view(f@)
                == old(store)@.files,
            FileRequest::RsAnnounce { .. } => r is Announced,
            FileRequest::RsGetMeta { name } => match lookup(old(store)@.files, name@) {
                Some(e) => r matches IncomingAction::Reply(FileResponse::RsMeta(f)) && f@ == e,
                None => r matches IncomingAction::Reply(FileResponse::Error(m)) && m@ == "RS file '"@ + name@
                    + "' not found"@,
            },
            FileRequest::RsGetBlock { hash } => r matches IncomingAction::ReadBlock { hash: h } && h@ == hash@,
            FileRequest::RsGetBlocks { hashes } => r matches IncomingAction::ReadBlocks { hashes: h } && strings_view(
                h@,
            ) == strings_view(hashes@),
            FileRequest::RsDelete { name } => r matches IncomingAction::Deleted { freed } && strings_view(freed@)
                == freed_hashes(old(store)@.files, name@),
            FileRequest::RsHave { name } => match lookup(old(store)@.files, name@) {
                Some(e) => r matches IncomingAction::Reply(FileResponse::RsHave(h)) && h.name@ == name@
                    && strings_view(h.hashes@) == block_hashes(e.blocks).filter(
                    |x: Seq<char>| old(store)@.blocks.contains(x),
                ),
                None => r matches IncomingAction::Reply(FileResponse::Error(m)) && m@
                    == "Failed to read RS block availability: "@ + "IO error: "@ + "RS file not found"@,
            },
            FileRequest::GetPeers => r matches IncomingAction::Reply(FileResponse::Error(m)) && m@
                == "GetPeers should be handled inline"@,
            FileRequest::RenewGetVersion => r is Version,
            FileRequest::RenewGetBinaryChunk { offset, length } => r matches IncomingAction::BinaryChunk {
                offset: o,
                length: l,
            } && o == offset && l == length,
        },
{
    match request {
        FileRequest::Ping => IncomingAction::Reply(FileResponse::Pong),
        FileRequest::ListZones => {
            let names = zones.list_zones();
            let mut out: Vec<String> = Vec::new();
            let mut i: usize = 0;
            while i < names.len()
                invariant
                    names@.len() == zones@.zones.len(),
                    forall|k: int| 0 <= k < names@.len() ==> (#[trigger] names@[k])@ == zones@.zones[k],
                    i <= names@.len(),
                    strings_view(out@) =~= zones@.zones.take(i as int),
                decreases names@.len() - i,
            {
                let ghost prev = out@;
                out.push(String::from_str(names[i]));
                assert(strings_view(out@) =~= strings_view(prev).push(zones@.zones[i as int]));
                i = i + 1;
            }
            assert(zones@.zones.take(zones@.zones.len() as int) =~= zones@.zones);
            IncomingAction::Reply(FileResponse::Zones(out))
        },
        FileRequest::ListFiles { zone } => {
            if zones.has_zone(zone.as_str()) {
                IncomingAction::ListFiles { zone }
            } else {
                IncomingAction::Reply(zone_missing(&zone))
            }
        },
        FileRequest::GetFile { zone, name } => {
            if zones.has_zone(zone.as_str()) {
                IncomingAction::ReadFile { zone, name }
            } else {
                IncomingAction::Reply(zone_missing(&zone))
            }
        },
        FileRequest::GetFileMeta { zone, name } => {
            if zones.has_zone(zone.as_str()) {
                IncomingAction::FileMeta { zone, name }
            } else {
                IncomingAction::Reply(zone_missing(&zone))
            }
        },
        FileRequest::GetFileChunk { zone, name, offset, size } => {
            if zones.has_zone(zone.as_str()) {
                IncomingAction::ReadChunk { zone, name, offset, size }
            } else {
                IncomingAction::Reply(zone_missing(&zone))
            }
        },
        FileRequest::RsList => IncomingAction::Reply(FileResponse::RsFiles(store.list_files())),
        FileRequest::RsAnnounce { file } => {
            store.apply_remote_meta(file);
            IncomingAction::Announced
        },
        FileRequest::RsGetMeta { name } => match store.get_file(name.as_str()) {
            Some(f) => IncomingAction::Reply(FileResponse::RsMeta(f)),
            None => {
                let m = concat_str("RS file '", name.as_str());
                IncomingAction::Reply(FileResponse::Error(m.concat("' not found")))
            },
        },
        FileRequest::RsGetBlock { hash } => IncomingAction::ReadBlock { hash },
        FileRequest::RsGetBlocks { hashes } => IncomingAction::ReadBlocks { hashes },
        FileRequest::RsDelete { name } => {
            let freed = store.remove_file(name.as_str());
            IncomingAction::Deleted { freed }
        },
        FileRequest::RsHave { name } => match store.file_block_hashes(name.as_str()) {
            Ok(hashes) => IncomingAction::Reply(FileResponse::RsHave(RsHave { name, hashes })),
            Err(e) => IncomingAction::Reply(FileResponse::Error(failed("Failed to read RS block availability: ", &e))),
        },
        FileRequest::GetPeers => IncomingAction::Reply(
            FileResponse::Error(String::from_str("GetPeers should be handled inline")),
        ),
        FileRequest::RenewGetVersion => IncomingAction::Version,
        FileRequest::RenewGetBinaryChunk { offset, length } => IncomingAction::BinaryChunk { offset, length },
    }
}

/// The answer to a file-list request, given the zone's list or the error
/// reading it.
pub fn finish_list_files(zone: String, result: Result<Vec<FileMetadata>, AppError>) -> (r: FileResponse)
    ensures
        match result {
            Ok(files) => r matches FileResponse::Files { zone: z, files: f } && z@ == zone@ && f@ == files@,
            Err(e) => r matches FileResponse::Error(m) && m@ == failed_text("Failed to list files: "@, e),
        },
{
    match result {
        Ok(files) => FileResponse::Files { zone, files },
        Err(e) => FileResponse::Error(failed("Failed to list files: ", &e)),
    }
}

/// The answer to a whole-file request: the content with its SHA-256, or
/// the error reading it.
pub fn finish_get_file(name: String, result: Result<Vec<u8>, AppError>) -> (r: FileResponse)
    ensures
        match result {
            Ok(content) => r matches FileResponse::FileData { name: n, content: c, hash } && n@ == name@ && c@
                == content@ && hash@ == sha256_hex_spec(content@),
            Err(e) => r matches FileResponse::Error(m) && m@ == failed_text("Failed to get file: "@, e),
        },
{
    match result {
        Ok(content) => {
            let hash = sha256_hex(content.as_slice());
            FileResponse::FileData { name, content, hash }
        },
        Err(e) => FileResponse::Error(failed("Failed to get file: ", &e)),
    }
}

/// The answer to a metadata request, given the zone's list or the error
/// reading it.
pub fn finish_file_meta(zone: String, name: String, result: Result<Vec<FileMetadata>, AppError>) -> (r: FileResponse)
    ensures
        match result {
            Ok(files) => if any_match(metas_view(files@), meta_is(name@)) {
                r matches FileResponse::FileMeta(m) && m.zone@ == zone@ && m.chunk_size == FILE_CHUNK_SIZE && ({
                    let f = metas_view(files@)[first_index(metas_view(files@), meta_is(name@))];
                    &&& m.name@ == f.name
                    &&& m.size == f.size
                    &&& m.hash@ == f.content_hash
                    &&& m.chunks as nat == chunk_count(f.size as nat, FILE_CHUNK_SIZE as nat)
                })
            } else {
                r matches FileResponse::Error(m) && m@ == "File '"@ + name@ + "' not found"@
            },
            Err(e) => r matches FileResponse::Error(m) && m@ == failed_text("Failed to list files: "@, e),
        },
{
    match result {
        Ok(files) => match file_meta_for(zone.as_str(), &files, name.as_str()) {
            Some(m) => FileResponse::FileMeta(m),
            None => {
                let m = concat_str("File '", name.as_str());
                FileResponse::Error(m.concat("' not found"))
            },
        },
        Err(e) => FileResponse::Error(failed("Failed to list files: ", &e)),
    }
}

/// The answer to a chunk request: the data with its SHA-256, or the error
/// reading it.
pub fn finish_chunk(zone: String, name: String, offset: u64, result: Result<Vec<u8>, AppError>) -> (r: FileResponse)
    ensures
        match result {
            Ok(data) => r matches FileResponse::FileChunk(c) && c.zone@ == zone@ && c.name@ == name@ && c.offset
                == offset && c.data@ == data@ && c.hash@ == sha256_hex_spec(data@),
            Err(e) => r matches FileResponse::Error(m) && m@ == failed_text("Failed to read chunk: "@, e),
        },
{
    match result {
        Ok(data) => {
            let hash = sha256_hex(data.as_slice());
            FileResponse::FileChunk(FileChunk { zone, name, offset, data, hash })
        },
        Err(e) => FileResponse::Error(failed("Failed to read chunk: ", &e)),
    }
}

/// The answer to a block request.
pub fn finish_block(hash: String, result: Result<Vec<u8>, AppError>) -> (r: FileResponse)
    ensures
        match result {
            Ok(data) => r matches FileResponse::RsBlock(b) && b.hash@ == hash@ && b.data@ == data@,
            Err(e) => r matches FileResponse::Error(m) && m@ == failed_text("Failed to read RS block: "@, e),
        },
{
    match result {
        Ok(data) => FileResponse::RsBlock(RsBlock { hash, data }),
        Err(e) => FileResponse::Error(failed("Failed to read RS block: ", &e)),
    }
}

/// A read failed.
pub open spec fn read_failed() -> spec_fn(Result<Vec<u8>, AppError>) -> bool {
    |x: Result<Vec<u8>, AppError>| x is Err
}

/// The answer to a many-blocks request, given the read of each block in
/// order: the blocks, or the first error.
pub fn finish_blocks(hashes: Vec<String>, reads: Vec<Result<Vec<u8>, AppError>>) -> (r: FileResponse)
    requires
        reads@.len() == hashes@.len(),
    ensures
        any_match(reads@, read_failed()) ==> (r matches FileResponse::Error(m) && (
            reads@[first_index(reads@, read_failed())] matches Err(e) && m@ == failed_text(
                "Failed to read RS block: "@,
                e,
            ))),
        !any_match(reads@, read_failed()) ==> (r matches FileResponse::RsBlocks(bs) && bs@.len() == hashes@.len()
            && forall|i: int|
            0 <= i < bs@.len() ==> (#[trigger] bs@[i]).hash@ == hashes@[i]@ && (reads@[i] matches Ok(d) && bs@[i].data@
                == d@)),
{
    let ghost rv = reads@;
    let ghost hv = hashes@;
    let mut blocks: Vec<RsBlock> = Vec::new();
    let mut hs = hashes;
    let mut rs = reads;
    let n = rs.len();
    let mut i: usize = 0;
    assert(rs@ =~= rv.skip(0));
    assert(hs@ =~= hv.skip(0));
    while i < n
        invariant
            n == rv.len(),
            n == hv.len(),
            rv == reads@,
            hv == hashes@,
            i <= n,
            rs@ =~= rv.skip(i as int),
            hs@ =~= hv.skip(i as int),
            rs@.len() == n - i,
            hs@.len() == n - i,
            forall|j: int| 0 <= j < i ==> !read_failed()(#[trigger] rv[j]),
            blocks@.len() == i,
            forall|j: int|
                0 <= j < i ==> (#[trigger] blocks@[j]).hash@ == hv[j]@ && (rv[j] matches Ok(d) && blocks@[j].data@ == d@),
        decreases n - i,
    {
        let ghost rbefore = rs@;
        let ghost hbefore = hs@;
        let x = rs.remove(0);
        let h = hs.remove(0);
        assert(rbefore[0] == rv[i as int]);
        assert(hbefore[0] == hv[i as int]);
        assert(rs@ =~= rv.skip(i + 1));
        assert(hs@ =~= hv.skip(i + 1));
        match x {
            Ok(data) => {
                blocks.push(RsBlock { hash: h, data });
            },
            Err(e) => {
                proof {
                    assert(is_first(rv, read_failed(), i as int));
                    assert(any_match(rv, read_failed()));
                    lemma_first_unique(rv, read_failed(), i as int);
                }
                return FileResponse::Error(failed("Failed to read RS block: ", &e));
            },
        }
        i = i + 1;
    }
    proof {
        if any_match(rv, read_failed()) {
            let k = choose|k: int| 0 <= k < rv.len() && read_failed()(#[trigger] rv[k]);
            assert(!read_failed()(rv[k]));
        }
    }
    FileResponse::RsBlocks(blocks)
}

/// The answer to a version request.
pub fn finish_version(result: Result<VersionInfo, AppError>) -> (r: FileResponse)
    ensures
        match result {
            Ok(v) => r == FileResponse::RenewVersion(v),
            Err(e) => r matches FileResponse::Error(m) && m@ == failed_text("Failed to get version: "@, e),
        },
{
    match result {
        Ok(v) => FileResponse::RenewVersion(v),
        Err(e) => FileResponse::Error(failed("Failed to get version: ", &e)),
    }
}

/// The answer to a binary-chunk request, given the binary's size and the
/// bytes read at `offset`, or the error reading them.
pub fn finish_binary_chunk(offset: u64, result: Result<(u64, Vec<u8>), AppError>) -> (r: FileResponse)
    ensures
        match result {
            Ok((size, read)) => r matches FileResponse::RenewBinaryChunk { offset: o, data, is_last } && o == offset
                && (data@, is_last) == chunk_reply_spec(offset, size, read@),
            Err(e) => r matches FileResponse::Error(m) && m@ == failed_text("Failed to get binary chunk: "@, e),
        },
{
    match result {
        Ok((size, read)) => {
            if offset >= size {
                return FileResponse::RenewBinaryChunk { offset, data: Vec::new(), is_last: true };
            }
            let is_last = offset as u128 + read.len() as u128 >= size as u128;
            FileResponse::RenewBinaryChunk { offset, data: read, is_last }
        },
        Err(e) => FileResponse::Error(failed("Failed to get binary chunk: ", &e)),
    }
}

/// The answer to a request for known peers: every peer in the table, then
/// this node itself when it listens on some address.
pub fn peers_reply(table: &PeerTable, local_peer_id: &str, local_addrs: &Vec<String>) -> (r: FileResponse)
    ensures
        r matches FileResponse::Peers(entries) && ({
            let known = table@.map_values(|p: crate::p2p::node::PeerModel| entry_of(p));
            if local_addrs@.len() > 0 {
                entries_view(entries@) == known.push(
                    crate::p2p::peer_exchange::EntryModel { peer_id: local_peer_id@, addrs: strings_view(local_addrs@) },
                )
            } else {
                entries_view(entries@) == known
            }
        }),
{
    let peers = table.get_peers();
    let mut entries = PeerEntry::from_peer_list(&peers);
    if local_addrs.len() > 0 {
        let ghost prev = entries@;
        entries.push(PeerEntry { peer_id: String::from_str(local_peer_id), addrs: copy_strings(local_addrs) });
        assert(entries_view(entries@) =~= entries_view(prev).push(
            crate::p2p::peer_exchange::EntryModel { peer_id: local_peer_id@, addrs: strings_view(local_addrs@) },
        ));
    }
    FileResponse::Peers(entries)
}

/// The dials that reconnect to persisted peers: for each record in turn,
/// its id and first valid address when the id parses and is neither this
/// node nor a connected peer.
pub fn reconnect_targets(local_peer_id: &str, persisted: &Vec<PersistedPeer>, known: &Vec<String>) -> (r: Vec<
    (String, String),
>)
    ensures
        pairs_view(r@) == dial_targets(
            records_view(persisted@).map_values(
                |p: crate::p2p::peer_store::PeerRecord| crate::p2p::peer_exchange::EntryModel {
                    peer_id: p.peer_id,
                    addrs: p.addrs,
                },
            ),
            local_peer_id@,
            strings_view(known@),
        ),
{
    let ghost conv = records_view(persisted@).map_values(
        |p: crate::p2p::peer_store::PeerRecord| crate::p2p::peer_exchange::EntryModel { peer_id: p.peer_id, addrs: p.addrs },
    );
    let mut entries: Vec<PeerEntry> = Vec::new();
    let mut i: usize = 0;
    while i < persisted.len()
        invariant
            conv == records_view(persisted@).map_values(
                |p: crate::p2p::peer_store::PeerRecord| crate::p2p::peer_exchange::EntryModel { peer_id: p.peer_id, addrs: p.addrs },
            ),
            i <= persisted@.len(),
            entries_view(entries@) =~= conv.take(i as int),
        decreases persisted@.len() - i,
    {
        let ghost prev = entries@;
        entries.push(PeerEntry { peer_id: persisted[i].peer_id.clone(), addrs: copy_strings(&persisted[i].addrs) });
        assert(entries_view(entries@) =~= entries_view(prev).push(conv[i as int]));
        i = i + 1;
    }
    assert(conv.take(conv.len() as int) =~= conv);
    process_received_peers(local_peer_id, &entries, known)
}

} // verus!
