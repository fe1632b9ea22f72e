//! Rules of the terminal UI's downloads: resuming a chunked download,
//! checking each chunk, and scheduling RS block fetches with retries.

use vstd::prelude::*;
use crate::digest::{sha256_hex, sha256_hex_spec};
use crate::error::AppError;
use crate::p2p::messages::{FileChunk, FileMeta};
use crate::rs::{strings_view, RsFileEntry, RsBlockEntry, BlockModel, blocks_view, RsStore, copy_strings};
use crate::rs::sync::{sort_strings, sorted_strings, members_spec};
use crate::text::str_eq;
use crate::seqs::{any_match, first_index, is_first, lemma_first_index, lemma_first_unique};

verus! {

/// What a partial download records beside its `.part` file.
#[derive(Debug, Clone, PartialEq, Eq)]
pub struct ResumeMeta {
    pub zone: String,
    pub name: String,
    pub size: u64,
    pub hash: String,
    pub chunk_size: u64,
}

impl ResumeMeta {
    /// The record for a download of the file a peer described.
    pub fn of(meta: &FileMeta) -> (r: Self)
        ensures
            r.zone@ == meta.zone@,
            r.name@ == meta.name@,
            r.size == meta.size,
            r.hash@ == meta.hash@,
            r.chunk_size == meta.chunk_size,
    {
        ResumeMeta {
            zone: meta.zone.clone(),
            name: meta.name.clone(),
            size: meta.size,
            hash: meta.hash.clone(),
            chunk_size: meta.chunk_size,
        }
    }

    /// Whether a saved record describes the same download.
    pub fn same_download(&self, other: &Self) -> (r: bool)
        ensures
            r == (self.zone@ == other.zone@ && self.name@ == other.name@ && self.size == other.size && self.hash@
                == other.hash@ && self.chunk_size == other.chunk_size),
    {
        self.zone == other.zone && self.name == other.name && self.size == other.size && self.hash == other.hash
            && self.chunk_size == other.chunk_size
    }
}

/// Where a download resumes: at the last whole chunk of the partial file
/// (but not past the file's size) when the saved record matches, else at
/// the start.
pub open spec fn resume_at(matches: bool, part_len: nat, chunk: nat, size: nat) -> nat {
    if matches {
        let aligned = (part_len / chunk) * chunk;
        if aligned < size {
            aligned
        } else {
            size
        }
    } else {
        0
    }
}

/// The offset a download resumes at, and the length the partial file is
/// cut to (its last whole chunk).
pub fn resume_offset(matches: bool, part_len: u64, chunk_size: u64, size: u64) -> (r: (u64, u64))
    requires
        matches ==> chunk_size > 0,
    ensures
        r.0 == resume_at(matches, part_len as nat, chunk_size as nat, size as nat),
        matches ==> r.1 == (part_len / chunk_size) * chunk_size,
{
    if !matches {
        return (0, part_len);
    }
    let q = part_len / chunk_size;
    assert(q * chunk_size <= part_len) by (nonlinear_arith)
        requires
            q == part_len / chunk_size,
            chunk_size > 0,
    ;
    let aligned = q * chunk_size;
    let off = if aligned < size {
        aligned
    } else {
        size
    };
    (off, aligned)
}

/// The length of the next chunk to ask for at `offset`.
pub fn next_chunk_len(offset: u64, size: u64, chunk_size: u64) -> (r: u64)
    requires
        offset < size,
    ensures
        r == if chunk_size < size - offset { chunk_size as int } else { size - offset },
{
    let remaining = size - offset;
    if chunk_size < remaining {
        chunk_size
    } else {
        remaining
    }
}

/// Attempts per chunk before a download fails.
pub const CHUNK_ATTEMPTS: u32 = 3;

/// What to do with a received chunk.
#[derive(Debug, PartialEq, Eq)]
pub enum ChunkVerdict {
    /// Keep it.
    Accept,
    /// Ask for it again.
    Retry,
    /// Give the download up with this error.
    Fail(AppError),
}

/// Checks the chunk received on attempt `attempt` (from 1) for `offset`: a
/// chunk for another offset fails the download; one whose data does not
/// hash to its stated hash is asked for again until the third attempt.
pub fn check_chunk(offset: u64, chunk: &FileChunk, attempt: u32) -> (r: ChunkVerdict)
    ensures
        chunk.offset != offset ==> (r matches ChunkVerdict::Fail(AppError::Io(m)) && m@ == "Chunk offset mismatch"@),
        chunk.offset == offset && sha256_hex_spec(chunk.data@) == chunk.hash@ ==> r == ChunkVerdict::Accept,
        chunk.offset == offset && sha256_hex_spec(chunk.data@) != chunk.hash@ && attempt < CHUNK_ATTEMPTS ==> r
            == ChunkVerdict::Retry,
        chunk.offset == offset && sha256_hex_spec(chunk.data@) != chunk.hash@ && attempt >= CHUNK_ATTEMPTS ==> (r
            matches ChunkVerdict::Fail(AppError::Io(m)) && m@ == "Chunk hash verification failed"@),
{
    if chunk.offset != offset {
        return ChunkVerdict::Fail(AppError::Io(String::from_str("Chunk offset mismatch")));
    }
    let h = sha256_hex(chunk.data.as_slice());
    if h == chunk.hash {
        return ChunkVerdict::Accept;
    }
    if attempt >= CHUNK_ATTEMPTS {
        return ChunkVerdict::Fail(AppError::Io(String::from_str("Chunk hash verification failed")));
    }
    ChunkVerdict::Retry
}

/// Checks a finished download against the hash its peer announced.
pub fn check_download(content: &[u8], expected_hash: &str) -> (r: Result<(), AppError>)
    ensures
        sha256_hex_spec(content@) == expected_hash@ ==> r is Ok,
        sha256_hex_spec(content@) != expected_hash@ ==> (r matches Err(AppError::Io(m)) && m@
            == "File hash mismatch after download"@),
{
    let h = sha256_hex(content);
    if str_eq(h.as_str(), expected_hash) {
        Ok(())
    } else {
        Err(AppError::Io(String::from_str("File hash mismatch after download")))
    }
}

/// The most block fetches in flight: the concurrency (at least one) per
/// peer, and never more than 32.
pub fn download_limit(concurrency: usize, peer_count: usize) -> (r: usize)
    ensures
        r == if (if concurrency > 1 { concurrency as int } else { 1 }) * peer_count < 32 {
            (if concurrency > 1 { concurrency as int } else { 1 }) * peer_count
        } else {
            32
        },
{
    let c: u128 = if concurrency > 1 {
        concurrency as u128
    } else {
        1
    };
    assert(c * (peer_count as u128) <= 0xffff_ffff_ffff_ffff * 0xffff_ffff_ffff_ffff) by (nonlinear_arith)
        requires
            c <= 0xffff_ffff_ffff_ffff,
            peer_count <= 0xffff_ffff_ffff_ffff,
    ;
    let total = c * peer_count as u128;
    if total < 32 {
        total as usize
    } else {
        32
    }
}

/// Attempts per block before an RS download fails.
pub const BLOCK_ATTEMPTS: u8 = 6;

/// A block waiting to be fetched, with its failed attempts.
#[derive(Debug, Clone, PartialEq, Eq)]
pub struct PendingBlock {
    pub hash: String,
    pub size: u64,
    pub attempts: u8,
}

/// The blocks of an entry that are not present locally, in order, none
/// tried yet.
pub fn blocks_to_fetch(store: &RsStore, entry: &RsFileEntry) -> (r: Vec<PendingBlock>)
    ensures
        r@.map_values(|p: PendingBlock| (p.hash@, p.size)) == entry@.blocks.filter(
            |b: BlockModel| !store@.blocks.contains(b.hash),
        ).map_values(|b: BlockModel| (b.hash, b.size)),
        forall|i: int| 0 <= i < r@.len() ==> (#[trigger] r@[i]).attempts == 0,
{
    let ghost bv = entry@.blocks;
    let ghost miss = |b: BlockModel| !store@.blocks.contains(b.hash);
    let mut r: Vec<PendingBlock> = Vec::new();
    let mut k: usize = 0;
    while k < entry.blocks.len()
        invariant
            bv == entry@.blocks,
            miss == (|b: BlockModel| !store@.blocks.contains(b.hash)),
            k <= entry.blocks@.len(),
            r@.map_values(|p: PendingBlock| (p.hash@, p.size)) == bv.take(k as int).filter(miss).map_values(
                |b: BlockModel| (b.hash, b.size),
            ),
            forall|i: int| 0 <= i < r@.len() ==> (#[trigger] r@[i]).attempts == 0,
        decreases entry.blocks@.len() - k,
    {
        proof {
            reveal(Seq::filter);
            assert(bv.take(k + 1).drop_last() =~= bv.take(k as int));
        }
        assert(entry.blocks@[k as int]@ == bv[k as int]);
        if !store.has_block(entry.blocks[k].hash.as_str()) {
            let ghost prev = r@;
            let ghost pf = bv.take(k as int).filter(miss);
            r.push(PendingBlock { hash: entry.blocks[k].hash.clone(), size: entry.blocks[k].size, attempts: 0 });
            assert(r@.map_values(|p: PendingBlock| (p.hash@, p.size)) =~= prev.map_values(
                |p: PendingBlock| (p.hash@, p.size),
            ).push((bv[k as int].hash, bv[k as int].size)));
            assert(pf.push(bv[k as int]).map_values(|b: BlockModel| (b.hash, b.size)) =~= pf.map_values(
                |b: BlockModel| (b.hash, b.size),
            ).push((bv[k as int].hash, bv[k as int].size)));
        }
        k = k + 1;
    }
    assert(bv.take(bv.len() as int) =~= bv);
    r
}

/// A fetch of the block failed: the block is counted and queued again at
/// the back, or the download fails once it reaches six attempts.
pub fn block_failed(queue: &mut Vec<PendingBlock>, block: PendingBlock) -> (r: Result<(), AppError>)
    requires
        block.attempts < BLOCK_ATTEMPTS,
    ensures
        block.attempts + 1 >= BLOCK_ATTEMPTS ==> (r matches Err(AppError::Io(m)) && m@
            == "Failed to fetch RS block from peers"@) && final(queue)@ == old(queue)@,
        block.attempts + 1 < BLOCK_ATTEMPTS ==> r is Ok && final(queue)@ == old(queue)@.push(
            PendingBlock { attempts: (block.attempts + 1) as u8, ..block },
        ),
{
    let mut b = block;
    b.attempts = b.attempts + 1;
    if b.attempts >= BLOCK_ATTEMPTS {
        return Err(AppError::Io(String::from_str("Failed to fetch RS block from peers")));
    }
    queue.push(b);
    Ok(())
}

/// Which peers (by position) reported holding each block.
#[derive(Debug)]
pub struct Availability {
    holders: Vec<(String, Vec<usize>)>,
}

/// The entry is for block `h`.
pub open spec fn key_eq(h: Seq<char>) -> spec_fn((String, Vec<usize>)) -> bool {
    |e: (String, Vec<usize>)| e.0@ == h
}

/// The holders listed for block `h`, first entry for it.
pub open spec fn holders_of(v: Seq<(String, Vec<usize>)>, h: Seq<char>) -> Seq<usize> {
    if any_match(v, key_eq(h)) {
        v[first_index(v, key_eq(h))].1@
    } else {
        Seq::empty()
    }
}

/// The first entry for `h` gives its holders.
proof fn lemma_holders_first(v: Seq<(String, Vec<usize>)>, i: int, h: Seq<char>)
    requires
        0 <= i < v.len(),
        v[i].0@ == h,
        forall|j: int| 0 <= j < i ==> (#[trigger] v[j]).0@ != h,
    ensures
        holders_of(v, h) == v[i].1@,
{
    assert(key_eq(h)(v[i]));
    assert forall|j: int| 0 <= j < i implies !key_eq(h)(#[trigger] v[j]) by {}
    assert(is_first(v, key_eq(h), i));
    lemma_first_unique(v, key_eq(h), i);
}

/// Blocks other than `h` keep their holders when no entry changes its key
/// and only the first entry for `h` changes.
proof fn lemma_holders_other(v0: Seq<(String, Vec<usize>)>, v1: Seq<(String, Vec<usize>)>, h: Seq<char>, x: Seq<char>)
    requires
        x != h,
        v0.len() <= v1.len(),
        forall|j: int| 0 <= j < v0.len() ==> (#[trigger] v1[j]).0@ == x ==> v1[j] == v0[j],
        forall|j: int| 0 <= j < v0.len() ==> ((#[trigger] v1[j]).0@ == x <==> v0[j].0@ == x),
        forall|j: int| v0.len() <= j < v1.len() ==> (#[trigger] v1[j]).0@ != x,
    ensures
        holders_of(v1, x) == holders_of(v0, x),
{
    lemma_first_index(v0, key_eq(x));
    if any_match(v0, key_eq(x)) {
        let w = first_index(v0, key_eq(x));
        assert(v1[w].0@ == x);
        assert(v1[w] == v0[w]);
        assert forall|j: int| 0 <= j < w implies !key_eq(x)(#[trigger] v1[j]) by {
            assert(!key_eq(x)(v0[j]));
        }
        assert(is_first(v1, key_eq(x), w));
        lemma_first_unique(v1, key_eq(x), w);
    } else {
        if any_match(v1, key_eq(x)) {
            let k = choose|k: int| 0 <= k < v1.len() && key_eq(x)(#[trigger] v1[k]);
            if k < v0.len() {
                assert(!key_eq(x)(v0[k]));
            }
        }
    }
}

/// Changing the holders of the first entry for `h` changes no other block.
proof fn lemma_holders_update(v0: Seq<(String, Vec<usize>)>, v1: Seq<(String, Vec<usize>)>, i: int, h: Seq<char>)
    requires
        0 <= i < v0.len(),
        v1.len() == v0.len(),
        v0[i].0@ == h,
        v1[i].0@ == h,
        forall|j: int| 0 <= j < i ==> (#[trigger] v0[j]).0@ != h,
        forall|j: int| 0 <= j < v1.len() && j != i ==> #[trigger] v1[j] == v0[j],
    ensures
        forall|x: Seq<char>| x != h ==> holders_of(v1, x) == holders_of(v0, x),
        holders_of(v1, h) == v1[i].1@,
{
    assert forall|j: int| 0 <= j < i implies (#[trigger] v1[j]).0@ != h by {
        assert(v1[j] == v0[j]);
    }
    lemma_holders_first(v1, i, h);
    assert forall|x: Seq<char>| x != h implies holders_of(v1, x) == holders_of(v0, x) by {
        assert forall|j: int| 0 <= j < v0.len() implies ((#[trigger] v1[j]).0@ == x ==> v1[j] == v0[j]) by {
            if j != i {
                assert(v1[j] == v0[j]);
            }
        }
        assert forall|j: int| 0 <= j < v0.len() implies ((#[trigger] v1[j]).0@ == x <==> v0[j].0@ == x) by {
            if j != i {
                assert(v1[j] == v0[j]);
            }
        }
        lemma_holders_other(v0, v1, h, x);
    }
}

/// Adding the first entry for `h` changes no other block.
proof fn lemma_holders_push(v0: Seq<(String, Vec<usize>)>, e: (String, Vec<usize>), h: Seq<char>)
    requires
        e.0@ == h,
        forall|j: int| 0 <= j < v0.len() ==> (#[trigger] v0[j]).0@ != h,
    ensures
        forall|x: Seq<char>| x != h ==> holders_of(v0.push(e), x) == holders_of(v0, x),
        holders_of(v0.push(e), h) == e.1@,
{
    let v1 = v0.push(e);
    assert forall|j: int| 0 <= j < v0.len() implies (#[trigger] v1[j]).0@ != h by {
        assert(v1[j] == v0[j]);
    }
    lemma_holders_first(v1, v0.len() as int, h);
    assert forall|x: Seq<char>| x != h implies holders_of(v1, x) == holders_of(v0, x) by {
        assert forall|j: int| 0 <= j < v0.len() implies ((#[trigger] v1[j]).0@ == x ==> v1[j] == v0[j]) by {
            assert(v1[j] == v0[j]);
        }
        assert forall|j: int| 0 <= j < v0.len() implies ((#[trigger] v1[j]).0@ == x <==> v0[j].0@ == x) by {
            assert(v1[j] == v0[j]);
        }
        assert forall|j: int| v0.len() <= j < v1.len() implies (#[trigger] v1[j]).0@ != x by {
            assert(v1[j] == e);
        }
        lemma_holders_other(v0, v1, h, x);
    }
}

/// The holders of `h` after peer `idx` reported the blocks `hashes`.
pub open spec fn holders_after(old_holders: Seq<usize>, h: Seq<char>, idx: usize, hashes: Seq<Seq<char>>) -> Seq<usize> {
    if hashes.contains(h) && !old_holders.contains(idx) {
        old_holders.push(idx)
    } else {
        old_holders
    }
}

impl Availability {
    /// The peers known to hold block `h`, in the order they reported it.
    pub closed spec fn holders_spec(&self, h: Seq<char>) -> Seq<usize> {
        holders_of(self.holders@, h)
    }

    /// Nothing reported yet.
    pub fn new() -> (a: Self)
        ensures
            forall|h: Seq<char>| a.holders_spec(h).len() == 0,
    {
        Availability { holders: Vec::new() }
    }

    /// Records one block reported by peer `idx`.
    fn add_one(&mut self, h: &String, idx: usize)
        ensures
            forall|x: Seq<char>| x != h@ ==> final(self).holders_spec(x) == old(self).holders_spec(x),
            final(self).holders_spec(h@) == if old(self).holders_spec(h@).contains(idx) {
                old(self).holders_spec(h@)
            } else {
                old(self).holders_spec(h@).push(idx)
            },
    {
        let ghost v0 = self.holders@;
        match self.find(h.as_str()) {
            Some(i) => {
                proof {
                    lemma_holders_first(v0, i as int, h@);
                }
                let mut present = false;
                let mut k: usize = 0;
                while k < self.holders[i].1.len()
                    invariant
                        self.holders@ == v0,
                        i < v0.len(),
                        k <= v0[i as int].1@.len(),
                        present == v0[i as int].1@.take(k as int).contains(idx),
                    decreases v0[i as int].1@.len() - k,
                {
                    proof {
                        let t1 = v0[i as int].1@.take(k + 1);
                        let t0 = v0[i as int].1@.take(k as int);
                        assert(t1 =~= t0.push(v0[i as int].1@[k as int]));
                        vstd::seq_lib::lemma_seq_contains_after_push(t0, v0[i as int].1@[k as int], idx);
                    }
                    if self.holders[i].1[k] == idx {
                        present = true;
                    }
                    k = k + 1;
                }
                assert(v0[i as int].1@.take(v0[i as int].1@.len() as int) =~= v0[i as int].1@);
                if !present {
                    let removed = self.holders.remove(i);
                    let (key, mut list) = removed;
                    list.push(idx);
                    self.holders.insert(i, (key, list));
                    proof {
                        let v1 = self.holders@;
                        assert forall|j: int| 0 <= j < v1.len() && j != i implies #[trigger] v1[j] == v0[j] by {}
                        lemma_holders_update(v0, v1, i as int, h@);
                    }
                }
            },
            None => {
                let mut list: Vec<usize> = Vec::new();
                list.push(idx);
                let entry = (h.clone(), list);
                let ghost ev = entry;
                self.holders.push(entry);
                proof {
                    assert(ev.1@ =~= seq![idx]);
                    lemma_holders_push(v0, ev, h@);
                    assert(holders_of(v0, h@) =~= Seq::<usize>::empty());
                    assert(Seq::<usize>::empty().push(idx) =~= seq![idx]);
                }
            },
        }
    }

    /// Records that peer `idx` holds the blocks `hashes`: it is added to
    /// the holders of each (once).
    pub fn add_have(&mut self, idx: usize, hashes: &Vec<String>)
        ensures
            forall|h: Seq<char>| #[trigger] final(self).holders_spec(h) == holders_after(
                old(self).holders_spec(h),
                h,
                idx,
                strings_view(hashes@),
            ),
    {
        let ghost hv = strings_view(hashes@);
        let mut i: usize = 0;
        while i < hashes.len()
            invariant
                hv == strings_view(hashes@),
                i <= hashes@.len(),
                forall|h: Seq<char>| #[trigger] self.holders_spec(h) == holders_after(
                    old(self).holders_spec(h),
                    h,
                    idx,
                    hv.take(i as int),
                ),
            decreases hashes@.len() - i,
        {
            let ghost before = *self;
            self.add_one(&hashes[i], idx);
            proof {
                let t1 = hv.take(i + 1);
                let t0 = hv.take(i as int);
                assert(t1 =~= t0.push(hv[i as int]));
                assert forall|h: Seq<char>| #[trigger] self.holders_spec(h) == holders_after(
                    old(self).holders_spec(h),
                    h,
                    idx,
                    t1,
                ) by {
                    vstd::seq_lib::lemma_seq_contains_after_push(t0, hv[i as int], h);
                    if h == hv[i as int] {
                        if old(self).holders_spec(h).contains(idx) {
                        } else if t0.contains(h) {
                            assert(before.holders_spec(h) == old(self).holders_spec(h).push(idx));
                            assert(before.holders_spec(h)[old(self).holders_spec(h).len() as int] == idx);
                        } else {
                            assert(before.holders_spec(h) == old(self).holders_spec(h));
                        }
                    }
                }
            }
            i = i + 1;
        }
        assert(hv.take(hv.len() as int) =~= hv);
    }

    fn find(&self, h: &str) -> (r: Option<usize>)
        ensures
            match r {
                Some(i) => i < self.holders@.len() && self.holders@[i as int].0@ == h@ && forall|j: int|
                    0 <= j < i ==> (#[trigger] self.holders@[j]).0@ != h@,
                None => forall|j: int| 0 <= j < self.holders@.len() ==> (#[trigger] self.holders@[j]).0@ != h@,
            },
    {
        let mut i: usize = 0;
        while i < self.holders.len()
            invariant
                i <= self.holders@.len(),
                forall|j: int| 0 <= j < i ==> (#[trigger] self.holders@[j]).0@ != h@,
            decreases self.holders@.len() - i,
        {
            if str_eq(self.holders[i].0.as_str(), h) {
                return Some(i);
            }
            i = i + 1;
        }
        None
    }

    /// The peers known to hold block `h`.
    pub fn holders(&self, h: &str) -> (r: Vec<usize>)
        ensures
            r@ == self.holders_spec(h@),
    {
        match self.find(h) {
            Some(i) => {
                proof {
                    lemma_holders_first(self.holders@, i as int, h@);
                }
                let mut out: Vec<usize> = Vec::new();
                let src = &self.holders[i].1;
                let mut k: usize = 0;
                while k < src.len()
                    invariant
                        k <= src@.len(),
                        out@ =~= src@.take(k as int),
                    decreases src@.len() - k,
                {
                    out.push(src[k]);
                    k = k + 1;
                }
                assert(src@.take(src@.len() as int) =~= src@);
                out
            },
            None => {
                proof {
                    if any_match(self.holders@, key_eq(h@)) {
                        let k = choose|k: int| 0 <= k < self.holders@.len() && key_eq(h@)(#[trigger] self.holders@[k]);
                        assert(self.holders@[k].0@ != h@);
                    }
                }
                Vec::new()
            },
        }
    }
}

/// The peers to choose from for a block: those known to hold it, or every
/// peer when none is known.
pub fn candidates(avail: &Availability, h: &str, peer_count: usize) -> (r: Vec<usize>)
    ensures
        avail.holders_spec(h@).len() > 0 ==> r@ == avail.holders_spec(h@),
        avail.holders_spec(h@).len() == 0 ==> r@ == Seq::new(peer_count as nat, |i: int| i as usize),
{
    let known = avail.holders(h);
    if known.len() > 0 {
        return known;
    }
    let mut all: Vec<usize> = Vec::new();
    let mut i: usize = 0;
    while i < peer_count
        invariant
            i <= peer_count,
            all@ =~= Seq::new(i as nat, |j: int| j as usize),
        decreases peer_count - i,
    {
        all.push(i);
        i = i + 1;
    }
    all
}

/// The member list a finished RS download prunes with: the entry's own
/// members, or the peers and this node, sorted.
pub fn prune_members(entry: &RsFileEntry, peers: &Vec<String>, local_id: &str) -> (r: Vec<String>)
    ensures
        strings_view(r@) == if entry@.members.len() > 0 {
            sort_strings(entry@.members)
        } else {
            sort_strings(strings_view(peers@).push(local_id@))
        },
{
    if entry.members.len() > 0 {
        sorted_strings(&entry.members)
    } else {
        let mut ids = copy_strings(peers);
        ids.push(String::from_str(local_id));
        assert(strings_view(ids@) =~= strings_view(peers@).push(local_id@));
        sorted_strings(&ids)
    }
}

/// The replication factor an RS download prunes with.
pub const DOWNLOAD_PRUNE_FACTOR: usize = 2;

/// Transfer progress state.
#[derive(Debug, Clone, PartialEq, Eq)]
pub struct TransferProgress {
    /// Whether a transfer is active.
    pub active: bool,
    /// "upload" or "download".
    pub transfer_type: String,
    /// File name being transferred.
    pub file_name: String,
    /// Bytes transferred so far.
    pub bytes_done: u64,
    /// Total bytes to transfer (0 if unknown).
    pub bytes_total: u64,
}

impl TransferProgress {
    /// No transfer.
    pub fn new() -> (r: Self)
        ensures
            !r.active,
            r.transfer_type@.len() == 0,
            r.file_name@.len() == 0,
            r.bytes_done == 0,
            r.bytes_total == 0,
    {
        TransferProgress {
            active: false,
            transfer_type: String::new(),
            file_name: String::new(),
            bytes_done: 0,
            bytes_total: 0,
        }
    }

    /// Starts showing a download.
    pub fn start_download(&mut self, file_name: &str, total_bytes: u64)
        ensures
            final(self).active,
            final(self).transfer_type@ == "download"@,
            final(self).file_name@ == file_name@,
            final(self).bytes_done == 0,
            final(self).bytes_total == total_bytes,
    {
        self.active = true;
        self.transfer_type = String::from_str("download");
        self.file_name = String::from_str(file_name);
        self.bytes_done = 0;
        self.bytes_total = total_bytes;
    }

    /// Starts showing an upload.
    pub fn start_upload(&mut self, file_name: &str, total_bytes: u64)
        ensures
            final(self).active,
            final(self).transfer_type@ == "upload"@,
            final(self).file_name@ == file_name@,
            final(self).bytes_done == 0,
            final(self).bytes_total == total_bytes,
    {
        self.active = true;
        self.transfer_type = String::from_str("upload");
        self.file_name = String::from_str(file_name);
        self.bytes_done = 0;
        self.bytes_total = total_bytes;
    }

    /// Marks the transfer finished.
    pub fn complete(&mut self)
        ensures
            !final(self).active,
            final(self).bytes_done == old(self).bytes_total,
            final(self).bytes_total == old(self).bytes_total,
            final(self).file_name == old(self).file_name,
            final(self).transfer_type == old(self).transfer_type,
    {
        self.active = false;
        self.bytes_done = self.bytes_total;
    }

    /// Clears the transfer.
    pub fn reset(&mut self)
        ensures
            !final(self).active,
            final(self).transfer_type@.len() == 0,
            final(self).file_name@.len() == 0,
            final(self).bytes_done == 0,
            final(self).bytes_total == 0,
    {
        *self = Self::new();
    }
}

/// The members and placement recorded for a file shared from this node:
/// with the network running (`local_id` is this node's id), the connected
/// peers and this node, sorted, placed by rendezvous hashing (`hrw-v1`);
/// without it, no members and the `legacy` placement.
pub fn upload_members(local_id: Option<&str>, peers: &Vec<String>) -> (r: (Vec<String>, String))
    ensures
        match local_id {
            Some(id) => strings_view(r.0@) == sort_strings(strings_view(peers@).push(id@)) && r.1@ == "hrw-v1"@,
            None => r.0@.len() == 0 && r.1@ == "legacy"@,
        },
{
    match local_id {
        Some(id) => (crate::daemon::rs_sync::sync_members(peers, id), String::from_str("hrw-v1")),
        None => (Vec::new(), String::from_str("legacy")),
    }
}

} // verus!
