//! The RS synchronisation planner.
//!
//! For every shared file the synchroniser finds the blocks that the
//! replication factor assigns to this node and that are missing locally;
//! the application fetches those from peers, writes them through the store
//! and then settles the entry. One pass runs at a time.

use vstd::prelude::*;
use crate::rs::{RsStore, RsFileEntry, RsBlockEntry, FileModel, BlockModel, StoreModel, strings_view,
    blocks_view};
use crate::rs::sync::{assigned_to, members_spec, local_position, entry_members, position_of,
    is_block_assigned_to, sorted_strings, sort_strings};
use crate::daemon::protocol::RsSyncStatus;
use crate::config::AppConfig;

verus! {

/// The blocks of a file that the replication factor assigns to the member
/// at position `p`.
pub open spec fn owned_blocks(f: FileModel, members: Seq<Seq<char>>, p: int, rf: nat) -> Seq<BlockModel> {
    f.blocks.filter(|b: BlockModel| assigned_to(b.hash, members, p, rf))
}

/// The owned blocks that are not present locally.
pub open spec fn missing_blocks(
    f: FileModel,
    members: Seq<Seq<char>>,
    p: int,
    rf: nat,
    local: Seq<Seq<char>>,
) -> Seq<BlockModel> {
    owned_blocks(f, members, p, rf).filter(|b: BlockModel| !local.contains(b.hash))
}

/// What one pass does with one shared file.
#[derive(Debug)]
pub enum EntryPlan {
    /// This node is not a member: the entry is stored as incomplete and
    /// idle.
    Detach(RsFileEntry),
    /// Nothing is missing and the node owns blocks of an entry not yet
    /// complete: the entry is stored as complete (an updated file).
    MarkComplete(RsFileEntry),
    /// Nothing to do.
    Unchanged,
    /// These owned blocks are missing and must be fetched; `owned` counts
    /// the owned blocks.
    Fetch { members: Vec<String>, local_index: usize, missing: Vec<RsBlockEntry>, owned: usize },
}

/// The plan is the one the rules give for file `f`.
pub open spec fn plan_spec(
    plan: EntryPlan,
    f: FileModel,
    local_id: Seq<char>,
    fallback: Seq<Seq<char>>,
    rf: nat,
    local: Seq<Seq<char>>,
) -> bool {
    let members = members_spec(f, fallback);
    let p = local_position(members, local_id);
    let owned = owned_blocks(f, members, p, rf);
    let missing = missing_blocks(f, members, p, rf, local);
    match plan {
        EntryPlan::Detach(e) => p < 0 && e@ == FileModel { complete: false, syncing: false, ..f },
        EntryPlan::MarkComplete(e) => p >= 0 && missing.len() == 0 && owned.len() > 0 && !f.complete
            && e@ == FileModel { complete: true, syncing: false, ..f },
        EntryPlan::Unchanged => p >= 0 && missing.len() == 0 && !(owned.len() > 0 && !f.complete),
        EntryPlan::Fetch { members: m, local_index, missing: ms, owned: o } => p >= 0 && missing.len() > 0
            && strings_view(m@) == members && local_index as int == p && blocks_view(ms@) == missing
            && o as int == owned.len(),
    }
}

/// One filter step: the filter of a prefix one longer.
proof fn lemma_filter_step<A>(s: Seq<A>, k: int, pred: spec_fn(A) -> bool)
    requires
        0 <= k < s.len(),
    ensures
        s.take(k + 1).filter(pred) == if pred(s[k]) {
            s.take(k).filter(pred).push(s[k])
        } else {
            s.take(k).filter(pred)
        },
{
    reveal(Seq::filter);
    assert(s.take(k + 1).drop_last() =~= s.take(k));
    assert(s.take(k + 1).last() == s[k]);
}

/// Filtering twice filters by both.
proof fn lemma_filter_twice<A>(s: Seq<A>, p: spec_fn(A) -> bool, q: spec_fn(A) -> bool)
    ensures
        s.filter(p).filter(q) == s.filter(|x: A| p(x) && q(x)),
    decreases s.len(),
{
    reveal(Seq::filter);
    if s.len() > 0 {
        lemma_filter_twice(s.drop_last(), p, q);
        let a = s.drop_last().filter(p);
        if p(s.last()) {
            assert(a.push(s.last()).drop_last() =~= a);
        }
    }
}

/// Decides what one pass does with a shared file: see [`EntryPlan`].
pub fn plan_entry(
    store: &RsStore,
    entry: &RsFileEntry,
    local_id: &str,
    fallback: &[String],
    replication_factor: usize,
) -> (plan: EntryPlan)
    ensures
        plan_spec(plan, entry@, local_id@, strings_view(fallback@), replication_factor as nat, store@.blocks),
{
    let ghost f = entry@;
    let ghost rf = replication_factor as nat;
    let members = entry_members(entry, fallback);
    let ghost mv = strings_view(members@);
    let pos = position_of(&members, local_id);
    let p = match pos {
        None => {
            let mut e = entry.duplicate();
            e.complete = false;
            e.syncing = false;
            return EntryPlan::Detach(e);
        },
        Some(p) => p,
    };
    let ghost own_pred = |b: BlockModel| assigned_to(b.hash, mv, p as int, rf);
    let ghost miss_pred = |b: BlockModel| !store@.blocks.contains(b.hash);
    let ghost both = |b: BlockModel| own_pred(b) && miss_pred(b);
    let mut owned: usize = 0;
    let mut missing: Vec<RsBlockEntry> = Vec::new();
    let mut k: usize = 0;
    while k < entry.blocks.len()
        invariant
            f == entry@,
            k <= entry.blocks@.len(),
            mv == strings_view(members@),
            owned as int == f.blocks.take(k as int).filter(own_pred).len(),
            blocks_view(missing@) == f.blocks.take(k as int).filter(both),
            owned <= k,
            own_pred == (|b: BlockModel| assigned_to(b.hash, mv, p as int, rf)),
            miss_pred == (|b: BlockModel| !store@.blocks.contains(b.hash)),
            both == (|b: BlockModel| own_pred(b) && miss_pred(b)),
            rf == replication_factor as nat,
        decreases entry.blocks@.len() - k,
    {
        proof {
            lemma_filter_step(f.blocks, k as int, own_pred);
            lemma_filter_step(f.blocks, k as int, both);
        }
        assert(entry.blocks@[k as int]@ == f.blocks[k as int]);
        if is_block_assigned_to(&entry.blocks[k], members.as_slice(), p, replication_factor) {
            owned = owned + 1;
            if !store.has_block(entry.blocks[k].hash.as_str()) {
                let ghost prev = missing@;
                missing.push(entry.blocks[k].duplicate());
                assert(blocks_view(missing@) =~= blocks_view(prev).push(f.blocks[k as int]));
            }
        }
        k = k + 1;
    }
    proof {
        assert(f.blocks.take(f.blocks.len() as int) =~= f.blocks);
        lemma_filter_twice(f.blocks, own_pred, miss_pred);
        assert(own_pred =~= |b: BlockModel| assigned_to(b.hash, members_spec(f, strings_view(fallback@)), local_position(members_spec(f, strings_view(fallback@)), local_id@), rf));
    }
    if missing.len() == 0 {
        if owned > 0 && !entry.complete {
            let mut e = entry.duplicate();
            e.complete = true;
            e.syncing = false;
            return EntryPlan::MarkComplete(e);
        }
        return EntryPlan::Unchanged;
    }
    EntryPlan::Fetch { members, local_index: p, missing, owned }
}


/// Every owned block of the file is present locally.
pub open spec fn all_owned_local(
    f: FileModel,
    members: Seq<Seq<char>>,
    p: int,
    rf: nat,
    local: Seq<Seq<char>>,
) -> bool {
    forall|k: int|
        0 <= k < f.blocks.len() && assigned_to(#[trigger] f.blocks[k].hash, members, p, rf) ==> local.contains(
            f.blocks[k].hash,
        )
}

/// Settles an entry after its missing blocks were fetched: complete when
/// the node owns blocks of it (`owned > 0`) and every owned block is now
/// present; no longer syncing.
pub fn settle_entry(
    store: &RsStore,
    entry: RsFileEntry,
    members: &Vec<String>,
    local_index: usize,
    replication_factor: usize,
    owned: usize,
) -> (r: RsFileEntry)
    ensures
        r@ == (FileModel {
            complete: owned > 0 && all_owned_local(
                entry@,
                strings_view(members@),
                local_index as int,
                replication_factor as nat,
                store@.blocks,
            ),
            syncing: false,
            ..entry@
        }),
{
    let ghost f = entry@;
    let ghost mv = strings_view(members@);
    let mut all_have = true;
    let mut k: usize = 0;
    while k < entry.blocks.len()
        invariant
            f == entry@,
            mv == strings_view(members@),
            k <= entry.blocks@.len(),
            all_have == forall|j: int|
                0 <= j < k && assigned_to(#[trigger] f.blocks[j].hash, mv, local_index as int, replication_factor as nat)
                    ==> store@.blocks.contains(f.blocks[j].hash),
        decreases entry.blocks@.len() - k,
    {
        assert(entry.blocks@[k as int]@ == f.blocks[k as int]);
        let a = is_block_assigned_to(&entry.blocks[k], members.as_slice(), local_index, replication_factor);
        let h = store.has_block(entry.blocks[k].hash.as_str());
        let ghost before = all_have;
        if a && !h {
            all_have = false;
        }
        assert(all_have == (before && (assigned_to(f.blocks[k as int].hash, mv, local_index as int, replication_factor as nat)
            ==> store@.blocks.contains(f.blocks[k as int].hash))));
        k = k + 1;
    }
    let mut e = entry;
    e.complete = owned > 0 && all_have;
    e.syncing = false;
    e
}

/// The peer asked for the `idx`-th missing block on its `attempt`-th try:
/// the peers are tried in turn, starting at a different one per block.
pub fn fetch_peer_index(idx: usize, attempt: usize, peer_count: usize) -> (r: usize)
    requires
        peer_count > 0,
    ensures
        r as int == (idx as int + attempt as int) % (peer_count as int),
        r < peer_count,
{
    ((idx as u128 + attempt as u128) % peer_count as u128) as usize
}

/// How many rounds over all peers a block fetch makes before failing.
pub const FETCH_ROUNDS: usize = 3;

/// The pause after the failed round `round` (counting from zero), in
/// milliseconds.
pub fn round_pause_ms(round: usize) -> (r: u64)
    requires
        round < FETCH_ROUNDS,
    ensures
        r == 200 * (round + 1),
{
    200 * (round as u64 + 1)
}

/// The fallback member list of a pass: the connected peers and this node,
/// sorted.
pub fn sync_members(peers: &Vec<String>, local_id: &str) -> (r: Vec<String>)
    ensures
        strings_view(r@) == sort_strings(strings_view(peers@).push(local_id@)),
{
    let mut all = crate::rs::copy_strings(peers);
    all.push(String::from_str(local_id));
    assert(strings_view(all@) =~= strings_view(peers@).push(local_id@));
    sorted_strings(&all)
}

/// The synchroniser's state: whether a pass runs, the outcome of the last
/// pass and the settings it runs with.
#[derive(Debug)]
pub struct RsSyncState {
    pub in_progress: bool,
    pub last_updated_files: usize,
    pub last_error: Option<String>,
    pub config: AppConfig,
}

impl RsSyncState {
    /// An idle synchroniser with the given settings.
    pub fn new(config: AppConfig) -> (r: Self)
        ensures
            !r.in_progress,
            r.last_updated_files == 0,
            r.last_error is None,
            r.config == config,
    {
        RsSyncState { in_progress: false, last_updated_files: 0, last_error: None, config }
    }

    /// Starts a pass unless one runs: returns whether it started. Starting
    /// clears the last error.
    pub fn begin(&mut self) -> (started: bool)
        ensures
            started == !old(self).in_progress,
            final(self).in_progress,
            started ==> final(self).last_error is None,
            !started ==> final(self).last_error == old(self).last_error,
            final(self).last_updated_files == old(self).last_updated_files,
            final(self).config == old(self).config,
    {
        if self.in_progress {
            return false;
        }
        self.in_progress = true;
        self.last_error = None;
        true
    }

    /// Ends a pass with its outcome: the number of updated files, or the
    /// error's text.
    pub fn finish(&mut self, outcome: Result<usize, String>)
        ensures
            !final(self).in_progress,
            final(self).config == old(self).config,
            match outcome {
                Ok(n) => final(self).last_updated_files == n && final(self).last_error == old(self).last_error,
                Err(e) => final(self).last_updated_files == old(self).last_updated_files
                    && final(self).last_error == Some(e),
            },
    {
        self.in_progress = false;
        match outcome {
            Ok(n) => {
                self.last_updated_files = n;
            },
            Err(e) => {
                self.last_error = Some(e);
            },
        }
    }

    /// The status reported to clients.
    pub fn status(&self) -> (s: RsSyncStatus)
        ensures
            s.in_progress == self.in_progress,
            s.last_updated_files == self.last_updated_files,
            s.last_error == self.last_error,
            s.global_sync == self.config.rs_global_sync,
            s.download_concurrency == self.config.rs_concurrency,
            s.sync_concurrency == self.config.rs_sync_concurrency,
            s.block_size_mb == self.config.rs_block_size_mb,
    {
        RsSyncStatus {
            in_progress: self.in_progress,
            last_updated_files: self.last_updated_files,
            last_error: match &self.last_error {
                Some(e) => Some(e.clone()),
                None => None,
            },
            global_sync: self.config.rs_global_sync,
            download_concurrency: self.config.rs_concurrency,
            sync_concurrency: self.config.rs_sync_concurrency,
            block_size_mb: self.config.rs_block_size_mb,
        }
    }
}


/// A synchronisation pass over a file completes it: when the blocks held
/// afterwards include every block held before and every block the pass
/// found missing, all owned blocks are present, so settling marks the
/// file complete exactly when the node owns blocks of it, and idle.
pub proof fn law_pass_completes(
    f: FileModel,
    members: Seq<Seq<char>>,
    p: int,
    rf: nat,
    local: Seq<Seq<char>>,
    after: Seq<Seq<char>>,
)
    requires
        forall|h: Seq<char>| local.contains(h) ==> #[trigger] after.contains(h),
        forall|k: int|
            0 <= k < missing_blocks(f, members, p, rf, local).len() ==> after.contains(
                #[trigger] missing_blocks(f, members, p, rf, local)[k].hash,
            ),
    ensures
        all_owned_local(f, members, p, rf, after),
{
    let own = |b: BlockModel| assigned_to(b.hash, members, p, rf);
    let absent = |b: BlockModel| !local.contains(b.hash);
    assert forall|k: int|
        0 <= k < f.blocks.len() && assigned_to(#[trigger] f.blocks[k].hash, members, p, rf) implies after.contains(
        f.blocks[k].hash,
    ) by {
        if !local.contains(f.blocks[k].hash) {
            f.blocks.lemma_filter_contains(own, k);
            let o = f.blocks.filter(own);
            let i = choose|i: int| 0 <= i < o.len() && o[i] == f.blocks[k];
            o.lemma_filter_contains(absent, i);
            let m = o.filter(absent);
            assert(m == missing_blocks(f, members, p, rf, local));
            let j = choose|j: int| 0 <= j < m.len() && m[j] == f.blocks[k];
            assert(after.contains(m[j].hash));
        }
    }
}

} // verus!
