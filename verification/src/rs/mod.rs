//! RS (block sharing) store.
//!
//! A shared file is split into blocks named by the SHA-256 of their bytes.
//! The store keeps the shared files' metadata and the set of blocks present
//! on this node; the application persists both under `~/.rxiu/rs` and
//! moves the block bytes between the disk and the network.

use vstd::prelude::*;
use crate::digest::{sha256_hex, sha256_hex_spec};
use crate::error::AppError;
use crate::seqs::{first_index, is_first, any_match, lemma_first_index, lemma_first_unique, remove_where};
use vstd::slice::slice_subrange;
use crate::text::{str_eq, path_join, path_join_spec};

pub mod sync;

verus! {

/// One block of a shared file.
#[derive(Debug, Clone, PartialEq, Eq)]
pub struct RsBlockEntry {
    pub hash: String,
    pub size: u64,
    pub offset: u64,
}

/// The mathematical value of a block entry.
pub struct BlockModel {
    pub hash: Seq<char>,
    pub size: u64,
    pub offset: u64,
}

impl View for RsBlockEntry {
    type V = BlockModel;

    open spec fn view(&self) -> BlockModel {
        BlockModel { hash: self.hash@, size: self.size, offset: self.offset }
    }
}

/// Metadata of a shared file.
#[derive(Debug, Clone, PartialEq, Eq)]
pub struct RsFileEntry {
    pub name: String,
    pub size: u64,
    pub hash: String,
    pub blocks: Vec<RsBlockEntry>,
    pub members: Vec<String>,
    pub algo: String,
    pub complete: bool,
    pub syncing: bool,
    pub deletable: bool,
}

/// The mathematical value of a file entry.
pub struct FileModel {
    pub name: Seq<char>,
    pub size: u64,
    pub hash: Seq<char>,
    pub blocks: Seq<BlockModel>,
    pub members: Seq<Seq<char>>,
    pub algo: Seq<char>,
    pub complete: bool,
    pub syncing: bool,
    pub deletable: bool,
}

pub open spec fn blocks_view(v: Seq<RsBlockEntry>) -> Seq<BlockModel> {
    v.map_values(|b: RsBlockEntry| b@)
}

pub open spec fn strings_view(v: Seq<String>) -> Seq<Seq<char>> {
    v.map_values(|s: String| s@)
}

pub open spec fn files_view(v: Seq<RsFileEntry>) -> Seq<FileModel> {
    v.map_values(|f: RsFileEntry| f@)
}

impl View for RsFileEntry {
    type V = FileModel;

    open spec fn view(&self) -> FileModel {
        FileModel {
            name: self.name@,
            size: self.size,
            hash: self.hash@,
            blocks: blocks_view(self.blocks@),
            members: strings_view(self.members@),
            algo: self.algo@,
            complete: self.complete,
            syncing: self.syncing,
            deletable: self.deletable,
        }
    }
}

impl RsBlockEntry {
    /// A copy of this entry.
    pub fn duplicate(&self) -> (r: Self)
        ensures
            r@ == self@,
    {
        RsBlockEntry { hash: self.hash.clone(), size: self.size, offset: self.offset }
    }
}

/// A copy of a list of strings.
pub fn copy_strings(v: &Vec<String>) -> (r: Vec<String>)
    ensures
        strings_view(r@) == strings_view(v@),
{
    let mut r: Vec<String> = Vec::new();
    let mut i: usize = 0;
    while i < v.len()
        invariant
            i <= v@.len(),
            strings_view(r@) =~= strings_view(v@).take(i as int),
        decreases v@.len() - i,
    {
        let ghost prev = r@;
        r.push(v[i].clone());
        assert(strings_view(r@) =~= strings_view(prev).push(v@[i as int]@));
        assert(strings_view(v@).take(i + 1) =~= strings_view(v@).take(i as int).push(v@[i as int]@));
        i = i + 1;
    }
    assert(strings_view(v@).take(v@.len() as int) =~= strings_view(v@));
    r
}

/// A copy of a list of block entries.
pub fn copy_blocks(v: &Vec<RsBlockEntry>) -> (r: Vec<RsBlockEntry>)
    ensures
        blocks_view(r@) == blocks_view(v@),
{
    let mut r: Vec<RsBlockEntry> = Vec::new();
    let mut i: usize = 0;
    while i < v.len()
        invariant
            i <= v@.len(),
            blocks_view(r@) =~= blocks_view(v@).take(i as int),
        decreases v@.len() - i,
    {
        let ghost prev = r@;
        r.push(v[i].duplicate());
        assert(blocks_view(r@) =~= blocks_view(prev).push(v@[i as int]@));
        assert(blocks_view(v@).take(i + 1) =~= blocks_view(v@).take(i as int).push(v@[i as int]@));
        i = i + 1;
    }
    assert(blocks_view(v@).take(v@.len() as int) =~= blocks_view(v@));
    r
}

impl RsFileEntry {
    /// A copy of this entry.
    pub fn duplicate(&self) -> (r: Self)
        ensures
            r@ == self@,
    {
        RsFileEntry {
            name: self.name.clone(),
            size: self.size,
            hash: self.hash.clone(),
            blocks: copy_blocks(&self.blocks),
            members: copy_strings(&self.members),
            algo: self.algo.clone(),
            complete: self.complete,
            syncing: self.syncing,
            deletable: self.deletable,
        }
    }
}

/// A copy of a list of file entries.
pub fn copy_files(v: &Vec<RsFileEntry>) -> (r: Vec<RsFileEntry>)
    ensures
        files_view(r@) == files_view(v@),
{
    let mut r: Vec<RsFileEntry> = Vec::new();
    let mut i: usize = 0;
    while i < v.len()
        invariant
            i <= v@.len(),
            files_view(r@) =~= files_view(v@).take(i as int),
        decreases v@.len() - i,
    {
        let ghost prev = r@;
        r.push(v[i].duplicate());
        assert(files_view(r@) =~= files_view(prev).push(v@[i as int]@));
        assert(files_view(v@).take(i + 1) =~= files_view(v@).take(i as int).push(v@[i as int]@));
        i = i + 1;
    }
    assert(files_view(v@).take(v@.len() as int) =~= files_view(v@));
    r
}

/// The file entry is named `name`.
pub open spec fn named(name: Seq<char>) -> spec_fn(FileModel) -> bool {
    |f: FileModel| f.name == name
}

/// The first entry named `name`, if any.
pub open spec fn lookup(files: Seq<FileModel>, name: Seq<char>) -> Option<FileModel> {
    if any_match(files, named(name)) {
        Some(files[first_index(files, named(name))])
    } else {
        None
    }
}

/// Replaces the first entry with the same name as `e`, or appends `e`.
pub open spec fn upsert_spec(files: Seq<FileModel>, e: FileModel) -> Seq<FileModel> {
    if any_match(files, named(e.name)) {
        files.update(first_index(files, named(e.name)), e)
    } else {
        files.push(e)
    }
}

/// Upserts each entry of `updates` in turn.
pub open spec fn upsert_all(files: Seq<FileModel>, updates: Seq<FileModel>) -> Seq<FileModel>
    decreases updates.len(),
{
    if updates.len() == 0 {
        files
    } else {
        upsert_spec(upsert_all(files, updates.drop_last()), updates.last())
    }
}

/// Some file of `files` lists a block with hash `h`.
pub open spec fn referenced(files: Seq<FileModel>, h: Seq<char>) -> bool {
    exists|i: int, k: int|
        0 <= i < files.len() && 0 <= k < files[i].blocks.len() && #[trigger] files[i].blocks[k].hash
            == h
}

/// The hashes of a block list, in order.
pub open spec fn block_hashes(blocks: Seq<BlockModel>) -> Seq<Seq<char>> {
    blocks.map_values(|b: BlockModel| b.hash)
}

/// Every block of the entry is present in `local`.
pub open spec fn all_blocks_local(blocks: Seq<BlockModel>, local: Seq<Seq<char>>) -> bool {
    forall|k: int| 0 <= k < blocks.len() ==> local.contains(#[trigger] blocks[k].hash)
}

/// Total size of the blocks whose hash is in `local`.
pub open spec fn local_bytes(blocks: Seq<BlockModel>, local: Seq<Seq<char>>) -> nat
    decreases blocks.len(),
{
    if blocks.len() == 0 {
        0
    } else {
        local_bytes(blocks.drop_last(), local) + if local.contains(blocks.last().hash) {
            blocks.last().size as nat
        } else {
            0
        }
    }
}

/// Total size of all blocks.
pub open spec fn total_bytes(blocks: Seq<BlockModel>) -> nat
    decreases blocks.len(),
{
    if blocks.len() == 0 {
        0
    } else {
        total_bytes(blocks.drop_last()) + blocks.last().size as nat
    }
}

/// The blocks that a file of `data` is cut into, from `offset` on, with
/// blocks of `bs` bytes (the last one shorter).
pub open spec fn chunks(data: Seq<u8>, bs: nat, offset: nat) -> Seq<BlockModel>
    decreases data.len() - offset,
{
    if bs == 0 || offset >= data.len() {
        Seq::empty()
    } else {
        let size: nat = if bs < data.len() - offset { bs } else { (data.len() - offset) as nat };
        seq![
            BlockModel {
                hash: sha256_hex_spec(data.subrange(offset as int, (offset + size) as int)),
                size: size as u64,
                offset: offset as u64,
            },
        ] + chunks(data, bs, offset + size)
    }
}

/// Adds each hash of `hs`, in order, that is not present yet.
pub open spec fn add_hashes(blocks: Seq<Seq<char>>, hs: Seq<Seq<char>>) -> Seq<Seq<char>>
    decreases hs.len(),
{
    if hs.len() == 0 {
        blocks
    } else {
        let prev = add_hashes(blocks, hs.drop_last());
        if prev.contains(hs.last()) {
            prev
        } else {
            prev.push(hs.last())
        }
    }
}

/// The files that remain after removing every file named `name`.
pub open spec fn remaining_files(files: Seq<FileModel>, name: Seq<char>) -> Seq<FileModel> {
    remove_where(files, named(name))
}

/// The block hashes that removing the file named `name` frees: those of the
/// first such file that no remaining file lists.
pub open spec fn freed_hashes(files: Seq<FileModel>, name: Seq<char>) -> Seq<Seq<char>> {
    match lookup(files, name) {
        Some(e) => block_hashes(e.blocks).filter(
            |h: Seq<char>| !referenced(remaining_files(files, name), h),
        ),
        None => Seq::empty(),
    }
}

/// The entry with its sync flags as set by `set_syncing`.
pub open spec fn with_syncing(f: FileModel, syncing: bool) -> FileModel {
    FileModel { syncing, complete: if syncing { false } else { f.complete }, ..f }
}

/// The entry as stored after an announcement from a peer.
pub open spec fn announced(e: FileModel, local: Seq<Seq<char>>) -> FileModel {
    FileModel { complete: all_blocks_local(e.blocks, local), syncing: false, deletable: true, ..e }
}

/// The entry that sharing `data` under `name` produces.
pub open spec fn shared_entry(
    data: Seq<u8>,
    name: Seq<char>,
    members: Seq<Seq<char>>,
    algo: Seq<char>,
    bs: nat,
) -> FileModel {
    let covered: nat = if bs == 0 { 0 } else { data.len() };
    FileModel {
        name,
        size: covered as u64,
        hash: sha256_hex_spec(data.take(covered as int)),
        blocks: chunks(data, bs, 0),
        members,
        algo,
        complete: true,
        syncing: false,
        deletable: true,
    }
}

/// `local_bytes` never exceeds `total_bytes`.
pub proof fn lemma_local_le_total(blocks: Seq<BlockModel>, local: Seq<Seq<char>>)
    ensures
        local_bytes(blocks, local) <= total_bytes(blocks),
    decreases blocks.len(),
{
    if blocks.len() > 0 {
        lemma_local_le_total(blocks.drop_last(), local);
    }
}

/// The total of a prefix never exceeds the total.
pub proof fn lemma_total_prefix(blocks: Seq<BlockModel>, i: int)
    requires
        0 <= i <= blocks.len(),
    ensures
        total_bytes(blocks.take(i)) <= total_bytes(blocks),
    decreases blocks.len(),
{
    if i < blocks.len() {
        assert(blocks.drop_last().take(i) =~= blocks.take(i));
        lemma_total_prefix(blocks.drop_last(), i);
    } else {
        assert(blocks.take(i) =~= blocks);
    }
}

/// The mathematical value of the store: the shared files and the hashes of
/// the blocks present locally.
pub struct StoreModel {
    pub files: Seq<FileModel>,
    pub blocks: Seq<Seq<char>>,
}

/// The RS store: where it lives, the shared files' metadata and the blocks
/// present on this node.
pub struct RsStore {
    base_path: String,
    blocks_path: String,
    metadata_path: String,
    files: Vec<RsFileEntry>,
    local_blocks: Vec<String>,
}

impl View for RsStore {
    type V = StoreModel;

    closed spec fn view(&self) -> StoreModel {
        StoreModel { files: files_view(self.files@), blocks: strings_view(self.local_blocks@) }
    }
}

/// `~/.rxiu/rs` under the given home directory.
pub open spec fn rs_base_spec(home: Seq<char>) -> Seq<char> {
    path_join_spec(path_join_spec(home, ".rxiu"@), "rs"@)
}

/// Whether some file of the list lists a block with hash `h`.
pub fn is_referenced(files: &Vec<RsFileEntry>, h: &String) -> (r: bool)
    ensures
        r == referenced(files_view(files@), h@),
{
    let ghost fv = files_view(files@);
    let mut i: usize = 0;
    while i < files.len()
        invariant
            fv == files_view(files@),
            i <= files@.len(),
            forall|a: int, k: int|
                0 <= a < i && 0 <= k < fv[a].blocks.len() ==> #[trigger] fv[a].blocks[k].hash != h@,
        decreases files@.len() - i,
    {
        let mut k: usize = 0;
        while k < files[i].blocks.len()
            invariant
                fv == files_view(files@),
                i < files@.len(),
                k <= files@[i as int].blocks@.len(),
                forall|a: int, k2: int|
                    0 <= a < i && 0 <= k2 < fv[a].blocks.len() ==> #[trigger] fv[a].blocks[k2].hash != h@,
                forall|k2: int| 0 <= k2 < k ==> #[trigger] fv[i as int].blocks[k2].hash != h@,
            decreases files@[i as int].blocks@.len() - k,
        {
            if files[i].blocks[k].hash == *h {
                assert(fv[i as int].blocks[k as int].hash == h@);
                return true;
            }
            k = k + 1;
        }
        i = i + 1;
    }
    false
}

/// Whether the list holds a string equal to `x`.
pub fn contains_string(v: &Vec<String>, x: &String) -> (r: bool)
    ensures
        r == strings_view(v@).contains(x@),
{
    let mut i: usize = 0;
    while i < v.len()
        invariant
            i <= v@.len(),
            forall|j: int| 0 <= j < i ==> strings_view(v@)[j] != x@,
        decreases v@.len() - i,
    {
        if v[i] == *x {
            assert(strings_view(v@)[i as int] == x@);
            return true;
        }
        i = i + 1;
    }
    false
}

impl RsStore {
    pub closed spec fn spec_base_path(&self) -> Seq<char> {
        self.base_path@
    }

    pub closed spec fn spec_blocks_path(&self) -> Seq<char> {
        self.blocks_path@
    }

    pub closed spec fn spec_metadata_path(&self) -> Seq<char> {
        self.metadata_path@
    }

    /// A store under `home` holding the given metadata and local blocks.
    pub fn open(home: &str, files: Vec<RsFileEntry>, local_blocks: Vec<String>) -> (s: Self)
        ensures
            s.spec_base_path() == rs_base_spec(home@),
            s.spec_blocks_path() == path_join_spec(rs_base_spec(home@), "blocks"@),
            s.spec_metadata_path() == path_join_spec(rs_base_spec(home@), "metadata.json"@),
            s@.files == files_view(files@),
            s@.blocks == strings_view(local_blocks@),
    {
        let rxiu = path_join(home, ".rxiu");
        let base_path = path_join(rxiu.as_str(), "rs");
        let blocks_path = path_join(base_path.as_str(), "blocks");
        let metadata_path = path_join(base_path.as_str(), "metadata.json");
        RsStore { base_path, blocks_path, metadata_path, files, local_blocks }
    }

    /// An empty store under `home`.
    pub fn new(home: &str) -> (s: Self)
        ensures
            s.spec_base_path() == rs_base_spec(home@),
            s.spec_blocks_path() == path_join_spec(rs_base_spec(home@), "blocks"@),
            s.spec_metadata_path() == path_join_spec(rs_base_spec(home@), "metadata.json"@),
            s@.files.len() == 0,
            s@.blocks.len() == 0,
    {
        Self::open(home, Vec::new(), Vec::new())
    }

    /// The store's root directory.
    pub fn base_path(&self) -> (r: &str)
        ensures
            r@ == self.spec_base_path(),
    {
        self.base_path.as_str()
    }

    /// The directory holding the block files.
    pub fn blocks_path(&self) -> (r: &str)
        ensures
            r@ == self.spec_blocks_path(),
    {
        self.blocks_path.as_str()
    }

    /// The metadata file.
    pub fn metadata_path(&self) -> (r: &str)
        ensures
            r@ == self.spec_metadata_path(),
    {
        self.metadata_path.as_str()
    }

    /// All shared files.
    pub fn list_files(&self) -> (r: Vec<RsFileEntry>)
        ensures
            files_view(r@) == self@.files,
    {
        copy_files(&self.files)
    }

    /// Hashes of the blocks present locally.
    pub fn local_block_list(&self) -> (r: Vec<String>)
        ensures
            strings_view(r@) == self@.blocks,
    {
        copy_strings(&self.local_blocks)
    }

    /// Position of the first file named `name`, if any.
    fn find(&self, name: &str) -> (r: Option<usize>)
        ensures
            match r {
                Some(i) => is_first(self@.files, named(name@), i as int),
                None => !any_match(self@.files, named(name@)),
            },
    {
        let mut i: usize = 0;
        while i < self.files.len()
            invariant
                i <= self.files@.len(),
                forall|j: int| 0 <= j < i ==> !named(name@)(#[trigger] self@.files[j]),
            decreases self.files@.len() - i,
        {
            if str_eq(self.files[i].name.as_str(), name) {
                return Some(i);
            }
            i = i + 1;
        }
        None
    }

    /// The first file named `name`, if any.
    pub fn get_file(&self, name: &str) -> (r: Option<RsFileEntry>)
        ensures
            match r {
                Some(e) => lookup(self@.files, name@) == Some(e@),
                None => lookup(self@.files, name@) is None,
            },
    {
        match self.find(name) {
            Some(i) => {
                proof {
                    lemma_first_unique(self@.files, named(name@), i as int);
                }
                Some(self.files[i].duplicate())
            },
            None => None,
        }
    }

    /// Replaces the first file with the entry's name, or adds the entry.
    pub fn upsert_file(&mut self, entry: RsFileEntry)
        ensures
            final(self)@.files == upsert_spec(old(self)@.files, entry@),
            final(self)@.blocks == old(self)@.blocks,
    {
        let found = self.find(entry.name.as_str());
        match found {
            Some(i) => {
                proof {
                    lemma_first_unique(old(self)@.files, named(entry@.name), i as int);
                }
                self.files.set(i, entry);
                assert(self@.files =~= upsert_spec(old(self)@.files, entry@));
            },
            None => {
                self.files.push(entry);
                assert(self@.files =~= upsert_spec(old(self)@.files, entry@));
            },
        }
    }

    /// Whether the block with this hash is present locally.
    pub fn has_block(&self, hash: &str) -> (r: bool)
        ensures
            r == self@.blocks.contains(hash@),
    {
        let mut i: usize = 0;
        while i < self.local_blocks.len()
            invariant
                i <= self.local_blocks@.len(),
                forall|j: int| 0 <= j < i ==> self@.blocks[j] != hash@,
            decreases self.local_blocks@.len() - i,
        {
            if str_eq(self.local_blocks[i].as_str(), hash) {
                assert(self@.blocks[i as int] == hash@);
                return true;
            }
            i = i + 1;
        }
        false
    }

    /// Removes every file named `name`. Returns the hashes of the blocks of
    /// the (first) removed file that no remaining file lists; those blocks
    /// leave the store, and the caller deletes their files.
    pub fn remove_file(&mut self, name: &str) -> (freed: Vec<String>)
        ensures
            final(self)@.files == remaining_files(old(self)@.files, name@),
            strings_view(freed@) == freed_hashes(old(self)@.files, name@),
            final(self)@.blocks == remove_where(
                old(self)@.blocks,
                |h: Seq<char>| strings_view(freed@).contains(h),
            ),
    {
        let ghost fv = self@.files;
        let removed = self.get_file(name);
        let mut kept: Vec<RsFileEntry> = Vec::new();
        let mut i: usize = 0;
        while i < self.files.len()
            invariant
                fv == files_view(self.files@),
                i <= self.files@.len(),
                files_view(kept@) == remove_where(fv.take(i as int), named(name@)),
            decreases self.files@.len() - i,
        {
            let ghost prev = kept@;
            proof {
                reveal(Seq::filter);
                assert(fv.take(i + 1).drop_last() =~= fv.take(i as int));
            }
            if !str_eq(self.files[i].name.as_str(), name) {
                kept.push(self.files[i].duplicate());
                assert(files_view(kept@) =~= files_view(prev).push(fv[i as int]));
            }
            i = i + 1;
        }
        assert(fv.take(fv.len() as int) =~= fv);
        self.files = kept;
        let ghost rest = self@.files;
        let mut freed: Vec<String> = Vec::new();
        match removed {
            Some(e) => {
                let ghost hs = block_hashes(e@.blocks);
                let mut k: usize = 0;
                while k < e.blocks.len()
                    invariant
                        rest == files_view(self.files@),
                        hs == block_hashes(e@.blocks),
                        k <= e.blocks@.len(),
                        strings_view(freed@) == hs.take(k as int).filter(
                            |h: Seq<char>| !referenced(rest, h),
                        ),
                    decreases e.blocks@.len() - k,
                {
                    let ghost prev = freed@;
                    proof {
                        reveal(Seq::filter);
                        assert(hs.take(k + 1).drop_last() =~= hs.take(k as int));
                    }
                    if !is_referenced(&self.files, &e.blocks[k].hash) {
                        freed.push(e.blocks[k].hash.clone());
                        assert(strings_view(freed@) =~= strings_view(prev).push(hs[k as int]));
                    }
                    k = k + 1;
                }
                assert(hs.take(hs.len() as int) =~= hs);
            },
            None => {
                assert(strings_view(freed@) =~= Seq::<Seq<char>>::empty());
            },
        }
        let ghost bv = self@.blocks;
        let ghost dv = strings_view(freed@);
        let mut left: Vec<String> = Vec::new();
        let mut j: usize = 0;
        while j < self.local_blocks.len()
            invariant
                bv == strings_view(self.local_blocks@),
                dv == strings_view(freed@),
                j <= self.local_blocks@.len(),
                strings_view(left@) == remove_where(bv.take(j as int), |h: Seq<char>| dv.contains(h)),
            decreases self.local_blocks@.len() - j,
        {
            let ghost prev = left@;
            proof {
                reveal(Seq::filter);
                assert(bv.take(j + 1).drop_last() =~= bv.take(j as int));
            }
            if !contains_string(&freed, &self.local_blocks[j]) {
                left.push(self.local_blocks[j].clone());
                assert(strings_view(left@) =~= strings_view(prev).push(bv[j as int]));
            }
            j = j + 1;
        }
        assert(bv.take(bv.len() as int) =~= bv);
        self.local_blocks = left;
        freed
    }

    /// Keeps only the local blocks whose hash is listed in `keep`; returns
    /// the hashes of the blocks dropped, whose files the caller deletes.
    pub fn retain_blocks(&mut self, keep: &Vec<String>) -> (dropped: Vec<String>)
        ensures
            strings_view(dropped@) == remove_where(
                old(self)@.blocks,
                |h: Seq<char>| strings_view(keep@).contains(h),
            ),
            final(self)@.blocks == old(self)@.blocks.filter(
                |h: Seq<char>| strings_view(keep@).contains(h),
            ),
            final(self)@.files == old(self)@.files,
    {
        let ghost bv = self@.blocks;
        let ghost kv = strings_view(keep@);
        let mut left: Vec<String> = Vec::new();
        let mut dropped: Vec<String> = Vec::new();
        let mut j: usize = 0;
        while j < self.local_blocks.len()
            invariant
                bv == strings_view(self.local_blocks@),
                kv == strings_view(keep@),
                j <= self.local_blocks@.len(),
                strings_view(left@) == bv.take(j as int).filter(|h: Seq<char>| kv.contains(h)),
                strings_view(dropped@) == remove_where(bv.take(j as int), |h: Seq<char>| kv.contains(h)),
            decreases self.local_blocks@.len() - j,
        {
            let ghost prev_left = left@;
            let ghost prev_dropped = dropped@;
            proof {
                reveal(Seq::filter);
                assert(bv.take(j + 1).drop_last() =~= bv.take(j as int));
            }
            if contains_string(keep, &self.local_blocks[j]) {
                left.push(self.local_blocks[j].clone());
                assert(strings_view(left@) =~= strings_view(prev_left).push(bv[j as int]));
            } else {
                dropped.push(self.local_blocks[j].clone());
                assert(strings_view(dropped@) =~= strings_view(prev_dropped).push(bv[j as int]));
            }
            j = j + 1;
        }
        assert(bv.take(bv.len() as int) =~= bv);
        self.local_blocks = left;
        dropped
    }

    /// Hashes of the blocks of the first file named `name` that are present
    /// locally, in the file's block order.
    pub fn file_block_hashes(&self, name: &str) -> (r: Result<Vec<String>, AppError>)
        ensures
            match lookup(self@.files, name@) {
                Some(e) => r matches Ok(v) && strings_view(v@) == block_hashes(e.blocks).filter(
                    |h: Seq<char>| self@.blocks.contains(h),
                ),
                None => r matches Err(AppError::Io(m)) && m@ == "RS file not found"@,
            },
    {
        match self.get_file(name) {
            None => Err(AppError::Io(String::from_str("RS file not found"))),
            Some(e) => {
                let ghost hs = block_hashes(e@.blocks);
                let ghost lv = self@.blocks;
                let mut out: Vec<String> = Vec::new();
                let mut k: usize = 0;
                while k < e.blocks.len()
                    invariant
                        hs == block_hashes(e@.blocks),
                        lv == self@.blocks,
                        k <= e.blocks@.len(),
                        strings_view(out@) == hs.take(k as int).filter(
                            |h: Seq<char>| lv.contains(h),
                        ),
                    decreases e.blocks@.len() - k,
                {
                    let ghost prev = out@;
                    proof {
                        reveal(Seq::filter);
                        assert(hs.take(k + 1).drop_last() =~= hs.take(k as int));
                    }
                    if self.has_block(e.blocks[k].hash.as_str()) {
                        out.push(e.blocks[k].hash.clone());
                        assert(strings_view(out@) =~= strings_view(prev).push(hs[k as int]));
                    }
                    k = k + 1;
                }
                assert(hs.take(hs.len() as int) =~= hs);
                Ok(out)
            },
        }
    }

    /// Whether every block of the list is present locally.
    fn all_local(&self, blocks: &Vec<RsBlockEntry>) -> (r: bool)
        ensures
            r == all_blocks_local(blocks_view(blocks@), self@.blocks),
    {
        let mut k: usize = 0;
        while k < blocks.len()
            invariant
                k <= blocks@.len(),
                forall|j: int| 0 <= j < k ==> self@.blocks.contains(#[trigger] blocks_view(blocks@)[j].hash),
            decreases blocks@.len() - k,
        {
            if !self.has_block(blocks[k].hash.as_str()) {
                assert(!self@.blocks.contains(blocks_view(blocks@)[k as int].hash));
                return false;
            }
            k = k + 1;
        }
        true
    }

    /// Records metadata announced by a peer: the entry is complete when
    /// every block is present locally, not syncing, and deletable.
    pub fn apply_remote_meta(&mut self, entry: RsFileEntry)
        ensures
            final(self)@.files == upsert_spec(old(self)@.files, announced(entry@, old(self)@.blocks)),
            final(self)@.blocks == old(self)@.blocks,
    {
        let ghost e0 = entry@;
        let mut entry = entry;
        let complete = self.all_local(&entry.blocks);
        entry.complete = complete;
        entry.syncing = false;
        entry.deletable = true;
        assert(entry@ == announced(e0, old(self)@.blocks));
        self.upsert_file(entry);
    }

    /// Records that the block with this hash is present. Returns whether it
    /// was absent, that is, whether its bytes must be written.
    pub fn write_block(&mut self, hash: &str) -> (fresh: bool)
        ensures
            fresh == !old(self)@.blocks.contains(hash@),
            final(self)@.blocks == if fresh { old(self)@.blocks.push(hash@) } else { old(self)@.blocks },
            final(self)@.blocks == add_hashes(old(self)@.blocks, seq![hash@]),
            final(self)@.files == old(self)@.files,
    {
        proof {
            assert(seq![hash@].drop_last() =~= Seq::<Seq<char>>::empty());
            reveal_with_fuel(add_hashes, 2);
        }
        if self.has_block(hash) {
            false
        } else {
            let ghost prev = self.local_blocks@;
            self.local_blocks.push(String::from_str(hash));
            assert(strings_view(self.local_blocks@) =~= strings_view(prev).push(hash@));
            true
        }
    }

    /// Checks a block's bytes against its hash, then records it.
    /// Returns whether its bytes must be written.
    pub fn verify_and_write_block(&mut self, hash: &str, data: &[u8]) -> (r: Result<
        bool,
        AppError,
    >)
        ensures
            sha256_hex_spec(data@) == hash@ ==> {
                &&& r == Ok::<bool, AppError>(!old(self)@.blocks.contains(hash@))
                &&& final(self)@.blocks == add_hashes(old(self)@.blocks, seq![hash@])
                &&& final(self)@.files == old(self)@.files
            },
            sha256_hex_spec(data@) != hash@ ==> {
                &&& r matches Err(AppError::Io(m)) && m@ == "Block hash mismatch"@
                &&& final(self)@ == old(self)@
            },
    {
        let actual = sha256_hex(data);
        if !str_eq(actual.as_str(), hash) {
            return Err(AppError::Io(String::from_str("Block hash mismatch")));
        }
        Ok(self.write_block(hash))
    }

    /// Bytes of the entry present locally, and the entry's size.
    pub fn file_progress(&self, entry: &RsFileEntry) -> (r: (u64, u64))
        requires
            total_bytes(entry@.blocks) <= u64::MAX,
        ensures
            r.0 == local_bytes(entry@.blocks, self@.blocks),
            r.1 == entry.size,
    {
        let ghost bv = entry@.blocks;
        let mut have: u64 = 0;
        let mut k: usize = 0;
        while k < entry.blocks.len()
            invariant
                bv == entry@.blocks,
                k <= bv.len(),
                total_bytes(bv) <= u64::MAX,
                have == local_bytes(bv.take(k as int), self@.blocks),
            decreases bv.len() - k,
        {
            proof {
                assert(bv.take(k + 1).drop_last() =~= bv.take(k as int));
                lemma_local_le_total(bv.take(k as int), self@.blocks);
                lemma_total_prefix(bv, k + 1);
                assert(bv.take(k + 1).last() == bv[k as int]);
            }
            if self.has_block(entry.blocks[k].hash.as_str()) {
                have = have + entry.blocks[k].size;
            }
            k = k + 1;
        }
        assert(bv.take(bv.len() as int) =~= bv);
        (have, entry.size)
    }

    /// Sets the syncing flag of the first file named `name`; a file that
    /// starts syncing is no longer complete.
    pub fn set_syncing(&mut self, name: &str, syncing: bool)
        ensures
            final(self)@.blocks == old(self)@.blocks,
            match lookup(old(self)@.files, name@) {
                Some(f) => final(self)@.files == old(self)@.files.update(
                    first_index(old(self)@.files, named(name@)),
                    with_syncing(f, syncing),
                ),
                None => final(self)@.files == old(self)@.files,
            },
    {
        match self.find(name) {
            Some(i) => {
                proof {
                    lemma_first_unique(old(self)@.files, named(name@), i as int);
                }
                let mut f = self.files[i].duplicate();
                f.syncing = syncing;
                if syncing {
                    f.complete = false;
                }
                self.files.set(i, f);
                assert(self@.files =~= old(self)@.files.update(i as int, with_syncing(old(self)@.files[i as int], syncing)));
            },
            None => {},
        }
    }

    /// Shares `data` under `target_name`: cuts it into blocks of
    /// `block_size` bytes, records every block as present and the entry as
    /// complete, and returns the entry. The caller writes the bytes of each
    /// block that was absent.
    pub fn put_file(
        &mut self,
        data: &[u8],
        target_name: &str,
        members: Vec<String>,
        algo: &str,
        block_size: u64,
    ) -> (entry: RsFileEntry)
        ensures
            entry@ == shared_entry(data@, target_name@, strings_view(members@), algo@, block_size as nat),
            final(self)@.files == upsert_spec(old(self)@.files, entry@),
            final(self)@.blocks == add_hashes(old(self)@.blocks, block_hashes(entry@.blocks)),
    {
        let len = data.len();
        let mut blocks: Vec<RsBlockEntry> = Vec::new();
        let mut offset: usize = 0;
        if block_size > 0 {
            while offset < len
                invariant
                    len == data@.len(),
                    block_size > 0,
                    offset <= len,
                    blocks_view(blocks@) + chunks(data@, block_size as nat, offset as nat) == chunks(data@, block_size as nat, 0),
                    self@.blocks == add_hashes(old(self)@.blocks, block_hashes(blocks_view(blocks@))),
                    self@.files == old(self)@.files,
                decreases len - offset,
            {
                let rest = len - offset;
                let size: usize = if (block_size as u128) < (rest as u128) { block_size as usize } else { rest };
                let piece = slice_subrange(data, offset, offset + size);
                let h = sha256_hex(piece);
                let ghost prev_blocks = blocks@;
                let ghost prev_local = self@.blocks;
                self.write_block(h.as_str());
                blocks.push(RsBlockEntry { hash: h, size: size as u64, offset: offset as u64 });
                proof {
                    let b = BlockModel { hash: h@, size: size as u64, offset: offset as u64 };
                    assert(blocks_view(blocks@) =~= blocks_view(prev_blocks).push(b));
                    assert(chunks(data@, block_size as nat, offset as nat) =~= seq![b] + chunks(data@, block_size as nat, (offset + size) as nat));
                    assert(blocks_view(blocks@) + chunks(data@, block_size as nat, (offset + size) as nat)
                        =~= blocks_view(prev_blocks) + chunks(data@, block_size as nat, offset as nat));
                    let hs = block_hashes(blocks_view(blocks@));
                    assert(hs.drop_last() =~= block_hashes(blocks_view(prev_blocks)));
                    assert(hs.last() == h@);
                    assert(seq![h@].drop_last() =~= Seq::<Seq<char>>::empty());
                }
                offset = offset + size;
            }
        }
        proof {
            assert(chunks(data@, block_size as nat, offset as nat) =~= Seq::<BlockModel>::empty());
            assert(blocks_view(blocks@) =~= chunks(data@, block_size as nat, 0));
        }
        let covered: usize = if block_size == 0 { 0 } else { len };
        let file_hash = sha256_hex(slice_subrange(data, 0, covered));
        assert(data@.subrange(0, covered as int) =~= data@.take(covered as int));
        let entry = RsFileEntry {
            name: String::from_str(target_name),
            size: covered as u64,
            hash: file_hash,
            blocks,
            members,
            algo: String::from_str(algo),
            complete: true,
            syncing: false,
            deletable: true,
        };
        self.upsert_file(entry.duplicate());
        entry
    }

    /// Checks reassembled content against the entry's file hash.
    pub fn check_reconstructed(entry: &RsFileEntry, content: &[u8]) -> (r: Result<(), AppError>)
        ensures
            r is Ok <==> sha256_hex_spec(content@) == entry@.hash,
            r matches Err(e) ==> e matches AppError::Io(m) && m@ == "RS file hash mismatch"@,
    {
        let actual = sha256_hex(content);
        if actual == entry.hash {
            Ok(())
        } else {
            Err(AppError::Io(String::from_str("RS file hash mismatch")))
        }
    }
}

/// Block `a` is read before block `b`: smaller offset first, and list
/// order among equal offsets (a stable sort by offset).
pub open spec fn read_before(blocks: Seq<BlockModel>, a: int, b: int) -> bool {
    blocks[a].offset < blocks[b].offset || (blocks[a].offset == blocks[b].offset && a < b)
}

/// The positions of the blocks in the order in which reassembly reads them:
/// the blocks stably sorted by offset.
pub fn block_read_order(blocks: &Vec<RsBlockEntry>) -> (order: Vec<usize>)
    ensures
        order@.len() == blocks@.len(),
        forall|k: int| 0 <= k < order@.len() ==> #[trigger] order@[k] < blocks@.len(),
        forall|k: int, l: int|
            0 <= k < l < order@.len() ==> read_before(
                blocks_view(blocks@),
                #[trigger] order@[k] as int,
                #[trigger] order@[l] as int,
            ),
{
    let ghost bv = blocks_view(blocks@);
    let mut order: Vec<usize> = Vec::new();
    let mut i: usize = 0;
    while i < blocks.len()
        invariant
            bv == blocks_view(blocks@),
            i <= blocks@.len(),
            order@.len() == i,
            forall|k: int| 0 <= k < order@.len() ==> #[trigger] order@[k] < i,
            forall|k: int, l: int|
                0 <= k < l < order@.len() ==> read_before(bv, #[trigger] order@[k] as int, #[trigger] order@[l] as int),
        decreases blocks@.len() - i,
    {
        let off = blocks[i].offset;
        let mut p: usize = 0;
        while p < order.len() && blocks[order[p]].offset <= off
            invariant
                bv == blocks_view(blocks@),
                i < blocks@.len(),
                order@.len() == i,
                p <= order@.len(),
                off == bv[i as int].offset,
                forall|k: int| 0 <= k < order@.len() ==> #[trigger] order@[k] < i,
                forall|k: int| 0 <= k < p ==> read_before(bv, #[trigger] order@[k] as int, i as int),
            decreases order@.len() - p,
        {
            p = p + 1;
        }
        let ghost prev = order@;
        order.insert(p, i);
        proof {
            assert forall|k: int, l: int|
                0 <= k < l < order@.len() implies read_before(bv, #[trigger] order@[k] as int, #[trigger] order@[l] as int) by {
                if l < p {
                    assert(order@[k] == prev[k] && order@[l] == prev[l]);
                } else if l == p {
                    assert(order@[k] == prev[k]);
                } else if k == p {
                    assert(order@[l] == prev[l - 1]);
                    assert(bv[prev[p as int] as int].offset > off);
                    if l - 1 > p {
                        assert(read_before(bv, prev[p as int] as int, prev[l - 1] as int));
                    }
                } else if k < p {
                    assert(order@[k] == prev[k] && order@[l] == prev[l - 1]);
                } else {
                    assert(order@[k] == prev[k - 1] && order@[l] == prev[l - 1]);
                }
            }
        }
        i = i + 1;
    }
    order
}


/// The bytes of `data` that the blocks cover, block after block in list
/// order.
pub open spec fn assemble(data: Seq<u8>, blocks: Seq<BlockModel>) -> Seq<u8>
    decreases blocks.len(),
{
    if blocks.len() == 0 {
        Seq::empty()
    } else {
        data.subrange(blocks[0].offset as int, blocks[0].offset + blocks[0].size) + assemble(
            data,
            blocks.drop_first(),
        )
    }
}

/// The blocks' offsets strictly increase along the list.
pub open spec fn offsets_increase(blocks: Seq<BlockModel>) -> bool {
    forall|i: int, j: int| 0 <= i < j < blocks.len() ==> #[trigger] blocks[i].offset < #[trigger] blocks[j].offset
}

/// The blocks cut from `offset` on cover the rest of the data, in order.
proof fn lemma_chunks_cover(data: Seq<u8>, bs: nat, offset: nat)
    requires
        bs > 0,
        offset <= data.len(),
        data.len() <= u64::MAX,
    ensures
        assemble(data, chunks(data, bs, offset)) =~= data.subrange(offset as int, data.len() as int),
        offsets_increase(chunks(data, bs, offset)),
        forall|i: int| 0 <= i < chunks(data, bs, offset).len() ==> #[trigger] chunks(data, bs, offset)[i].offset
            >= offset,
    decreases data.len() - offset,
{
    let c = chunks(data, bs, offset);
    if offset >= data.len() {
        assert(c.len() == 0);
    } else {
        let size: nat = if bs < data.len() - offset { bs } else { (data.len() - offset) as nat };
        let rest = chunks(data, bs, offset + size);
        lemma_chunks_cover(data, bs, offset + size);
        assert(c.drop_first() =~= rest);
        assert(c[0].offset == offset && c[0].size == size);
        assert(data.subrange(offset as int, (offset + size) as int) + data.subrange(
            (offset + size) as int,
            data.len() as int,
        ) =~= data.subrange(offset as int, data.len() as int));
        assert forall|i: int, j: int| 0 <= i < j < c.len() implies #[trigger] c[i].offset < #[trigger] c[j].offset by {
            if i == 0 {
                assert(c[j] == rest[j - 1]);
            } else {
                assert(c[i] == rest[i - 1]);
                assert(c[j] == rest[j - 1]);
            }
        }
        assert forall|i: int| 0 <= i < c.len() implies #[trigger] c[i].offset >= offset by {
            if i > 0 {
                assert(c[i] == rest[i - 1]);
            }
        }
    }
}

/// An order of the positions that is sorted by offset, over blocks whose
/// offsets increase, is the list order itself.
proof fn lemma_sorted_order_is_identity(blocks: Seq<BlockModel>, order: Seq<usize>)
    requires
        offsets_increase(blocks),
        order.len() == blocks.len(),
        forall|k: int| 0 <= k < order.len() ==> #[trigger] order[k] < blocks.len(),
        forall|k: int, l: int|
            0 <= k < l < order.len() ==> read_before(blocks, #[trigger] order[k] as int, #[trigger] order[l] as int),
    ensures
        forall|k: int| 0 <= k < order.len() ==> #[trigger] order[k] == k,
{
    let n = order.len() as int;
    assert forall|k: int, l: int| 0 <= k < l < n implies #[trigger] order[k] < #[trigger] order[l] by {
        assert(read_before(blocks, order[k] as int, order[l] as int));
        if order[k] >= order[l] {
            if order[k] > order[l] {
                assert(blocks[order[l] as int].offset < blocks[order[k] as int].offset);
            }
        }
    }
    assert forall|k: int| 0 <= k < n implies #[trigger] order[k] >= k by {
        lemma_increasing_at_least(order, k);
    }
    assert forall|k: int| 0 <= k < n implies #[trigger] order[k] <= k by {
        lemma_increasing_at_most(order, n, k);
    }
}

proof fn lemma_increasing_at_least(order: Seq<usize>, k: int)
    requires
        0 <= k < order.len(),
        forall|a: int, b: int| 0 <= a < b < order.len() ==> #[trigger] order[a] < #[trigger] order[b],
    ensures
        order[k] >= k,
    decreases k,
{
    if k > 0 {
        lemma_increasing_at_least(order, k - 1);
        assert(order[k - 1] < order[k]);
    }
}

proof fn lemma_increasing_at_most(order: Seq<usize>, n: int, k: int)
    requires
        n == order.len(),
        0 <= k < n,
        forall|a: int| 0 <= a < n ==> #[trigger] order[a] < n,
        forall|a: int, b: int| 0 <= a < b < n ==> #[trigger] order[a] < #[trigger] order[b],
    ensures
        order[k] <= k,
    decreases n - k,
{
    if k < n - 1 {
        lemma_increasing_at_most(order, n, k + 1);
        assert(order[k] < order[k + 1]);
    }
}

/// Sharing then reassembling gives the data back: the blocks of a shared
/// file, read in the order reassembly reads them (any order sorted by
/// offset, as `block_read_order` returns), are the file's bytes, and the
/// file's hash is the hash of those bytes, so the reassembled file passes
/// `check_reconstructed`.
pub proof fn law_share_then_reconstruct(
    data: Seq<u8>,
    name: Seq<char>,
    members: Seq<Seq<char>>,
    algo: Seq<char>,
    bs: nat,
    order: Seq<usize>,
)
    requires
        bs > 0,
        data.len() <= u64::MAX,
        order.len() == shared_entry(data, name, members, algo, bs).blocks.len(),
        forall|k: int| 0 <= k < order.len() ==> #[trigger] order[k] < order.len(),
        forall|k: int, l: int|
            0 <= k < l < order.len() ==> read_before(
                shared_entry(data, name, members, algo, bs).blocks,
                #[trigger] order[k] as int,
                #[trigger] order[l] as int,
            ),
    ensures
        forall|k: int| 0 <= k < order.len() ==> #[trigger] order[k] == k,
        assemble(data, shared_entry(data, name, members, algo, bs).blocks) == data,
        shared_entry(data, name, members, algo, bs).hash == sha256_hex_spec(data),
{
    let e = shared_entry(data, name, members, algo, bs);
    lemma_chunks_cover(data, bs, 0);
    assert(data.subrange(0, data.len() as int) =~= data);
    assert(data.take(data.len() as int) =~= data);
    lemma_sorted_order_is_identity(e.blocks, order);
}


/// The names of the files, in order.
pub open spec fn file_names(files: Seq<FileModel>) -> Seq<Seq<char>> {
    files.map_values(|f: FileModel| f.name)
}

/// Upserting keeps file names distinct, finds the entry by its name
/// afterwards, leaves every other name's entry as it was, and a second
/// identical upsert changes nothing.
pub proof fn law_upsert(files: Seq<FileModel>, e: FileModel)
    ensures
        file_names(files).no_duplicates() ==> file_names(upsert_spec(files, e)).no_duplicates(),
        lookup(upsert_spec(files, e), e.name) == Some(e),
        forall|n: Seq<char>| n != e.name ==> lookup(upsert_spec(files, e), n) == lookup(files, n),
        upsert_spec(upsert_spec(files, e), e) == upsert_spec(files, e),
{
    let u = upsert_spec(files, e);
    let p = named(e.name);
    lemma_first_index(files, p);
    let idx: int = if any_match(files, p) { first_index(files, p) } else { files.len() as int };
    assert(is_first(u, p, idx));
    lemma_first_unique(u, p, idx);
    assert(any_match(u, p));
    assert(u.update(idx, e) =~= u);
    assert forall|n: Seq<char>| n != e.name implies lookup(u, n) == lookup(files, n) by {
        let q = named(n);
        lemma_first_index(files, q);
        lemma_first_index(u, q);
        if any_match(files, q) {
            let k = first_index(files, q);
            assert(u[k] == files[k]);
            assert(is_first(u, q, k));
            lemma_first_unique(u, q, k);
        } else {
            if any_match(u, q) {
                let k = first_index(u, q);
                assert(k != idx);
                assert(u[k] == files[k]);
            }
        }
    }
    if file_names(files).no_duplicates() {
        assert forall|a: int, b: int|
            0 <= a < u.len() && 0 <= b < u.len() && a != b implies file_names(u)[a] != file_names(u)[b] by {
            if a != idx && b != idx {
                assert(file_names(files)[a] != file_names(files)[b]);
            } else if a == idx {
                assert(u[b] == files[b]);
                if any_match(files, p) {
                    assert(file_names(files)[b] != file_names(files)[idx]);
                } else {
                    assert(!p(files[b]));
                }
            } else {
                assert(u[a] == files[a]);
                if any_match(files, p) {
                    assert(file_names(files)[a] != file_names(files)[idx]);
                } else {
                    assert(!p(files[a]));
                }
            }
        }
    }
}

} // verus!
