//! The file browser: a directory listing with a selection, moved with
//! vim-style keys, that ends in a chosen file or directory.
//!
//! The application reads directories and draws the browser; this module
//! orders the entries and decides what each key does.

use vstd::prelude::*;
use crate::seqs::str_less;
use crate::text::{lowercase, to_lower, str_lt, str_eq};

verus! {

/// What the browser is selecting.
#[derive(Debug, Clone, Copy, PartialEq, Eq, Structural)]
pub enum BrowserMode {
    /// A file to import.
    SelectFile,
    /// A directory to save into.
    SelectDirectory,
}

/// A directory item as read from disk.
#[derive(Debug, Clone, PartialEq, Eq)]
pub struct ListedItem {
    pub name: String,
    pub path: String,
    pub is_dir: bool,
}

/// The mathematical value of an item.
pub struct ItemModel {
    pub name: Seq<char>,
    pub path: Seq<char>,
    pub is_dir: bool,
}

impl View for ListedItem {
    type V = ItemModel;

    open spec fn view(&self) -> ItemModel {
        ItemModel { name: self.name@, path: self.path@, is_dir: self.is_dir }
    }
}

impl ListedItem {
    /// A copy of this item.
    pub fn duplicate(&self) -> (r: Self)
        ensures
            r@ == self@,
    {
        ListedItem { name: self.name.clone(), path: self.path.clone(), is_dir: self.is_dir }
    }
}

/// The views of a list of items.
pub open spec fn items_view(v: Seq<ListedItem>) -> Seq<ItemModel> {
    v.map_values(|e: ListedItem| e@)
}

/// Public entry info for rendering.
#[derive(Debug, Clone, PartialEq, Eq)]
pub struct BrowserEntry {
    pub name: String,
    pub is_dir: bool,
}

/// The keys the browser reacts to.
#[derive(Debug, Clone, Copy, PartialEq, Eq, Structural)]
pub enum BrowserKey {
    /// q, Esc or Ctrl-C.
    Cancel,
    /// k or the up arrow.
    Up,
    /// j or the down arrow.
    Down,
    /// l or Enter: open a directory (or pick a file when selecting files).
    Open,
    /// h or Backspace: go to the parent directory.
    Back,
    /// y: confirm the selection.
    Confirm,
    /// Any other key.
    Other,
}

/// What a key leads to.
#[derive(Debug, Clone, PartialEq, Eq)]
pub enum BrowserAction {
    /// Keep browsing.
    Continue,
    /// This path was chosen.
    Select(String),
    /// The user gave up.
    Cancel,
    /// Show this directory: read it and pass it to `enter`.
    List(String),
}

/// The file browser.
#[derive(Debug)]
pub struct FileBrowser {
    mode: BrowserMode,
    current_dir: String,
    parent: Option<String>,
    entries: Vec<ListedItem>,
    selected: usize,
    scroll_offset: usize,
}

/// The mathematical value of the browser.
pub struct BrowserModel {
    pub mode: BrowserMode,
    pub current_dir: Seq<char>,
    pub parent: Option<Seq<char>>,
    pub entries: Seq<ItemModel>,
    pub selected: nat,
    pub scroll_offset: nat,
}

impl View for FileBrowser {
    type V = BrowserModel;

    closed spec fn view(&self) -> BrowserModel {
        BrowserModel {
            mode: self.mode,
            current_dir: self.current_dir@,
            parent: match self.parent {
                Some(p) => Some(p@),
                None => None,
            },
            entries: items_view(self.entries@),
            selected: self.selected as nat,
            scroll_offset: self.scroll_offset as nat,
        }
    }
}

/// Items are ordered by their lower-cased names.
pub open spec fn item_before(a: ItemModel, b: ItemModel) -> bool {
    str_less(lowercase(a.name), lowercase(b.name))
}

/// Inserts `x` after every item that does not order after it.
pub open spec fn insert_item(sorted: Seq<ItemModel>, x: ItemModel) -> Seq<ItemModel>
    decreases sorted.len(),
{
    if sorted.len() == 0 {
        seq![x]
    } else if item_before(x, sorted[0]) {
        seq![x] + sorted
    } else {
        seq![sorted[0]] + insert_item(sorted.drop_first(), x)
    }
}

/// The items sorted by lower-cased name, items with equal keys keeping
/// their order (the stable sort `sort_by` performs).
pub open spec fn sort_items(v: Seq<ItemModel>) -> Seq<ItemModel>
    decreases v.len(),
{
    if v.len() == 0 {
        Seq::empty()
    } else {
        insert_item(sort_items(v.drop_last()), v.last())
    }
}

/// The item is shown: its name does not start with a dot.
pub open spec fn shown(i: ItemModel) -> bool {
    !(i.name.len() > 0 && i.name[0] == '.')
}

/// The entries of a directory listing: `..` to the parent when there is
/// one, then the shown directories, then the shown files, each group
/// sorted by lower-cased name.
pub open spec fn listing(parent: Option<Seq<char>>, items: Seq<ItemModel>) -> Seq<ItemModel> {
    let up: Seq<ItemModel> = match parent {
        Some(p) => seq![ItemModel { name: ".."@, path: p, is_dir: true }],
        None => Seq::empty(),
    };
    up + sort_items(items.filter(|i: ItemModel| shown(i) && i.is_dir)) + sort_items(
        items.filter(|i: ItemModel| shown(i) && !i.is_dir),
    )
}

proof fn lemma_insert_item(sorted: Seq<ItemModel>, x: ItemModel, p: int)
    requires
        0 <= p <= sorted.len(),
        forall|k: int| 0 <= k < p ==> !item_before(x, #[trigger] sorted[k]),
        p < sorted.len() ==> item_before(x, sorted[p]),
    ensures
        insert_item(sorted, x) == sorted.insert(p, x),
    decreases sorted.len(),
{
    if sorted.len() == 0 {
        assert(sorted.insert(p, x) =~= seq![x]);
    } else if p == 0 {
        assert(sorted.insert(p, x) =~= seq![x] + sorted);
    } else {
        let t = sorted.drop_first();
        assert forall|k: int| 0 <= k < p - 1 implies !item_before(x, #[trigger] t[k]) by {
            assert(t[k] == sorted[k + 1]);
        }
        if p - 1 < t.len() {
            assert(t[p - 1] == sorted[p]);
        }
        lemma_insert_item(t, x, p - 1);
        assert(sorted.insert(p, x) =~= seq![sorted[0]] + t.insert(p - 1, x));
    }
}

/// Sorts items by lower-cased name, stably.
fn sort_by_name(v: Vec<ListedItem>) -> (r: Vec<ListedItem>)
    ensures
        items_view(r@) == sort_items(items_view(v@)),
{
    let ghost sv = items_view(v@);
    let mut keys: Vec<String> = Vec::new();
    let mut r: Vec<ListedItem> = Vec::new();
    let mut i: usize = 0;
    while i < v.len()
        invariant
            sv == items_view(v@),
            i <= v@.len(),
            items_view(r@) == sort_items(sv.take(i as int)),
            keys@.len() == r@.len(),
            forall|k: int| 0 <= k < keys@.len() ==> (#[trigger] keys@[k])@ == lowercase(r@[k].name@),
        decreases v@.len() - i,
    {
        let key = to_lower(v[i].name.as_str());
        let mut p: usize = 0;
        while p < r.len() && !str_lt(key.as_str(), keys[p].as_str())
            invariant
                sv == items_view(v@),
                i < v@.len(),
                p <= r@.len(),
                keys@.len() == r@.len(),
                key@ == lowercase(v@[i as int].name@),
                forall|k: int| 0 <= k < keys@.len() ==> (#[trigger] keys@[k])@ == lowercase(r@[k].name@),
                forall|k: int| 0 <= k < p ==> !item_before(sv[i as int], #[trigger] items_view(r@)[k]),
            decreases r@.len() - p,
        {
            p = p + 1;
        }
        let ghost prev = items_view(r@);
        proof {
            lemma_insert_item(prev, sv[i as int], p as int);
            assert(sv.take(i + 1).drop_last() =~= sv.take(i as int));
        }
        let ghost prev_keys = keys@;
        let ghost prev_r = r@;
        r.insert(p, v[i].duplicate());
        keys.insert(p, key);
        assert(items_view(r@) =~= prev.insert(p as int, sv[i as int]));
        assert forall|k: int| 0 <= k < keys@.len() implies (#[trigger] keys@[k])@ == lowercase(r@[k].name@) by {
            if k < p {
                assert(keys@[k] == prev_keys[k]);
                assert(r@[k] == prev_r[k]);
            } else if k > p {
                assert(keys@[k] == prev_keys[k - 1]);
                assert(r@[k] == prev_r[k - 1]);
            }
        }
        i = i + 1;
    }
    assert(sv.take(sv.len() as int) =~= sv);
    r
}

/// Sets the browser to a directory listing.
fn fill(
    mode: BrowserMode,
    dir: &str,
    parent: Option<String>,
    items: &Vec<ListedItem>,
) -> (b: FileBrowser)
    ensures
        b@.mode == mode,
        b@.current_dir == dir@,
        b@.parent == match parent {
            Some(p) => Some(p@),
            None => None::<Seq<char>>,
        },
        b@.entries == listing(b@.parent, items_view(items@)),
        b@.selected == 0,
        b@.scroll_offset == 0,
{
    let ghost iv = items_view(items@);
    let ghost is_d = |i: ItemModel| shown(i) && i.is_dir;
    let ghost is_f = |i: ItemModel| shown(i) && !i.is_dir;
    let mut dirs: Vec<ListedItem> = Vec::new();
    let mut files: Vec<ListedItem> = Vec::new();
    let mut k: usize = 0;
    while k < items.len()
        invariant
            iv == items_view(items@),
            is_d == (|i: ItemModel| shown(i) && i.is_dir),
            is_f == (|i: ItemModel| shown(i) && !i.is_dir),
            k <= items@.len(),
            items_view(dirs@) == iv.take(k as int).filter(is_d),
            items_view(files@) == iv.take(k as int).filter(is_f),
        decreases items@.len() - k,
    {
        proof {
            reveal(Seq::filter);
            assert(iv.take(k + 1).drop_last() =~= iv.take(k as int));
        }
        let it = &items[k];
        let hidden = it.name.unicode_len() > 0 && it.name.get_char(0) == '.';
        if !hidden {
            if it.is_dir {
                let ghost prev = dirs@;
                dirs.push(it.duplicate());
                assert(items_view(dirs@) =~= items_view(prev).push(iv[k as int]));
            } else {
                let ghost prev = files@;
                files.push(it.duplicate());
                assert(items_view(files@) =~= items_view(prev).push(iv[k as int]));
            }
        }
        k = k + 1;
    }
    assert(iv.take(iv.len() as int) =~= iv);
    let dirs = sort_by_name(dirs);
    let files = sort_by_name(files);
    let mut entries: Vec<ListedItem> = Vec::new();
    match &parent {
        Some(p) => {
            entries.push(ListedItem { name: String::from_str(".."), path: p.clone(), is_dir: true });
        },
        None => {},
    }
    let ghost up = items_view(entries@);
    let mut j: usize = 0;
    while j < dirs.len()
        invariant
            j <= dirs@.len(),
            items_view(entries@) =~= up + items_view(dirs@).take(j as int),
        decreases dirs@.len() - j,
    {
        let ghost prev = entries@;
        entries.push(dirs[j].duplicate());
        assert(items_view(entries@) =~= items_view(prev).push(items_view(dirs@)[j as int]));
        assert(items_view(dirs@).take(j + 1) =~= items_view(dirs@).take(j as int).push(items_view(dirs@)[j as int]));
        j = j + 1;
    }
    assert(items_view(dirs@).take(dirs@.len() as int) =~= items_view(dirs@));
    let ghost mid = items_view(entries@);
    let mut j: usize = 0;
    while j < files.len()
        invariant
            j <= files@.len(),
            items_view(entries@) =~= mid + items_view(files@).take(j as int),
        decreases files@.len() - j,
    {
        let ghost prev = entries@;
        entries.push(files[j].duplicate());
        assert(items_view(entries@) =~= items_view(prev).push(items_view(files@)[j as int]));
        assert(items_view(files@).take(j + 1) =~= items_view(files@).take(j as int).push(items_view(files@)[j as int]));
        j = j + 1;
    }
    assert(items_view(files@).take(files@.len() as int) =~= items_view(files@));
    let b = FileBrowser { mode, current_dir: String::from_str(dir), parent, entries, selected: 0, scroll_offset: 0 };
    proof {
        let pv = b@.parent;
        let up2: Seq<ItemModel> = match pv {
            Some(p) => seq![ItemModel { name: ".."@, path: p, is_dir: true }],
            None => Seq::empty(),
        };
        assert(up =~= up2);
        assert(b@.entries =~= listing(pv, iv));
    }
    b
}

/// Keeps the selection within the `visible` rows shown from the scroll
/// offset.
pub open spec fn scrolled(selected: nat, offset: nat, visible: nat) -> nat {
    if selected < offset {
        selected
    } else if selected >= offset + visible {
        (selected - visible + 1) as nat
    } else {
        offset
    }
}

impl FileBrowser {
    /// A browser on `start_dir` with its listing (`parent` is its parent
    /// directory, when it has one).
    pub fn new(start_dir: &str, mode: BrowserMode, parent: Option<String>, items: &Vec<ListedItem>) -> (b: Self)
        ensures
            b@.mode == mode,
            b@.current_dir == start_dir@,
            b@.parent == match parent {
                Some(p) => Some(p@),
                None => None::<Seq<char>>,
            },
            b@.entries == listing(b@.parent, items_view(items@)),
            b@.selected == 0,
            b@.scroll_offset == 0,
    {
        fill(mode, start_dir, parent, items)
    }

    /// Moves to a directory with its listing; the selection starts at the
    /// top.
    pub fn enter(&mut self, dir: &str, parent: Option<String>, items: &Vec<ListedItem>)
        ensures
            final(self)@.mode == old(self)@.mode,
            final(self)@.current_dir == dir@,
            final(self)@.parent == match parent {
                Some(p) => Some(p@),
                None => None::<Seq<char>>,
            },
            final(self)@.entries == listing(final(self)@.parent, items_view(items@)),
            final(self)@.selected == 0,
            final(self)@.scroll_offset == 0,
    {
        *self = fill(self.mode, dir, parent, items);
    }

    fn adjust_scroll(&mut self, visible_rows: usize)
        requires
            old(self)@.selected < usize::MAX,
        ensures
            final(self)@ == (BrowserModel {
                scroll_offset: scrolled(old(self)@.selected, old(self)@.scroll_offset, visible_rows as nat),
                ..old(self)@
            }),
    {
        if self.selected < self.scroll_offset {
            self.scroll_offset = self.selected;
        } else if self.selected as u128 >= self.scroll_offset as u128 + visible_rows as u128 {
            self.scroll_offset = if visible_rows > 0 {
                self.selected - (visible_rows - 1)
            } else {
                self.selected + 1
            };
        }
    }

    /// What a key does, with `visible_rows` rows shown.
    pub fn handle_key(&mut self, key: BrowserKey, visible_rows: usize) -> (r: BrowserAction)
        ensures
            final(self)@.mode == old(self)@.mode,
            final(self)@.current_dir == old(self)@.current_dir,
            final(self)@.parent == old(self)@.parent,
            final(self)@.entries == old(self)@.entries,
            key == BrowserKey::Cancel ==> r == BrowserAction::Cancel,
            key == BrowserKey::Up ==> r == BrowserAction::Continue && if old(self)@.selected > 0 {
                final(self)@.selected == old(self)@.selected - 1 && final(self)@.scroll_offset == scrolled(
                    (old(self)@.selected - 1) as nat,
                    old(self)@.scroll_offset,
                    visible_rows as nat,
                )
            } else {
                final(self)@ == old(self)@
            },
            key == BrowserKey::Down ==> r == BrowserAction::Continue && if old(self)@.selected + 1
                < old(self)@.entries.len() {
                final(self)@.selected == old(self)@.selected + 1 && final(self)@.scroll_offset == scrolled(
                    old(self)@.selected + 1,
                    old(self)@.scroll_offset,
                    visible_rows as nat,
                )
            } else {
                final(self)@ == old(self)@
            },
            key == BrowserKey::Open ==> final(self)@ == old(self)@ && if old(self)@.selected < old(
                self,
            )@.entries.len() {
                let e = old(self)@.entries[old(self)@.selected as int];
                if e.is_dir {
                    r matches BrowserAction::List(p) && p@ == e.path
                } else if old(self)@.mode == BrowserMode::SelectFile {
                    r matches BrowserAction::Select(p) && p@ == e.path
                } else {
                    r == BrowserAction::Continue
                }
            } else {
                r == BrowserAction::Continue
            },
            key == BrowserKey::Back ==> final(self)@ == old(self)@ && match old(self)@.parent {
                Some(p) => r matches BrowserAction::List(q) && q@ == p,
                None => r == BrowserAction::Continue,
            },
            key == BrowserKey::Confirm ==> final(self)@ == old(self)@ && {
                let m = old(self)@;
                let has = m.selected < m.entries.len();
                let e = m.entries[m.selected as int];
                if has && m.mode == BrowserMode::SelectFile && !e.is_dir {
                    r matches BrowserAction::Select(p) && p@ == e.path
                } else if has && m.mode == BrowserMode::SelectDirectory && e.is_dir && e.name != ".."@ {
                    r matches BrowserAction::Select(p) && p@ == e.path
                } else if m.mode == BrowserMode::SelectDirectory {
                    r matches BrowserAction::Select(p) && p@ == m.current_dir
                } else {
                    r == BrowserAction::Continue
                }
            },
            key == BrowserKey::Other ==> r == BrowserAction::Continue && final(self)@ == old(self)@,
    {
        match key {
            BrowserKey::Cancel => BrowserAction::Cancel,
            BrowserKey::Up => {
                if self.selected > 0 {
                    self.selected = self.selected - 1;
                    self.adjust_scroll(visible_rows);
                }
                BrowserAction::Continue
            },
            BrowserKey::Down => {
                if self.entries.len() > 0 && self.selected < self.entries.len() - 1 {
                    self.selected = self.selected + 1;
                    self.adjust_scroll(visible_rows);
                }
                BrowserAction::Continue
            },
            BrowserKey::Open => {
                if self.selected < self.entries.len() {
                    let e = &self.entries[self.selected];
                    if e.is_dir {
                        return BrowserAction::List(e.path.clone());
                    } else if self.mode == BrowserMode::SelectFile {
                        return BrowserAction::Select(e.path.clone());
                    }
                }
                BrowserAction::Continue
            },
            BrowserKey::Back => match &self.parent {
                Some(p) => BrowserAction::List(p.clone()),
                None => BrowserAction::Continue,
            },
            BrowserKey::Confirm => {
                if self.selected < self.entries.len() {
                    let e = &self.entries[self.selected];
                    match self.mode {
                        BrowserMode::SelectFile => {
                            if !e.is_dir {
                                return BrowserAction::Select(e.path.clone());
                            }
                        },
                        BrowserMode::SelectDirectory => {
                            if e.is_dir && !str_eq(e.name.as_str(), "..") {
                                return BrowserAction::Select(e.path.clone());
                            } else if str_eq(e.name.as_str(), "..") {
                                return BrowserAction::Select(self.current_dir.clone());
                            }
                        },
                    }
                }
                if self.mode == BrowserMode::SelectDirectory {
                    return BrowserAction::Select(self.current_dir.clone());
                }
                BrowserAction::Continue
            },
            BrowserKey::Other => BrowserAction::Continue,
        }
    }

    /// The state to draw: the current directory, the entries and the
    /// selected position.
    pub fn get_state(&self) -> (r: (&String, Vec<BrowserEntry>, usize))
        ensures
            r.0@ == self@.current_dir,
            r.1@.len() == self@.entries.len(),
            forall|i: int| 0 <= i < r.1@.len() ==> (#[trigger] r.1@[i]).name@ == self@.entries[i].name && r.1@[i].is_dir
                == self@.entries[i].is_dir,
            r.2 == self@.selected,
    {
        let mut out: Vec<BrowserEntry> = Vec::new();
        let mut i: usize = 0;
        while i < self.entries.len()
            invariant
                i <= self.entries@.len(),
                out@.len() == i,
                forall|k: int| 0 <= k < i ==> (#[trigger] out@[k]).name@ == self@.entries[k].name && out@[k].is_dir
                    == self@.entries[k].is_dir,
            decreases self.entries@.len() - i,
        {
            out.push(BrowserEntry { name: self.entries[i].name.clone(), is_dir: self.entries[i].is_dir });
            i = i + 1;
        }
        (&self.current_dir, out, self.selected)
    }
}

} // verus!
