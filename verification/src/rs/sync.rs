//! Block ownership (rendezvous hashing) and synchronisation rules.
//!
//! Each block of a shared file is owned by the members with the highest
//! rendezvous score `SHA-256(member ++ block hash)`; a node keeps the blocks
//! that the replication factor assigns to it.

use vstd::prelude::*;
use vstd::utf8::encode_utf8;
use crate::digest::{sha256, spec_sha256};
use crate::seqs::{bytes_less, str_less, lex_less, bytes_as_ints, lemma_lex_total, lemma_lex_transitive,
    lemma_lex_irreflexive, first_index, is_first, any_match, lemma_first_unique};
use crate::text::{bytes_lt, str_lt};
use crate::rs::{RsBlockEntry, RsFileEntry, RsStore, BlockModel, FileModel, strings_view, copy_strings,
    blocks_view, files_view, upsert_all, upsert_spec};
use crate::seqs::remove_where;

verus! {

/// The rendezvous score of `member` for the block with hash `block_hash`:
/// SHA-256 over the member's UTF-8 bytes followed by the hash's.
pub open spec fn hrw_score(member: Seq<char>, block_hash: Seq<char>) -> Seq<u8> {
    spec_sha256(encode_utf8(member) + encode_utf8(block_hash))
}

/// The scores of all members for one block.
pub open spec fn hrw_scores(members: Seq<Seq<char>>, block_hash: Seq<char>) -> Seq<Seq<u8>> {
    members.map_values(|m: Seq<char>| hrw_score(m, block_hash))
}

/// Member `a` ranks before member `b`: higher score first, and list order
/// among equal scores.
pub open spec fn hrw_before(scores: Seq<Seq<u8>>, a: int, b: int) -> bool {
    bytes_less(scores[b], scores[a]) || (scores[a] == scores[b] && a < b)
}

/// Inserts `i` into a ranking, after every entry that ranks before it.
pub open spec fn insert_rank(order: Seq<usize>, i: usize, scores: Seq<Seq<u8>>) -> Seq<usize>
    decreases order.len(),
{
    if order.len() == 0 {
        seq![i]
    } else if hrw_before(scores, order[0] as int, i as int) {
        seq![order[0]] + insert_rank(order.drop_first(), i, scores)
    } else {
        seq![i] + order
    }
}

/// The first `m` members ranked by score (the stable sort of the positions
/// by descending score).
pub open spec fn rank_order(scores: Seq<Seq<u8>>, m: nat) -> Seq<usize>
    decreases m,
{
    if m == 0 {
        Seq::empty()
    } else {
        insert_rank(rank_order(scores, (m - 1) as nat), (m - 1) as usize, scores)
    }
}

/// The positions of the `n` highest-ranked members.
pub open spec fn top_owners(scores: Seq<Seq<u8>>, n: nat) -> Seq<usize> {
    let all = rank_order(scores, scores.len());
    if n < all.len() {
        all.take(n as int)
    } else {
        all
    }
}

/// The member at position `local_index` is one of the `replication_factor`
/// owners of the block with hash `h`.
pub open spec fn assigned_to(
    h: Seq<char>,
    members: Seq<Seq<char>>,
    local_index: int,
    replication_factor: nat,
) -> bool {
    top_owners(hrw_scores(members, h), replication_factor).contains(local_index as usize)
}

/// Inserting into a ranking puts the new entry before the first entry that
/// does not rank before it.
proof fn lemma_insert_rank(order: Seq<usize>, i: usize, scores: Seq<Seq<u8>>, p: int)
    requires
        0 <= p <= order.len(),
        forall|k: int| 0 <= k < p ==> hrw_before(scores, #[trigger] order[k] as int, i as int),
        p < order.len() ==> !hrw_before(scores, order[p] as int, i as int),
    ensures
        insert_rank(order, i, scores) == order.insert(p, i),
    decreases order.len(),
{
    if order.len() == 0 {
        assert(order.insert(p, i) =~= seq![i]);
    } else if p == 0 {
        assert(order.insert(p, i) =~= seq![i] + order);
    } else {
        let t = order.drop_first();
        assert forall|k: int| 0 <= k < p - 1 implies hrw_before(scores, #[trigger] t[k] as int, i as int) by {
            assert(t[k] == order[k + 1]);
        }
        if p - 1 < t.len() {
            assert(t[p - 1] == order[p]);
        }
        lemma_insert_rank(t, i, scores, p - 1);
        assert(order.insert(p, i) =~= seq![order[0]] + t.insert(p - 1, i));
    }
}

/// Concatenation of two byte slices.
fn concat_bytes(a: &[u8], b: &[u8]) -> (r: Vec<u8>)
    ensures
        r@ == a@ + b@,
{
    let mut r: Vec<u8> = Vec::new();
    let mut i: usize = 0;
    while i < a.len()
        invariant
            i <= a@.len(),
            r@ =~= a@.take(i as int),
        decreases a@.len() - i,
    {
        r.push(a[i]);
        i = i + 1;
    }
    let mut j: usize = 0;
    while j < b.len()
        invariant
            j <= b@.len(),
            r@ =~= a@ + b@.take(j as int),
        decreases b@.len() - j,
    {
        r.push(b[j]);
        j = j + 1;
    }
    r
}

/// The rendezvous score of one member for one block.
pub fn hrw_score_of(member: &str, block_hash: &str) -> (r: Vec<u8>)
    ensures
        r@ == hrw_score(member@, block_hash@),
        r@.len() == 32,
{
    let data = concat_bytes(member.as_bytes(), block_hash.as_bytes());
    sha256(data.as_slice())
}

/// The scores of all members for one block.
fn scores_of(block: &RsBlockEntry, members: &[String]) -> (r: Vec<Vec<u8>>)
    ensures
        r@.len() == members@.len(),
        forall|k: int| 0 <= k < r@.len() ==> (#[trigger] r@[k])@ == hrw_scores(strings_view(members@), block.hash@)[k],
        forall|k: int| 0 <= k < r@.len() ==> (#[trigger] r@[k])@.len() == 32,
{
    let mut r: Vec<Vec<u8>> = Vec::new();
    let mut i: usize = 0;
    while i < members.len()
        invariant
            i <= members@.len(),
            r@.len() == i,
            forall|k: int| 0 <= k < i ==> (#[trigger] r@[k])@ == hrw_scores(strings_view(members@), block.hash@)[k],
            forall|k: int| 0 <= k < i ==> (#[trigger] r@[k])@.len() == 32,
        decreases members@.len() - i,
    {
        r.push(hrw_score_of(members[i].as_str(), block.hash.as_str()));
        i = i + 1;
    }
    r
}

/// The score views of a list of score vectors.
pub open spec fn score_views(v: Seq<Vec<u8>>) -> Seq<Seq<u8>> {
    v.map_values(|s: Vec<u8>| s@)
}

/// The single owner of a block: the first member with the highest score,
/// or `None` when there are no members.
pub fn hrw_owner_index(block: &RsBlockEntry, members: &[String]) -> (r: Option<usize>)
    ensures
        members@.len() == 0 <==> r is None,
        r matches Some(i) ==> {
            let s = hrw_scores(strings_view(members@), block.hash@);
            &&& i < members@.len()
            &&& forall|j: int| 0 <= j < members@.len() ==> !bytes_less(s[i as int], #[trigger] s[j])
            &&& forall|j: int| 0 <= j < i ==> bytes_less(#[trigger] s[j], s[i as int])
        },
{
    if members.len() == 0 {
        return None;
    }
    let scores = scores_of(block, members);
    let ghost s = hrw_scores(strings_view(members@), block.hash@);
    assert(s.len() == members@.len());
    let mut best: usize = 0;
    let mut i: usize = 1;
    proof {
        lemma_lex_irreflexive(bytes_as_ints(s[0]));
    }
    while i < scores.len()
        invariant
            scores@.len() == members@.len(),
            s == hrw_scores(strings_view(members@), block.hash@),
            s.len() == members@.len(),
            forall|k: int| 0 <= k < scores@.len() ==> (#[trigger] scores@[k])@ == s[k],
            1 <= i <= scores@.len(),
            best < i,
            forall|j: int| 0 <= j < i ==> !bytes_less(s[best as int], #[trigger] s[j]),
            forall|j: int| 0 <= j < best ==> bytes_less(#[trigger] s[j], s[best as int]),
        decreases scores@.len() - i,
    {
        if bytes_lt(scores[best].as_slice(), scores[i].as_slice()) {
            proof {
                assert forall|j: int| 0 <= j < i + 1 implies !bytes_less(s[i as int], #[trigger] s[j]) by {
                    lemma_lex_total(bytes_as_ints(s[j]), bytes_as_ints(s[i as int]));
                    if j < i && bytes_less(s[i as int], s[j]) {
                        lemma_lex_total(bytes_as_ints(s[best as int]), bytes_as_ints(s[j]));
                        if bytes_as_ints(s[best as int]) =~= bytes_as_ints(s[j]) {
                            assert(bytes_less(s[best as int], s[i as int]));
                        } else {
                            lemma_lex_transitive(bytes_as_ints(s[best as int]), bytes_as_ints(s[i as int]), bytes_as_ints(s[j]));
                        }
                    }
                    if j == i {
                        lemma_lex_irreflexive(bytes_as_ints(s[j]));
                    }
                }
                assert forall|j: int| 0 <= j < i implies bytes_less(#[trigger] s[j], s[i as int]) by {
                    lemma_lex_total(bytes_as_ints(s[j]), bytes_as_ints(s[best as int]));
                    if bytes_as_ints(s[j]) =~= bytes_as_ints(s[best as int]) {
                    } else if bytes_less(s[best as int], s[j]) {
                    } else {
                        lemma_lex_transitive(bytes_as_ints(s[j]), bytes_as_ints(s[best as int]), bytes_as_ints(s[i as int]));
                    }
                }
            }
            best = i;
        }
        i = i + 1;
    }
    Some(best)
}

/// Byte sequences with equal integer readings are equal.
proof fn lemma_bytes_ints_injective(x: Seq<u8>, y: Seq<u8>)
    requires
        bytes_as_ints(x) =~= bytes_as_ints(y),
    ensures
        x == y,
{
    assert(bytes_as_ints(x).len() == x.len());
    assert(bytes_as_ints(y).len() == y.len());
    assert forall|k: int| 0 <= k < x.len() implies x[k] == y[k] by {
        assert(bytes_as_ints(x)[k] == x[k] as int);
        assert(bytes_as_ints(y)[k] == y[k] as int);
    }
    assert(x =~= y);
}

/// For an earlier position `a`, ranking before `i` means not scoring lower.
proof fn lemma_before_earlier(s: Seq<Seq<u8>>, a: int, i: int)
    requires
        0 <= a < i < s.len(),
    ensures
        hrw_before(s, a, i) == !bytes_less(s[a], s[i]),
{
    lemma_lex_total(bytes_as_ints(s[a]), bytes_as_ints(s[i]));
    if bytes_as_ints(s[a]) =~= bytes_as_ints(s[i]) {
        lemma_bytes_ints_injective(s[a], s[i]);
        lemma_lex_irreflexive(bytes_as_ints(s[a]));
    }
}

/// The positions of the `n` members with the highest scores for the block,
/// highest first; equal scores keep list order.
pub fn hrw_top_n_owners(block: &RsBlockEntry, members: &[String], n: usize) -> (r: Vec<usize>)
    ensures
        r@ == top_owners(hrw_scores(strings_view(members@), block.hash@), n as nat),
{
    let ghost s = hrw_scores(strings_view(members@), block.hash@);
    if members.len() == 0 || n == 0 {
        proof {
            assert(rank_order(s, 0) =~= Seq::<usize>::empty());
        }
        return Vec::new();
    }
    let scores = scores_of(block, members);
    let mut order: Vec<usize> = Vec::new();
    let mut i: usize = 0;
    while i < scores.len()
        invariant
            scores@.len() == members@.len(),
            s == hrw_scores(strings_view(members@), block.hash@),
            s.len() == members@.len(),
            forall|k: int| 0 <= k < scores@.len() ==> (#[trigger] scores@[k])@ == s[k],
            i <= scores@.len(),
            order@ == rank_order(s, i as nat),
            forall|k: int| 0 <= k < order@.len() ==> #[trigger] order@[k] < i,
        decreases scores@.len() - i,
    {
        proof {
            lemma_rank_order_len(s, i as nat);
        }
        let mut p: usize = 0;
        while p < order.len() && !bytes_lt(scores[order[p]].as_slice(), scores[i].as_slice())
            invariant
                scores@.len() == members@.len(),
                s.len() == members@.len(),
                forall|k: int| 0 <= k < scores@.len() ==> (#[trigger] scores@[k])@ == s[k],
                i < scores@.len(),
                p <= order@.len(),
                forall|k: int| 0 <= k < order@.len() ==> #[trigger] order@[k] < i,
                forall|k: int| 0 <= k < p ==> hrw_before(s, #[trigger] order@[k] as int, i as int),
            decreases order@.len() - p,
        {
            proof {
                lemma_before_earlier(s, order@[p as int] as int, i as int);
            }
            p = p + 1;
        }
        proof {
            if p < order@.len() {
                lemma_before_earlier(s, order@[p as int] as int, i as int);
            }
            lemma_insert_rank(order@, i, s, p as int);
        }
        order.insert(p, i);
        i = i + 1;
    }
    proof {
        lemma_rank_order_len(s, s.len());
    }
    order.truncate(n);
    order
}

/// A ranking of `m` members has `m` entries.
pub proof fn lemma_rank_order_len(s: Seq<Seq<u8>>, m: nat)
    ensures
        rank_order(s, m).len() == m,
    decreases m,
{
    if m > 0 {
        lemma_rank_order_len(s, (m - 1) as nat);
        lemma_insert_rank_len(rank_order(s, (m - 1) as nat), (m - 1) as usize, s);
    }
}

proof fn lemma_insert_rank_len(order: Seq<usize>, i: usize, s: Seq<Seq<u8>>)
    ensures
        insert_rank(order, i, s).len() == order.len() + 1,
    decreases order.len(),
{
    if order.len() > 0 {
        lemma_insert_rank_len(order.drop_first(), i, s);
    }
}

/// Inserting into a ranking puts the new entry at some position.
proof fn lemma_insert_rank_is_insert(order: Seq<usize>, i: usize, s: Seq<Seq<u8>>) -> (p: int)
    ensures
        0 <= p <= order.len(),
        insert_rank(order, i, s) == order.insert(p, i),
    decreases order.len(),
{
    if order.len() == 0 {
        assert(order.insert(0, i) =~= seq![i]);
        0
    } else if hrw_before(s, order[0] as int, i as int) {
        let t = order.drop_first();
        let q = lemma_insert_rank_is_insert(t, i, s);
        assert(order.insert(q + 1, i) =~= seq![order[0]] + t.insert(q, i));
        q + 1
    } else {
        assert(order.insert(0, i) =~= seq![i] + order);
        0
    }
}

/// A ranking of `m` members lists each of the positions `0..m` once.
proof fn lemma_rank_order_perm(s: Seq<Seq<u8>>, m: nat)
    requires
        m <= usize::MAX + 1,
    ensures
        rank_order(s, m).len() == m,
        rank_order(s, m).no_duplicates(),
        forall|k: int| 0 <= k < m ==> (#[trigger] rank_order(s, m)[k]) < m,
    decreases m,
{
    if m > 0 {
        let o = rank_order(s, (m - 1) as nat);
        lemma_rank_order_perm(s, (m - 1) as nat);
        let i = (m - 1) as usize;
        let p = lemma_insert_rank_is_insert(o, i, s);
        let n = o.insert(p, i);
        o.insert_ensures(p, i);
        assert forall|a: int| 0 <= a < n.len() implies (#[trigger] n[a]) == (if a < p {
            o[a]
        } else if a == p {
            i
        } else {
            o[a - 1]
        }) by {
            if a > p {
                assert(n[(a - 1) + 1] == o[a - 1]);
            }
        }
        assert forall|a: int, b: int| 0 <= a < n.len() && 0 <= b < n.len() && a != b implies n[a] != n[b] by {
            if a != p && b != p {
                let oa = if a < p { a } else { a - 1 };
                let ob = if b < p { b } else { b - 1 };
                assert(n[a] == o[oa]);
                assert(n[b] == o[ob]);
            } else if a == p {
                let ob = if b < p { b } else { b - 1 };
                assert(n[b] == o[ob]);
            } else {
                let oa = if a < p { a } else { a - 1 };
                assert(n[a] == o[oa]);
            }
        }
        assert forall|k: int| 0 <= k < m implies (#[trigger] n[k]) < m by {
            if k != p {
                let ok = if k < p { k } else { k - 1 };
                assert(n[k] == o[ok]);
            }
        }
    }
}

/// Every block is kept by `min(replication_factor, members)` distinct
/// members: its owners are positions in the member list, none twice, and
/// there are as many as the replication factor asks while the list has
/// that many members.
pub proof fn law_block_replicas(h: Seq<char>, members: Seq<Seq<char>>, rf: nat)
    requires
        members.len() <= usize::MAX,
    ensures
        top_owners(hrw_scores(members, h), rf).len() == if rf < members.len() {
            rf
        } else {
            members.len()
        },
        top_owners(hrw_scores(members, h), rf).no_duplicates(),
        forall|k: int|
            0 <= k < top_owners(hrw_scores(members, h), rf).len() ==> (#[trigger] top_owners(
                hrw_scores(members, h),
                rf,
            )[k]) < members.len(),
        forall|i: int|
            0 <= i < members.len() ==> (assigned_to(h, members, i, rf) <==> top_owners(
                hrw_scores(members, h),
                rf,
            ).contains(i as usize)),
{
    let s = hrw_scores(members, h);
    let all = rank_order(s, s.len());
    lemma_rank_order_perm(s, s.len());
    let t = top_owners(s, rf);
    if rf < all.len() {
        assert forall|a: int, b: int| 0 <= a < t.len() && 0 <= b < t.len() && a != b implies t[a] != t[b] by {
            assert(t[a] == all[a]);
            assert(t[b] == all[b]);
        }
        assert forall|k: int| 0 <= k < t.len() implies (#[trigger] t[k]) < members.len() by {
            assert(t[k] == all[k]);
        }
    }
}

/// Whether the member at `local_index` is one of the block's
/// `replication_factor` owners.
pub fn is_block_assigned_to(
    block: &RsBlockEntry,
    members: &[String],
    local_index: usize,
    replication_factor: usize,
) -> (r: bool)
    ensures
        r == assigned_to(block.hash@, strings_view(members@), local_index as int, replication_factor as nat),
{
    let owners = hrw_top_n_owners(block, members, replication_factor);
    let mut k: usize = 0;
    while k < owners.len()
        invariant
            owners@ == top_owners(hrw_scores(strings_view(members@), block.hash@), replication_factor as nat),
            k <= owners@.len(),
            forall|j: int| 0 <= j < k ==> owners@[j] != local_index,
        decreases owners@.len() - k,
    {
        if owners[k] == local_index {
            assert(owners@[k as int] == local_index);
            assert(owners@.contains((local_index as int) as usize));
            return true;
        }
        k = k + 1;
    }
    false
}

/// Inserts `x` into a sorted list after every entry not greater than it.
pub open spec fn insert_sorted(sorted: Seq<Seq<char>>, x: Seq<char>) -> Seq<Seq<char>>
    decreases sorted.len(),
{
    if sorted.len() == 0 {
        seq![x]
    } else if str_less(x, sorted[0]) {
        seq![x] + sorted
    } else {
        seq![sorted[0]] + insert_sorted(sorted.drop_first(), x)
    }
}

/// The strings in ascending order (the order `Vec<String>::sort` gives).
pub open spec fn sort_strings(v: Seq<Seq<char>>) -> Seq<Seq<char>>
    decreases v.len(),
{
    if v.len() == 0 {
        Seq::empty()
    } else {
        insert_sorted(sort_strings(v.drop_last()), v.last())
    }
}

proof fn lemma_insert_sorted(sorted: Seq<Seq<char>>, x: Seq<char>, p: int)
    requires
        0 <= p <= sorted.len(),
        forall|k: int| 0 <= k < p ==> !str_less(x, #[trigger] sorted[k]),
        p < sorted.len() ==> str_less(x, sorted[p]),
    ensures
        insert_sorted(sorted, x) == sorted.insert(p, x),
    decreases sorted.len(),
{
    if sorted.len() == 0 {
        assert(sorted.insert(p, x) =~= seq![x]);
    } else if p == 0 {
        assert(sorted.insert(p, x) =~= seq![x] + sorted);
    } else {
        let t = sorted.drop_first();
        assert forall|k: int| 0 <= k < p - 1 implies !str_less(x, #[trigger] t[k]) by {
            assert(t[k] == sorted[k + 1]);
        }
        if p - 1 < t.len() {
            assert(t[p - 1] == sorted[p]);
        }
        lemma_insert_sorted(t, x, p - 1);
        assert(sorted.insert(p, x) =~= seq![sorted[0]] + t.insert(p - 1, x));
    }
}

/// The members that own a file's blocks: its own member list, sorted, or
/// `fallback` when it lists none.
pub open spec fn members_spec(f: FileModel, fallback: Seq<Seq<char>>) -> Seq<Seq<char>> {
    if f.members.len() > 0 {
        sort_strings(f.members)
    } else {
        fallback
    }
}

/// A sorted copy of a list of strings.
pub fn sorted_strings(v: &Vec<String>) -> (r: Vec<String>)
    ensures
        strings_view(r@) == sort_strings(strings_view(v@)),
{
    let ghost sv = strings_view(v@);
    let mut r: Vec<String> = Vec::new();
    let mut i: usize = 0;
    while i < v.len()
        invariant
            sv == strings_view(v@),
            i <= v@.len(),
            strings_view(r@) == sort_strings(sv.take(i as int)),
        decreases v@.len() - i,
    {
        let mut p: usize = 0;
        while p < r.len() && !str_lt(v[i].as_str(), r[p].as_str())
            invariant
                sv == strings_view(v@),
                i < v@.len(),
                p <= r@.len(),
                forall|k: int| 0 <= k < p ==> !str_less(sv[i as int], #[trigger] strings_view(r@)[k]),
            decreases r@.len() - p,
        {
            p = p + 1;
        }
        let ghost prev = strings_view(r@);
        proof {
            lemma_insert_sorted(prev, sv[i as int], p as int);
            assert(sv.take(i + 1).drop_last() =~= sv.take(i as int));
        }
        r.insert(p, v[i].clone());
        assert(strings_view(r@) =~= prev.insert(p as int, sv[i as int]));
        i = i + 1;
    }
    assert(sv.take(sv.len() as int) =~= sv);
    r
}

/// The members that own a file's blocks: the entry's own member list,
/// sorted, or `fallback` when the entry lists none.
pub fn entry_members(entry: &RsFileEntry, fallback: &[String]) -> (r: Vec<String>)
    ensures
        strings_view(r@) == members_spec(entry@, strings_view(fallback@)),
{
    if entry.members.len() > 0 {
        sorted_strings(&entry.members)
    } else {
        let mut r: Vec<String> = Vec::new();
        let mut i: usize = 0;
        while i < fallback.len()
            invariant
                i <= fallback@.len(),
                strings_view(r@) =~= strings_view(fallback@).take(i as int),
            decreases fallback@.len() - i,
        {
            let ghost prev = r@;
            r.push(fallback[i].clone());
            assert(strings_view(r@) =~= strings_view(prev).push(fallback@[i as int]@));
            i = i + 1;
        }
        r
    }
}

/// The member is `id`.
pub open spec fn is_id(id: Seq<char>) -> spec_fn(Seq<char>) -> bool {
    |x: Seq<char>| x == id
}

/// Position of the first member equal to `id`, or -1.
pub open spec fn local_position(members: Seq<Seq<char>>, id: Seq<char>) -> int {
    first_index(members, is_id(id))
}

/// Position of the first member equal to `id`.
pub fn position_of(members: &Vec<String>, id: &str) -> (r: Option<usize>)
    ensures
        match r {
            Some(p) => local_position(strings_view(members@), id@) == p as int,
            None => local_position(strings_view(members@), id@) == -1,
        },
{
    let ghost mv = strings_view(members@);
    let mut i: usize = 0;
    while i < members.len()
        invariant
            mv == strings_view(members@),
            i <= members@.len(),
            forall|j: int| 0 <= j < i ==> !is_id(id@)(#[trigger] mv[j]),
        decreases members@.len() - i,
    {
        if crate::text::str_eq(members[i].as_str(), id) {
            proof {
                assert(is_first(mv, is_id(id@), i as int));
                lemma_first_unique(mv, is_id(id@), i as int);
            }
            return Some(i);
        }
        i = i + 1;
    }
    proof {
        if any_match(mv, is_id(id@)) {
            let k = choose|k: int| 0 <= k < mv.len() && is_id(id@)(#[trigger] mv[k]);
            assert(!is_id(id@)(mv[k]));
        }
    }
    None
}

/// The file has a block assigned to this node that is not present locally.
pub open spec fn file_needs_sync(
    f: FileModel,
    local_id: Seq<char>,
    fallback: Seq<Seq<char>>,
    rf: nat,
    local: Seq<Seq<char>>,
) -> bool {
    let members = members_spec(f, fallback);
    let p = local_position(members, local_id);
    &&& members.len() > 0
    &&& p >= 0
    &&& exists|k: int|
        0 <= k < f.blocks.len() && assigned_to(#[trigger] f.blocks[k].hash, members, p, rf)
            && !local.contains(f.blocks[k].hash)
}

/// Whether some shared file has a block that the replication factor
/// assigns to `local_id` and that is missing locally.
pub fn needs_sync(store: &RsStore, local_id: &str, fallback: &[String], replication_factor: usize) -> (r: bool)
    ensures
        r == exists|i: int|
            0 <= i < store@.files.len() && file_needs_sync(
                #[trigger] store@.files[i],
                local_id@,
                strings_view(fallback@),
                replication_factor as nat,
                store@.blocks,
            ),
{
    let files = store.list_files();
    let ghost fv = store@.files;
    let ghost fb = strings_view(fallback@);
    let rf = replication_factor;
    let mut i: usize = 0;
    while i < files.len()
        invariant
            fv == store@.files,
            files_view(files@) == fv,
            fb == strings_view(fallback@),
            rf == replication_factor,
            i <= files@.len(),
            forall|j: int| 0 <= j < i ==> !file_needs_sync(#[trigger] fv[j], local_id@, fb, rf as nat, store@.blocks),
        decreases files@.len() - i,
    {
        assert(files@[i as int]@ == fv[i as int]);
        let members = entry_members(&files[i], fallback);
        if members.len() > 0 {
            match position_of(&members, local_id) {
                None => {},
                Some(p) => {
                    let f = &files[i];
                    let mut k: usize = 0;
                    while k < f.blocks.len()
                        invariant
                            fv == store@.files,
                            fb == strings_view(fallback@),
                            rf == replication_factor,
                            files_view(files@) == fv,
                            i < files@.len(),
                            f@ == fv[i as int],
                            strings_view(members@) == members_spec(fv[i as int], fb),
                            strings_view(members@).len() > 0,
                            local_position(strings_view(members@), local_id@) == p as int,
                            k <= f.blocks@.len(),
                            forall|k2: int| 0 <= k2 < k ==> !(assigned_to(#[trigger] f@.blocks[k2].hash, strings_view(members@), p as int, rf as nat)
                                && !store@.blocks.contains(f@.blocks[k2].hash)),
                        decreases f.blocks@.len() - k,
                    {
                        assert(f.blocks@[k as int]@ == f@.blocks[k as int]);
                        if is_block_assigned_to(&f.blocks[k], members.as_slice(), p, rf)
                            && !store.has_block(f.blocks[k].hash.as_str()) {
                            assert(assigned_to(fv[i as int].blocks[k as int].hash, strings_view(members@), p as int, rf as nat));
                            assert(file_needs_sync(fv[i as int], local_id@, fb, rf as nat, store@.blocks));
                            assert(store@.files[i as int] == fv[i as int]);
                            assert(file_needs_sync(store@.files[i as int], local_id@, strings_view(fallback@), replication_factor as nat, store@.blocks));
                            return true;
                        }
                        k = k + 1;
                    }
                },
            }
        }
        i = i + 1;
    }
    false
}

/// Block hash `h` is one that some file assigns to `local_id`.
pub open spec fn owned_by(
    files: Seq<FileModel>,
    local_id: Seq<char>,
    fallback: Seq<Seq<char>>,
    rf: nat,
    h: Seq<char>,
) -> bool {
    exists|i: int, k: int|
        0 <= i < files.len() && 0 <= k < files[i].blocks.len() && #[trigger] files[i].blocks[k].hash == h
            && local_position(members_spec(files[i], fallback), local_id) >= 0 && assigned_to(
            h,
            members_spec(files[i], fallback),
            local_position(members_spec(files[i], fallback), local_id),
            rf,
        )
}

/// `owned_by`, over the first `n` files only.
pub open spec fn owned_upto(
    files: Seq<FileModel>,
    n: int,
    local_id: Seq<char>,
    fallback: Seq<Seq<char>>,
    rf: nat,
    h: Seq<char>,
) -> bool {
    owned_by(files.take(n), local_id, fallback, rf, h)
}

/// Owning over the first `i + 1` files: owning over the first `i`, or
/// through a block of file `i`.
proof fn lemma_owned_step(
    fv: Seq<FileModel>,
    i: int,
    local_id: Seq<char>,
    fb: Seq<Seq<char>>,
    rf: nat,
    mv: Seq<Seq<char>>,
    h: Seq<char>,
)
    requires
        0 <= i < fv.len(),
        mv == members_spec(fv[i], fb),
    ensures
        owned_upto(fv, i + 1, local_id, fb, rf, h) <==> (owned_upto(fv, i, local_id, fb, rf, h)
            || (local_position(mv, local_id) >= 0 && exists|k: int| 0 <= k < fv[i].blocks.len() && #[trigger] fv[i].blocks[k].hash == h
                && assigned_to(h, mv, local_position(mv, local_id), rf))),
{
    let t1 = fv.take(i + 1);
    let t0 = fv.take(i);
    if owned_upto(fv, i + 1, local_id, fb, rf, h) {
        let (a, k) = choose|a: int, k: int| 0 <= a < t1.len() && 0 <= k < t1[a].blocks.len() && #[trigger] t1[a].blocks[k].hash == h
            && local_position(members_spec(t1[a], fb), local_id) >= 0 && assigned_to(h, members_spec(t1[a], fb), local_position(members_spec(t1[a], fb), local_id), rf);
        if a < i {
            assert(t0[a] == t1[a]);
            assert(t0[a].blocks[k].hash == h);
        }
    }
    if owned_upto(fv, i, local_id, fb, rf, h) {
        let (a, k) = choose|a: int, k: int| 0 <= a < t0.len() && 0 <= k < t0[a].blocks.len() && #[trigger] t0[a].blocks[k].hash == h
            && local_position(members_spec(t0[a], fb), local_id) >= 0 && assigned_to(h, members_spec(t0[a], fb), local_position(members_spec(t0[a], fb), local_id), rf);
        assert(t0[a] == t1[a]);
        assert(t1[a].blocks[k].hash == h);
    }
    if local_position(mv, local_id) >= 0 && exists|k: int| 0 <= k < fv[i].blocks.len() && #[trigger] fv[i].blocks[k].hash == h
        && assigned_to(h, mv, local_position(mv, local_id), rf) {
        let k = choose|k: int| 0 <= k < fv[i].blocks.len() && #[trigger] fv[i].blocks[k].hash == h
            && assigned_to(h, mv, local_position(mv, local_id), rf);
        assert(t1[i] == fv[i]);
        assert(t1[i].blocks[k].hash == h);
    }
}

/// The entry as pruning leaves it: complete when this node is a member and
/// the file has blocks (every block assigned to this node is then kept),
/// and not syncing.
pub open spec fn pruned_entry(f: FileModel, local_id: Seq<char>, fallback: Seq<Seq<char>>) -> FileModel {
    let p = local_position(members_spec(f, fallback), local_id);
    FileModel { complete: p >= 0 && f.blocks.len() > 0, syncing: false, ..f }
}

/// The pruned version of every entry, in order.
pub open spec fn pruned_entries(
    files: Seq<FileModel>,
    local_id: Seq<char>,
    fallback: Seq<Seq<char>>,
) -> Seq<FileModel> {
    files.map_values(|f: FileModel| pruned_entry(f, local_id, fallback))
}

/// Drops every local block that no file assigns to `local_id`, and marks
/// each file complete or not for this node. Returns the hashes of the
/// dropped blocks; the caller deletes their files.
pub fn prune_unowned_blocks(
    store: &mut RsStore,
    local_id: &str,
    fallback: &[String],
    replication_factor: usize,
) -> (dropped: Vec<String>)
    ensures
        strings_view(dropped@) == remove_where(
            old(store)@.blocks,
            |h: Seq<char>| owned_by(old(store)@.files, local_id@, strings_view(fallback@), replication_factor as nat, h),
        ),
        final(store)@.blocks == old(store)@.blocks.filter(
            |h: Seq<char>| owned_by(old(store)@.files, local_id@, strings_view(fallback@), replication_factor as nat, h),
        ),
        final(store)@.files == upsert_all(
            old(store)@.files,
            pruned_entries(old(store)@.files, local_id@, strings_view(fallback@)),
        ),
{
    let files = store.list_files();
    let ghost fv = store@.files;
    let ghost fb = strings_view(fallback@);
    let ghost rf = replication_factor as nat;
    let mut owned: Vec<String> = Vec::new();
    let mut i: usize = 0;
    while i < files.len()
        invariant
            fv == old(store)@.files,
            fv == store@.files,
            store@.blocks == old(store)@.blocks,
            files_view(files@) == fv,
            fv.len() == files@.len(),
            fb == strings_view(fallback@),
            rf == replication_factor as nat,
            i <= files@.len(),
            forall|h: Seq<char>| #[trigger] strings_view(owned@).contains(h) <==> owned_upto(fv, i as int, local_id@, fb, rf, h),
        decreases files@.len() - i,
    {
        assert(files@[i as int]@ == fv[i as int]);
        let members = entry_members(&files[i], fallback);
        let ghost mv = strings_view(members@);
        proof {
            assert forall|h: Seq<char>| owned_upto(fv, i + 1, local_id@, fb, rf, h) <==> (owned_upto(fv, i as int, local_id@, fb, rf, h)
                || (local_position(mv, local_id@) >= 0 && exists|k: int| 0 <= k < fv[i as int].blocks.len() && #[trigger] fv[i as int].blocks[k].hash == h
                    && assigned_to(h, mv, local_position(mv, local_id@), rf))) by {
                lemma_owned_step(fv, i as int, local_id@, fb, rf, mv, h);
            }
        }
        match position_of(&members, local_id) {
            None => {},
            Some(p) => {
                let f = &files[i];
                let mut k: usize = 0;
                while k < f.blocks.len()
                    invariant
                        fv == store@.files,
                        store@.blocks == old(store)@.blocks,
                        fv.len() == files@.len(),
                        fb == strings_view(fallback@),
                        rf == replication_factor as nat,
                        i < files@.len(),
                        f@ == fv[i as int],
                        mv == strings_view(members@),
                        mv == members_spec(fv[i as int], fb),
                        local_position(mv, local_id@) == p as int,
                        k <= f.blocks@.len(),
                        forall|h: Seq<char>| #[trigger] strings_view(owned@).contains(h) <==> (owned_upto(fv, i as int, local_id@, fb, rf, h)
                            || exists|k2: int| 0 <= k2 < k && #[trigger] fv[i as int].blocks[k2].hash == h
                                && assigned_to(h, mv, p as int, rf)),
                    decreases f.blocks@.len() - k,
                {
                    assert(f.blocks@[k as int]@ == f@.blocks[k as int]);
                    let ghost prev = strings_view(owned@);
                    let ghost hk = fv[i as int].blocks[k as int].hash;
                    let a = is_block_assigned_to(&f.blocks[k], members.as_slice(), p, replication_factor);
                    assert(a == assigned_to(hk, mv, p as int, rf));
                    if a {
                        owned.push(f.blocks[k].hash.clone());
                        assert(strings_view(owned@) =~= prev.push(hk));
                    } else {
                        assert(strings_view(owned@) == prev);
                    }
                    assert forall|h: Seq<char>| #[trigger] strings_view(owned@).contains(h) <==> (owned_upto(fv, i as int, local_id@, fb, rf, h)
                        || exists|k2: int| 0 <= k2 < k + 1 && #[trigger] fv[i as int].blocks[k2].hash == h
                            && assigned_to(h, mv, p as int, rf)) by {
                        let now = strings_view(owned@);
                        assert(forall|w: int| 0 <= w < prev.len() ==> now[w] == prev[w]);
                        if prev.contains(h) {
                            let w = choose|w: int| 0 <= w < prev.len() && prev[w] == h;
                            assert(now[w] == h);
                            if !owned_upto(fv, i as int, local_id@, fb, rf, h) {
                                let k2 = choose|k2: int| 0 <= k2 < k && #[trigger] fv[i as int].blocks[k2].hash == h
                                    && assigned_to(h, mv, p as int, rf);
                                assert(0 <= k2 < k + 1 && fv[i as int].blocks[k2].hash == h && assigned_to(h, mv, p as int, rf));
                            }
                        }
                        if owned_upto(fv, i as int, local_id@, fb, rf, h) {
                            assert(prev.contains(h));
                        }
                        if exists|k2: int| 0 <= k2 < k + 1 && #[trigger] fv[i as int].blocks[k2].hash == h && assigned_to(h, mv, p as int, rf) {
                            let k2 = choose|k2: int| 0 <= k2 < k + 1 && #[trigger] fv[i as int].blocks[k2].hash == h && assigned_to(h, mv, p as int, rf);
                            if k2 < k {
                                assert(prev.contains(h));
                            } else {
                                assert(h == hk);
                                assert(a);
                                assert(now[prev.len() as int] == h);
                            }
                        }
                        if now.contains(h) && !prev.contains(h) {
                            assert(a);
                            let w = choose|w: int| 0 <= w < now.len() && now[w] == h;
                            if w < prev.len() {
                                assert(prev[w] == h);
                            }
                            assert(h == hk);
                            assert(fv[i as int].blocks[k as int].hash == h);
                        }
                    }
                    k = k + 1;
                }
            },
        }
        assert forall|h: Seq<char>| #[trigger] strings_view(owned@).contains(h) <==> owned_upto(fv, i + 1, local_id@, fb, rf, h) by {
            lemma_owned_step(fv, i as int, local_id@, fb, rf, mv, h);
        }
        i = i + 1;
    }
    assert(fv.take(fv.len() as int) =~= fv);
    let ghost owned_pred = |h: Seq<char>| owned_by(fv, local_id@, fb, rf, h);
    let ghost keep_pred = |h: Seq<char>| strings_view(owned@).contains(h);
    assert(keep_pred =~= owned_pred);
    let ghost not_keep = |h: Seq<char>| !keep_pred(h);
    let ghost not_owned = |h: Seq<char>| !owned_pred(h);
    assert(not_keep =~= not_owned);
    let dropped = store.retain_blocks(&owned);
    assert(store@.blocks == old(store)@.blocks.filter(owned_pred));
    let ghost kept_blocks = store@.blocks;
    let ghost updates = pruned_entries(fv, local_id@, fb);
    let mut j: usize = 0;
    while j < files.len()
        invariant
            fv == old(store)@.files,
            files_view(files@) == fv,
            fb == strings_view(fallback@),
            updates == pruned_entries(fv, local_id@, fb),
            store@.blocks == kept_blocks,
            j <= files@.len(),
            store@.files == upsert_all(fv, updates.take(j as int)),
        decreases files@.len() - j,
    {
        let mut f = files[j].duplicate();
        assert(f@ == fv[j as int]);
        let members = entry_members(&f, fallback);
        match position_of(&members, local_id) {
            None => {
                f.complete = false;
            },
            Some(_) => {
                f.complete = f.blocks.len() > 0;
            },
        }
        f.syncing = false;
        assert(f@ == updates[j as int]);
        store.upsert_file(f);
        assert(updates.take(j + 1).drop_last() =~= updates.take(j as int));
        j = j + 1;
    }
    assert(updates.take(updates.len() as int) =~= updates);
    dropped
}


/// The members that keep a block, by position.
pub open spec fn keepers(h: Seq<char>, members: Seq<Seq<char>>, rf: nat) -> Set<usize> {
    Set::new(|i: usize| i < members.len() && assigned_to(h, members, i as int, rf))
}

/// Each block is kept on exactly `min(replication_factor, members)` nodes;
/// with a factor at least the number of members every node keeps it (the
/// whole file), and with a factor of zero none does.
pub proof fn law_replica_count(h: Seq<char>, members: Seq<Seq<char>>, rf: nat)
    requires
        members.len() <= usize::MAX,
    ensures
        keepers(h, members, rf).finite(),
        keepers(h, members, rf).len() == if rf < members.len() {
            rf
        } else {
            members.len()
        },
        rf >= members.len() ==> forall|i: usize| i < members.len() ==> #[trigger] assigned_to(h, members, i as int, rf),
        rf == 0 ==> keepers(h, members, rf).len() == 0,
{
    law_block_replicas(h, members, rf);
    let t = top_owners(hrw_scores(members, h), rf);
    t.unique_seq_to_set();
    assert(keepers(h, members, rf) =~= t.to_set()) by {
        assert forall|i: usize| #[trigger] keepers(h, members, rf).contains(i) <==> t.to_set().contains(i) by {
            if t.contains(i) {
                let k = choose|k: int| 0 <= k < t.len() && t[k] == i;
                assert(t[k] < members.len());
            }
        }
    }
    if rf >= members.len() {
        assert forall|i: usize| i < members.len() implies #[trigger] assigned_to(h, members, i as int, rf) by {
            if !t.contains(i) {
                assert(!keepers(h, members, rf).contains(i));
                let full = Set::new(|j: usize| j < members.len());
                assert(keepers(h, members, rf).subset_of(full.remove(i)));
                lemma_full_len(members.len());
                vstd::set_lib::lemma_len_subset(keepers(h, members, rf), full.remove(i));
            }
        }
    }
}

/// The positions below `n` are `n` many.
proof fn lemma_full_len(n: nat)
    requires
        n <= usize::MAX,
    ensures
        Set::new(|j: usize| j < n).finite(),
        Set::new(|j: usize| j < n).len() == n,
    decreases n,
{
    if n == 0 {
        assert(Set::new(|j: usize| j < n) =~= Set::<usize>::empty());
    } else {
        lemma_full_len((n - 1) as nat);
        assert(Set::new(|j: usize| j < n) =~= Set::new(|j: usize| j < (n - 1) as nat).insert((n - 1) as usize));
    }
}


/// A node needs to synchronise exactly when one of the files it is a
/// member of has a block that rendezvous hashing (with the replication
/// factor) assigns to it and that it does not hold: blocks assigned only to
/// other members never make it synchronise, and once every block assigned
/// to it is present it does not.
pub proof fn law_needs_sync_owned_missing(
    files: Seq<FileModel>,
    local_id: Seq<char>,
    fallback: Seq<Seq<char>>,
    rf: nat,
    local: Seq<Seq<char>>,
)
    ensures
        (exists|i: int| 0 <= i < files.len() && file_needs_sync(#[trigger] files[i], local_id, fallback, rf, local))
            ==> exists|i: int, k: int|
            0 <= i < files.len() && 0 <= k < files[i].blocks.len() && local_position(
                members_spec(files[i], fallback),
                local_id,
            ) >= 0 && assigned_to(
                #[trigger] files[i].blocks[k].hash,
                members_spec(files[i], fallback),
                local_position(members_spec(files[i], fallback), local_id),
                rf,
            ) && !local.contains(files[i].blocks[k].hash),
        (forall|i: int, k: int|
            0 <= i < files.len() && 0 <= k < files[i].blocks.len() && local_position(
                members_spec(files[i], fallback),
                local_id,
            ) >= 0 && assigned_to(
                #[trigger] files[i].blocks[k].hash,
                members_spec(files[i], fallback),
                local_position(members_spec(files[i], fallback), local_id),
                rf,
            ) ==> local.contains(files[i].blocks[k].hash)) ==> !exists|i: int|
            0 <= i < files.len() && file_needs_sync(#[trigger] files[i], local_id, fallback, rf, local),
        (exists|i: int, k: int|
            0 <= i < files.len() && 0 <= k < files[i].blocks.len() && local_position(
                members_spec(files[i], fallback),
                local_id,
            ) >= 0 && assigned_to(
                #[trigger] files[i].blocks[k].hash,
                members_spec(files[i], fallback),
                local_position(members_spec(files[i], fallback), local_id),
                rf,
            ) && !local.contains(files[i].blocks[k].hash)) ==> exists|i: int|
            0 <= i < files.len() && file_needs_sync(#[trigger] files[i], local_id, fallback, rf, local),
{
    if exists|i: int| 0 <= i < files.len() && file_needs_sync(#[trigger] files[i], local_id, fallback, rf, local) {
        let i = choose|i: int| 0 <= i < files.len() && file_needs_sync(#[trigger] files[i], local_id, fallback, rf, local);
        let f = files[i];
        let members = members_spec(f, fallback);
        let p = local_position(members, local_id);
        let k = choose|k: int|
            0 <= k < f.blocks.len() && assigned_to(#[trigger] f.blocks[k].hash, members, p, rf) && !local.contains(
                f.blocks[k].hash,
            );
        assert(assigned_to(files[i].blocks[k].hash, members, p, rf));
    }
    if exists|i: int, k: int|
        0 <= i < files.len() && 0 <= k < files[i].blocks.len() && local_position(members_spec(files[i], fallback), local_id)
            >= 0 && assigned_to(
            #[trigger] files[i].blocks[k].hash,
            members_spec(files[i], fallback),
            local_position(members_spec(files[i], fallback), local_id),
            rf,
        ) && !local.contains(files[i].blocks[k].hash) {
        let (i, k) = choose|i: int, k: int|
            0 <= i < files.len() && 0 <= k < files[i].blocks.len() && local_position(
                members_spec(files[i], fallback),
                local_id,
            ) >= 0 && assigned_to(
                #[trigger] files[i].blocks[k].hash,
                members_spec(files[i], fallback),
                local_position(members_spec(files[i], fallback), local_id),
                rf,
            ) && !local.contains(files[i].blocks[k].hash);
        let members = members_spec(files[i], fallback);
        let p = local_position(members, local_id);
        crate::seqs::lemma_first_index(members, is_id(local_id));
        assert(members.len() > 0);
        assert(assigned_to(files[i].blocks[k].hash, members, p, rf));
        assert(file_needs_sync(files[i], local_id, fallback, rf, local));
    }
}


/// Inserting into a list adds exactly the inserted string.
proof fn lemma_insert_sorted_contains(s: Seq<Seq<char>>, x: Seq<char>, y: Seq<char>)
    ensures
        insert_sorted(s, x).contains(y) <==> (s.contains(y) || y == x),
    decreases s.len(),
{
    let r = insert_sorted(s, x);
    if s.len() == 0 {
        assert(r =~= seq![x]);
        if r.contains(y) {
            let k = choose|k: int| 0 <= k < r.len() && r[k] == y;
        }
        assert(r[0] == x);
    } else if str_less(x, s[0]) {
        assert(r =~= seq![x] + s);
        if r.contains(y) {
            let k = choose|k: int| 0 <= k < r.len() && r[k] == y;
            if k > 0 {
                assert(s[k - 1] == y);
            }
        }
        if s.contains(y) {
            let k = choose|k: int| 0 <= k < s.len() && s[k] == y;
            assert(r[k + 1] == y);
        }
        assert(r[0] == x);
    } else {
        let t = s.drop_first();
        lemma_insert_sorted_contains(t, x, y);
        let it = insert_sorted(t, x);
        assert(r =~= seq![s[0]] + it);
        if r.contains(y) {
            let k = choose|k: int| 0 <= k < r.len() && r[k] == y;
            if k == 0 {
                assert(s[0] == y);
            } else {
                assert(it[k - 1] == y);
                if t.contains(y) {
                    let j = choose|j: int| 0 <= j < t.len() && t[j] == y;
                    assert(s[j + 1] == y);
                }
            }
        }
        if s.contains(y) {
            let k = choose|k: int| 0 <= k < s.len() && s[k] == y;
            if k == 0 {
                assert(r[0] == y);
            } else {
                assert(t[k - 1] == y);
                assert(it.contains(y));
                let j = choose|j: int| 0 <= j < it.len() && it[j] == y;
                assert(r[j + 1] == y);
            }
        }
        if y == x {
            assert(it.contains(y));
            let j = choose|j: int| 0 <= j < it.len() && it[j] == y;
            assert(r[j + 1] == y);
        }
    }
}

/// Sorting keeps exactly the strings of the list.
proof fn lemma_sort_contains(v: Seq<Seq<char>>, y: Seq<char>)
    ensures
        sort_strings(v).contains(y) <==> v.contains(y),
    decreases v.len(),
{
    if v.len() > 0 {
        let t = v.drop_last();
        lemma_sort_contains(t, y);
        lemma_insert_sorted_contains(sort_strings(t), v.last(), y);
        assert(v =~= t.push(v.last()));
        if v.contains(y) && !t.contains(y) {
            let k = choose|k: int| 0 <= k < v.len() && v[k] == y;
            if k < t.len() {
                assert(t[k] == y);
            }
        }
        if t.contains(y) {
            let k = choose|k: int| 0 <= k < t.len() && t[k] == y;
            assert(v[k] == y);
        }
        if y == v.last() {
            assert(v[v.len() - 1] == y);
        }
    }
}

/// Upserting the first `k` entries of a name-keeping update of a list
/// whose names are distinct replaces exactly those entries.
proof fn lemma_upsert_prefix(files: Seq<FileModel>, up: Seq<FileModel>, k: int)
    requires
        crate::rs::file_names(files).no_duplicates(),
        up.len() == files.len(),
        forall|j: int| 0 <= j < files.len() ==> (#[trigger] up[j]).name == files[j].name,
        0 <= k <= files.len(),
    ensures
        upsert_all(files, up.take(k)) == up.take(k) + files.skip(k),
    decreases k,
{
    if k == 0 {
        assert(up.take(0) =~= Seq::<FileModel>::empty());
        assert(files.skip(0) =~= files);
    } else {
        lemma_upsert_prefix(files, up, k - 1);
        assert(up.take(k).drop_last() =~= up.take(k - 1));
        let s = up.take(k - 1) + files.skip(k - 1);
        let e = up[k - 1];
        let p = crate::rs::named(e.name);
        assert(s[k - 1] == files[k - 1]);
        assert forall|j: int| 0 <= j < k - 1 implies !p(#[trigger] s[j]) by {
            assert(s[j] == up[j]);
            assert(crate::rs::file_names(files)[j] != crate::rs::file_names(files)[k - 1]);
        }
        assert(crate::seqs::is_first(s, p, k - 1));
        crate::seqs::lemma_first_unique(s, p, k - 1);
        assert(upsert_spec(s, e) == s.update(k - 1, e));
        assert(s.update(k - 1, e) =~= up.take(k) + files.skip(k));
    }
}

/// Whether the node is a member of the file: in its own member list, or in
/// the fallback list when the file lists no members.
pub open spec fn is_member(f: FileModel, local_id: Seq<char>, fallback: Seq<Seq<char>>) -> bool {
    if f.members.len() > 0 {
        f.members.contains(local_id)
    } else {
        fallback.contains(local_id)
    }
}

/// Pruning marks the files for this node: each file keeps its place and
/// everything but its state, is no longer syncing, and is complete exactly
/// when the node is one of its members and it has blocks; a file the node
/// is not a member of is never complete. (File names are distinct, as the
/// store keeps them.)
pub proof fn law_prune_marks_members(files: Seq<FileModel>, local_id: Seq<char>, fallback: Seq<Seq<char>>)
    requires
        crate::rs::file_names(files).no_duplicates(),
    ensures
        upsert_all(files, pruned_entries(files, local_id, fallback)).len() == files.len(),
        forall|j: int|
            0 <= j < files.len() ==> {
                let out = #[trigger] upsert_all(files, pruned_entries(files, local_id, fallback))[j];
                &&& out == FileModel { complete: out.complete, syncing: false, ..files[j] }
                &&& out.complete <==> (is_member(files[j], local_id, fallback) && files[j].blocks.len() > 0)
                &&& !is_member(files[j], local_id, fallback) ==> !out.complete
            },
{
    let up = pruned_entries(files, local_id, fallback);
    lemma_upsert_prefix(files, up, files.len() as int);
    assert(up.take(files.len() as int) =~= up);
    assert(files.skip(files.len() as int) =~= Seq::<FileModel>::empty());
    assert(upsert_all(files, up) =~= up);
    assert forall|j: int| 0 <= j < files.len() implies {
        let out = #[trigger] upsert_all(files, pruned_entries(files, local_id, fallback))[j];
        &&& out == FileModel { complete: out.complete, syncing: false, ..files[j] }
        &&& out.complete <==> (is_member(files[j], local_id, fallback) && files[j].blocks.len() > 0)
        &&& !is_member(files[j], local_id, fallback) ==> !out.complete
    } by {
        let f = files[j];
        let members = members_spec(f, fallback);
        crate::seqs::lemma_first_index(members, is_id(local_id));
        lemma_sort_contains(f.members, local_id);
        if members.contains(local_id) {
            let k = choose|k: int| 0 <= k < members.len() && members[k] == local_id;
            assert(is_id(local_id)(members[k]));
        }
        assert(local_position(members, local_id) >= 0 <==> members.contains(local_id));
    }
}

} // verus!
