//! Specification helpers over sequences: first matches, lexicographic order
//! and the stable orders that the library's sorts produce.

use vstd::prelude::*;

verus! {

/// `i` is the first position of `s` whose element satisfies `p`.
pub open spec fn is_first<A>(s: Seq<A>, p: spec_fn(A) -> bool, i: int) -> bool {
    &&& 0 <= i < s.len()
    &&& p(s[i])
    &&& forall|j: int| 0 <= j < i ==> !p(#[trigger] s[j])
}

/// Some element of `s` satisfies `p`.
pub open spec fn any_match<A>(s: Seq<A>, p: spec_fn(A) -> bool) -> bool {
    exists|i: int| 0 <= i < s.len() && p(#[trigger] s[i])
}

/// The first position of `s` whose element satisfies `p`, or -1 when none does.
pub open spec fn first_index<A>(s: Seq<A>, p: spec_fn(A) -> bool) -> int {
    if any_match(s, p) {
        choose|i: int| is_first(s, p, i)
    } else {
        -1
    }
}

/// Every sequence with a match has a first match.
pub proof fn lemma_first_exists<A>(s: Seq<A>, p: spec_fn(A) -> bool)
    requires
        any_match(s, p),
    ensures
        exists|i: int| is_first(s, p, i),
    decreases s.len(),
{
    if p(s[0]) {
        assert(is_first(s, p, 0));
    } else {
        let t = s.drop_first();
        let k = choose|k: int| 0 <= k < s.len() && p(#[trigger] s[k]);
        assert(t[k - 1] == s[k]);
        lemma_first_exists(t, p);
        let i = choose|i: int| is_first(t, p, i);
        assert forall|j: int| 0 <= j < i + 1 implies !p(#[trigger] s[j]) by {
            if j > 0 {
                assert(s[j] == t[j - 1]);
            }
        }
        assert(is_first(s, p, i + 1));
    }
}

/// `first_index` is the first match when there is one, and -1 otherwise.
pub proof fn lemma_first_index<A>(s: Seq<A>, p: spec_fn(A) -> bool)
    ensures
        any_match(s, p) ==> is_first(s, p, first_index(s, p)),
        !any_match(s, p) ==> first_index(s, p) == -1,
        !any_match(s, p) ==> forall|j: int| 0 <= j < s.len() ==> !p(#[trigger] s[j]),
{
    if any_match(s, p) {
        lemma_first_exists(s, p);
    }
}

/// A first match is unique.
pub proof fn lemma_first_unique<A>(s: Seq<A>, p: spec_fn(A) -> bool, i: int)
    requires
        is_first(s, p, i),
    ensures
        first_index(s, p) == i,
{
    assert(any_match(s, p));
    let k = first_index(s, p);
    assert(is_first(s, p, k));
    if k < i {
        assert(!p(s[k]));
    }
    if i < k {
        assert(!p(s[i]));
    }
}

/// Lexicographic order on integer sequences: a proper prefix is smaller.
pub open spec fn lex_less(a: Seq<int>, b: Seq<int>) -> bool
    decreases a.len(),
{
    if a.len() == 0 {
        b.len() > 0
    } else if b.len() == 0 {
        false
    } else if a[0] < b[0] {
        true
    } else if a[0] > b[0] {
        false
    } else {
        lex_less(a.drop_first(), b.drop_first())
    }
}

/// `lex_less` is irreflexive.
pub proof fn lemma_lex_irreflexive(a: Seq<int>)
    ensures
        !lex_less(a, a),
    decreases a.len(),
{
    if a.len() > 0 {
        lemma_lex_irreflexive(a.drop_first());
    }
}

/// `lex_less` is total on distinct sequences and asymmetric.
pub proof fn lemma_lex_total(a: Seq<int>, b: Seq<int>)
    ensures
        a =~= b || lex_less(a, b) || lex_less(b, a),
        !(lex_less(a, b) && lex_less(b, a)),
    decreases a.len(),
{
    if a.len() > 0 && b.len() > 0 && a[0] == b[0] {
        lemma_lex_total(a.drop_first(), b.drop_first());
        if a.drop_first() =~= b.drop_first() {
            assert(a =~= b) by {
                assert forall|k: int| 0 <= k < a.len() implies a[k] == b[k] by {
                    if k > 0 {
                        assert(a[k] == a.drop_first()[k - 1]);
                        assert(b[k] == b.drop_first()[k - 1]);
                    }
                }
            }
        }
    }
}

/// `lex_less` is transitive.
pub proof fn lemma_lex_transitive(a: Seq<int>, b: Seq<int>, c: Seq<int>)
    requires
        lex_less(a, b),
        lex_less(b, c),
    ensures
        lex_less(a, c),
    decreases a.len(),
{
    if a.len() > 0 && b.len() > 0 && c.len() > 0 && a[0] == b[0] && b[0] == c[0] {
        lemma_lex_transitive(a.drop_first(), b.drop_first(), c.drop_first());
    }
}

/// A byte sequence read as integers.
pub open spec fn bytes_as_ints(s: Seq<u8>) -> Seq<int> {
    s.map_values(|b: u8| b as int)
}

/// A character sequence read as code points.
pub open spec fn chars_as_ints(s: Seq<char>) -> Seq<int> {
    s.map_values(|c: char| c as int)
}

/// Byte-wise lexicographic order, the order of `Vec<u8>` and of UTF-8 text.
pub open spec fn bytes_less(a: Seq<u8>, b: Seq<u8>) -> bool {
    lex_less(bytes_as_ints(a), bytes_as_ints(b))
}

/// Code-point lexicographic order, the order of `str` (UTF-8 preserves it).
pub open spec fn str_less(a: Seq<char>, b: Seq<char>) -> bool {
    lex_less(chars_as_ints(a), chars_as_ints(b))
}

/// Removes every element of `s` for which `p` holds.
pub open spec fn remove_where<A>(s: Seq<A>, p: spec_fn(A) -> bool) -> Seq<A> {
    s.filter(|x: A| !p(x))
}

} // verus!
