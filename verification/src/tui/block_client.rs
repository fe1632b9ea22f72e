//! Client-side helpers of direct block downloads: the address to reach a
//! peer's block server at.

use vstd::prelude::*;
use crate::rs::strings_view;
use crate::text::{push_char, str_eq};

verus! {

/// The pieces of `s` between occurrences of `sep` (what `str::split`
/// yields; there is always at least one).
pub open spec fn split_on(s: Seq<char>, sep: char) -> Seq<Seq<char>>
    decreases s.len(),
{
    if s.len() == 0 {
        seq![Seq::empty()]
    } else {
        let p = split_on(s.drop_last(), sep);
        if s.last() == sep {
            p.push(Seq::empty())
        } else {
            p.update(p.len() - 1, p.last().push(s.last()))
        }
    }
}

proof fn lemma_split_nonempty(s: Seq<char>, sep: char)
    ensures
        split_on(s, sep).len() >= 1,
    decreases s.len(),
{
    if s.len() > 0 {
        lemma_split_nonempty(s.drop_last(), sep);
    }
}

/// The pieces of a string between `sep` characters.
pub fn split_char(s: &str, sep: char) -> (r: Vec<String>)
    ensures
        strings_view(r@) == split_on(s@, sep),
{
    let n = s.unicode_len();
    let mut done: Vec<String> = Vec::new();
    let mut cur = String::new();
    let mut i: usize = 0;
    while i < n
        invariant
            n == s@.len(),
            i <= n,
            strings_view(done@).push(cur@) == split_on(s@.take(i as int), sep),
        decreases n - i,
    {
        let c = s.get_char(i);
        let ghost prev_done = strings_view(done@);
        let ghost prev_cur = cur@;
        proof {
            assert(s@.take(i + 1).drop_last() =~= s@.take(i as int));
            assert(s@.take(i + 1).last() == c);
            lemma_split_nonempty(s@.take(i as int), sep);
        }
        if c == sep {
            let mut w = String::new();
            std::mem::swap(&mut w, &mut cur);
            done.push(w);
            assert(strings_view(done@) =~= prev_done.push(prev_cur));
            assert(strings_view(done@).push(cur@) =~= prev_done.push(prev_cur).push(Seq::empty()));
        } else {
            push_char(&mut cur, c);
            assert(strings_view(done@).push(cur@) =~= prev_done.push(prev_cur).update(
                prev_done.len() as int,
                prev_cur.push(c),
            ));
        }
        i = i + 1;
    }
    assert(s@.take(n as int) =~= s@);
    let ghost prev_done = strings_view(done@);
    done.push(cur);
    assert(strings_view(done@) =~= prev_done.push(split_on(s@, sep).last()));
    done
}

/// `s` starts with `prefix`.
pub open spec fn starts_with(s: Seq<char>, prefix: Seq<char>) -> bool {
    s.len() >= prefix.len() && s.take(prefix.len() as int) == prefix
}

fn str_starts_with(s: &str, prefix: &str) -> (r: bool)
    ensures
        r == starts_with(s@, prefix@),
{
    let n = s.unicode_len();
    let m = prefix.unicode_len();
    if m > n {
        return false;
    }
    let mut i: usize = 0;
    while i < m
        invariant
            n == s@.len(),
            m == prefix@.len(),
            m <= n,
            i <= m,
            forall|j: int| 0 <= j < i ==> s@[j] == prefix@[j],
        decreases m - i,
    {
        if s.get_char(i) != prefix.get_char(i) {
            assert(s@.take(m as int)[i as int] != prefix@[i as int]);
            return false;
        }
        i = i + 1;
    }
    assert(s@.take(m as int) =~= prefix@);
    true
}

/// Piece `i` is `ip4` and the next piece is an address other than loopback
/// (`127.0.0.1`) or the `198.18.` benchmarking range.
pub open spec fn ip_at(parts: Seq<Seq<char>>, i: int) -> bool {
    &&& parts[i] == "ip4"@
    &&& i + 1 < parts.len()
    &&& parts[i + 1] != "127.0.0.1"@
    &&& !starts_with(parts[i + 1], "198.18."@)
}

/// The address after the first usable `ip4` piece from position `i` on.
pub open spec fn find_ip(parts: Seq<Seq<char>>, i: int) -> Option<Seq<char>>
    decreases parts.len() - i,
{
    if i < 0 || i >= parts.len() {
        None
    } else if ip_at(parts, i) {
        Some(parts[i + 1])
    } else {
        find_ip(parts, i + 1)
    }
}

/// The IPv4 address of a multiaddress text such as
/// `/ip4/172.18.36.82/tcp/10826/p2p/12D3...`: the piece after the first
/// `ip4` piece that is neither loopback nor in `198.18.`.
pub fn extract_ip(multiaddr: &str) -> (r: Option<String>)
    ensures
        match find_ip(split_on(multiaddr@, '/'), 0) {
            Some(ip) => r matches Some(s) && s@ == ip,
            None => r is None,
        },
{
    let parts = split_char(multiaddr, '/');
    let ghost pv = strings_view(parts@);
    let mut i: usize = 0;
    while i < parts.len()
        invariant
            pv == strings_view(parts@),
            pv == split_on(multiaddr@, '/'),
            i <= parts@.len(),
            find_ip(pv, 0) == find_ip(pv, i as int),
        decreases parts@.len() - i,
    {
        if str_eq(parts[i].as_str(), "ip4") && i + 1 < parts.len() {
            let ip = &parts[i + 1];
            if !str_eq(ip.as_str(), "127.0.0.1") && !str_starts_with(ip.as_str(), "198.18.") {
                return Some(ip.clone());
            }
        }
        i = i + 1;
    }
    None
}

} // verus!
