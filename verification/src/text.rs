//! Small string helpers shared by the library.

use vstd::prelude::*;
use crate::seqs::{lex_less, bytes_as_ints, chars_as_ints, bytes_less, str_less};

verus! {

/// Equality of two string slices: the same characters in the same order.
pub(crate) fn str_eq(a: &str, b: &str) -> (r: bool)
    ensures
        r == (a@ == b@),
{
    let x = a.to_owned();
    let y = b.to_owned();
    x == y
}

/// Appends one character to a string.
///
/// Trusted: `String::push`, which std documents as appending the character
/// to the end of the string.
#[verifier::external_body]
pub(crate) fn push_char(s: &mut String, c: char)
    ensures
        final(s)@ == old(s)@.push(c),
{
    s.push(c)
}

/// The decimal digit character for `d`.
pub open spec fn digit_char(d: int) -> char {
    if d == 0 { '0' }
    else if d == 1 { '1' }
    else if d == 2 { '2' }
    else if d == 3 { '3' }
    else if d == 4 { '4' }
    else if d == 5 { '5' }
    else if d == 6 { '6' }
    else if d == 7 { '7' }
    else if d == 8 { '8' }
    else { '9' }
}

/// The decimal representation of `n`, without leading zeros ("0" for zero).
pub open spec fn decimal(n: nat) -> Seq<char>
    decreases n,
{
    if n < 10 {
        seq![digit_char(n as int)]
    } else {
        decimal(n / 10).push(digit_char((n % 10) as int))
    }
}

fn digit_of(d: u64) -> (c: char)
    requires
        d < 10,
    ensures
        c == digit_char(d as int),
{
    if d == 0 { '0' }
    else if d == 1 { '1' }
    else if d == 2 { '2' }
    else if d == 3 { '3' }
    else if d == 4 { '4' }
    else if d == 5 { '5' }
    else if d == 6 { '6' }
    else if d == 7 { '7' }
    else if d == 8 { '8' }
    else { '9' }
}

/// Appends the decimal representation of `n` to `out`.
pub fn push_decimal(out: &mut String, n: u64)
    ensures
        final(out)@ == old(out)@ + decimal(n as nat),
    decreases n,
{
    if n < 10 {
        push_char(out, digit_of(n));
    } else {
        push_decimal(out, n / 10);
        push_char(out, digit_of(n % 10));
    }
}

/// Concatenation of a string and a slice into a new string.
pub fn concat_str(a: &str, b: &str) -> (r: String)
    ensures
        r@ == a@ + b@,
{
    let s = String::from_str(a);
    s.concat(b)
}

/// Whether `a` orders before `b` as byte strings (`<` on `[u8]`).
pub fn bytes_lt(a: &[u8], b: &[u8]) -> (r: bool)
    ensures
        r == bytes_less(a@, b@),
{
    let ghost sa = bytes_as_ints(a@);
    let ghost sb = bytes_as_ints(b@);
    let mut i: usize = 0;
    assert(sa.skip(0) =~= sa);
    assert(sb.skip(0) =~= sb);
    while i < a.len() && i < b.len()
        invariant
            i <= a@.len(),
            i <= b@.len(),
            sa == bytes_as_ints(a@),
            sb == bytes_as_ints(b@),
            lex_less(sa, sb) == lex_less(sa.skip(i as int), sb.skip(i as int)),
        decreases a@.len() - i,
    {
        let x = a[i];
        let y = b[i];
        assert(sa.skip(i as int)[0] == x as int);
        assert(sb.skip(i as int)[0] == y as int);
        if x < y {
            return true;
        }
        if x > y {
            return false;
        }
        assert(sa.skip(i as int).drop_first() =~= sa.skip(i + 1));
        assert(sb.skip(i as int).drop_first() =~= sb.skip(i + 1));
        i = i + 1;
    }
    i < b.len()
}

/// Whether `a` orders before `b` as strings (`<` on `str`, which compares
/// UTF-8 bytes and so orders by code points).
pub fn str_lt(a: &str, b: &str) -> (r: bool)
    ensures
        r == str_less(a@, b@),
{
    let ghost sa = chars_as_ints(a@);
    let ghost sb = chars_as_ints(b@);
    let la = a.unicode_len();
    let lb = b.unicode_len();
    let mut i: usize = 0;
    assert(sa.skip(0) =~= sa);
    assert(sb.skip(0) =~= sb);
    while i < la && i < lb
        invariant
            la == a@.len(),
            lb == b@.len(),
            i <= la,
            i <= lb,
            sa == chars_as_ints(a@),
            sb == chars_as_ints(b@),
            lex_less(sa, sb) == lex_less(sa.skip(i as int), sb.skip(i as int)),
        decreases la - i,
    {
        let x = a.get_char(i);
        let y = b.get_char(i);
        assert(sa.skip(i as int)[0] == x as int);
        assert(sb.skip(i as int)[0] == y as int);
        if x < y {
            return true;
        }
        if x > y {
            return false;
        }
        assert(sa.skip(i as int).drop_first() =~= sa.skip(i + 1));
        assert(sb.skip(i as int).drop_first() =~= sb.skip(i + 1));
        i = i + 1;
    }
    i < lb
}

/// `base` joined with the relative component `part`, as `Path::join` joins
/// them on Unix: a separator is put between them unless `base` is empty or
/// already ends with one.
pub open spec fn path_join_spec(base: Seq<char>, part: Seq<char>) -> Seq<char> {
    if base.len() == 0 || base.last() == '/' {
        base + part
    } else {
        base + seq!['/'] + part
    }
}

/// Joins a relative component onto a path.
pub fn path_join(base: &str, part: &str) -> (r: String)
    ensures
        r@ == path_join_spec(base@, part@),
{
    let n = base.unicode_len();
    let mut s = String::from_str(base);
    if n > 0 && base.get_char(n - 1) != '/' {
        push_char(&mut s, '/');
    }
    s.append(part);
    s
}


/// The first `n` characters of `s` are ASCII (so its first `n` bytes are
/// those characters, and byte `n` is a character boundary).
pub open spec fn ascii_prefix(s: Seq<char>, n: nat) -> bool {
    s.len() >= n && forall|i: int| 0 <= i < n ==> (s[i] as u32) < 128
}

/// The first `n` characters of `s` (all of it when it is shorter).
pub fn take_chars(s: &str, n: usize) -> (r: String)
    ensures
        r@ == if s@.len() <= n { s@ } else { s@.take(n as int) },
{
    let len = s.unicode_len();
    let m = if len <= n {
        len
    } else {
        n
    };
    let mut r = String::new();
    let mut i: usize = 0;
    while i < m
        invariant
            i <= m,
            m <= s@.len(),
            len == s@.len(),
            m == if len <= n { len } else { n },
            r@ == s@.take(i as int),
        decreases m - i,
    {
        let c = s.get_char(i);
        push_char(&mut r, c);
        assert(s@.take(i + 1) =~= s@.take(i as int).push(c));
        i = i + 1;
    }
    assert(s@.take(len as int) =~= s@);
    r
}


/// Unicode `White_Space`, as `char::is_whitespace` documents it.
pub open spec fn is_ws(c: char) -> bool {
    let n = c as u32;
    (0x9 <= n && n <= 0xd) || n == 0x20 || n == 0x85 || n == 0xa0 || n == 0x1680 || (0x2000 <= n && n
        <= 0x200a) || n == 0x2028 || n == 0x2029 || n == 0x202f || n == 0x205f || n == 0x3000
}

/// Whether the character is Unicode white space.
pub fn char_is_ws(c: char) -> (r: bool)
    ensures
        r == is_ws(c),
{
    let n = c as u32;
    (0x9 <= n && n <= 0xd) || n == 0x20 || n == 0x85 || n == 0xa0 || n == 0x1680 || (0x2000 <= n && n
        <= 0x200a) || n == 0x2028 || n == 0x2029 || n == 0x202f || n == 0x205f || n == 0x3000
}

/// The text without its leading white space.
pub open spec fn trim_start(s: Seq<char>) -> Seq<char>
    decreases s.len(),
{
    if s.len() > 0 && is_ws(s[0]) {
        trim_start(s.drop_first())
    } else {
        s
    }
}

/// The text without its trailing white space.
pub open spec fn trim_end(s: Seq<char>) -> Seq<char>
    decreases s.len(),
{
    if s.len() > 0 && is_ws(s.last()) {
        trim_end(s.drop_last())
    } else {
        s
    }
}

/// The text without leading and trailing white space, as `str::trim`
/// gives it.
pub open spec fn trimmed(s: Seq<char>) -> Seq<char> {
    trim_end(trim_start(s))
}

/// The text without leading and trailing white space.
pub fn trim_text(s: &str) -> (r: String)
    ensures
        r@ == trimmed(s@),
{
    let len = s.unicode_len();
    let mut a: usize = 0;
    assert(s@.skip(0) =~= s@);
    while a < len && char_is_ws(s.get_char(a))
        invariant
            a <= len,
            len == s@.len(),
            trim_start(s@) == trim_start(s@.skip(a as int)),
        decreases len - a,
    {
        assert(s@.skip(a + 1) =~= s@.skip(a as int).drop_first());
        a = a + 1;
    }
    assert(trim_start(s@.skip(a as int)) == s@.skip(a as int));
    let mut b: usize = len;
    while b > a && char_is_ws(s.get_char(b - 1))
        invariant
            a <= b <= len,
            len == s@.len(),
            trim_end(s@.subrange(a as int, len as int)) == trim_end(s@.subrange(a as int, b as int)),
        decreases b,
    {
        assert(s@.subrange(a as int, b - 1) =~= s@.subrange(a as int, b as int).drop_last());
        b = b - 1;
    }
    assert(trim_end(s@.subrange(a as int, b as int)) == s@.subrange(a as int, b as int));
    assert(s@.skip(a as int) =~= s@.subrange(a as int, len as int));
    String::from_str(s.substring_char(a, b))
}

/// Scanning `s` from the left: the words completed so far and the word
/// being read.
pub open spec fn scan_words(s: Seq<char>) -> (Seq<Seq<char>>, Seq<char>)
    decreases s.len(),
{
    if s.len() == 0 {
        (Seq::empty(), Seq::empty())
    } else {
        let (ws, cur) = scan_words(s.drop_last());
        let c = s.last();
        if is_ws(c) {
            if cur.len() > 0 {
                (ws.push(cur), Seq::empty())
            } else {
                (ws, Seq::empty())
            }
        } else {
            (ws, cur.push(c))
        }
    }
}

/// The maximal runs of non-white-space characters of `s`, in order (what
/// `str::split_whitespace` yields).
pub open spec fn words(s: Seq<char>) -> Seq<Seq<char>> {
    let (ws, cur) = scan_words(s);
    if cur.len() > 0 {
        ws.push(cur)
    } else {
        ws
    }
}

/// The words of a string.
pub fn split_words(s: &str) -> (r: Vec<String>)
    ensures
        crate::rs::strings_view(r@) == words(s@),
{
    let n = s.unicode_len();
    let mut done: Vec<String> = Vec::new();
    let mut cur = String::new();
    let mut i: usize = 0;
    while i < n
        invariant
            n == s@.len(),
            i <= n,
            (crate::rs::strings_view(done@), cur@) == scan_words(s@.take(i as int)),
        decreases n - i,
    {
        let c = s.get_char(i);
        assert(s@.take(i + 1).drop_last() =~= s@.take(i as int));
        assert(s@.take(i + 1).last() == c);
        if char_is_ws(c) {
            if cur.unicode_len() > 0 {
                let ghost prev = done@;
                let mut w = String::new();
                std::mem::swap(&mut w, &mut cur);
                done.push(w);
                assert(crate::rs::strings_view(done@) =~= crate::rs::strings_view(prev).push(w@));
            } else {
                cur = String::new();
            }
        } else {
            push_char(&mut cur, c);
        }
        i = i + 1;
    }
    assert(s@.take(n as int) =~= s@);
    if cur.unicode_len() > 0 {
        let ghost prev = done@;
        done.push(cur);
        assert(crate::rs::strings_view(done@) =~= crate::rs::strings_view(prev).push(scan_words(s@).1));
    }
    done
}

/// The digit value of an ASCII digit.
pub open spec fn digit_value(c: char) -> nat {
    ((c as u32) - ('0' as u32)) as nat
}

/// `c` is an ASCII digit.
pub open spec fn is_digit(c: char) -> bool {
    '0' <= c && c <= '9'
}

/// The value of a string of ASCII digits.
pub open spec fn digits_value(s: Seq<char>) -> nat
    decreases s.len(),
{
    if s.len() == 0 {
        0
    } else {
        digits_value(s.drop_last()) * 10 + digit_value(s.last())
    }
}

/// The unsigned number a string denotes as `u64::from_str` and
/// `usize::from_str` read it: an optional `+`, then one or more ASCII
/// digits. `None` when it is not of that form.
pub open spec fn unsigned_value(s: Seq<char>) -> Option<nat> {
    if unsigned_digits(s).len() > 0 && all_digits(unsigned_digits(s)) {
        Some(digits_value(unsigned_digits(s)))
    } else {
        None
    }
}

/// The number `usize::from_str` reads from the text: `None` when it is
/// not a number or exceeds `usize::MAX`.
pub open spec fn usize_value(s: Seq<char>) -> Option<nat> {
    match unsigned_value(s) {
        Some(v) => if v <= usize::MAX {
            Some(v)
        } else {
            None
        },
        None => None,
    }
}

/// Parses a `usize` as `usize::from_str` does.
pub fn parse_usize(s: &str) -> (r: Option<usize>)
    ensures
        match usize_value(s@) {
            Some(v) => r == Some(v as usize),
            None => r is None,
        },
{
    match parse_unsigned(s, usize::MAX as u64) {
        Some(v) => Some(v as usize),
        None => None,
    }
}

/// The text after an optional leading `+`.
pub open spec fn unsigned_digits(s: Seq<char>) -> Seq<char> {
    if s.len() > 0 && s[0] == '+' {
        s.skip(1)
    } else {
        s
    }
}

/// Every character is an ASCII digit.
pub open spec fn all_digits(t: Seq<char>) -> bool {
    forall|i: int| 0 <= i < t.len() ==> is_digit(#[trigger] t[i])
}

/// Parses an unsigned number no larger than `max`: `None` when the text is
/// not a number or the number exceeds `max`.
pub fn parse_unsigned(s: &str, max: u64) -> (r: Option<u64>)
    ensures
        match unsigned_value(s@) {
            Some(v) => if v <= max {
                r == Some(v as u64)
            } else {
                r is None
            },
            None => r is None,
        },
{
    let n = s.unicode_len();
    let mut start: usize = 0;
    if n > 0 && s.get_char(0) == '+' {
        start = 1;
    }
    let ghost t = unsigned_digits(s@);
    assert(t =~= s@.skip(start as int));
    if start >= n {
        return None;
    }
    let mut value: u64 = 0;
    let mut over = false;
    let mut i: usize = start;
    while i < n
        invariant
            n == s@.len(),
            start <= i <= n,
            t =~= s@.skip(start as int),
            t == unsigned_digits(s@),
            forall|j: int| 0 <= j < i - start ==> is_digit(#[trigger] t[j]),
            !over ==> value as nat == digits_value(t.take(i - start)) && value <= max,
            over ==> digits_value(t.take(i - start)) > max,
        decreases n - i,
    {
        let c = s.get_char(i);
        assert(t[i - start] == c);
        if !('0' <= c && c <= '9') {
            proof {
                let k = i - start;
                assert(!is_digit(t[k]));
                assert(0 <= k < t.len());
                assert(!all_digits(t));
            }
            return None;
        }
        let d: u64 = (c as u32 - '0' as u32) as u64;
        assert(t.take(i - start + 1).drop_last() =~= t.take(i - start));
        assert(t.take(i - start + 1).last() == c);
        if !over {
            if d > max {
                over = true;
            } else if value > (max - d) / 10 {
                over = true;
                assert(value * 10 + d > max) by (nonlinear_arith)
                    requires
                        value > (max - d) / 10,
                        d <= max,
                ;
            } else {
                assert(value * 10 + d <= max) by (nonlinear_arith)
                    requires
                        value <= (max - d) / 10,
                        d <= 9,
                ;
                value = value * 10 + d;
            }
        } else {
            assert(digits_value(t.take(i - start + 1)) >= digits_value(t.take(i - start)) * 10) by (nonlinear_arith)
                requires
                    digits_value(t.take(i - start + 1)) == digits_value(t.take(i - start)) * 10 + digit_value(c),
            ;
            assert(digits_value(t.take(i - start)) * 10 >= digits_value(t.take(i - start))) by (nonlinear_arith);
        }
        i = i + 1;
    }
    assert(t.take(n - start) =~= t);
    if over {
        None
    } else {
        Some(value)
    }
}

/// The lower-case form of a string, as `str::to_lowercase` computes it.
pub uninterp spec fn lowercase(s: Seq<char>) -> Seq<char>;

/// The ASCII lower-case form of a character: `A`-`Z` become `a`-`z`, the
/// rest stay.
pub open spec fn ascii_lower(c: char) -> char {
    if 65 <= (c as u32) && (c as u32) <= 90 {
        ((c as u32) + 32) as char
    } else {
        c
    }
}

/// The lower-case form of a string.
///
/// Trusted: `str::to_lowercase`, which std documents as mapping each
/// character to its Unicode lowercase (the `Lowercase` derived property).
/// The contract names the result and states the ASCII case: a string of
/// ASCII characters has `A`-`Z` mapped to `a`-`z` and everything else kept,
/// as the Unicode lowercase mapping does for those characters.
#[verifier::external_body]
pub(crate) fn to_lower(s: &str) -> (r: String)
    ensures
        r@ == lowercase(s@),
        vstd::utf8::is_ascii_chars(s@) ==> r@ == s@.map_values(|c: char| ascii_lower(c)),
{
    s.to_lowercase()
}

} // verus!
