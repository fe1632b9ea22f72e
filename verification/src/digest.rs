//! SHA-256 digests and their lower-case hexadecimal form.

use vstd::prelude::*;
use crate::text::push_char;

verus! {

/// The SHA-256 digest of a byte sequence, as the `sha2` crate computes it.
pub uninterp spec fn spec_sha256(data: Seq<u8>) -> Seq<u8>;

/// SHA-256 of `data`.
///
/// Trusted: `sha2::Sha256::digest`. The contract names the digest
/// `spec_sha256(data)` and states that it is 32 bytes long, as the
/// `Sha256` output size is.
#[verifier::external_body]
pub(crate) fn sha256(data: &[u8]) -> (r: Vec<u8>)
    ensures
        r@ == spec_sha256(data@),
        r@.len() == 32,
{
    <sha2::Sha256 as sha2::Digest>::digest(data).to_vec()
}

/// The lower-case hexadecimal digit for a nibble.
pub open spec fn hex_digit(n: int) -> char {
    if n < 10 {
        crate::text::digit_char(n)
    } else if n == 10 { 'a' }
    else if n == 11 { 'b' }
    else if n == 12 { 'c' }
    else if n == 13 { 'd' }
    else if n == 14 { 'e' }
    else { 'f' }
}

/// Lower-case hexadecimal encoding: two digits per byte, high nibble first.
pub open spec fn hex_lower(bytes: Seq<u8>) -> Seq<char> {
    Seq::new(
        2 * bytes.len(),
        |i: int|
            if i % 2 == 0 {
                hex_digit((bytes[i / 2] / 16) as int)
            } else {
                hex_digit((bytes[i / 2] % 16) as int)
            },
    )
}

/// The hexadecimal digest text of `data`, as `format!("{:x}", ...)` prints
/// a SHA-256 digest.
pub open spec fn sha256_hex_spec(data: Seq<u8>) -> Seq<char> {
    hex_lower(spec_sha256(data))
}

fn nibble_char(n: u8) -> (c: char)
    requires
        n < 16,
    ensures
        c == hex_digit(n as int),
{
    if n == 0 { '0' }
    else if n == 1 { '1' }
    else if n == 2 { '2' }
    else if n == 3 { '3' }
    else if n == 4 { '4' }
    else if n == 5 { '5' }
    else if n == 6 { '6' }
    else if n == 7 { '7' }
    else if n == 8 { '8' }
    else if n == 9 { '9' }
    else if n == 10 { 'a' }
    else if n == 11 { 'b' }
    else if n == 12 { 'c' }
    else if n == 13 { 'd' }
    else if n == 14 { 'e' }
    else { 'f' }
}

/// Encodes bytes as lower-case hexadecimal text.
pub fn encode(bytes: &[u8]) -> (s: String)
    ensures
        s@ == hex_lower(bytes@),
{
    let mut s = String::new();
    let mut i: usize = 0;
    while i < bytes.len()
        invariant
            i <= bytes@.len(),
            s@ =~= hex_lower(bytes@.take(i as int)),
        decreases bytes@.len() - i,
    {
        let b = bytes[i];
        let ghost prev = s@;
        push_char(&mut s, nibble_char(b / 16));
        push_char(&mut s, nibble_char(b % 16));
        proof {
            let t = bytes@.take(i + 1);
            assert(hex_lower(t).len() == 2 * (i + 1));
            assert forall|k: int| 0 <= k < 2 * (i + 1) implies #[trigger] hex_lower(t)[k] == s@[k] by {
                if k < 2 * i {
                    assert(hex_lower(bytes@.take(i as int))[k] == prev[k]);
                    assert(t[k / 2] == bytes@.take(i as int)[k / 2]);
                }
            }
        }
        i = i + 1;
    }
    proof {
        assert(bytes@.take(bytes@.len() as int) =~= bytes@);
    }
    s
}

/// The lower-case hexadecimal SHA-256 digest of `data`.
pub fn sha256_hex(data: &[u8]) -> (s: String)
    ensures
        s@ == sha256_hex_spec(data@),
        s@.len() == 64,
{
    let d = sha256(data);
    encode(d.as_slice())
}

} // verus!
