//! Digests and their textual encodings.

use data_encoding::BASE32_NOPAD;
use sha2::{Digest, Sha256};
use vstd::prelude::*;

verus! {

/// The SHA-256 digest of a byte string.
pub uninterp spec fn sha256_digest(data: Seq<u8>) -> Seq<u8>;

/// The unpadded base32 encoding (alphabet `A`-`Z`, `2`-`7`) of a byte string.
pub uninterp spec fn base32_text(data: Seq<u8>) -> Seq<char>;

/// The lower-case hexadecimal digit for a value below sixteen.
pub open spec fn hex_digit(n: int) -> char {
    if n < 10 {
        (48 + n) as u8 as char
    } else {
        (87 + n) as u8 as char
    }
}

/// Two lower-case hexadecimal digits for each byte, high digit first.
pub open spec fn hex_text(data: Seq<u8>) -> Seq<char> {
    Seq::new(
        2 * data.len(),
        |i: int|
            if i % 2 == 0 {
                hex_digit(data[i / 2] as int / 16)
            } else {
                hex_digit(data[i / 2] as int % 16)
            },
    )
}

/// Calls `Sha256::digest`. The contract names the digest and claims that it is
/// 32 bytes long.
#[verifier::external_body]
pub(crate) fn sha256(data: &Vec<u8>) -> (d: Vec<u8>)
    ensures
        d@ == sha256_digest(data@),
        d@.len() == 32,
{
    Sha256::digest(data.as_slice()).to_vec()
}

/// Calls `hex::encode`, which writes each byte as two lower-case hexadecimal
/// digits.
#[verifier::external_body]
pub(crate) fn hex_encode(data: &Vec<u8>) -> (s: String)
    ensures
        s@ == hex_text(data@),
{
    hex::encode(data.as_slice())
}

/// Calls `BASE32_NOPAD.encode`, which refuses inputs longer than
/// `usize::MAX / 512`. The contract names the text and claims its length: one
/// character for every five bits, the last group filled up.
#[verifier::external_body]
pub(crate) fn base32_encode(data: &Vec<u8>) -> (s: String)
    requires
        data@.len() <= usize::MAX / 512,
    ensures
        s@ == base32_text(data@),
        s@.len() == (8 * data@.len() + 4) / 5,
{
    BASE32_NOPAD.encode(data.as_slice())
}

/// Appends a copy of `tail` to `out`.
pub fn extend_bytes(out: &mut Vec<u8>, tail: &[u8])
    ensures
        final(out)@ == old(out)@ + tail@,
{
    let mut i: usize = 0;
    while i < tail.len()
        invariant
            i <= tail@.len(),
            out@ == old(out)@ + tail@.subrange(0, i as int),
        decreases tail@.len() - i,
    {
        out.push(tail[i]);
        assert(tail@.subrange(0, i as int).push(tail@[i as int]) =~= tail@.subrange(0, i + 1));
        assert(out@ =~= old(out)@ + tail@.subrange(0, i + 1));
        i += 1;
    }
    assert(tail@.subrange(0, tail@.len() as int) =~= tail@);
}

/// The first `n` bytes of `data`.
pub fn first_bytes(data: &Vec<u8>, n: usize) -> (r: Vec<u8>)
    requires
        n <= data@.len(),
    ensures
        r@ == data@.take(n as int),
{
    let mut r: Vec<u8> = Vec::new();
    let mut i: usize = 0;
    while i < n
        invariant
            i <= n <= data@.len(),
            r@ == data@.take(i as int),
        decreases n - i,
    {
        r.push(data[i]);
        assert(data@.take(i as int).push(data@[i as int]) =~= data@.take(i + 1));
        i += 1;
    }
    r
}

} // verus!
