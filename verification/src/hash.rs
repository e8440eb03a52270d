//! Content digests of inspected files.

use vstd::prelude::*;
use crate::fmt::{hex_bytes, push_hex_bytes};

verus! {

/// The SHA-256 digest of a byte string (FIPS 180-4), as the `sha2` crate computes it.
pub uninterp spec fn sha256_digest(bytes: Seq<u8>) -> Seq<u8>;

/// Computes the SHA-256 digest of `bytes` with `sha2::Sha256::digest`.
///
/// Trusted: the result is the crate's digest of exactly these bytes, and a
/// SHA-256 digest is 32 bytes long; nothing else about the function is stated.
#[verifier::external_body]
fn sha256(bytes: &[u8]) -> (digest: Vec<u8>)
    ensures
        digest@ == sha256_digest(bytes@),
        digest@.len() == 32,
{
    <sha2::Sha256 as sha2::Digest>::digest(bytes).to_vec()
}

/// Renders a digest as lower-case hexadecimal, two digits per byte.
pub fn hex_digest(digest: &[u8]) -> (s: String)
    ensures
        s@ == hex_bytes(digest@),
{
    let mut s = String::new();
    push_hex_bytes(&mut s, digest);
    assert(s@ =~= hex_bytes(digest@));
    s
}

/// The lower-case hexadecimal SHA-256 digest of `bytes`.
pub fn sha256_hex(bytes: &[u8]) -> (s: String)
    ensures
        s@ == hex_bytes(sha256_digest(bytes@)),
        s@.len() == 64,
{
    let digest = sha256(bytes);
    proof {
        crate::fmt::lemma_hex_bytes_len(digest@);
    }
    hex_digest(digest.as_slice())
}

} // verus!

verus! {

/// The number of occurrences of the byte `b` in `data`.
pub open spec fn occurrences(data: Seq<u8>, b: u8) -> nat
    decreases data.len(),
{
    if data.len() == 0 {
        0
    } else {
        occurrences(data.drop_last(), b) + if data.last() == b { 1nat } else { 0 }
    }
}

proof fn lemma_occurrences_bound(data: Seq<u8>, b: u8)
    ensures
        occurrences(data, b) <= data.len(),
    decreases data.len(),
{
    if data.len() > 0 {
        lemma_occurrences_bound(data.drop_last(), b);
    }
}

/// The byte histogram of `data`: entry `b` counts the occurrences of byte `b`.
/// The entropy of section contents is computed from it.
pub fn byte_histogram(data: &[u8]) -> (counts: Vec<u64>)
    ensures
        counts@.len() == 256,
        forall|b: u8| #[trigger] counts@[b as int] == occurrences(data@, b),
{
    let mut counts: Vec<u64> = Vec::new();
    let mut k: usize = 0;
    while k < 256
        invariant
            k <= 256,
            counts@.len() == k,
            forall|j: int| 0 <= j < k ==> counts@[j] == 0,
        decreases 256 - k,
    {
        counts.push(0);
        k = k + 1;
    }
    let mut i: usize = 0;
    while i < data.len()
        invariant
            i <= data@.len(),
            counts@.len() == 256,
            forall|b: u8| #[trigger] counts@[b as int] == occurrences(data@.take(i as int), b),
        decreases data@.len() - i,
    {
        let byte = data[i];
        assert(data@.take(i + 1).drop_last() =~= data@.take(i as int));
        proof {
            lemma_occurrences_bound(data@.take(i as int), byte);
        }
        let current = counts[byte as usize];
        counts.set(byte as usize, current + 1);
        assert forall|b: u8| #[trigger] counts@[b as int] == occurrences(data@.take(i + 1), b) by {
            assert(data@.take(i + 1).last() == byte);
        }
        i = i + 1;
    }
    assert(data@.take(data@.len() as int) =~= data@);
    counts
}

} // verus!
