//! Integrity simulation: a keyed digest over each received filler buffer.
//!
//! This authenticates nothing. It exists to cost the server about as much
//! processor time per chunk as a real message authentication code would,
//! and reports the rare digest whose first byte is a fixed value.

use blake2::{Blake2b512, Digest};
use vstd::prelude::*;

verus! {

/// Length in bytes of the digest.
pub const DIGEST_LEN: usize = 64;

/// First byte of a digest that is reported.
pub const MAGIC: u8 = 0x12;

/// The fixed key that is hashed in front of every buffer: the ASCII bytes
/// of `this is my key`.
pub open spec fn spec_key() -> Seq<u8> {
    seq![
        0x74u8, 0x68u8, 0x69u8, 0x73u8, 0x20u8, 0x69u8, 0x73u8, 0x20u8, 0x6du8, 0x79u8, 0x20u8,
        0x6bu8, 0x65u8, 0x79u8,
    ]
}

/// The fixed key as bytes.
pub fn key() -> (k: Vec<u8>)
    ensures
        k@ == spec_key(),
{
    let k: Vec<u8> = vec![
        0x74u8, 0x68u8, 0x69u8, 0x73u8, 0x20u8, 0x69u8, 0x73u8, 0x20u8, 0x6du8, 0x79u8, 0x20u8,
        0x6bu8, 0x65u8, 0x79u8,
    ];
    assert(k@ =~= spec_key());
    k
}

/// The BLAKE2b digest of 64 bytes of a message, as the `blake2` crate
/// computes it.
pub uninterp spec fn blake2b512(message: Seq<u8>) -> Seq<u8>;

/// `blake2::Blake2b512` fed `prefix` and then `data`, and finalized. The
/// hasher absorbs its input as one stream, so the result is the digest of
/// the two slices joined; the digest of this variant is 64 bytes long.
#[verifier::external_body]
fn blake2b512_of(prefix: &[u8], data: &[u8]) -> (d: Vec<u8>)
    ensures
        d@ == blake2b512(prefix@ + data@),
        d@.len() == DIGEST_LEN,
{
    let mut hasher = Blake2b512::new();
    hasher.update(prefix);
    hasher.update(data);
    hasher.finalize().to_vec()
}

/// What a digest makes the server report: its first byte where that byte is
/// the magic value, nothing otherwise.
pub open spec fn spec_flagged(digest: Seq<u8>) -> Option<u8> {
    if digest.len() > 0 && digest[0] == MAGIC {
        Some(digest[0])
    } else {
        None
    }
}

/// Inspects the first byte of a digest, and only that byte.
pub fn flagged(digest: &[u8]) -> (r: Option<u8>)
    ensures
        r == spec_flagged(digest@),
        r.is_some() <==> digest@.len() > 0 && digest@[0] == MAGIC,
        r.is_some() ==> r == Some(MAGIC),
{
    if digest.len() > 0 && digest[0] == MAGIC {
        Some(digest[0])
    } else {
        None
    }
}

/// What hashing a received buffer makes the server report.
pub open spec fn spec_probe(buffer: Seq<u8>) -> Option<u8> {
    spec_flagged(blake2b512(spec_key() + buffer))
}

/// Hashes the key followed by `buffer` and inspects the digest. The digest
/// is computed for every buffer, whatever it holds.
pub fn probe(buffer: &[u8]) -> (r: Option<u8>)
    ensures
        r == spec_probe(buffer@),
{
    let k: Vec<u8> = key();
    let digest: Vec<u8> = blake2b512_of(k.as_slice(), buffer);
    flagged(digest.as_slice())
}

} // verus!
