//! Hash throughput: SHA-256 of one buffer, over and over, each time with a
//! fresh hasher.

use vstd::prelude::*;
use sha2::{Digest, Sha256};
use crate::buffer::{pattern, pattern_buffer, BUFFER_LEN};

verus! {

/// Number of digests that the workload computes.
pub const HASH_ROUNDS: u32 = 500;

/// A SHA-256 hasher of the `sha2` crate. What is inside it is the crate's
/// own matter: the library knows a hasher by the bytes it has been fed.
#[verifier::external_body]
pub struct Hasher {
    inner: Sha256,
}

/// The bytes that a hasher has been fed, in the order of feeding.
pub uninterp spec fn hasher_input(hasher: Hasher) -> Seq<u8>;

/// The SHA-256 digest of `message`.
pub uninterp spec fn sha256(message: Seq<u8>) -> Seq<u8>;

/// `Digest::new` on `Sha256`: a hasher that has been fed nothing.
#[verifier::external_body]
fn hasher_new() -> (hasher: Hasher)
    ensures
        hasher_input(hasher) == Seq::<u8>::empty(),
{
    Hasher { inner: Sha256::new() }
}

/// `Digest::update` on `Sha256`: the hasher is fed `data`.
#[verifier::external_body]
fn hasher_update(hasher: &mut Hasher, data: &[u8])
    ensures
        hasher_input(*final(hasher)) == hasher_input(*old(hasher)) + data@,
{
    hasher.inner.update(data);
}

/// `Digest::finalize` on `Sha256`: the digest of what the hasher was fed.
#[verifier::external_body]
fn hasher_finalize(hasher: Hasher) -> (digest: [u8; 32])
    ensures
        digest@ == sha256(hasher_input(hasher)),
{
    hasher.inner.finalize().into()
}

/// The SHA-256 digest of `data`, from a fresh hasher.
pub fn sha256_digest(data: &[u8]) -> (digest: [u8; 32])
    ensures
        digest@ == sha256(data@),
{
    let mut hasher = hasher_new();
    hasher_update(&mut hasher, data);
    assert(Seq::<u8>::empty() + data@ =~= data@);
    hasher_finalize(hasher)
}

/// Hashes `data` `rounds` times and returns the last digest; with no round,
/// nothing.
pub fn hash_rounds(data: &[u8], rounds: u32) -> (last: Option<[u8; 32]>)
    ensures
        rounds == 0 <==> last is None,
        last matches Some(digest) ==> digest@ == sha256(data@),
{
    let mut last: Option<[u8; 32]> = None;
    for round in 0..rounds
        invariant
            round == 0 <==> last is None,
            last matches Some(digest) ==> digest@ == sha256(data@),
    {
        last = Some(sha256_digest(data));
    }
    last
}

/// The hash workload: hashes the pattern buffer of 10000 bytes 500 times
/// and returns the last digest.
pub fn rust_sha256() -> (digest: [u8; 32])
    ensures
        digest@ == sha256(pattern(10000)),
{
    let data: Vec<u8> = pattern_buffer(BUFFER_LEN);
    hash_rounds(data.as_slice(), HASH_ROUNDS).unwrap()
}

} // verus!
