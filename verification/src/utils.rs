//! Content hashing and the seeded generator.

use rand::{Rng, SeedableRng};
use rand_chacha::ChaChaRng;
use sha2::{Digest, Sha256};
use vstd::prelude::*;

use crate::encoding::{hex_string, to_hex};

verus! {

/// The SHA-256 digest of `data`: thirty-two bytes.
pub uninterp spec fn sha256(data: Seq<u8>) -> Seq<u8>;

/// Trusted: calls `Sha256::digest` of the `sha2` crate, which hashes the
/// whole input in one pass. The contract names the digest; its length of
/// thirty-two bytes is carried by the array type.
#[verifier::external_body]
pub(crate) fn sha256_digest(data: &[u8]) -> (out: [u8; 32])
    ensures
        out@ == sha256(data@),
{
    Sha256::digest(data).into()
}

/// The content digest of a file as it is written on the ledger.
pub open spec fn file_hash(data: Seq<u8>) -> Seq<char> {
    hex_string(sha256(data))
}

/// Computes the content digest of `file_data` in lower-case hexadecimal.
pub fn compute_file_hash(file_data: &[u8]) -> (hash: String)
    ensures
        hash@ == file_hash(file_data@),
        hash@.len() == 64,
{
    let digest = sha256_digest(file_data);
    to_hex(digest.as_slice())
}

/// The first 64-bit output of a ChaCha20 generator seeded from the number
/// `seed`.
pub uninterp spec fn chacha_first_u64(seed: u64) -> u64;

/// Trusted: seeds `rand_chacha`'s `ChaChaRng` with `seed_from_u64` and takes
/// one `random::<u64>()` from it. Both steps are deterministic, so the
/// contract names the output.
#[verifier::external_body]
fn seeded_first_u64(seed: u64) -> (out: u64)
    ensures
        out == chacha_first_u64(seed),
{
    ChaChaRng::seed_from_u64(seed).random::<u64>()
}

/// A number that `seed` and `param` determine: the first output of the
/// generator seeded with their exclusive or.
pub fn get_deterministic_random(seed: u64, param: u64) -> (out: u64)
    ensures
        out == chacha_first_u64(seed ^ param),
{
    seeded_first_u64(seed ^ param)
}

} // verus!
