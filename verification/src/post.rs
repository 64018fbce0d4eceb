//! Proof of storage: a storer digests a challenged byte range of a file, and
//! any peer holding the same file checks the digest against its own copy.

use rand::Rng;
use vstd::prelude::*;

use crate::encoding::same_text;
use crate::transaction::ProofOfStorageTx;
use crate::utils::{compute_file_hash, file_hash};

verus! {

/// The number of bytes that a challenge probes.
pub const CHALLENGE_LEN: usize = 100;

/// Whether `start..end` is a non-empty range inside a file of `len` bytes.
pub open spec fn range_in_file(len: nat, start: nat, end: nat) -> bool {
    start < len && end <= len && start < end
}

/// The digest of the bytes of `file` from `start` up to `end`.
pub open spec fn segment_hash(file: Seq<u8>, start: nat, end: nat) -> Seq<char> {
    file_hash(file.subrange(start as int, end as int))
}

/// Whether `hash` proves possession of the bytes `start..end` of `file`.
pub open spec fn proves_storage(file: Seq<u8>, start: nat, end: nat, hash: Seq<char>) -> bool {
    range_in_file(file.len(), start, end) && segment_hash(file, start, end) == hash
}

/// Trusted: draws from `rand`'s thread-local generator with
/// `random_range(0..bound)`. The draw is random, so the contract states only
/// what `rand` documents of every outcome: it lies in the range. An empty
/// range panics, which `requires` rules out; beyond that the call panics
/// only where the system's source of randomness fails, which no argument
/// decides.
#[verifier::external_body]
fn random_below(bound: usize) -> (draw: usize)
    requires
        bound > 0,
    ensures
        draw < bound,
{
    rand::rng().random_range(0..bound)
}

/// The challenge that probes `CHALLENGE_LEN` bytes from `start` on.
pub fn challenge_at(start: usize) -> (res: (usize, usize))
    requires
        start + CHALLENGE_LEN <= usize::MAX,
    ensures
        res == (start, (start + CHALLENGE_LEN) as usize),
{
    (start, start + CHALLENGE_LEN)
}

/// Picks a random window of `CHALLENGE_LEN` bytes in a file of `file_size`
/// bytes. The window starts below `file_size - CHALLENGE_LEN`, so it never
/// reaches the last byte.
///
/// Files of at most `CHALLENGE_LEN` bytes have no such window; see
/// [`challenge_for`].
pub fn generate_new_challenge(file_size: usize) -> (res: (usize, usize))
    requires
        file_size > CHALLENGE_LEN,
    ensures
        res.0 < file_size - CHALLENGE_LEN,
        res.1 == res.0 + CHALLENGE_LEN,
        range_in_file(file_size as nat, res.0 as nat, res.1 as nat),
{
    let start = random_below(file_size - CHALLENGE_LEN);
    challenge_at(start)
}

/// Picks a challenge for a file of any size: a random window where the file
/// is longer than `CHALLENGE_LEN` bytes, the whole file where it is not, and
/// none for an empty file.
pub fn challenge_for(file_size: usize) -> (res: Option<(usize, usize)>)
    ensures
        res is Some <==> file_size > 0,
        0 < file_size <= CHALLENGE_LEN ==> res == Some((0usize, file_size)),
        res matches Some((start, end)) ==> {
            &&& range_in_file(file_size as nat, start as nat, end as nat)
            &&& file_size > CHALLENGE_LEN ==> start < file_size - CHALLENGE_LEN && end == start
                + CHALLENGE_LEN
        },
{
    if file_size == 0 {
        None
    } else if file_size <= CHALLENGE_LEN {
        Some((0, file_size))
    } else {
        Some(generate_new_challenge(file_size))
    }
}

/// Digests the bytes `start..end` of `file`, or returns `None` where that is
/// no non-empty range of the file.
pub fn prove(file: &Vec<u8>, start: usize, end: usize) -> (res: Option<String>)
    ensures
        res is Some <==> range_in_file(file@.len(), start as nat, end as nat),
        res matches Some(hash) ==> hash@ == segment_hash(file@, start as nat, end as nat),
{
    if start >= file.len() || end > file.len() || start >= end {
        return None;
    }
    let segment = &file.as_slice()[start..end];
    Some(compute_file_hash(segment))
}

/// Checks a claimed digest of the bytes `start..end` against `file`. A range
/// that is empty or leaves the file is rejected.
pub fn validate(file: &Vec<u8>, start: usize, end: usize, hash: &str) -> (ok: bool)
    ensures
        ok == proves_storage(file@, start as nat, end as nat, hash@),
{
    match prove(file, start, end) {
        Some(computed_hash) => same_text(computed_hash.as_str(), hash),
        None => false,
    }
}

/// Answers the challenge `start..end` over `file` on behalf of `node_id`, the
/// storer of `request_id`. There is no answer where the range is empty or
/// leaves the file.
pub fn answer_challenge(request_id: String, node_id: String, file: &Vec<u8>, start: usize, end: usize) -> (res:
    Option<ProofOfStorageTx>)
    ensures
        res is Some <==> range_in_file(file@.len(), start as nat, end as nat),
        res matches Some(proof) ==> {
            &&& proof@.request_id == request_id@
            &&& proof@.node_id == node_id@
            &&& proof@.start == start
            &&& proof@.end == end
            &&& proof@.proof_hash == segment_hash(file@, start as nat, end as nat)
        },
{
    match prove(file, start, end) {
        Some(proof_hash) => Some(ProofOfStorageTx { request_id, node_id, start, end, proof_hash }),
        None => None,
    }
}

/// Challenges `file` and answers the challenge on behalf of `node_id`, the
/// storer of `request_id`. An empty file cannot be challenged.
pub fn issue_proof(request_id: String, node_id: String, file: &Vec<u8>) -> (res: Option<ProofOfStorageTx>)
    ensures
        res is Some <==> file@.len() > 0,
        res matches Some(proof) ==> {
            &&& proof@.request_id == request_id@
            &&& proof@.node_id == node_id@
            &&& proves_storage(file@, proof@.start, proof@.end, proof@.proof_hash)
            &&& file@.len() <= CHALLENGE_LEN ==> proof@.start == 0 && proof@.end == file@.len()
            &&& file@.len() > CHALLENGE_LEN ==> proof@.start < file@.len() - CHALLENGE_LEN && proof@.end
                == proof@.start + CHALLENGE_LEN
        },
{
    match challenge_for(file.len()) {
        Some((start, end)) => answer_challenge(request_id, node_id, file, start, end),
        None => None,
    }
}

/// Checks a peer's proof against the local copy `file` of the same request.
pub fn check_proof(proof: &ProofOfStorageTx, file: &Vec<u8>) -> (ok: bool)
    ensures
        ok == proves_storage(file@, proof@.start, proof@.end, proof@.proof_hash),
{
    validate(file, proof.start, proof.end, proof.proof_hash.as_str())
}

/// The digest that a storer computes over a range is accepted by every peer
/// that holds the same bytes.
pub proof fn lemma_true_digest_validates(file: Seq<u8>, start: nat, end: nat)
    requires
        range_in_file(file.len(), start, end),
    ensures
        proves_storage(file, start, end, segment_hash(file, start, end)),
{
}

/// No digest but the true one is accepted for a range.
pub proof fn lemma_validated_digest_is_true(file: Seq<u8>, start: nat, end: nat, hash: Seq<char>)
    requires
        proves_storage(file, start, end, hash),
    ensures
        hash == segment_hash(file, start, end),
        start < end <= file.len(),
{
}

} // verus!
